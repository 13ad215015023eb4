//! The scoreboard: are the two backends staying converged or diverging?
//!
//! Counts over rolling windows, a bar chart of severities, the paths that
//! diverge most and the last critical difference, as a page and as a JSON
//! document. The rates are quotients of the counts; the caller divides and
//! hands the quotients in.
use crate::calendar;
#[allow(unused_imports)]
use crate::dashboard;
use crate::db;
use crate::db::Store;
use crate::html;
use crate::html::Reply;
use crate::json;
use crate::json::Json;
#[allow(unused_imports)]
use crate::laws;
use crate::text;
use vstd::prelude::*;

verus! {

broadcast use vstd::string::group_string_axioms;

// ---------------------------------------------------------------------------
// Windows

/// One hour in nanoseconds.
pub const HOUR_NS: i64 = 3_600_000_000_000;

/// One day in nanoseconds.
pub const DAY_NS: i64 = 86_400_000_000_000;

/// Seven days in nanoseconds.
pub const WEEK_NS: i64 = 604_800_000_000_000;

/// The counts of one window.
#[derive(Clone, Debug)]
pub struct WindowStats {
    pub label: &'static str,
    pub diffs: i64,
    pub requests: i64,
}

pub struct WindowView {
    pub label: Seq<char>,
    pub diffs: int,
    pub requests: int,
}

impl View for WindowStats {
    type V = WindowView;

    open spec fn view(&self) -> WindowView {
        WindowView {
            label: self.label@,
            diffs: self.diffs as int,
            requests: self.requests as int,
        }
    }
}

/// All that the scoreboard shows, but for the rates.
#[derive(Clone, Debug)]
pub struct ScoreboardData {
    pub now_ns: i64,
    pub diffs_total: i64,
    pub requests_total_approx: i64,
    pub windows: Vec<WindowStats>,
    /// The differences of the last day by severity, the gravest first.
    pub severity_24h: [(String, i64); 5],
    /// The paths that diverged most in the last day: path, differences,
    /// requests.
    pub top_paths_24h: Vec<(String, i64, i64)>,
    /// The last critical difference: id and time.
    pub last_critical: Option<(i64, i64)>,
    pub shadow_degraded: bool,
}

#[verifier::ext_equal]
pub struct BoardView {
    pub now_ns: int,
    pub diffs_total: int,
    pub requests_total_approx: int,
    pub windows: Seq<WindowView>,
    pub severity_24h: Seq<(Seq<char>, int)>,
    pub top_paths_24h: Seq<(Seq<char>, int, int)>,
    pub last_critical: Option<(int, int)>,
    pub shadow_degraded: bool,
}

pub open spec fn windows_view(windows: Seq<WindowStats>) -> Seq<WindowView> {
    windows.map_values(|w: WindowStats| w@)
}

pub open spec fn wide_pair(o: Option<(i64, i64)>) -> Option<(int, int)> {
    match o {
        Some(p) => Some((p.0 as int, p.1 as int)),
        None => None,
    }
}

impl View for ScoreboardData {
    type V = BoardView;

    open spec fn view(&self) -> BoardView {
        BoardView {
            now_ns: self.now_ns as int,
            diffs_total: self.diffs_total as int,
            requests_total_approx: self.requests_total_approx as int,
            windows: windows_view(self.windows@),
            severity_24h: db::counts_view(self.severity_24h@),
            top_paths_24h: db::paths_view(self.top_paths_24h@),
            last_critical: wide_pair(self.last_critical),
            shadow_degraded: self.shadow_degraded,
        }
    }
}

/// The counts of one window that reaches from a moment to now.
pub open spec fn window(s: db::StoreView, label: Seq<char>, since: int) -> WindowView {
    WindowView {
        label,
        diffs: db::count_diffs(s.diffs, since, None, None) as int,
        requests: db::count_requests(s, since, None) as int,
    }
}

/// What the scoreboard shows of a store at a moment.
pub open spec fn board(s: db::StoreView, now: int) -> BoardView {
    BoardView {
        now_ns: now,
        diffs_total: s.diffs.len() as int,
        requests_total_approx: db::count_requests(s, 0, None) as int,
        windows: seq![
            window(s, "1h"@, now - HOUR_NS),
            window(s, "24h"@, now - DAY_NS),
            window(s, "7d"@, now - WEEK_NS),
        ],
        severity_24h: db::breakdown(s.diffs, now - DAY_NS),
        top_paths_24h: db::first_rows(
            db::leaderboard(s, now - DAY_NS, db::diverging_paths(s.diffs, now - DAY_NS)),
            10,
        ),
        last_critical: db::last_critical(s.diffs),
        shadow_degraded: db::degraded(s, "shadow"@),
    }
}

fn count_window(store: &Store, label: &'static str, since: i64) -> (w: WindowStats)
    requires
        store@.wf(),
        store@.countable(),
    ensures
        w@ == window(store@, label@, since as int),
{
    WindowStats {
        label,
        diffs: db::diffs_in_window(store, since, None),
        requests: db::requests_in_window(store, since),
    }
}

/// Gathers what the scoreboard shows at a moment.
pub fn collect(store: &Store, now_ns: i64) -> (d: ScoreboardData)
    requires
        store@.wf(),
        store@.countable(),
        now_ns - WEEK_NS >= i64::MIN,
    ensures
        d@ == board(store@, now_ns as int),
{
    let mut windows: Vec<WindowStats> = Vec::new();
    windows.push(count_window(store, "1h", now_ns - HOUR_NS));
    windows.push(count_window(store, "24h", now_ns - DAY_NS));
    windows.push(count_window(store, "7d", now_ns - WEEK_NS));
    let d = ScoreboardData {
        now_ns,
        diffs_total: db::diffs_total(store),
        requests_total_approx: db::requests_in_window(store, 0),
        windows,
        severity_24h: db::severity_breakdown(store, now_ns - DAY_NS),
        top_paths_24h: db::top_diverging_paths(store, now_ns - DAY_NS, 10),
        last_critical: db::last_critical_diff(store),
        shadow_degraded: db::shadow_degraded_now(store),
    };
    assert(d@.windows =~= board(store@, now_ns as int).windows);
    d
}

/// The quotient that a rate is: none where there were no requests, and the
/// rate is then zero.
pub open spec fn quotient(diffs: int, requests: int) -> Option<(int, int)> {
    if requests > 0 {
        Some((diffs, requests))
    } else {
        None
    }
}

/// The quotient that a rate is, for the caller to divide.
pub fn rate_quotient(diffs: i64, requests: i64) -> (r: Option<(i64, i64)>)
    ensures
        wide_pair(r) == quotient(diffs as int, requests as int),
{
    if requests > 0 {
        Some((diffs, requests))
    } else {
        None
    }
}

/// The windows nest: a longer one counts at least as much as a shorter one.
/// None counts more differences than requests.
pub proof fn windows_nest(s: db::StoreView, now: int)
    ensures
        ({
            let w = board(s, now).windows;
            &&& w[0].diffs <= w[1].diffs <= w[2].diffs <= board(s, now).diffs_total
            &&& w[0].requests <= w[1].requests <= w[2].requests
            &&& w[0].diffs <= w[0].requests
            &&& w[1].diffs <= w[1].requests
            &&& w[2].diffs <= w[2].requests
        }),
{
    laws::longer_windows_count_more_differences(s.diffs, now - DAY_NS, now - HOUR_NS, None, None);
    laws::longer_windows_count_more_differences(s.diffs, now - WEEK_NS, now - DAY_NS, None, None);
    laws::longer_windows_count_more_requests(s, now - DAY_NS, now - HOUR_NS, None);
    laws::longer_windows_count_more_requests(s, now - WEEK_NS, now - DAY_NS, None);
}

// ---------------------------------------------------------------------------
// Numbers

/// A natural number in decimal with a comma before every group of three
/// digits.
pub open spec fn grouped(n: nat) -> Seq<char>
    decreases n,
{
    if n < 1000 {
        text::decimal(n)
    } else {
        grouped(n / 1000) + ","@ + text::padded(n % 1000, 3)
    }
}

/// An integer in decimal with a comma before every group of three digits.
pub open spec fn signed_grouped(i: int) -> Seq<char> {
    if i < 0 {
        "-"@ + grouped((-i) as nat)
    } else {
        grouped(i as nat)
    }
}

proof fn three_digits(n: nat)
    requires
        n < 1000,
    ensures
        text::padded(n, 3) == seq![
            text::digit(n / 100),
            text::digit(n / 10 % 10),
            text::digit(n % 10),
        ],
{
    reveal_with_fuel(text::decimal, 3);
    assert(n / 100 == n / 10 / 10);
    assert(text::padded(n, 3) == seq![
        text::digit(n / 100),
        text::digit(n / 10 % 10),
        text::digit(n % 10),
    ]);
}

fn group_digits(n: u64) -> (s: String)
    ensures
        s@ == grouped(n as nat),
    decreases n,
{
    if n < 1000 {
        let mut s = String::new();
        text::push_u64(&mut s, n);
        assert(s@ == grouped(n as nat));
        s
    } else {
        let mut s = group_digits(n / 1000);
        s.append(",");
        let ghost head = s@;
        let last: u64 = n % 1000;
        let mut tail = String::new();
        text::push_u64(&mut tail, last / 100);
        text::push_two_digits(&mut tail, last % 100);
        proof {
            three_digits(last as nat);
            text::two_digits((last % 100) as nat);
            assert(last % 100 / 10 == last / 10 % 10);
            assert(last % 100 % 10 == last % 10);
            assert(tail@ == text::padded(last as nat, 3));
        }
        s.append(tail.as_str());
        s
    }
}

/// `n` in decimal with a comma before every group of three digits.
pub fn format_int(n: i64) -> (s: String)
    ensures
        s@ == signed_grouped(n as int),
{
    if n < 0 {
        let magnitude: u64 = (-(n + 1)) as u64 + 1;
        let mut s = "-".to_owned();
        s.append(group_digits(magnitude).as_str());
        s
    } else {
        group_digits(n as u64)
    }
}

/// A text without its commas.
pub open spec fn without_commas(s: Seq<char>) -> Seq<char> {
    s.filter(|c: char| c != ',')
}

/// Grouping only adds commas: without them the number is as it was.
pub proof fn grouping_only_adds_commas(n: nat)
    ensures
        without_commas(grouped(n)) == text::decimal(n),
    decreases n,
{
    if n < 1000 {
        text::decimal_is_digits(n);
        no_comma_is_kept(text::decimal(n));
    } else {
        let head = grouped(n / 1000);
        let tail = text::padded(n % 1000, 3);
        grouping_only_adds_commas(n / 1000);
        reveal_strlit(",");
        Seq::filter_distributes_over_add(head + ","@, tail, |c: char| c != ',');
        Seq::filter_distributes_over_add(head, ","@, |c: char| c != ',');
        assert(without_commas(","@) == Seq::<char>::empty()) by {
            reveal_with_fuel(Seq::filter, 2);
            assert(","@.drop_last() == Seq::<char>::empty());
            assert(","@.last() == ',');
        }
        three_digits(n % 1000);
        no_comma_is_kept(tail);
        decimal_splits(n);
    }
}

proof fn no_comma_is_kept(s: Seq<char>)
    requires
        forall|i: int| 0 <= i < s.len() ==> #[trigger] s[i] != ',',
    ensures
        without_commas(s) == s,
    decreases s.len(),
{
    reveal(Seq::filter);
    if s.len() > 0 {
        no_comma_is_kept(s.drop_last());
        assert(s[s.len() - 1] != ',');
    }
}

/// The last three digits of a number can be split off.
proof fn decimal_splits(n: nat)
    requires
        n >= 1000,
    ensures
        text::decimal(n) == text::decimal(n / 1000) + text::padded(n % 1000, 3),
{
    let tens = n / 10;
    let hundreds = n / 100;
    let thousands = n / 1000;
    let last = n % 1000;
    assert(tens / 10 == hundreds && hundreds / 10 == thousands);
    assert(last / 100 == hundreds % 10);
    assert(last / 10 % 10 == tens % 10);
    assert(last % 10 == n % 10);
    three_digits(last);
    assert(text::decimal(n) == text::decimal(tens).push(text::digit(n % 10)));
    assert(text::decimal(tens) == text::decimal(hundreds).push(text::digit(tens % 10)));
    assert(text::decimal(hundreds) == text::decimal(thousands).push(text::digit(hundreds % 10)));
    assert(text::decimal(n) == text::decimal(thousands) + text::padded(last, 3));
}

// ---------------------------------------------------------------------------
// The look of the page

pub const STYLE: &'static str = r#"
:root { color-scheme: light dark; }
body { font: 14px/1.4 -apple-system, BlinkMacSystemFont, "Segoe UI", system-ui, sans-serif;
       margin: 0; padding: 1rem; background: #fafafa; color: #111; }
h1 { font-size: 1.2rem; margin: 0 0 .5rem 0; }
h2 { font-size: 1rem; margin: 1rem 0 .5rem 0; }
header { display: flex; align-items: baseline; gap: 1rem; flex-wrap: wrap;
         border-bottom: 1px solid #ddd; padding-bottom: .5rem; margin-bottom: .75rem; }
header nav a { color: #06c; text-decoration: none; margin-right: .5rem; }
.cards { display: grid; grid-template-columns: repeat(auto-fit, minmax(160px, 1fr));
         gap: .75rem; margin: .5rem 0 1rem 0; }
.card { background: #fff; border: 1px solid #ddd; border-radius: 4px;
        padding: .75rem; box-shadow: 0 1px 2px rgba(0,0,0,0.04); }
.card .lbl { font-size: 11px; color: #777; text-transform: uppercase;
             letter-spacing: .05em; }
.card .val { font: 600 1.4rem/1.1 ui-monospace, SFMono-Regular, Menlo, monospace;
             font-variant-numeric: tabular-nums; margin-top: .25em; }
.card .sub { font-size: 11px; color: #777; margin-top: .25em; }
.card.degraded { opacity: 0.5; }
.banner { background: #fff7e0; border: 1px solid #d4a017; padding: .5rem .75rem;
          border-radius: 4px; margin: .5rem 0; color: #6b4f00; }
.svg-wrap { background: #fff; border: 1px solid #ddd; padding: .75rem;
            border-radius: 4px; box-shadow: 0 1px 2px rgba(0,0,0,0.04); }
table { width: 100%; border-collapse: collapse; background: #fff;
        box-shadow: 0 1px 2px rgba(0,0,0,0.04); border: 1px solid #ddd; }
th, td { text-align: left; padding: 6px 8px; border-bottom: 1px solid #eee;
         font-variant-numeric: tabular-nums; }
th { background: #f3f3f3; font-weight: 600; font-size: 12px;
     text-transform: uppercase; letter-spacing: .04em; color: #555; }
.sev { display: inline-block; padding: 1px 6px; border-radius: 3px; font-size: 11px;
       font-weight: 600; text-transform: uppercase; }
.sev-critical { background: #b00020; color: #fff; }
.sev-high     { background: #d35400; color: #fff; }
.sev-medium   { background: #b58900; color: #fff; }
.sev-low      { background: #888;    color: #fff; }
.sev-noise    { background: #ddd;    color: #333; }
code { font-family: ui-monospace, SFMono-Regular, Menlo, monospace; font-size: 12px; }
footer { margin-top: 1rem; font-size: 12px; color: #777; }
.empty { padding: 2rem; text-align: center; color: #777; }
@media (prefers-color-scheme: dark) {
  body { background: #181818; color: #ddd; }
  header { border-color: #333; }
  .card, .svg-wrap, table { background: #222; box-shadow: none; border-color: #333; }
  .card .lbl, .card .sub, footer { color: #888; }
  th { background: #2a2a2a; color: #aaa; }
  th, td { border-color: #333; }
  header nav a { color: #6cf; }
  .banner { background: #3a2c00; color: #ffd770; border-color: #d4a017; }
}
"#;

// ---------------------------------------------------------------------------
// The bar chart

/// The colour for a severity, as the listing shows it.
pub open spec fn colour(severity: Seq<char>) -> Seq<char> {
    if severity == "critical"@ {
        "#b00020"@
    } else if severity == "high"@ {
        "#d35400"@
    } else if severity == "medium"@ {
        "#b58900"@
    } else if severity == "low"@ {
        "#888888"@
    } else if severity == "noise"@ {
        "#cccccc"@
    } else {
        "#999999"@
    }
}

/// The colour for a severity, as the listing shows it.
pub fn severity_colour(sev: &str) -> (s: &'static str)
    ensures
        s@ == colour(sev@),
{
    if text::same_text(sev, "critical") {
        "#b00020"
    } else if text::same_text(sev, "high") {
        "#d35400"
    } else if text::same_text(sev, "medium") {
        "#b58900"
    } else if text::same_text(sev, "low") {
        "#888888"
    } else if text::same_text(sev, "noise") {
        "#cccccc"
    } else {
        "#999999"
    }
}

/// The largest count, or one where none is larger.
pub open spec fn largest(counts: Seq<(Seq<char>, int)>) -> int
    decreases counts.len(),
{
    if counts.len() == 0 {
        1
    } else {
        let before = largest(counts.drop_last());
        if counts.last().1 > before {
            counts.last().1
        } else {
            before
        }
    }
}

/// The width of a bar in pixels: the share of the largest count in a full
/// width of 360, but no less than two for a count above zero.
pub open spec fn bar_width(n: int, max: int) -> int {
    let share = 360 * n / max;
    if n <= 0 {
        0
    } else if share < 2 {
        2
    } else {
        share
    }
}

/// The bar for a count; none for a count of zero.
pub open spec fn bar(i: int, severity: Seq<char>, n: int, max: int) -> Seq<char> {
    if n > 0 {
        "<rect x=\"80\" y=\""@ + text::signed_decimal(30 * i + 4) + "\" width=\""@
            + text::signed_decimal(bar_width(n, max)) + "\" height=\"20\" fill=\""@ + colour(
            severity,
        ) + "\" rx=\"2\"/>"@
    } else {
        ""@
    }
}

/// One line of the chart: name, bar and count.
pub open spec fn chart_row(i: int, severity: Seq<char>, n: int, max: int) -> Seq<char> {
    "<text x=\"0\" y=\""@ + text::signed_decimal(30 * i + 20) + "\" fill=\"currentColor\">"@
        + text::escaped(severity) + "</text>"@ + bar(i, severity, n, max)
        + "<text x=\"448\" y=\""@ + text::signed_decimal(30 * i + 20)
        + "\" fill=\"currentColor\">"@ + text::signed_decimal(n) + "</text>"@
}

/// The lines of the chart.
pub open spec fn chart_rows(counts: Seq<(Seq<char>, int)>, max: int) -> Seq<char>
    decreases counts.len(),
{
    if counts.len() == 0 {
        Seq::empty()
    } else {
        chart_rows(counts.drop_last(), max) + chart_row(
            counts.len() - 1,
            counts.last().0,
            counts.last().1,
            max,
        )
    }
}

/// The bar chart of severities.
pub open spec fn chart(counts: Seq<(Seq<char>, int)>) -> Seq<char> {
    "<svg xmlns=\"http://www.w3.org/2000/svg\" viewBox=\"0 0 516 158\" width=\"100%\" style=\"max-width:516px;height:auto;font:12px ui-monospace,SFMono-Regular,Menlo,monospace\" role=\"img\" aria-label=\"severity breakdown bar chart\">"@
        + chart_rows(counts, largest(counts)) + "</svg>"@
}

/// Whether the widths of the bars can be computed.
pub open spec fn drawable(counts: Seq<(Seq<char>, int)>) -> bool {
    forall|i: int|
        0 <= i < counts.len() ==> i64::MIN <= 360 * (#[trigger] counts[i]).1 <= i64::MAX
}

proof fn largest_is_largest(counts: Seq<(Seq<char>, int)>)
    ensures
        largest(counts) >= 1,
        forall|i: int| 0 <= i < counts.len() ==> (#[trigger] counts[i]).1 <= largest(counts),
    decreases counts.len(),
{
    if counts.len() > 0 {
        let rest = counts.drop_last();
        largest_is_largest(rest);
        assert forall|i: int| 0 <= i < counts.len() implies (#[trigger] counts[i]).1 <= largest(
            counts,
        ) by {
            if i < rest.len() {
                assert(rest[i].1 <= largest(rest));
            }
        }
    }
}

/// No bar is wider than the full width.
pub proof fn bars_fit_the_chart(counts: Seq<(Seq<char>, int)>, i: int)
    requires
        0 <= i < counts.len(),
    ensures
        0 <= bar_width(counts[i].1, largest(counts)) <= 360,
        counts[i].1 > 0 ==> bar_width(counts[i].1, largest(counts)) >= 2,
{
    largest_is_largest(counts);
    let n = counts[i].1;
    let max = largest(counts);
    if n > 0 {
        share_fits(n, max);
    }
}

proof fn share_fits(n: int, max: int)
    by (nonlinear_arith)
    requires
        0 < n <= max,
    ensures
        0 <= 360 * n / max <= 360,
{
}

fn render_bar(i: usize, sev: &str, n: i64, max: i64) -> (s: String)
    requires
        i < 5,
        n <= max,
        1 <= max,
        360 * n <= i64::MAX,
    ensures
        s@ == bar(i as int, sev@, n as int, max as int),
{
    if n > 0 {
        proof {
            share_fits(n as int, max as int);
        }
        let share: u64 = (360 * n) as u64 / max as u64;
        let width: u64 = if share < 2 {
            2
        } else {
            share
        };
        let mut s = "<rect x=\"80\" y=\"".to_owned();
        text::push_i64(&mut s, 30 * i as i64 + 4);
        s.append("\" width=\"");
        text::push_i64(&mut s, width as i64);
        s.append("\" height=\"20\" fill=\"");
        s.append(severity_colour(sev));
        s.append("\" rx=\"2\"/>");
        s
    } else {
        "".to_owned()
    }
}

fn render_chart_row(i: usize, sev: &str, n: i64, max: i64) -> (s: String)
    requires
        i < 5,
        n <= max,
        1 <= max,
        360 * n <= i64::MAX,
    ensures
        s@ == chart_row(i as int, sev@, n as int, max as int),
{
    let mut s = "<text x=\"0\" y=\"".to_owned();
    text::push_i64(&mut s, 30 * i as i64 + 20);
    s.append("\" fill=\"currentColor\">");
    s.append(text::html_escape(sev).as_str());
    s.append("</text>");
    s.append(render_bar(i, sev, n, max).as_str());
    s.append("<text x=\"448\" y=\"");
    text::push_i64(&mut s, 30 * i as i64 + 20);
    s.append("\" fill=\"currentColor\">");
    text::push_i64(&mut s, n);
    s.append("</text>");
    s
}

fn largest_count(sevs: &[(String, i64); 5]) -> (max: i64)
    ensures
        max == largest(db::counts_view(sevs@)),
{
    let ghost counts = db::counts_view(sevs@);
    let mut max: i64 = 1;
    let mut i: usize = 0;
    while i < 5
        invariant
            i <= 5,
            counts == db::counts_view(sevs@),
            counts.len() == 5,
            max == largest(counts.take(i as int)),
        decreases 5 - i,
    {
        assert(counts.take(i + 1).drop_last() == counts.take(i as int));
        assert(counts.take(i + 1).last() == counts[i as int]);
        if sevs[i].1 > max {
            max = sevs[i].1;
        }
        i = i + 1;
    }
    assert(counts.take(5) == counts);
    max
}

/// The bar chart of severities, as inline SVG.
pub fn render_severity_svg(sevs: &[(String, i64); 5]) -> (s: String)
    requires
        drawable(db::counts_view(sevs@)),
    ensures
        s@ == chart(db::counts_view(sevs@)),
{
    let ghost counts = db::counts_view(sevs@);
    let max: i64 = largest_count(sevs);
    let mut rows = String::new();
    let mut i: usize = 0;
    proof {
        largest_is_largest(counts);
        assert(counts.take(0) == Seq::<(Seq<char>, int)>::empty());
    }
    while i < 5
        invariant
            i <= 5,
            counts == db::counts_view(sevs@),
            counts.len() == 5,
            drawable(counts),
            max >= 1,
            forall|k: int| 0 <= k < counts.len() ==> (#[trigger] counts[k]).1 <= max,
            rows@ == chart_rows(counts.take(i as int), max as int),
        decreases 5 - i,
    {
        assert(counts.take(i + 1).drop_last() == counts.take(i as int));
        assert(counts.take(i + 1).last() == counts[i as int]);
        assert(counts[i as int] == (sevs@[i as int].0@, sevs@[i as int].1 as int));
        rows.append(render_chart_row(i, sevs[i].0.as_str(), sevs[i].1, max).as_str());
        i = i + 1;
    }
    assert(counts.take(5) == counts);
    let mut s =
        "<svg xmlns=\"http://www.w3.org/2000/svg\" viewBox=\"0 0 516 158\" width=\"100%\" style=\"max-width:516px;height:auto;font:12px ui-monospace,SFMono-Regular,Menlo,monospace\" role=\"img\" aria-label=\"severity breakdown bar chart\">".to_owned();
    s.append(rows.as_str());
    s.append("</svg>");
    s
}

/// Whether the widths of the bars can be computed.
pub fn is_drawable(sevs: &[(String, i64); 5]) -> (r: bool)
    ensures
        r == drawable(db::counts_view(sevs@)),
{
    let ghost counts = db::counts_view(sevs@);
    let mut i: usize = 0;
    while i < 5
        invariant
            i <= 5,
            counts == db::counts_view(sevs@),
            counts.len() == 5,
            forall|k: int|
                0 <= k < i ==> i64::MIN <= 360 * (#[trigger] counts[k]).1 <= i64::MAX,
        decreases 5 - i,
    {
        assert(counts[i as int].1 == sevs@[i as int].1);
        let wide: i128 = 360 * sevs[i].1 as i128;
        if wide < i64::MIN as i128 || wide > i64::MAX as i128 {
            return false;
        }
        i = i + 1;
    }
    true
}

// ---------------------------------------------------------------------------
// The page

/// One number with what it is and where it comes from.
pub open spec fn card(label: Seq<char>, val: Seq<char>, sub: Seq<char>, grey: bool) -> Seq<char> {
    "<div class=\"card"@ + (if grey {
        " degraded"@
    } else {
        ""@
    }) + "\"><div class=\"lbl\">"@ + text::escaped(label) + "</div><div class=\"val\">"@
        + text::escaped(val) + "</div><div class=\"sub\">"@ + text::escaped(sub) + "</div></div>"@
}

/// Appends one number with what it is and where it comes from.
pub fn push_card(s: &mut String, label: &str, val: &str, sub: &str, degraded: bool)
    ensures
        final(s)@ == old(s)@ + card(label@, val@, sub@, degraded),
{
    let mut c = "<div class=\"card".to_owned();
    c.append(if degraded {
        " degraded"
    } else {
        ""
    });
    c.append("\"><div class=\"lbl\">");
    c.append(text::html_escape(label).as_str());
    c.append("</div><div class=\"val\">");
    c.append(text::html_escape(val).as_str());
    c.append("</div><div class=\"sub\">");
    c.append(text::html_escape(sub).as_str());
    c.append("</div></div>");
    s.append(c.as_str());
}

/// The counts that a rate is made of.
pub open spec fn window_sub(w: WindowView) -> Seq<char> {
    signed_grouped(w.diffs) + " diffs / "@ + signed_grouped(w.requests) + " req"@
}

/// The card of one window. It is greyed out while the shadow is degraded.
pub open spec fn window_card(w: WindowView, rate: Seq<char>, grey: bool) -> Seq<char> {
    "<div class=\"card"@ + (if grey {
        " degraded"@
    } else {
        ""@
    }) + "\"><div class=\"lbl\">divergence rate · "@ + text::escaped(w.label)
        + "</div><div class=\"val\">"@ + text::escaped(rate) + "</div><div class=\"sub\">"@
        + text::escaped(window_sub(w)) + "</div></div>"@
}

fn render_window_card(w: &WindowStats, rate: &str, grey: bool) -> (s: String)
    ensures
        s@ == window_card(w@, rate@, grey),
{
    let mut sub = format_int(w.diffs);
    sub.append(" diffs / ");
    sub.append(format_int(w.requests).as_str());
    sub.append(" req");
    let mut s = "<div class=\"card".to_owned();
    s.append(if grey {
        " degraded"
    } else {
        ""
    });
    s.append("\"><div class=\"lbl\">divergence rate · ");
    s.append(text::html_escape(w.label).as_str());
    s.append("</div><div class=\"val\">");
    s.append(text::html_escape(rate).as_str());
    s.append("</div><div class=\"sub\">");
    s.append(text::html_escape(sub.as_str()).as_str());
    s.append("</div></div>");
    s
}

/// The cards of the windows, each with its rate.
pub open spec fn window_cards(windows: Seq<WindowView>, rates: Seq<Seq<char>>, grey: bool) -> Seq<
    char,
>
    decreases windows.len(),
{
    if windows.len() == 0 {
        Seq::empty()
    } else {
        window_cards(windows.drop_last(), rates, grey) + window_card(
            windows.last(),
            rates[windows.len() - 1],
            grey,
        )
    }
}

fn render_window_cards(windows: &Vec<WindowStats>, rates: &Vec<String>, grey: bool) -> (s: String)
    requires
        rates.len() == windows.len(),
    ensures
        s@ == window_cards(windows_view(windows@), db::texts(rates@), grey),
{
    let ghost all = windows_view(windows@);
    let ghost texts = db::texts(rates@);
    let mut s = String::new();
    let mut i: usize = 0;
    assert(all.take(0) == Seq::<WindowView>::empty());
    while i < windows.len()
        invariant
            i <= windows.len(),
            rates.len() == windows.len(),
            all == windows_view(windows@),
            texts == db::texts(rates@),
            s@ == window_cards(all.take(i as int), texts, grey),
        decreases windows.len() - i,
    {
        assert(all.take(i + 1).drop_last() == all.take(i as int));
        assert(all.take(i + 1).last() == windows@[i as int]@);
        assert(texts[i as int] == rates@[i as int]@);
        s.append(render_window_card(&windows[i], rates[i].as_str(), grey).as_str());
        i = i + 1;
    }
    assert(all.take(all.len() as int) == all);
    s
}

/// The row of one path.
pub open spec fn path_row(p: (Seq<char>, int, int), rate: Seq<char>) -> Seq<char> {
    "<tr>"@ + "<td><code>"@ + text::escaped(p.0) + "</code></td>"@ + "<td>"@ + signed_grouped(p.1)
        + "</td>"@ + "<td>"@ + signed_grouped(p.2) + "</td>"@ + "<td>"@ + text::escaped(rate)
        + "</td>"@ + "</tr>"@
}

fn render_path_row(p: &(String, i64, i64), rate: &str) -> (s: String)
    ensures
        s@ == path_row((p.0@, p.1 as int, p.2 as int), rate@),
{
    let mut s = "<tr>".to_owned();
    s.append("<td><code>");
    s.append(text::html_escape(p.0.as_str()).as_str());
    s.append("</code></td>");
    s.append("<td>");
    s.append(format_int(p.1).as_str());
    s.append("</td>");
    s.append("<td>");
    s.append(format_int(p.2).as_str());
    s.append("</td>");
    s.append("<td>");
    s.append(text::html_escape(rate).as_str());
    s.append("</td>");
    s.append("</tr>");
    s
}

/// The rows of the paths, each with its rate.
pub open spec fn path_rows(paths: Seq<(Seq<char>, int, int)>, rates: Seq<Seq<char>>) -> Seq<char>
    decreases paths.len(),
{
    if paths.len() == 0 {
        Seq::empty()
    } else {
        path_rows(paths.drop_last(), rates) + path_row(paths.last(), rates[paths.len() - 1])
    }
}

fn render_path_rows(paths: &Vec<(String, i64, i64)>, rates: &Vec<String>) -> (s: String)
    requires
        rates.len() == paths.len(),
    ensures
        s@ == path_rows(db::paths_view(paths@), db::texts(rates@)),
{
    let ghost all = db::paths_view(paths@);
    let ghost texts = db::texts(rates@);
    let mut s = String::new();
    let mut i: usize = 0;
    assert(all.take(0) == Seq::<(Seq<char>, int, int)>::empty());
    while i < paths.len()
        invariant
            i <= paths.len(),
            rates.len() == paths.len(),
            all == db::paths_view(paths@),
            texts == db::texts(rates@),
            s@ == path_rows(all.take(i as int), texts),
        decreases paths.len() - i,
    {
        assert(all.take(i + 1).drop_last() == all.take(i as int));
        assert(all.take(i + 1).last() == all[i as int]);
        assert(texts[i as int] == rates@[i as int]@);
        s.append(render_path_row(&paths[i], rates[i].as_str()).as_str());
        i = i + 1;
    }
    assert(all.take(all.len() as int) == all);
    s
}

/// The table of the paths, or what stands in its place where there are none.
pub open spec fn path_table(paths: Seq<(Seq<char>, int, int)>, rates: Seq<Seq<char>>) -> Seq<
    char,
> {
    if paths.len() == 0 {
        "<div class=\"empty\">no diffs in the last 24h.</div>"@
    } else {
        "<table><thead><tr>"@
            + "<th>path</th><th>diffs</th><th>requests (approx)</th><th>rate</th>"@
            + "</tr></thead><tbody>"@ + path_rows(paths, rates) + "</tbody></table>"@
    }
}

fn render_path_table(paths: &Vec<(String, i64, i64)>, rates: &Vec<String>) -> (s: String)
    requires
        rates.len() == paths.len(),
    ensures
        s@ == path_table(db::paths_view(paths@), db::texts(rates@)),
{
    if paths.len() == 0 {
        "<div class=\"empty\">no diffs in the last 24h.</div>".to_owned()
    } else {
        let mut s = "<table><thead><tr>".to_owned();
        s.append("<th>path</th><th>diffs</th><th>requests (approx)</th><th>rate</th>");
        s.append("</tr></thead><tbody>");
        s.append(render_path_rows(paths, rates).as_str());
        s.append("</tbody></table>");
        s
    }
}

/// The card of the last critical difference, or what stands in its place where
/// there is none.
pub open spec fn critical_card(c: Option<(int, int)>) -> Seq<char> {
    match c {
        Some((id, ns)) => "<div class=\"card\"><div class=\"lbl\">observed</div>"@
            + "<div class=\"val\"><code>"@ + text::escaped(calendar::stamp(ns))
            + "</code></div><div class=\"sub\"><a href=\"/diffs/"@ + text::signed_decimal(id)
            + "\">view diff #"@ + text::signed_decimal(id) + "</a></div></div>"@,
        None => "<div class=\"empty\">no critical diffs ever recorded.</div>"@,
    }
}

fn render_critical_card(c: Option<(i64, i64)>) -> (s: String)
    ensures
        s@ == critical_card(wide_pair(c)),
{
    match c {
        Some((id, ns)) => {
            let mut s = "<div class=\"card\"><div class=\"lbl\">observed</div>".to_owned();
            s.append("<div class=\"val\"><code>");
            s.append(text::html_escape(calendar::format_ns(ns).as_str()).as_str());
            s.append("</code></div><div class=\"sub\"><a href=\"/diffs/");
            text::push_i64(&mut s, id);
            s.append("\">view diff #");
            text::push_i64(&mut s, id);
            s.append("</a></div></div>");
            s
        },
        None => "<div class=\"empty\">no critical diffs ever recorded.</div>".to_owned(),
    }
}

/// The heading of the page, with a banner while the shadow is degraded.
pub open spec fn board_head(shadow_degraded: bool) -> Seq<char> {
    "<header><h1>diffsplitter — conformance scoreboard</h1>"@ + "<nav>"@
        + "<a href=\"/scoreboard\">scoreboard</a>"@ + "<a href=\"/diffs\">diffs</a>"@
        + "<a href=\"/scoreboard.json\">json</a>"@ + "<a href=\"/metrics\">metrics</a>"@
        + "</nav></header>"@ + (if shadow_degraded {
        "<div class=\"banner\">shadow backend is currently <strong>degraded</strong> (K13). Divergence-rate panels are greyed out — they aren't meaningful while writes are being dropped.</div>"@
    } else {
        ""@
    })
}

fn render_board_head(shadow_degraded: bool) -> (s: String)
    ensures
        s@ == board_head(shadow_degraded),
{
    let mut s = "<header><h1>diffsplitter — conformance scoreboard</h1>".to_owned();
    s.append("<nav>");
    s.append("<a href=\"/scoreboard\">scoreboard</a>");
    s.append("<a href=\"/diffs\">diffs</a>");
    s.append("<a href=\"/scoreboard.json\">json</a>");
    s.append("<a href=\"/metrics\">metrics</a>");
    s.append("</nav></header>");
    s.append(if shadow_degraded {
        "<div class=\"banner\">shadow backend is currently <strong>degraded</strong> (K13). Divergence-rate panels are greyed out — they aren't meaningful while writes are being dropped.</div>"
    } else {
        ""
    });
    s
}

/// The footer of the page: when it was made, and what the counts mean.
pub open spec fn board_foot(now: int) -> Seq<char> {
    "<footer>page generated at <code>"@ + text::escaped(calendar::stamp(now)) + "</code>. "@
        + "\"requests (approx)\" = diffs + queued writes + failed writes — successful writes are not retained, so this undercounts slightly. The resulting rate is conservative (overstates divergence rather than hiding it)."@
        + "</footer>"@
}

fn render_board_foot(now: i64) -> (s: String)
    ensures
        s@ == board_foot(now as int),
{
    let mut s = "<footer>page generated at <code>".to_owned();
    s.append(text::html_escape(calendar::format_ns(now).as_str()).as_str());
    s.append("</code>. ");
    s.append(
        "\"requests (approx)\" = diffs + queued writes + failed writes — successful writes are not retained, so this undercounts slightly. The resulting rate is conservative (overstates divergence rather than hiding it).",
    );
    s.append("</footer>");
    s
}

/// The page, given the rates as texts.
pub open spec fn board_page(
    d: BoardView,
    window_rates: Seq<Seq<char>>,
    path_rates: Seq<Seq<char>>,
) -> Seq<char> {
    html::page_top("scoreboard"@, STYLE@) + board_head(d.shadow_degraded)
        + "<h2>at a glance</h2>"@ + "<div class=\"cards\">"@ + card(
        "total requests (approx)"@,
        signed_grouped(d.requests_total_approx),
        "diffs + writes; see footer"@,
        false,
    ) + card(
        "total diffs"@,
        signed_grouped(d.diffs_total),
        "all-time recorded divergences"@,
        false,
    ) + window_cards(d.windows, window_rates, d.shadow_degraded) + "</div>"@
        + "<h2>severity breakdown · last 24h</h2>"@ + "<div class=\"svg-wrap\">"@ + chart(
        d.severity_24h,
    ) + "</div>"@ + "<h2>top diverging paths · last 24h</h2>"@ + path_table(
        d.top_paths_24h,
        path_rates,
    ) + "<h2>last critical diff</h2>"@ + critical_card(d.last_critical) + board_foot(d.now_ns)
        + html::page_end()
}

/// The page. The rates of the windows and of the paths are handed in as texts.
pub fn render_html(
    d: &ScoreboardData,
    window_rates: &Vec<String>,
    path_rates: &Vec<String>,
) -> (s: String)
    requires
        window_rates.len() == d.windows.len(),
        path_rates.len() == d.top_paths_24h.len(),
        drawable(db::counts_view(d.severity_24h@)),
    ensures
        s@ == board_page(d@, db::texts(window_rates@), db::texts(path_rates@)),
{
    let mut s = html::page_header("scoreboard", STYLE);
    s.append(render_board_head(d.shadow_degraded).as_str());
    s.append("<h2>at a glance</h2>");
    s.append("<div class=\"cards\">");
    push_card(
        &mut s,
        "total requests (approx)",
        format_int(d.requests_total_approx).as_str(),
        "diffs + writes; see footer",
        false,
    );
    push_card(
        &mut s,
        "total diffs",
        format_int(d.diffs_total).as_str(),
        "all-time recorded divergences",
        false,
    );
    s.append(render_window_cards(&d.windows, window_rates, d.shadow_degraded).as_str());
    s.append("</div>");
    s.append("<h2>severity breakdown · last 24h</h2>");
    s.append("<div class=\"svg-wrap\">");
    s.append(render_severity_svg(&d.severity_24h).as_str());
    s.append("</div>");
    s.append("<h2>top diverging paths · last 24h</h2>");
    s.append(render_path_table(&d.top_paths_24h, path_rates).as_str());
    s.append("<h2>last critical diff</h2>");
    s.append(render_critical_card(d.last_critical).as_str());
    s.append(render_board_foot(d.now_ns).as_str());
    html::push_footer(&mut s);
    s
}

// ---------------------------------------------------------------------------
// The document

/// What the document says of one window.
pub open spec fn window_tree(w: WindowView, rate: json::Tree) -> json::Tree {
    json::Tree::Object(
        json::members(
            seq![
                ("label"@, json::Tree::Text(w.label)),
                ("diffs"@, json::Tree::Number(json::int_view(w.diffs as i64))),
                ("requests"@, json::Tree::Number(json::int_view(w.requests as i64))),
                ("rate"@, rate),
            ],
        ),
    )
}

fn window_json(w: &WindowStats, rate: Json) -> (j: Json)
    ensures
        j.tree() == window_tree(w@, rate.tree()),
{
    let ghost rate_tree = rate.tree();
    let mut m: Vec<(String, Json)> = Vec::new();
    m.push(("label".to_owned(), Json::text(w.label)));
    m.push(("diffs".to_owned(), Json::whole(w.diffs)));
    m.push(("requests".to_owned(), Json::whole(w.requests)));
    m.push(("rate".to_owned(), rate));
    assert(json::pairs(m@) == seq![
        ("label"@, json::Tree::Text(w@.label)),
        ("diffs"@, json::Tree::Number(json::int_view(w@.diffs as i64))),
        ("requests"@, json::Tree::Number(json::int_view(w@.requests as i64))),
        ("rate"@, rate_tree),
    ]);
    Json::Object(m)
}

pub open spec fn window_trees(windows: Seq<WindowView>, rates: Seq<json::Tree>) -> Seq<
    json::Tree,
> {
    Seq::new(windows.len(), |i: int| window_tree(windows[i], rates[i]))
}

fn windows_json(windows: &Vec<WindowStats>, rates: Vec<Json>) -> (j: Json)
    requires
        rates.len() == windows.len(),
    ensures
        j.tree() == json::Tree::Array(window_trees(windows_view(windows@), json::trees(rates@))),
{
    let ghost all = windows_view(windows@);
    let ghost given = rates@;
    let mut items: Vec<Json> = Vec::new();
    for rate in it: rates
        invariant
            it.seq() == given,
            given.len() == windows.len(),
            all == windows_view(windows@),
            items.len() == it.index(),
            forall|k: int|
                0 <= k < it.index() ==> (#[trigger] items@[k]).tree() == window_tree(
                    all[k],
                    given[k].tree(),
                ),
    {
        let i: usize = items.len();
        items.push(window_json(&windows[i], rate));
    }
    assert(json::trees(items@) == window_trees(all, json::trees(given)));
    Json::Array(items)
}

/// What the document says of one severity.
pub open spec fn severity_tree(c: (Seq<char>, int)) -> json::Tree {
    json::Tree::Object(
        json::members(
            seq![
                ("severity"@, json::Tree::Text(c.0)),
                ("count"@, json::Tree::Number(json::int_view(c.1 as i64))),
            ],
        ),
    )
}

fn severity_json(severity: &str, count: i64) -> (j: Json)
    ensures
        j.tree() == severity_tree((severity@, count as int)),
{
    let mut m: Vec<(String, Json)> = Vec::new();
    m.push(("severity".to_owned(), Json::text(severity)));
    m.push(("count".to_owned(), Json::whole(count)));
    assert(json::pairs(m@) == seq![
        ("severity"@, json::Tree::Text(severity@)),
        ("count"@, json::Tree::Number(json::int_view(count))),
    ]);
    Json::Object(m)
}

pub open spec fn severity_trees(counts: Seq<(Seq<char>, int)>) -> Seq<json::Tree> {
    counts.map_values(|c: (Seq<char>, int)| severity_tree(c))
}

fn severities_json(sevs: &[(String, i64); 5]) -> (j: Json)
    ensures
        j.tree() == json::Tree::Array(severity_trees(db::counts_view(sevs@))),
{
    let ghost counts = db::counts_view(sevs@);
    let mut items: Vec<Json> = Vec::new();
    let mut i: usize = 0;
    while i < 5
        invariant
            i <= 5,
            counts == db::counts_view(sevs@),
            counts.len() == 5,
            items.len() == i,
            forall|k: int| 0 <= k < i ==> (#[trigger] items@[k]).tree() == severity_tree(counts[k]),
        decreases 5 - i,
    {
        items.push(severity_json(sevs[i].0.as_str(), sevs[i].1));
        i = i + 1;
    }
    assert(json::trees(items@) == severity_trees(counts));
    Json::Array(items)
}

/// What the document says of one path.
pub open spec fn path_tree(p: (Seq<char>, int, int), rate: json::Tree) -> json::Tree {
    json::Tree::Object(
        json::members(
            seq![
                ("path"@, json::Tree::Text(p.0)),
                ("diffs"@, json::Tree::Number(json::int_view(p.1 as i64))),
                ("requests"@, json::Tree::Number(json::int_view(p.2 as i64))),
                ("rate"@, rate),
            ],
        ),
    )
}

fn path_json(p: &(String, i64, i64), rate: Json) -> (j: Json)
    ensures
        j.tree() == path_tree((p.0@, p.1 as int, p.2 as int), rate.tree()),
{
    let ghost rate_tree = rate.tree();
    let mut m: Vec<(String, Json)> = Vec::new();
    m.push(("path".to_owned(), Json::text(p.0.as_str())));
    m.push(("diffs".to_owned(), Json::whole(p.1)));
    m.push(("requests".to_owned(), Json::whole(p.2)));
    m.push(("rate".to_owned(), rate));
    assert(json::pairs(m@) == seq![
        ("path"@, json::Tree::Text(p.0@)),
        ("diffs"@, json::Tree::Number(json::int_view(p.1))),
        ("requests"@, json::Tree::Number(json::int_view(p.2))),
        ("rate"@, rate_tree),
    ]);
    Json::Object(m)
}

pub open spec fn path_trees(paths: Seq<(Seq<char>, int, int)>, rates: Seq<json::Tree>) -> Seq<
    json::Tree,
> {
    Seq::new(paths.len(), |i: int| path_tree(paths[i], rates[i]))
}

fn paths_json(paths: &Vec<(String, i64, i64)>, rates: Vec<Json>) -> (j: Json)
    requires
        rates.len() == paths.len(),
    ensures
        j.tree() == json::Tree::Array(path_trees(db::paths_view(paths@), json::trees(rates@))),
{
    let ghost all = db::paths_view(paths@);
    let ghost given = rates@;
    let mut items: Vec<Json> = Vec::new();
    for rate in it: rates
        invariant
            it.seq() == given,
            given.len() == paths.len(),
            all == db::paths_view(paths@),
            items.len() == it.index(),
            forall|k: int|
                0 <= k < it.index() ==> (#[trigger] items@[k]).tree() == path_tree(
                    all[k],
                    given[k].tree(),
                ),
    {
        let i: usize = items.len();
        items.push(path_json(&paths[i], rate));
    }
    assert(json::trees(items@) == path_trees(all, json::trees(given)));
    Json::Array(items)
}

/// What the document says of the last critical difference.
pub open spec fn critical_tree(c: Option<(int, int)>) -> json::Tree {
    match c {
        Some((id, ns)) => json::Tree::Object(
            json::members(
                seq![
                    ("id"@, json::Tree::Number(json::int_view(id as i64))),
                    ("observed_at_ns"@, json::Tree::Number(json::int_view(ns as i64))),
                ],
            ),
        ),
        None => json::Tree::Null,
    }
}

fn critical_json(c: Option<(i64, i64)>) -> (j: Json)
    ensures
        j.tree() == critical_tree(wide_pair(c)),
{
    match c {
        Some((id, ns)) => {
            let mut m: Vec<(String, Json)> = Vec::new();
            m.push(("id".to_owned(), Json::whole(id)));
            m.push(("observed_at_ns".to_owned(), Json::whole(ns)));
            assert(json::pairs(m@) == seq![
                ("id"@, json::Tree::Number(json::int_view(id))),
                ("observed_at_ns"@, json::Tree::Number(json::int_view(ns))),
            ]);
            Json::Object(m)
        },
        None => Json::Null,
    }
}

/// What the document says, given the rates.
pub open spec fn board_tree(
    d: BoardView,
    window_rates: Seq<json::Tree>,
    path_rates: Seq<json::Tree>,
) -> json::Tree {
    json::Tree::Object(
        json::members(
            seq![
                ("now_ns"@, json::Tree::Number(json::int_view(d.now_ns as i64))),
                ("diffs_total"@, json::Tree::Number(json::int_view(d.diffs_total as i64))),
                (
                    "requests_total_approx"@,
                    json::Tree::Number(json::int_view(d.requests_total_approx as i64)),
                ),
                ("shadow_degraded"@, json::Tree::Bool(d.shadow_degraded)),
                ("windows"@, json::Tree::Array(window_trees(d.windows, window_rates))),
                ("severity_24h"@, json::Tree::Array(severity_trees(d.severity_24h))),
                ("top_paths_24h"@, json::Tree::Array(path_trees(d.top_paths_24h, path_rates))),
                ("last_critical"@, critical_tree(d.last_critical)),
            ],
        ),
    )
}

/// The scoreboard as a JSON document. The rates of the windows and of the
/// paths are handed in as JSON numbers.
pub fn board_document(d: &ScoreboardData, window_rates: Vec<Json>, path_rates: Vec<Json>) -> (j:
    Json)
    requires
        window_rates.len() == d.windows.len(),
        path_rates.len() == d.top_paths_24h.len(),
    ensures
        j.tree() == board_tree(d@, json::trees(window_rates@), json::trees(path_rates@)),
{
    let ghost wr = json::trees(window_rates@);
    let ghost pr = json::trees(path_rates@);
    let mut m: Vec<(String, Json)> = Vec::new();
    m.push(("now_ns".to_owned(), Json::whole(d.now_ns)));
    m.push(("diffs_total".to_owned(), Json::whole(d.diffs_total)));
    m.push(("requests_total_approx".to_owned(), Json::whole(d.requests_total_approx)));
    m.push(("shadow_degraded".to_owned(), Json::Bool(d.shadow_degraded)));
    m.push(("windows".to_owned(), windows_json(&d.windows, window_rates)));
    m.push(("severity_24h".to_owned(), severities_json(&d.severity_24h)));
    m.push(("top_paths_24h".to_owned(), paths_json(&d.top_paths_24h, path_rates)));
    m.push(("last_critical".to_owned(), critical_json(d.last_critical)));
    let ghost v = d@;
    assert(json::pairs(m@) == seq![
        ("now_ns"@, json::Tree::Number(json::int_view(v.now_ns as i64))),
        ("diffs_total"@, json::Tree::Number(json::int_view(v.diffs_total as i64))),
        (
            "requests_total_approx"@,
            json::Tree::Number(json::int_view(v.requests_total_approx as i64)),
        ),
        ("shadow_degraded"@, json::Tree::Bool(v.shadow_degraded)),
        ("windows"@, json::Tree::Array(window_trees(v.windows, wr))),
        ("severity_24h"@, json::Tree::Array(severity_trees(v.severity_24h))),
        ("top_paths_24h"@, json::Tree::Array(path_trees(v.top_paths_24h, pr))),
        ("last_critical"@, critical_tree(v.last_critical)),
    ]);
    Json::Object(m)
}

/// The document as text, given the rates.
pub open spec fn board_text(
    d: BoardView,
    window_rates: Seq<json::Tree>,
    path_rates: Seq<json::Tree>,
) -> Seq<char> {
    json::compact(board_tree(d, window_rates, path_rates))
}

/// Whether rates are numbers, and none of them a double outside zero to one.
pub open spec fn are_rates(rates: Seq<json::Tree>) -> bool {
    forall|i: int|
        0 <= i < rates.len() ==> (#[trigger] rates[i]) is Number && json::legible(
            rates[i],
            0,
            true,
        )
}

proof fn window_tree_is_legible(w: WindowView, rate: json::Tree)
    requires
        json::legible(rate, 0, true),
    ensures
        json::legible(window_tree(w, rate), 1, true),
{
    let pairs = seq![
        ("label"@, json::Tree::Text(w.label)),
        ("diffs"@, json::Tree::Number(json::int_view(w.diffs as i64))),
        ("requests"@, json::Tree::Number(json::int_view(w.requests as i64))),
        ("rate"@, rate),
    ];
    assert forall|i: int| 0 <= i < pairs.len() implies (#[trigger] pairs[i]).0
        != json::reserved_key() by {
        reveal_strlit("label");
        reveal_strlit("diffs");
        reveal_strlit("requests");
        reveal_strlit("rate");
        json::other_keys_are_not_reserved(pairs[i].0);
    }
    json::legible_pairs_make_legible_values(pairs, 0, true);
}

proof fn severity_tree_is_legible(c: (Seq<char>, int))
    ensures
        json::legible(severity_tree(c), 1, true),
{
    let pairs = seq![
        ("severity"@, json::Tree::Text(c.0)),
        ("count"@, json::Tree::Number(json::int_view(c.1 as i64))),
    ];
    assert forall|i: int| 0 <= i < pairs.len() implies (#[trigger] pairs[i]).0
        != json::reserved_key() by {
        reveal_strlit("severity");
        reveal_strlit("count");
        json::other_keys_are_not_reserved(pairs[i].0);
    }
    json::legible_pairs_make_legible_values(pairs, 0, true);
}

proof fn path_tree_is_legible(p: (Seq<char>, int, int), rate: json::Tree)
    requires
        json::legible(rate, 0, true),
    ensures
        json::legible(path_tree(p, rate), 1, true),
{
    let pairs = seq![
        ("path"@, json::Tree::Text(p.0)),
        ("diffs"@, json::Tree::Number(json::int_view(p.1 as i64))),
        ("requests"@, json::Tree::Number(json::int_view(p.2 as i64))),
        ("rate"@, rate),
    ];
    assert forall|i: int| 0 <= i < pairs.len() implies (#[trigger] pairs[i]).0
        != json::reserved_key() by {
        reveal_strlit("path");
        reveal_strlit("diffs");
        reveal_strlit("requests");
        reveal_strlit("rate");
        json::other_keys_are_not_reserved(pairs[i].0);
    }
    json::legible_pairs_make_legible_values(pairs, 0, true);
}

proof fn critical_tree_is_legible(c: Option<(int, int)>)
    ensures
        json::legible(critical_tree(c), 1, true),
{
    if let Some((id, ns)) = c {
        let pairs = seq![
            ("id"@, json::Tree::Number(json::int_view(id as i64))),
            ("observed_at_ns"@, json::Tree::Number(json::int_view(ns as i64))),
        ];
        assert forall|i: int| 0 <= i < pairs.len() implies (#[trigger] pairs[i]).0
            != json::reserved_key() by {
            reveal_strlit("id");
            reveal_strlit("observed_at_ns");
            json::other_keys_are_not_reserved(pairs[i].0);
        }
        json::legible_pairs_make_legible_values(pairs, 0, true);
    }
}

proof fn board_tree_is_legible(
    d: BoardView,
    window_rates: Seq<json::Tree>,
    path_rates: Seq<json::Tree>,
)
    requires
        window_rates.len() == d.windows.len(),
        path_rates.len() == d.top_paths_24h.len(),
        are_rates(window_rates),
        are_rates(path_rates),
    ensures
        json::legible(board_tree(d, window_rates, path_rates), 3, true),
{
    let windows = window_trees(d.windows, window_rates);
    let severities = severity_trees(d.severity_24h);
    let paths = path_trees(d.top_paths_24h, path_rates);
    assert forall|i: int| 0 <= i < windows.len() implies json::legible(
        #[trigger] windows[i],
        1,
        true,
    ) by {
        assert(window_rates[i] is Number);
        window_tree_is_legible(d.windows[i], window_rates[i]);
    }
    assert(json::legible_items(windows, 1, true));
    assert forall|i: int| 0 <= i < severities.len() implies json::legible(
        #[trigger] severities[i],
        1,
        true,
    ) by {
        severity_tree_is_legible(d.severity_24h[i]);
    }
    assert(json::legible_items(severities, 1, true));
    assert forall|i: int| 0 <= i < paths.len() implies json::legible(
        #[trigger] paths[i],
        1,
        true,
    ) by {
        assert(path_rates[i] is Number);
        path_tree_is_legible(d.top_paths_24h[i], path_rates[i]);
    }
    assert(json::legible_items(paths, 1, true));
    critical_tree_is_legible(d.last_critical);
    json::legible_further(critical_tree(d.last_critical), 1, 2, true, true);
    let pairs = seq![
        ("now_ns"@, json::Tree::Number(json::int_view(d.now_ns as i64))),
        ("diffs_total"@, json::Tree::Number(json::int_view(d.diffs_total as i64))),
        (
            "requests_total_approx"@,
            json::Tree::Number(json::int_view(d.requests_total_approx as i64)),
        ),
        ("shadow_degraded"@, json::Tree::Bool(d.shadow_degraded)),
        ("windows"@, json::Tree::Array(windows)),
        ("severity_24h"@, json::Tree::Array(severities)),
        ("top_paths_24h"@, json::Tree::Array(paths)),
        ("last_critical"@, critical_tree(d.last_critical)),
    ];
    assert forall|i: int| 0 <= i < pairs.len() implies (#[trigger] pairs[i]).0
        != json::reserved_key() by {
        reveal_strlit("now_ns");
        reveal_strlit("diffs_total");
        reveal_strlit("requests_total_approx");
        reveal_strlit("shadow_degraded");
        reveal_strlit("windows");
        reveal_strlit("severity_24h");
        reveal_strlit("top_paths_24h");
        reveal_strlit("last_critical");
        json::other_keys_are_not_reserved(pairs[i].0);
    }
    assert(json::legible(json::Tree::Array(windows), 2, true));
    assert(json::legible(json::Tree::Array(severities), 2, true));
    assert(json::legible(json::Tree::Array(paths), 2, true));
    json::legible_pairs_make_legible_values(pairs, 2, true);
}

/// The scoreboard as the text of a JSON document. The rates of the windows and
/// of the paths are handed in as JSON numbers. Who reads it gets back what the
/// scoreboard says; of the rates, only that they are there.
pub fn render_json(d: &ScoreboardData, window_rates: Vec<Json>, path_rates: Vec<Json>) -> (s:
    String)
    requires
        window_rates.len() == d.windows.len(),
        path_rates.len() == d.top_paths_24h.len(),
    ensures
        s@ == board_text(d@, json::trees(window_rates@), json::trees(path_rates@)),
        are_rates(json::trees(window_rates@)) && are_rates(json::trees(path_rates@))
            ==> json::parsed(s@) is Some && json::alike(
            json::parsed(s@)->0,
            board_tree(d@, json::trees(window_rates@), json::trees(path_rates@)),
        ),
{
    proof {
        let wr = json::trees(window_rates@);
        let pr = json::trees(path_rates@);
        if are_rates(wr) && are_rates(pr) {
            board_tree_is_legible(d@, wr, pr);
            json::legible_further(board_tree(d@, wr, pr), 3, 100, true, true);
        }
    }
    json::write_compact(board_document(d, window_rates, path_rates))
}

// ---------------------------------------------------------------------------
// Requests

/// Answers a request for the page.
pub fn scoreboard_html(
    d: &ScoreboardData,
    window_rates: &Vec<String>,
    path_rates: &Vec<String>,
) -> (r: Reply)
    requires
        window_rates.len() == d.windows.len(),
        path_rates.len() == d.top_paths_24h.len(),
        drawable(db::counts_view(d.severity_24h@)),
    ensures
        r@ == html::html_reply(
            board_page(d@, db::texts(window_rates@), db::texts(path_rates@)),
        ),
{
    Reply::html(render_html(d, window_rates, path_rates))
}

/// Answers a request for the document.
pub fn scoreboard_json(
    d: &ScoreboardData,
    window_rates: Vec<Json>,
    path_rates: Vec<Json>,
) -> (r: Reply)
    requires
        window_rates.len() == d.windows.len(),
        path_rates.len() == d.top_paths_24h.len(),
    ensures
        r@ == html::json_reply(
            board_text(d@, json::trees(window_rates@), json::trees(path_rates@)),
        ),
        are_rates(json::trees(window_rates@)) && are_rates(json::trees(path_rates@))
            ==> json::parsed(r.body@) is Some && json::alike(
            json::parsed(r.body@)->0,
            board_tree(d@, json::trees(window_rates@), json::trees(path_rates@)),
        ),
{
    Reply::json(render_json(d, window_rates, path_rates))
}

// ---------------------------------------------------------------------------
// What the scoreboard promises

/// The three windows are the last hour, the last day and the last seven days,
/// each with the differences observed and the requests counted since it began.
pub proof fn windows_are_an_hour_a_day_and_a_week(s: db::StoreView, now: int)
    ensures
        ({
            let w = board(s, now).windows;
            let (hour, day, week) = (3_600_000_000_000int, 86_400_000_000_000int, 604_800_000_000_000int);
            let observed = |back: int|
                s.diffs.filter(
                    |d: db::StoredDiffView| now - back <= d.detail.observed_at_ns,
                ).len();
            &&& w.len() == 3
            &&& w[0].label == "1h"@ && w[1].label == "24h"@ && w[2].label == "7d"@
            &&& w[0].diffs == observed(hour)
            &&& w[1].diffs == observed(day)
            &&& w[2].diffs == observed(week)
            &&& w[0].requests == db::count_requests(s, now - hour, None)
            &&& w[1].requests == db::count_requests(s, now - day, None)
            &&& w[2].requests == db::count_requests(s, now - week, None)
        }),
{
    differences_of_a_window(s.diffs, now - 3_600_000_000_000);
    differences_of_a_window(s.diffs, now - 86_400_000_000_000);
    differences_of_a_window(s.diffs, now - 604_800_000_000_000);
}

proof fn differences_of_a_window(diffs: Seq<db::StoredDiffView>, since: int)
    ensures
        db::count_diffs(diffs, since, None, None) == diffs.filter(
            |d: db::StoredDiffView| since <= d.detail.observed_at_ns,
        ).len(),
{
    laws::differences_are_counted_in_their_window(diffs, since, None, None);
    let asked = |d: db::StoredDiffView|
        since <= d.detail.observed_at_ns && (None::<Seq<char>> is None || None::<Seq<char>>
            == Some(d.detail.severity)) && (None::<Seq<char>> is None || None::<Seq<char>>
            == Some(d.detail.path));
    let plain = |d: db::StoredDiffView| since <= d.detail.observed_at_ns;
    assert(asked =~= plain);
}

/// The breakdown is that of the day: its five counts add up to the differences
/// of the window of 24 hours, where all recorded severities are known, and each
/// counts the differences of its severity observed since that window began.
pub proof fn breakdown_is_of_the_day(s: db::StoreView, now: int, i: int)
    requires
        0 <= i < 5,
        forall|k: int|
            0 <= k < s.diffs.len() ==> dashboard::known_severity(
                (#[trigger] s.diffs[k]).detail.severity,
            ),
    ensures
        ({
            let b = board(s, now).severity_24h;
            &&& b.len() == 5
            &&& b[0].1 + b[1].1 + b[2].1 + b[3].1 + b[4].1 == board(s, now).windows[1].diffs
            &&& b[i].1 == s.diffs.filter(
                |d: db::StoredDiffView|
                    now - 86_400_000_000_000 <= d.detail.observed_at_ns && d.detail.severity
                        == b[i].0,
            ).len()
            &&& b[0].0 == "critical"@ && b[1].0 == "high"@ && b[2].0 == "medium"@ && b[3].0
                == "low"@ && b[4].0 == "noise"@
        }),
{
    laws::breakdown_adds_up(s.diffs, now - DAY_NS);
    laws::breakdown_counts_each_severity(s.diffs, now - DAY_NS, i);
}

/// The totals count everything: all differences, and all requests since 1970.
pub proof fn totals_count_everything(s: db::StoreView, now: int)
    ensures
        board(s, now).now_ns == now,
        board(s, now).diffs_total == s.diffs.len(),
        board(s, now).requests_total_approx == db::count_requests(s, 0, None),
        (forall|k: int| 0 <= k < s.diffs.len() ==> (#[trigger] s.diffs[k]).detail.observed_at_ns >= 0)
            && (forall|k: int|
            0 <= k < s.write_queue.len() ==> (#[trigger] s.write_queue[k]).enqueued_at_ns >= 0) && (
        forall|k: int|
            0 <= k < s.failed_writes.len() ==> (#[trigger] s.failed_writes[k]).enqueued_at_ns >= 0)
            ==> board(s, now).requests_total_approx == s.diffs.len() + s.write_queue.len()
            + s.failed_writes.len(),
{
    if (forall|k: int| 0 <= k < s.diffs.len() ==> (#[trigger] s.diffs[k]).detail.observed_at_ns >= 0)
        && (forall|k: int|
        0 <= k < s.write_queue.len() ==> (#[trigger] s.write_queue[k]).enqueued_at_ns >= 0) && (
    forall|k: int|
        0 <= k < s.failed_writes.len() ==> (#[trigger] s.failed_writes[k]).enqueued_at_ns >= 0) {
        all_differences_count(s.diffs);
        all_waiting_writes_count(s.write_queue);
        all_failed_writes_count(s.failed_writes);
    }
}

proof fn all_differences_count(diffs: Seq<db::StoredDiffView>)
    requires
        forall|k: int| 0 <= k < diffs.len() ==> (#[trigger] diffs[k]).detail.observed_at_ns >= 0,
    ensures
        db::count_diffs(diffs, 0, None, None) == diffs.len(),
    decreases diffs.len(),
{
    if diffs.len() > 0 {
        let rest = diffs.drop_last();
        assert forall|k: int| 0 <= k < rest.len() implies (
        #[trigger] rest[k]).detail.observed_at_ns >= 0 by {
            assert(rest[k] == diffs[k]);
        }
        all_differences_count(rest);
        assert(diffs[diffs.len() - 1].detail.observed_at_ns >= 0);
    }
}

proof fn all_waiting_writes_count(queue: Seq<db::QueueRowView>)
    requires
        forall|k: int| 0 <= k < queue.len() ==> (#[trigger] queue[k]).enqueued_at_ns >= 0,
    ensures
        db::count_queued(queue, 0, None) == queue.len(),
    decreases queue.len(),
{
    if queue.len() > 0 {
        let rest = queue.drop_last();
        assert forall|k: int| 0 <= k < rest.len() implies (#[trigger] rest[k]).enqueued_at_ns
            >= 0 by {
            assert(rest[k] == queue[k]);
        }
        all_waiting_writes_count(rest);
        assert(queue[queue.len() - 1].enqueued_at_ns >= 0);
    }
}

proof fn all_failed_writes_count(failed: Seq<db::FailedWriteView>)
    requires
        forall|k: int| 0 <= k < failed.len() ==> (#[trigger] failed[k]).enqueued_at_ns >= 0,
    ensures
        db::count_failed(failed, 0, None) == failed.len(),
    decreases failed.len(),
{
    if failed.len() > 0 {
        let rest = failed.drop_last();
        assert forall|k: int| 0 <= k < rest.len() implies (#[trigger] rest[k]).enqueued_at_ns
            >= 0 by {
            assert(rest[k] == failed[k]);
        }
        all_failed_writes_count(rest);
        assert(failed[failed.len() - 1].enqueued_at_ns >= 0);
    }
}

/// The leaderboard holds at most ten paths, of the differences of the last day:
/// each on which there was one, with its differences and its requests of that
/// day, and those with more differences first. Where there are no more than ten,
/// none is left out, and one that is left out has no more differences than any
/// that is not.
#[verifier::spinoff_prover]
#[verifier::rlimit(40)]
pub proof fn leaderboard_is_of_the_day(s: db::StoreView, now: int, i: int, j: int, path: Seq<char>)
    ensures
        ({
            let top = board(s, now).top_paths_24h;
            let since = now - 86_400_000_000_000;
            let diverging = db::diverging_paths(s.diffs, since);
            &&& top.len() <= 10
            &&& top.len() == (if diverging.len() <= 10 {
                diverging.len() as int
            } else {
                10
            })
            &&& 0 <= i < j < top.len() ==> top[i].1 >= top[j].1
            &&& 0 <= i < top.len() ==> top[i].1 > 0 && top[i].1 == db::count_diffs(
                s.diffs,
                since,
                None,
                Some(top[i].0),
            ) && top[i].2 == db::count_requests(s, since, Some(top[i].0))
            &&& diverging.len() <= 10 && db::count_diffs(s.diffs, since, None, Some(path)) > 0
                ==> exists|k: int| 0 <= k < top.len() && (#[trigger] top[k]).0 == path
            &&& 0 <= i < top.len() && !(exists|k: int|
                0 <= k < top.len() && (#[trigger] top[k]).0 == path) ==> db::count_diffs(
                s.diffs,
                since,
                None,
                Some(path),
            ) <= top[i].1
        }),
{
    let since = now - DAY_NS;
    let diverging = db::diverging_paths(s.diffs, since);
    let all = db::leaderboard(s, since, diverging);
    let top = board(s, now).top_paths_24h;
    laws::diverging_paths_are_distinct(s.diffs, since);
    laws::leaderboard_ranks_by_differences(s, since, diverging);
    if 0 <= i < top.len() {
        laws::leaderboard_rows_count_their_path(s, since, diverging, i);
        assert(top[i] == all[i]);
        assert(diverging.contains(top[i].0));
    }
    if 0 <= i < j < top.len() {
        let keys = db::diff_counts(all);
        assert(keys[i] >= keys[j]);
        assert(top[i] == all[i] && top[j] == all[j]);
    }
    if db::count_diffs(s.diffs, since, None, Some(path)) > 0 {
        assert(diverging.contains(path));
        let k = diverging.index_of(path);
        assert(diverging[k] == path);
        let row = db::path_counts(s, since, diverging[k]);
        assert(all.contains(row));
        let at = all.index_of(row);
        assert(all[at] == row);
        if at < top.len() {
            assert(top[at] == row);
        } else if 0 <= i < top.len() {
            let keys = db::diff_counts(all);
            assert(keys[i] >= keys[at]);
        }
    }
}

/// The scoreboard points at the last critical difference and says whether the
/// shadow is degraded.
pub proof fn scoreboard_points_at_the_last_critical(s: db::StoreView, now: int, i: int)
    ensures
        board(s, now).last_critical is Some <==> exists|k: int|
            0 <= k < s.diffs.len() && (#[trigger] s.diffs[k]).detail.severity == "critical"@,
        0 <= i < s.diffs.len() && s.diffs[i].detail.severity == "critical"@ ==> (
        board(s, now).last_critical matches Some(c) && c.1 >= s.diffs[i].detail.observed_at_ns
            && exists|k: int|
            0 <= k < s.diffs.len() && (#[trigger] s.diffs[k]).detail.severity == "critical"@
                && s.diffs[k].detail.id == c.0 && s.diffs[k].detail.observed_at_ns == c.1),
        board(s, now).shadow_degraded <==> (db::backend_row(s, "shadow"@) matches Some(row)
            && row.state == "degraded"@),
{
    laws::last_critical_exists_with_a_critical(s.diffs);
    if 0 <= i < s.diffs.len() && s.diffs[i].detail.severity == "critical"@ {
        laws::last_critical_is_the_latest(s.diffs, i);
    }
}

/// A rate is the quotient of its differences and its requests, and there is
/// none without requests.
pub proof fn rates_divide_differences_by_requests(diffs: int, requests: int)
    ensures
        requests > 0 ==> quotient(diffs, requests) == Some((diffs, requests)),
        requests <= 0 ==> quotient(diffs, requests) is None,
{
}

/// A number is written in groups of three digits: whatever stands before the
/// last comma is the number of thousands, written the same way, and what stands
/// behind it the remaining three digits.
pub proof fn numbers_are_written_in_threes(n: nat)
    ensures
        n < 1000 ==> grouped(n) == text::decimal(n),
        n >= 1000 ==> grouped(n).len() > 4 && grouped(n)[grouped(n).len() - 4] == ','
            && grouped(n).take(grouped(n).len() - 4) == grouped(n / 1000) && grouped(n).skip(
            grouped(n).len() - 3,
        ) == text::padded(n % 1000, 3),
{
    if n >= 1000 {
        three_digits(n % 1000);
        reveal_strlit(",");
        let head = grouped(n / 1000);
        let tail = text::padded(n % 1000, 3);
        grouped_is_not_empty(n / 1000);
        assert(grouped(n) == head + ","@ + tail);
        assert(grouped(n).take(grouped(n).len() - 4) =~= head);
        assert(grouped(n).skip(grouped(n).len() - 3) =~= tail);
    }
}

proof fn grouped_is_not_empty(n: nat)
    ensures
        grouped(n).len() > 0,
    decreases n,
{
    text::decimal_is_digits(n);
    if n >= 1000 {
        grouped_is_not_empty(n / 1000);
    }
}

/// A negative number is written with its sign in front of its amount.
pub proof fn negative_numbers_keep_their_sign(i: int)
    ensures
        i >= 0 ==> signed_grouped(i) == grouped(i as nat),
        i < 0 ==> signed_grouped(i) == seq!['-'] + grouped((-i) as nat),
{
    reveal_strlit("-");
    assert("-"@ =~= seq!['-']);
}

/// Each severity has its colour.
pub proof fn severities_have_their_colour(severity: Seq<char>)
    ensures
        severity == "critical"@ ==> colour(severity) == "#b00020"@,
        severity == "high"@ ==> colour(severity) == "#d35400"@,
        severity == "medium"@ ==> colour(severity) == "#b58900"@,
        severity == "low"@ ==> colour(severity) == "#888888"@,
        severity == "noise"@ ==> colour(severity) == "#cccccc"@,
        !dashboard::known_severity(severity) ==> colour(severity) == "#999999"@,
{
    laws::five_severities_differ();
}

/// The longest bar is as long as the chart is wide, and a bar is as long as its
/// share of that, but never too short to be seen.
pub proof fn bars_are_as_long_as_their_share(n: int, max: int)
    requires
        0 < n <= max,
    ensures
        bar_width(max, max) == 360,
        bar_width(n, max) == 2 || bar_width(n, max) * max <= 360 * n < (bar_width(n, max) + 1)
            * max,
        360 * n >= 2 * max ==> bar_width(n, max) * max <= 360 * n,
        bar_width(n, max) >= 2,
{
    assert(360 * max / max == 360) by (nonlinear_arith)
        requires
            max > 0,
    ;
    let share = 360 * n / max;
    assert(share * max <= 360 * n < (share + 1) * max) by (nonlinear_arith)
        requires
            share == 360 * n / max,
            max > 0,
    ;
    if 360 * n >= 2 * max {
        assert(share >= 2) by (nonlinear_arith)
            requires
                share == 360 * n / max,
                360 * n >= 2 * max,
                max > 0,
        ;
    }
}

/// The bars are measured by the largest count.
pub proof fn bars_are_measured_by_the_largest(counts: Seq<(Seq<char>, int)>)
    ensures
        largest(counts) >= 1,
        forall|i: int| 0 <= i < counts.len() ==> (#[trigger] counts[i]).1 <= largest(counts),
        largest(counts) == 1 || exists|i: int|
            0 <= i < counts.len() && (#[trigger] counts[i]).1 == largest(counts),
    decreases counts.len(),
{
    if counts.len() > 0 {
        let rest = counts.drop_last();
        bars_are_measured_by_the_largest(rest);
        largest_is_largest(counts);
        if largest(counts) == largest(rest) && largest(rest) != 1 {
            let i = choose|i: int|
                0 <= i < rest.len() && (#[trigger] rest[i]).1 == largest(rest);
            assert(counts[i].1 == largest(counts));
        } else if largest(counts) != 1 {
            assert(counts[counts.len() - 1].1 == largest(counts));
        }
    }
}

/// A window in the document: its label, its differences, its requests and its
/// rate.
pub proof fn document_shows_windows(w: WindowView, rate: json::Tree, k: Seq<char>)
    ensures
        ({
            let m = window_tree(w, rate)->Object_0;
            &&& window_tree(w, rate) is Object
            &&& m.contains_key(k) <==> k == "label"@ || k == "diffs"@ || k == "requests"@ || k == "rate"@
            &&& m["label"@] == json::Tree::Text(w.label)
            &&& m["diffs"@] == json::Tree::Number(json::int_view(w.diffs as i64))
            &&& m["requests"@] == json::Tree::Number(json::int_view(w.requests as i64))
            &&& m["rate"@] == rate
        }),
{
    let pairs = seq![
        ("label"@, json::Tree::Text(w.label)),
        ("diffs"@, json::Tree::Number(json::int_view(w.diffs as i64))),
        ("requests"@, json::Tree::Number(json::int_view(w.requests as i64))),
        ("rate"@, rate),
    ];
    reveal_strlit("label");
    reveal_strlit("diffs");
    reveal_strlit("requests");
    reveal_strlit("rate");
    assert("label"@.len() == 5 && "label"@[0] == 'l');
    assert("diffs"@.len() == 5 && "diffs"@[0] == 'd');
    assert("requests"@.len() == 8 && "requests"@[0] == 'r');
    assert("rate"@.len() == 4 && "rate"@[0] == 'r');
    assert(json::distinct_keys(pairs));
    json::members_facts(pairs);
    assert(pairs[0].0 == "label"@);
    assert(pairs[1].0 == "diffs"@);
    assert(pairs[2].0 == "requests"@);
    assert(pairs[3].0 == "rate"@);
    let m = json::members(pairs);
    assert(m.contains_key(k) <==> json::has_key(pairs, k));
}

/// A severity in the document: its name and its count.
pub proof fn document_shows_severities(c: (Seq<char>, int), k: Seq<char>)
    ensures
        ({
            let m = severity_tree(c)->Object_0;
            &&& severity_tree(c) is Object
            &&& m.contains_key(k) <==> k == "severity"@ || k == "count"@
            &&& m["severity"@] == json::Tree::Text(c.0)
            &&& m["count"@] == json::Tree::Number(json::int_view(c.1 as i64))
        }),
{
    let pairs = seq![
        ("severity"@, json::Tree::Text(c.0)),
        ("count"@, json::Tree::Number(json::int_view(c.1 as i64))),
    ];
    reveal_strlit("severity");
    reveal_strlit("count");
    assert("severity"@.len() == 8 && "severity"@[0] == 's');
    assert("count"@.len() == 5 && "count"@[0] == 'c');
    assert(json::distinct_keys(pairs));
    json::members_facts(pairs);
    assert(pairs[0].0 == "severity"@);
    assert(pairs[1].0 == "count"@);
    let m = json::members(pairs);
    assert(m.contains_key(k) <==> json::has_key(pairs, k));
}

/// A path in the document: itself, its differences, its requests and its rate.
pub proof fn document_shows_paths(p: (Seq<char>, int, int), rate: json::Tree, k: Seq<char>)
    ensures
        ({
            let m = path_tree(p, rate)->Object_0;
            &&& path_tree(p, rate) is Object
            &&& m.contains_key(k) <==> k == "path"@ || k == "diffs"@ || k == "requests"@ || k == "rate"@
            &&& m["path"@] == json::Tree::Text(p.0)
            &&& m["diffs"@] == json::Tree::Number(json::int_view(p.1 as i64))
            &&& m["requests"@] == json::Tree::Number(json::int_view(p.2 as i64))
            &&& m["rate"@] == rate
        }),
{
    let pairs = seq![
        ("path"@, json::Tree::Text(p.0)),
        ("diffs"@, json::Tree::Number(json::int_view(p.1 as i64))),
        ("requests"@, json::Tree::Number(json::int_view(p.2 as i64))),
        ("rate"@, rate),
    ];
    reveal_strlit("path");
    reveal_strlit("diffs");
    reveal_strlit("requests");
    reveal_strlit("rate");
    assert("path"@.len() == 4 && "path"@[0] == 'p');
    assert("diffs"@.len() == 5 && "diffs"@[0] == 'd');
    assert("requests"@.len() == 8 && "requests"@[0] == 'r');
    assert("rate"@.len() == 4 && "rate"@[0] == 'r');
    assert(json::distinct_keys(pairs));
    json::members_facts(pairs);
    assert(pairs[0].0 == "path"@);
    assert(pairs[1].0 == "diffs"@);
    assert(pairs[2].0 == "requests"@);
    assert(pairs[3].0 == "rate"@);
    let m = json::members(pairs);
    assert(m.contains_key(k) <==> json::has_key(pairs, k));
}

/// The last critical difference in the document: its id and when it was observed;
/// null where there is none.
pub proof fn document_shows_the_last_critical(id: int, ns: int, k: Seq<char>)
    ensures
        ({
            let m = critical_tree(Some((id, ns)))->Object_0;
            &&& critical_tree(Some((id, ns))) is Object
            &&& m.contains_key(k) <==> k == "id"@ || k == "observed_at_ns"@
            &&& m["id"@] == json::Tree::Number(json::int_view(id as i64))
            &&& critical_tree(None) == json::Tree::Null
            &&& m["observed_at_ns"@] == json::Tree::Number(json::int_view(ns as i64))
        }),
{
    let pairs = seq![
        ("id"@, json::Tree::Number(json::int_view(id as i64))),
        ("observed_at_ns"@, json::Tree::Number(json::int_view(ns as i64))),
    ];
    reveal_strlit("id");
    reveal_strlit("observed_at_ns");
    assert("id"@.len() == 2 && "id"@[0] == 'i');
    assert("observed_at_ns"@.len() == 14 && "observed_at_ns"@[0] == 'o');
    assert(json::distinct_keys(pairs));
    json::members_facts(pairs);
    assert(pairs[0].0 == "id"@);
    assert(pairs[1].0 == "observed_at_ns"@);
    let m = json::members(pairs);
    assert(m.contains_key(k) <==> json::has_key(pairs, k));
}

/// The document says what the scoreboard says: the time, both totals, whether the
/// shadow is degraded, each window with its rate, each severity, each path with
/// its rate, and the last critical difference.
#[verifier::spinoff_prover]
#[verifier::rlimit(40)]
pub proof fn document_shows_the_scoreboard(
    d: BoardView,
    window_rates: Seq<json::Tree>,
    path_rates: Seq<json::Tree>,
    i: int, k: Seq<char>)
    ensures
        ({
            let m = board_tree(d, window_rates, path_rates)->Object_0;
            &&& board_tree(d, window_rates, path_rates) is Object
            &&& m.contains_key(k) <==> k == "now_ns"@ || k == "diffs_total"@ || k == "requests_total_approx"@ || k == "shadow_degraded"@ || k == "windows"@ || k == "severity_24h"@ || k == "top_paths_24h"@ || k == "last_critical"@
            &&& m["now_ns"@] == json::Tree::Number(json::int_view(d.now_ns as i64))
            &&& m["diffs_total"@] == json::Tree::Number(json::int_view(d.diffs_total as i64))
            &&& m["requests_total_approx"@] == json::Tree::Number(json::int_view(d.requests_total_approx as i64))
            &&& m["shadow_degraded"@] == json::Tree::Bool(d.shadow_degraded)
            &&& m["windows"@] matches json::Tree::Array(items) && items.len() == d.windows.len() && (0 <= i
                < d.windows.len() ==> items[i] == window_tree(d.windows[i], window_rates[i]))
            &&& m["severity_24h"@] matches json::Tree::Array(items) && items.len() == d.severity_24h.len() && (0 <= i
                < d.severity_24h.len() ==> items[i] == severity_tree(d.severity_24h[i]))
            &&& m["top_paths_24h"@] matches json::Tree::Array(items) && items.len() == d.top_paths_24h.len() && (0 <= i
                < d.top_paths_24h.len() ==> items[i] == path_tree(d.top_paths_24h[i], path_rates[i]))
            &&& m["last_critical"@] == critical_tree(d.last_critical)
        }),
{
    let pairs = seq![
        ("now_ns"@, json::Tree::Number(json::int_view(d.now_ns as i64))),
        ("diffs_total"@, json::Tree::Number(json::int_view(d.diffs_total as i64))),
        ("requests_total_approx"@, json::Tree::Number(json::int_view(d.requests_total_approx as i64))),
        ("shadow_degraded"@, json::Tree::Bool(d.shadow_degraded)),
        ("windows"@, json::Tree::Array(window_trees(d.windows, window_rates))),
        ("severity_24h"@, json::Tree::Array(severity_trees(d.severity_24h))),
        ("top_paths_24h"@, json::Tree::Array(path_trees(d.top_paths_24h, path_rates))),
        ("last_critical"@, critical_tree(d.last_critical)),
    ];
    reveal_strlit("now_ns");
    reveal_strlit("diffs_total");
    reveal_strlit("requests_total_approx");
    reveal_strlit("shadow_degraded");
    reveal_strlit("windows");
    reveal_strlit("severity_24h");
    reveal_strlit("top_paths_24h");
    reveal_strlit("last_critical");
    assert("now_ns"@.len() == 6 && "now_ns"@[0] == 'n');
    assert("diffs_total"@.len() == 11 && "diffs_total"@[0] == 'd');
    assert("requests_total_approx"@.len() == 21 && "requests_total_approx"@[0] == 'r');
    assert("shadow_degraded"@.len() == 15 && "shadow_degraded"@[0] == 's');
    assert("windows"@.len() == 7 && "windows"@[0] == 'w');
    assert("severity_24h"@.len() == 12 && "severity_24h"@[0] == 's');
    assert("top_paths_24h"@.len() == 13 && "top_paths_24h"@[0] == 't');
    assert("last_critical"@.len() == 13 && "last_critical"@[0] == 'l');
    assert(json::distinct_keys(pairs));
    json::members_facts(pairs);
    assert(pairs[0].0 == "now_ns"@);
    assert(pairs[1].0 == "diffs_total"@);
    assert(pairs[2].0 == "requests_total_approx"@);
    assert(pairs[3].0 == "shadow_degraded"@);
    assert(pairs[4].0 == "windows"@);
    assert(pairs[5].0 == "severity_24h"@);
    assert(pairs[6].0 == "top_paths_24h"@);
    assert(pairs[7].0 == "last_critical"@);
    let m = json::members(pairs);
    assert(m.contains_key(k) <==> json::has_key(pairs, k));
}

/// A card shows its label, its value and what the value means, and is greyed out
/// where that is asked for.
pub proof fn cards_show_their_value(label: Seq<char>, val: Seq<char>, sub: Seq<char>, grey: bool)
    ensures
        card(label, val, sub, grey) == (if grey {
            "<div class=\"card degraded\">"@
        } else {
            "<div class=\"card\">"@
        }) + "<div class=\"lbl\">"@ + text::escaped(label) + "</div>"@ + "<div class=\"val\">"@
            + text::escaped(val) + "</div>"@ + "<div class=\"sub\">"@ + text::escaped(sub)
            + "</div>"@ + "</div>"@,
{
    card_tags_split();
    let open = if grey {
        "<div class=\"card degraded\">"@
    } else {
        "<div class=\"card\">"@
    };
    let head = "<div class=\"card"@ + (if grey {
        " degraded"@
    } else {
        ""@
    });
    assert(head + "\"><div class=\"lbl\">"@ =~= open + "<div class=\"lbl\">"@);
    let a = open + "<div class=\"lbl\">"@ + text::escaped(label);
    assert(a + "</div><div class=\"val\">"@ =~= a + "</div>"@ + "<div class=\"val\">"@);
    let b = a + "</div>"@ + "<div class=\"val\">"@ + text::escaped(val);
    assert(b + "</div><div class=\"sub\">"@ =~= b + "</div>"@ + "<div class=\"sub\">"@);
    let c = b + "</div>"@ + "<div class=\"sub\">"@ + text::escaped(sub);
    assert(c + "</div></div>"@ =~= c + "</div>"@ + "</div>"@);
}

proof fn card_tags_split()
    ensures
        "<div class=\"card"@ + " degraded"@ + "\"><div class=\"lbl\">"@
            == "<div class=\"card degraded\">"@ + "<div class=\"lbl\">"@,
        "<div class=\"card"@ + ""@ + "\"><div class=\"lbl\">"@ == "<div class=\"card\">"@
            + "<div class=\"lbl\">"@,
        "</div><div class=\"val\">"@ == "</div>"@ + "<div class=\"val\">"@,
        "</div><div class=\"sub\">"@ == "</div>"@ + "<div class=\"sub\">"@,
        "</div></div>"@ == "</div>"@ + "</div>"@,
{
    reveal_strlit("<div class=\"card");
    reveal_strlit(" degraded");
    reveal_strlit("");
    reveal_strlit("\"><div class=\"lbl\">");
    reveal_strlit("<div class=\"card degraded\">");
    reveal_strlit("<div class=\"card\">");
    reveal_strlit("<div class=\"lbl\">");
    reveal_strlit("</div><div class=\"val\">");
    reveal_strlit("<div class=\"val\">");
    reveal_strlit("</div><div class=\"sub\">");
    reveal_strlit("<div class=\"sub\">");
    reveal_strlit("</div></div>");
    reveal_strlit("</div>");
    assert("<div class=\"card"@ + " degraded"@ + "\"><div class=\"lbl\">"@
        =~= "<div class=\"card degraded\">"@ + "<div class=\"lbl\">"@);
    assert("<div class=\"card"@ + ""@ + "\"><div class=\"lbl\">"@ =~= "<div class=\"card\">"@
        + "<div class=\"lbl\">"@);
    assert("</div><div class=\"val\">"@ =~= "</div>"@ + "<div class=\"val\">"@);
    assert("</div><div class=\"sub\">"@ =~= "</div>"@ + "<div class=\"sub\">"@);
    assert("</div></div>"@ =~= "</div>"@ + "</div>"@);
}

/// The card of a window is a card: its label is the window's, its value the rate,
/// and below stand the differences and the requests that it comes from.
pub proof fn window_cards_show_the_rate(w: WindowView, rate: Seq<char>, grey: bool)
    ensures
        window_card(w, rate, grey) == card(
            "divergence rate · "@ + w.label,
            rate,
            signed_grouped(w.diffs) + " diffs / "@ + signed_grouped(w.requests) + " req"@,
            grey,
        ),
{
    let label = "divergence rate · "@;
    text::texts_are_escaped_one_by_one(label, w.label, ' ');
    assert(text::escaped(label) == label) by {
        reveal_strlit("divergence rate · ");
        harmless_texts_stay(label);
    }
    let head = "<div class=\"card"@ + (if grey {
        " degraded"@
    } else {
        ""@
    });
    reveal_strlit("\"><div class=\"lbl\">divergence rate · ");
    reveal_strlit("\"><div class=\"lbl\">");
    reveal_strlit("divergence rate · ");
    assert("\"><div class=\"lbl\">divergence rate · "@ =~= "\"><div class=\"lbl\">"@ + label);
    assert(head + "\"><div class=\"lbl\">divergence rate · "@ + text::escaped(w.label) =~= head
        + "\"><div class=\"lbl\">"@ + text::escaped(label + w.label));
}

proof fn harmless_texts_stay(s: Seq<char>)
    requires
        forall|i: int|
            0 <= i < s.len() ==> #[trigger] s[i] != '&' && s[i] != '<' && s[i] != '>' && s[i] != '"'
                && s[i] != '\'',
    ensures
        text::escaped(s) == s,
    decreases s.len(),
{
    if s.len() > 0 {
        let rest = s.drop_last();
        assert forall|i: int| 0 <= i < rest.len() implies #[trigger] rest[i] != '&' && rest[i]
            != '<' && rest[i] != '>' && rest[i] != '"' && rest[i] != '\'' by {
            assert(rest[i] == s[i]);
        }
        harmless_texts_stay(rest);
        assert(s[s.len() - 1] == s.last());
        assert(text::escaped(s) =~= s);
    } else {
        assert(text::escaped(s) =~= s);
    }
}

/// The row of a path has four cells: the path, its differences, its requests and
/// its rate.
pub proof fn ranked_rows_have_four_cells(p: (Seq<char>, int, int), rate: Seq<char>)
    ensures
        path_row(p, rate) == "<tr>"@ + dashboard::cells(
            seq![
                "<code>"@ + text::escaped(p.0) + "</code>"@,
                signed_grouped(p.1),
                signed_grouped(p.2),
                text::escaped(rate),
            ],
        ) + "</tr>"@,
        "<th>path</th><th>diffs</th><th>requests (approx)</th><th>rate</th>"@ == dashboard::titles(
            seq!["path"@, "diffs"@, "requests (approx)"@, "rate"@],
        ),
{
    let path = text::escaped(p.0);
    let c0 = "<code>"@ + path + "</code>"@;
    let c1 = signed_grouped(p.1);
    let c2 = signed_grouped(p.2);
    let c3 = text::escaped(rate);
    let none = Seq::<Seq<char>>::empty();
    let s1 = none.push(c0);
    let s2 = s1.push(c1);
    let s3 = s2.push(c2);
    let s4 = s3.push(c3);
    assert(s4 =~= seq![c0, c1, c2, c3]);
    dashboard::cells_are_put_behind(none, c0);
    dashboard::cells_are_put_behind(s1, c1);
    dashboard::cells_are_put_behind(s2, c2);
    dashboard::cells_are_put_behind(s3, c3);
    reveal_strlit("<td><code>");
    reveal_strlit("</code></td>");
    reveal_strlit("<td>");
    reveal_strlit("<code>");
    reveal_strlit("</code>");
    reveal_strlit("</td>");
    let td = "<td>"@;
    let end = "</td>"@;
    assert("<td><code>"@ =~= td + "<code>"@);
    assert("</code></td>"@ =~= "</code>"@ + end);
    let tr = "<tr>"@;
    assert(tr + "<td><code>"@ + path + "</code></td>"@ =~= tr + (Seq::<char>::empty() + td + c0
        + end));
    let r1 = dashboard::cells(s1);
    assert(tr + r1 + td + c1 + end =~= tr + (r1 + td + c1 + end));
    let r2 = dashboard::cells(s2);
    assert(tr + r2 + td + c2 + end =~= tr + (r2 + td + c2 + end));
    let r3 = dashboard::cells(s3);
    assert(tr + r3 + td + c3 + end =~= tr + (r3 + td + c3 + end));
    ranked_rows_have_four_titles();
}

proof fn ranked_rows_have_four_titles()
    ensures
        "<th>path</th><th>diffs</th><th>requests (approx)</th><th>rate</th>"@ == dashboard::titles(
            seq!["path"@, "diffs"@, "requests (approx)"@, "rate"@],
        ),
{
    let none = Seq::<Seq<char>>::empty();
    let s1 = none.push("path"@);
    let s2 = s1.push("diffs"@);
    let s3 = s2.push("requests (approx)"@);
    let s4 = s3.push("rate"@);
    assert(s4 =~= seq!["path"@, "diffs"@, "requests (approx)"@, "rate"@]);
    dashboard::titles_are_put_behind(none, "path"@);
    dashboard::titles_are_put_behind(s1, "diffs"@);
    dashboard::titles_are_put_behind(s2, "requests (approx)"@);
    dashboard::titles_are_put_behind(s3, "rate"@);
    reveal_strlit("<th>path</th><th>diffs</th><th>requests (approx)</th><th>rate</th>");
    reveal_strlit("<th>");
    reveal_strlit("</th>");
    reveal_strlit("path");
    reveal_strlit("diffs");
    reveal_strlit("requests (approx)");
    reveal_strlit("rate");
    assert(dashboard::titles(s4)
        =~= "<th>path</th><th>diffs</th><th>requests (approx)</th><th>rate</th>"@);
}

/// A row of the chart names its severity and its count at the same height, and
/// draws a bar of that severity's colour exactly where there is something to
/// count.
#[verifier::spinoff_prover]
#[verifier::rlimit(40)]
pub proof fn chart_rows_show_their_count(i: int, severity: Seq<char>, n: int, max: int)
    ensures
        ({
            let row = chart_row(i, severity, n, max);
            let at = |x: Seq<char>, said: Seq<char>|
                "<text x=\""@ + x + "\" y=\""@ + text::signed_decimal(30 * i + 20)
                    + "\" fill=\"currentColor\">"@ + said + "</text>"@;
            let drawn = "<rect x=\"80\" y=\""@ + text::signed_decimal(30 * i + 4) + "\" width=\""@
                + text::signed_decimal(bar_width(n, max)) + "\" height=\"20\" fill=\""@ + colour(
                severity,
            ) + "\" rx=\"2\"/>"@;
            row == at("0"@, text::escaped(severity)) + (if n > 0 {
                drawn
            } else {
                Seq::empty()
            }) + at("448"@, text::signed_decimal(n))
        }),
{
    reveal_strlit("<text x=\"0\" y=\"");
    reveal_strlit("<text x=\"448\" y=\"");
    reveal_strlit("<text x=\"");
    reveal_strlit("0");
    reveal_strlit("448");
    reveal_strlit("\" y=\"");
    reveal_strlit("");
    assert("<text x=\"0\" y=\""@ =~= "<text x=\""@ + "0"@ + "\" y=\""@);
    assert("<text x=\"448\" y=\""@ =~= "<text x=\""@ + "448"@ + "\" y=\""@);
    assert(""@ =~= Seq::<char>::empty());
    let y = text::signed_decimal(30 * i + 20);
    let fill = "\" fill=\"currentColor\">"@;
    let end = "</text>"@;
    let upto = "<text x=\"0\" y=\""@ + y + fill + text::escaped(severity) + end + bar(
        i,
        severity,
        n,
        max,
    );
    let open = "<text x=\"448\" y=\""@;
    let num = text::signed_decimal(n);
    assert(upto + open + y + fill + num + end =~= upto + (open + y + fill + num + end));
}

/// The chart has a row for each count, in their order, all measured by the
/// largest.
pub proof fn chart_rows_stand_in_order(
    counts: Seq<(Seq<char>, int)>,
    c: (Seq<char>, int),
    max: int,
)
    ensures
        chart_rows(counts.push(c), max) == chart_rows(counts, max) + chart_row(
            counts.len() as int,
            c.0,
            c.1,
            max,
        ),
        chart_rows(Seq::empty(), max).len() == 0,
        text::holds(chart(counts), chart_rows(counts, largest(counts)) + "</svg>"@),
{
    broadcast use text::longer_texts_hold_more;

    assert(counts.push(c).drop_last() =~= counts);
    let rows = chart_rows(counts, largest(counts));
    let open = "<svg xmlns=\"http://www.w3.org/2000/svg\" viewBox=\"0 0 516 158\" width=\"100%\" style=\"max-width:516px;height:auto;font:12px ui-monospace,SFMono-Regular,Menlo,monospace\" role=\"img\" aria-label=\"severity breakdown bar chart\">"@;
    assert(open + rows + "</svg>"@ =~= open + (rows + "</svg>"@));
    text::texts_hold_themselves(rows + "</svg>"@);
    assert(text::holds(open + (rows + "</svg>"@), rows + "</svg>"@));
}

/// The rows of the paths and the cards of the windows stand in their order, each
/// with its own rate.
pub proof fn rates_stand_with_their_rows(
    paths: Seq<(Seq<char>, int, int)>,
    windows: Seq<WindowView>,
    rates: Seq<Seq<char>>,
    p: (Seq<char>, int, int),
    w: WindowView,
    grey: bool,
)
    ensures
        path_rows(paths.push(p), rates) == path_rows(paths, rates) + path_row(
            p,
            rates[paths.len() as int],
        ),
        path_rows(Seq::empty(), rates).len() == 0,
        window_cards(windows.push(w), rates, grey) == window_cards(windows, rates, grey)
            + window_card(w, rates[windows.len() as int], grey),
        window_cards(Seq::empty(), rates, grey).len() == 0,
{
    assert(paths.push(p).drop_last() =~= paths);
    assert(windows.push(w).drop_last() =~= windows);
}

/// The page shows what the scoreboard says: both totals, the windows with their
/// rates, greyed out while the shadow is degraded, the chart of the day, the
/// leaderboard, and the last critical difference.
#[verifier::spinoff_prover]
#[verifier::rlimit(40)]
pub proof fn scoreboard_pages_show_the_scoreboard(
    d: BoardView,
    window_rates: Seq<Seq<char>>,
    path_rates: Seq<Seq<char>>,
)
    ensures
        ({
            let page = board_page(d, window_rates, path_rates);
            &&& text::holds(
                page,
                card(
                    "total requests (approx)"@,
                    signed_grouped(d.requests_total_approx),
                    "diffs + writes; see footer"@,
                    false,
                ),
            )
            &&& text::holds(
                page,
                card(
                    "total diffs"@,
                    signed_grouped(d.diffs_total),
                    "all-time recorded divergences"@,
                    false,
                ),
            )
            &&& text::holds(page, window_cards(d.windows, window_rates, d.shadow_degraded))
            &&& text::holds(page, chart(d.severity_24h))
            &&& d.top_paths_24h.len() > 0 ==> text::holds(
                page,
                path_rows(d.top_paths_24h, path_rates) + "</tbody></table>"@,
            )
            &&& d.top_paths_24h.len() == 0 ==> text::holds(
                page,
                "<div class=\"empty\">no diffs in the last 24h.</div>"@,
            )
            &&& d.last_critical matches Some((id, ns)) ==> text::holds(
                page,
                "<a href=\"/diffs/"@ + text::signed_decimal(id) + "\">view diff #"@
                    + text::signed_decimal(id) + "</a></div></div>"@,
            ) && text::holds(page, text::escaped(calendar::stamp(ns)))
            &&& d.last_critical is None ==> text::holds(
                page,
                "<div class=\"empty\">no critical diffs ever recorded.</div>"@,
            )
            &&& d.shadow_degraded ==> text::holds(
                page,
                "<div class=\"banner\">shadow backend is currently <strong>degraded</strong> (K13). Divergence-rate panels are greyed out — they aren't meaningful while writes are being dropped.</div>"@,
            )
            &&& text::holds(page, text::escaped(calendar::stamp(d.now_ns)))
        }),
{
    let a5 = card(
        "total requests (approx)"@,
        signed_grouped(d.requests_total_approx),
        "diffs + writes; see footer"@,
        false,
    );
    let a6 = card(
        "total diffs"@,
        signed_grouped(d.diffs_total),
        "all-time recorded divergences"@,
        false,
    );
    let a7 = window_cards(d.windows, window_rates, d.shadow_degraded);
    let b2 = chart(d.severity_24h);
    text::texts_hold_themselves(a5);
    text::texts_hold_themselves(a6);
    text::texts_hold_themselves(a7);
    text::texts_hold_themselves(b2);
    page_holds_its_parts(d, window_rates, path_rates, a5);
    page_holds_its_parts(d, window_rates, path_rates, a6);
    page_holds_its_parts(d, window_rates, path_rates, a7);
    page_holds_its_parts(d, window_rates, path_rates, b2);
    table_holds_its_rows(d.top_paths_24h, path_rates);
    critical_card_holds_its_link(d.last_critical);
    head_holds_its_banner();
    foot_holds_the_time(d.now_ns);
    if d.top_paths_24h.len() > 0 {
        page_holds_its_parts(
            d,
            window_rates,
            path_rates,
            path_rows(d.top_paths_24h, path_rates) + "</tbody></table>"@,
        );
    } else {
        page_holds_its_parts(
            d,
            window_rates,
            path_rates,
            "<div class=\"empty\">no diffs in the last 24h.</div>"@,
        );
    }
    if let Some((id, ns)) = d.last_critical {
        page_holds_its_parts(
            d,
            window_rates,
            path_rates,
            "<a href=\"/diffs/"@ + text::signed_decimal(id) + "\">view diff #"@
                + text::signed_decimal(id) + "</a></div></div>"@,
        );
        page_holds_its_parts(d, window_rates, path_rates, text::escaped(calendar::stamp(ns)));
    } else {
        page_holds_its_parts(
            d,
            window_rates,
            path_rates,
            "<div class=\"empty\">no critical diffs ever recorded.</div>"@,
        );
    }
    if d.shadow_degraded {
        page_holds_its_parts(
            d,
            window_rates,
            path_rates,
            "<div class=\"banner\">shadow backend is currently <strong>degraded</strong> (K13). Divergence-rate panels are greyed out — they aren't meaningful while writes are being dropped.</div>"@,
        );
    }
    page_holds_its_parts(d, window_rates, path_rates, text::escaped(calendar::stamp(d.now_ns)));
}

proof fn page_holds_its_parts(
    d: BoardView,
    window_rates: Seq<Seq<char>>,
    path_rates: Seq<Seq<char>>,
    part: Seq<char>,
)
    requires
        text::holds(board_head(d.shadow_degraded), part) || text::holds(
            card(
                "total requests (approx)"@,
                signed_grouped(d.requests_total_approx),
                "diffs + writes; see footer"@,
                false,
            ),
            part,
        ) || text::holds(
            card(
                "total diffs"@,
                signed_grouped(d.diffs_total),
                "all-time recorded divergences"@,
                false,
            ),
            part,
        ) || text::holds(window_cards(d.windows, window_rates, d.shadow_degraded), part)
            || text::holds(chart(d.severity_24h), part) || text::holds(
            path_table(d.top_paths_24h, path_rates),
            part,
        ) || text::holds(critical_card(d.last_critical), part) || text::holds(
            board_foot(d.now_ns),
            part,
        ),
    ensures
        text::holds(board_page(d, window_rates, path_rates), part),
{
    long_texts_hold_their_parts(
        seq![
            html::page_top("scoreboard"@, STYLE@),
            board_head(d.shadow_degraded),
            "<h2>at a glance</h2>"@,
            "<div class=\"cards\">"@,
            card(
                "total requests (approx)"@,
                signed_grouped(d.requests_total_approx),
                "diffs + writes; see footer"@,
                false,
            ),
            card(
                "total diffs"@,
                signed_grouped(d.diffs_total),
                "all-time recorded divergences"@,
                false,
            ),
            window_cards(d.windows, window_rates, d.shadow_degraded),
            "</div>"@,
            "<h2>severity breakdown · last 24h</h2>"@,
            "<div class=\"svg-wrap\">"@,
            chart(d.severity_24h),
            "</div>"@,
            "<h2>top diverging paths · last 24h</h2>"@,
            path_table(d.top_paths_24h, path_rates),
            "<h2>last critical diff</h2>"@,
            critical_card(d.last_critical),
            board_foot(d.now_ns),
            html::page_end(),
        ],
        part,
    );
}

proof fn long_texts_hold_their_parts(x: Seq<Seq<char>>, part: Seq<char>)
    requires
        x.len() == 18,
    ensures
        (exists|i: int| 0 <= i < 18 && text::holds(#[trigger] x[i], part)) ==> text::holds(
            x[0] + x[1] + x[2] + x[3] + x[4] + x[5] + x[6] + x[7] + x[8] + x[9] + x[10] + x[11]
                + x[12] + x[13] + x[14] + x[15] + x[16] + x[17],
            part,
        ),
{
    parts_stay_in_the_whole(x, part);
    assert(x.take(18) =~= x);
    assert(joined(x.take(1)) == x[0]);
    join_one_more(x, 2);
    join_one_more(x, 3);
    join_one_more(x, 4);
    join_one_more(x, 5);
    join_one_more(x, 6);
    join_one_more(x, 7);
    join_one_more(x, 8);
    join_one_more(x, 9);
    join_one_more(x, 10);
    join_one_more(x, 11);
    join_one_more(x, 12);
    join_one_more(x, 13);
    join_one_more(x, 14);
    join_one_more(x, 15);
    join_one_more(x, 16);
    join_one_more(x, 17);
    join_one_more(x, 18);
}

proof fn join_one_more(x: Seq<Seq<char>>, k: int)
    requires
        2 <= k <= x.len(),
    ensures
        joined(x.take(k)) == joined(x.take(k - 1)) + x[k - 1],
{
    assert(x.take(k).drop_last() =~= x.take(k - 1));
}

spec fn joined(x: Seq<Seq<char>>) -> Seq<char>
    decreases x.len(),
{
    if x.len() == 0 {
        Seq::empty()
    } else if x.len() == 1 {
        x[0]
    } else {
        joined(x.drop_last()) + x.last()
    }
}

proof fn parts_stay_in_the_whole(x: Seq<Seq<char>>, part: Seq<char>)
    ensures
        (exists|i: int| 0 <= i < x.len() && text::holds(#[trigger] x[i], part)) ==> text::holds(
            joined(x),
            part,
        ),
    decreases x.len(),
{
    if exists|i: int| 0 <= i < x.len() && text::holds(#[trigger] x[i], part) {
        let i = choose|i: int| 0 <= i < x.len() && text::holds(#[trigger] x[i], part);
        if x.len() > 1 {
            let rest = x.drop_last();
            if i < rest.len() {
                assert(text::holds(rest[i], part));
                parts_stay_in_the_whole(rest, part);
            }
            text::longer_texts_hold_more(joined(rest), x.last(), part);
        }
    }
}

proof fn table_holds_its_rows(paths: Seq<(Seq<char>, int, int)>, rates: Seq<Seq<char>>)
    ensures
        paths.len() > 0 ==> text::holds(
            path_table(paths, rates),
            path_rows(paths, rates) + "</tbody></table>"@,
        ),
        paths.len() == 0 ==> text::holds(
            path_table(paths, rates),
            "<div class=\"empty\">no diffs in the last 24h.</div>"@,
        ),
{
    if paths.len() > 0 {
        let rows = path_rows(paths, rates);
        let open = "<table><thead><tr>"@
            + "<th>path</th><th>diffs</th><th>requests (approx)</th><th>rate</th>"@
            + "</tr></thead><tbody>"@;
        let tail = rows + "</tbody></table>"@;
        assert(path_table(paths, rates) =~= open + tail);
        text::texts_hold_themselves(tail);
        text::longer_texts_hold_more(open, tail, tail);
    } else {
        text::texts_hold_themselves(path_table(paths, rates));
    }
}

proof fn critical_card_holds_its_link(c: Option<(int, int)>)
    ensures
        c matches Some((id, ns)) ==> text::holds(
            critical_card(c),
            "<a href=\"/diffs/"@ + text::signed_decimal(id) + "\">view diff #"@
                + text::signed_decimal(id) + "</a></div></div>"@,
        ) && text::holds(critical_card(c), text::escaped(calendar::stamp(ns))),
        c is None ==> text::holds(
            critical_card(c),
            "<div class=\"empty\">no critical diffs ever recorded.</div>"@,
        ),
{
    if let Some((id, ns)) = c {
        let n = text::signed_decimal(id);
        let when = text::escaped(calendar::stamp(ns));
        let link = "<a href=\"/diffs/"@ + n + "\">view diff #"@ + n + "</a></div></div>"@;
        let c0 = "<div class=\"card\"><div class=\"lbl\">observed</div>"@
            + "<div class=\"val\"><code>"@;
        let c1 = c0 + when;
        reveal_strlit("</code></div><div class=\"sub\"><a href=\"/diffs/");
        reveal_strlit("</code></div><div class=\"sub\">");
        reveal_strlit("<a href=\"/diffs/");
        assert("</code></div><div class=\"sub\"><a href=\"/diffs/"@
            =~= "</code></div><div class=\"sub\">"@ + "<a href=\"/diffs/"@);
        let c2 = c1 + "</code></div><div class=\"sub\">"@;
        assert(critical_card(c) =~= c2 + link);
        text::texts_hold_themselves(link);
        text::texts_hold_themselves(when);
        text::longer_texts_hold_more(c2, link, link);
        text::longer_texts_hold_more(c0, when, when);
        text::longer_texts_hold_more(c1, "</code></div><div class=\"sub\">"@, when);
        text::longer_texts_hold_more(c2, link, when);
    } else {
        text::texts_hold_themselves(critical_card(c));
    }
}

proof fn head_holds_its_banner()
    ensures
        text::holds(
            board_head(true),
            "<div class=\"banner\">shadow backend is currently <strong>degraded</strong> (K13). Divergence-rate panels are greyed out — they aren't meaningful while writes are being dropped.</div>"@,
        ),
{
    let banner = "<div class=\"banner\">shadow backend is currently <strong>degraded</strong> (K13). Divergence-rate panels are greyed out — they aren't meaningful while writes are being dropped.</div>"@;
    let nav = "<header><h1>diffsplitter — conformance scoreboard</h1>"@ + "<nav>"@
        + "<a href=\"/scoreboard\">scoreboard</a>"@ + "<a href=\"/diffs\">diffs</a>"@
        + "<a href=\"/scoreboard.json\">json</a>"@ + "<a href=\"/metrics\">metrics</a>"@
        + "</nav></header>"@;
    text::texts_hold_themselves(banner);
    text::longer_texts_hold_more(nav, banner, banner);
}

proof fn foot_holds_the_time(now: int)
    ensures
        text::holds(board_foot(now), text::escaped(calendar::stamp(now))),
{
    let when = text::escaped(calendar::stamp(now));
    let note = "\"requests (approx)\" = diffs + queued writes + failed writes — successful writes are not retained, so this undercounts slightly. The resulting rate is conservative (overstates divergence rather than hiding it)."@;
    let f1 = "<footer>page generated at <code>"@ + when;
    text::texts_hold_themselves(when);
    text::longer_texts_hold_more("<footer>page generated at <code>"@, when, when);
    text::longer_texts_hold_more(f1, "</code>. "@, when);
    text::longer_texts_hold_more(f1 + "</code>. "@, note, when);
    text::longer_texts_hold_more(f1 + "</code>. "@ + note, "</footer>"@, when);
}

/// The banner stands on the page only while the shadow is degraded.
pub proof fn banner_stands_only_while_degraded(shadow_degraded: bool)
    ensures
        board_head(true).len() > board_head(false).len(),
        board_head(false).is_prefix_of(board_head(true)),
        !shadow_degraded ==> board_head(shadow_degraded) == board_head(false),
{
    reveal_strlit(
        "<div class=\"banner\">shadow backend is currently <strong>degraded</strong> (K13). Divergence-rate panels are greyed out — they aren't meaningful while writes are being dropped.</div>",
    );
    reveal_strlit("");
}

/// The numbers of the scoreboard are seen as they are.
pub proof fn scoreboards_are_seen_whole(w: WindowStats, d: ScoreboardData, i: int)
    ensures
        w@.label == w.label@ && w@.diffs == w.diffs && w@.requests == w.requests,
        d@.now_ns == d.now_ns && d@.diffs_total == d.diffs_total && d@.requests_total_approx
            == d.requests_total_approx && d@.shadow_degraded == d.shadow_degraded,
        d@.windows.len() == d.windows.len(),
        0 <= i < d.windows.len() ==> d@.windows[i] == d.windows@[i]@,
        0 <= i < 5 ==> d@.severity_24h[i] == (d.severity_24h@[i].0@, d.severity_24h@[i].1 as int),
        d@.top_paths_24h.len() == d.top_paths_24h.len(),
        0 <= i < d.top_paths_24h.len() ==> d@.top_paths_24h[i] == (
            d.top_paths_24h@[i].0@,
            d.top_paths_24h@[i].1 as int,
            d.top_paths_24h@[i].2 as int,
        ),
        d@.last_critical is Some <==> d.last_critical is Some,
        d.last_critical matches Some((id, ns)) ==> d@.last_critical == Some((id as int, ns as int)),
{
}

/// Counts can be drawn as long as they are no larger than 25 quadrillion.
pub proof fn ordinary_counts_can_be_drawn(counts: Seq<(Seq<char>, int)>)
    requires
        forall|i: int|
            0 <= i < counts.len() ==> 0 <= (#[trigger] counts[i]).1 <= 25_000_000_000_000_000,
    ensures
        drawable(counts),
{
}

} // verus!
