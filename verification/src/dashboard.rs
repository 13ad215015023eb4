//! The pages and the document that show recorded differences.
//!
//! A listing shows the latest differences, filtered by severity and by date. A
//! difference has a page of its own with both bodies side by side. Differences
//! that a dropped write explains are shown greyed out.
use crate::calendar;
use crate::db;
use crate::db::{DiffDetail, DiffRow, Store};
use crate::html;
use crate::html::Reply;
use crate::json;
use crate::json::Json;
#[allow(unused_imports)]
use crate::laws;
use crate::text;
use vstd::prelude::*;

verus! {

broadcast use vstd::string::group_string_axioms;

/// What a listing is asked for.
#[derive(Clone, Debug)]
pub struct ListQuery {
    /// Only differences of this severity.
    pub severity: Option<String>,
    /// Only differences from this date on, as `YYYY-MM-DD` in UTC.
    pub since: Option<String>,
}

pub struct ListQueryView {
    pub severity: Option<Seq<char>>,
    pub since: Option<Seq<char>>,
}

impl View for ListQuery {
    type V = ListQueryView;

    open spec fn view(&self) -> ListQueryView {
        ListQueryView { severity: db::opt_text(self.severity), since: db::opt_text(self.since) }
    }
}

impl Default for ListQuery {
    fn default() -> (r: ListQuery)
        ensures
            r@ == (ListQueryView { severity: None, since: None }),
    {
        ListQuery { severity: None, since: None }
    }
}

/// The number of rows that a listing shows at most.
pub const LIMIT: i64 = 100;

// ---------------------------------------------------------------------------
// Filters

/// Whether a severity is one of the five.
pub open spec fn known_severity(s: Seq<char>) -> bool {
    s == "critical"@ || s == "high"@ || s == "medium"@ || s == "low"@ || s == "noise"@
}

fn is_known_severity(s: &str) -> (r: bool)
    ensures
        r == known_severity(s@),
{
    text::same_text(s, "critical") || text::same_text(s, "high") || text::same_text(s, "medium")
        || text::same_text(s, "low") || text::same_text(s, "noise")
}

/// A filter that is left empty is none.
pub open spec fn filled(o: Option<Seq<char>>) -> Option<Seq<char>> {
    match o {
        Some(s) => if s.len() == 0 {
            None
        } else {
            Some(s)
        },
        None => None,
    }
}

pub open spec fn bad_severity(s: Seq<char>) -> Seq<char> {
    "invalid severity `"@ + s + "`; want one of critical|high|medium|low|noise"@
}

pub open spec fn bad_since(s: Seq<char>) -> Seq<char> {
    "invalid since `"@ + s + "`; want YYYY-MM-DD"@
}

/// What filters ask for, or the message that rejects them.
pub open spec fn filters(q: ListQueryView) -> Result<
    (Option<Seq<char>>, Option<int>),
    Seq<char>,
> {
    let severity = filled(q.severity);
    let since = filled(q.since);
    if severity is Some && !known_severity(severity->0) {
        Err(bad_severity(severity->0))
    } else if since is Some && calendar::date_ns(since->0) is None {
        Err(bad_since(since->0))
    } else {
        Ok(
            (
                severity,
                match since {
                    Some(s) => calendar::date_ns(s),
                    None => None,
                },
            ),
        )
    }
}

pub open spec fn opt_int(o: Option<i64>) -> Option<int> {
    match o {
        Some(i) => Some(i as int),
        None => None,
    }
}

/// Reads the filters of a listing. The error is a status and a message.
pub fn parse_filters(q: &ListQuery) -> (r: Result<(Option<String>, Option<i64>), (u16, String)>)
    ensures
        r is Ok <==> filters(q@) is Ok,
        r matches Ok(f) ==> (db::opt_text(f.0), opt_int(f.1)) == filters(q@)->Ok_0,
        r matches Err(e) ==> e.0 == 400 && e.1@ == filters(q@)->Err_0,
{
    let severity: Option<String> = match &q.severity {
        Some(s) => if s.as_str().is_empty() {
            None
        } else if is_known_severity(s.as_str()) {
            Some(s.clone())
        } else {
            let mut m = "invalid severity `".to_owned();
            m.append(s.as_str());
            m.append("`; want one of critical|high|medium|low|noise");
            return Err((400, m));
        },
        None => None,
    };
    let since: Option<i64> = match &q.since {
        Some(s) => if s.as_str().is_empty() {
            None
        } else {
            match calendar::parse_date_to_ns(s.as_str()) {
                Some(ns) => Some(ns),
                None => {
                    let mut m = "invalid since `".to_owned();
                    m.append(s.as_str());
                    m.append("`; want YYYY-MM-DD");
                    return Err((400, m));
                },
            }
        },
        None => None,
    };
    Ok((severity, since))
}

// ---------------------------------------------------------------------------
// The look of the pages

pub const STYLE: &'static str = r#"
:root { color-scheme: light dark; }
body { font: 14px/1.4 -apple-system, BlinkMacSystemFont, "Segoe UI", system-ui, sans-serif;
       margin: 0; padding: 1rem; background: #fafafa; color: #111; }
h1 { font-size: 1.2rem; margin: 0 0 .5rem 0; }
header { display: flex; align-items: baseline; gap: 1rem; flex-wrap: wrap;
         border-bottom: 1px solid #ddd; padding-bottom: .5rem; margin-bottom: .75rem; }
header nav a { color: #06c; text-decoration: none; margin-right: .5rem; }
form.filters { display: flex; gap: .5rem; align-items: center; flex-wrap: wrap; margin: .5rem 0; }
form.filters label { font-size: 12px; color: #555; }
form.filters input, form.filters select { font: inherit; padding: 2px 4px; }
table { width: 100%; border-collapse: collapse; background: #fff;
        box-shadow: 0 1px 2px rgba(0,0,0,0.04); }
th, td { text-align: left; padding: 6px 8px; border-bottom: 1px solid #eee;
         font-variant-numeric: tabular-nums; }
th { background: #f3f3f3; font-weight: 600; font-size: 12px;
     text-transform: uppercase; letter-spacing: .04em; color: #555; }
tr.degraded td { color: #888; background: #f5f5f5; font-style: italic; }
tr.degraded td:first-child::after { content: " (degraded)"; color: #c60; font-style: normal; font-size: 11px; }
.sev { display: inline-block; padding: 1px 6px; border-radius: 3px; font-size: 11px;
       font-weight: 600; text-transform: uppercase; }
.sev-critical { background: #b00020; color: #fff; }
.sev-high     { background: #d35400; color: #fff; }
.sev-medium   { background: #b58900; color: #fff; }
.sev-low      { background: #888;    color: #fff; }
.sev-noise    { background: #ddd;    color: #333; }
code, pre { font-family: ui-monospace, SFMono-Regular, Menlo, monospace; font-size: 12px; }
.split { display: grid; grid-template-columns: 1fr 1fr; gap: 1rem; margin-top: 1rem; }
.split section { background: #fff; padding: .75rem; border: 1px solid #ddd;
                 box-shadow: 0 1px 2px rgba(0,0,0,0.04); overflow-x: auto; }
.split h2 { font-size: 1rem; margin: 0 0 .5rem 0; }
.split pre { white-space: pre-wrap; word-break: break-word; max-height: 60vh; overflow: auto;
             margin: 0; background: #fafafa; padding: .5rem; border: 1px solid #eee; }
.empty { padding: 2rem; text-align: center; color: #777; }
footer { margin-top: 1rem; font-size: 12px; color: #777; }
@media (prefers-color-scheme: dark) {
  body { background: #181818; color: #ddd; }
  header { border-color: #333; }
  table, .split section { background: #222; box-shadow: none; border-color: #333; }
  th { background: #2a2a2a; color: #aaa; }
  th, td { border-color: #333; }
  tr.degraded td { background: #1f1f1f; color: #777; }
  .split pre { background: #181818; border-color: #333; }
  header nav a { color: #6cf; }
  form.filters label { color: #aaa; }
}
"#;

// ---------------------------------------------------------------------------
// The listing

/// One choice of the severity filter.
pub open spec fn option_tag(severity: Seq<char>, chosen: Option<Seq<char>>) -> Seq<char> {
    "<option value=\""@ + text::escaped(severity) + "\""@ + (if chosen == Some(severity) {
        " selected"@
    } else {
        ""@
    }) + ">"@ + text::escaped(severity) + "</option>"@
}

fn render_option(severity: &str, chosen: &Option<String>) -> (s: String)
    ensures
        s@ == option_tag(severity@, db::opt_text(*chosen)),
{
    let selected: bool = match chosen {
        Some(c) => text::same_text(c.as_str(), severity),
        None => false,
    };
    let name = text::html_escape(severity);
    let mut s = "<option value=\"".to_owned();
    s.append(name.as_str());
    s.append("\"");
    s.append(if selected {
        " selected"
    } else {
        ""
    });
    s.append(">");
    s.append(name.as_str());
    s.append("</option>");
    s
}

/// The heading of the listing and its filters.
pub open spec fn listing_head(q: ListQueryView) -> Seq<char> {
    "<header><h1>diffsplitter — diffs</h1>"@ + "<nav><a href=\"/diffs\">all</a>"@
        + "<a href=\"/diffs.json\">json</a>"@ + "<a href=\"/metrics\">metrics</a></nav></header>"@
        + "<form class=\"filters\" method=\"GET\" action=\"/diffs\">"@ + "<label>severity "@
        + "<select name=\"severity\">"@ + "<option value=\"\">(any)</option>"@ + option_tag(
        "critical"@,
        q.severity,
    ) + option_tag("high"@, q.severity) + option_tag("medium"@, q.severity) + option_tag(
        "low"@,
        q.severity,
    ) + option_tag("noise"@, q.severity) + "</select></label>"@
        + "<label>since (UTC date) <input type=\"date\" name=\"since\" value=\""@ + text::escaped(
        match q.since {
            Some(s) => s,
            None => ""@,
        },
    ) + "\"></label>"@ + "<button type=\"submit\">apply</button>"@ + "</form>"@
}

fn render_listing_head(q: &ListQuery) -> (s: String)
    ensures
        s@ == listing_head(q@),
{
    let mut s = "<header><h1>diffsplitter — diffs</h1>".to_owned();
    s.append("<nav><a href=\"/diffs\">all</a>");
    s.append("<a href=\"/diffs.json\">json</a>");
    s.append("<a href=\"/metrics\">metrics</a></nav></header>");
    s.append("<form class=\"filters\" method=\"GET\" action=\"/diffs\">");
    s.append("<label>severity ");
    s.append("<select name=\"severity\">");
    s.append("<option value=\"\">(any)</option>");
    s.append(render_option("critical", &q.severity).as_str());
    s.append(render_option("high", &q.severity).as_str());
    s.append(render_option("medium", &q.severity).as_str());
    s.append(render_option("low", &q.severity).as_str());
    s.append(render_option("noise", &q.severity).as_str());
    s.append("</select></label>");
    s.append("<label>since (UTC date) <input type=\"date\" name=\"since\" value=\"");
    let since: &str = match &q.since {
        Some(d) => d.as_str(),
        None => "",
    };
    s.append(text::html_escape(since).as_str());
    s.append("\"></label>");
    s.append("<button type=\"submit\">apply</button>");
    s.append("</form>");
    s
}

/// A status in a table cell.
pub open spec fn status_cell(status: Option<i64>) -> Seq<char> {
    match status {
        Some(n) => "<code>"@ + text::signed_decimal(n as int) + "</code>"@,
        None => "<code>—</code>"@,
    }
}

/// A status as it stands in a table cell.
pub fn opt_status(v: Option<i64>) -> (s: String)
    ensures
        s@ == status_cell(v),
{
    match v {
        Some(n) => {
            let mut s = "<code>".to_owned();
            s.append(text::i64_text(n).as_str());
            s.append("</code>");
            s
        },
        None => "<code>—</code>".to_owned(),
    }
}

/// The cells of the listing for one difference.
pub open spec fn listing_cells(r: db::DiffRowView) -> Seq<char> {
    "<td><code>"@ + text::escaped(calendar::stamp(r.observed_at_ns)) + "</code></td>"@ + "<td>"@
        + text::escaped(r.method) + "</td>"@ + "<td><code>"@ + text::escaped(r.path)
        + "</code></td>"@ + "<td>"@ + status_cell(r.primary_status) + "</td>"@ + "<td>"@
        + status_cell(r.shadow_status) + "</td>"@ + "<td><span class=\"sev sev-"@ + text::escaped(
        r.severity,
    ) + "\">"@ + text::escaped(r.severity) + "</span></td>"@ + "<td><a href=\"/diffs/"@
        + text::signed_decimal(r.id) + "\">view</a></td>"@
}

fn render_listing_cells(r: &DiffRow) -> (s: String)
    ensures
        s@ == listing_cells(r@),
{
    let severity = text::html_escape(r.severity.as_str());
    let mut s = "<td><code>".to_owned();
    s.append(text::html_escape(calendar::format_ns(r.observed_at_ns).as_str()).as_str());
    s.append("</code></td>");
    s.append("<td>");
    s.append(text::html_escape(r.method.as_str()).as_str());
    s.append("</td>");
    s.append("<td><code>");
    s.append(text::html_escape(r.path.as_str()).as_str());
    s.append("</code></td>");
    s.append("<td>");
    s.append(opt_status(r.primary_status).as_str());
    s.append("</td>");
    s.append("<td>");
    s.append(opt_status(r.shadow_status).as_str());
    s.append("</td>");
    s.append("<td><span class=\"sev sev-");
    s.append(severity.as_str());
    s.append("\">");
    s.append(severity.as_str());
    s.append("</span></td>");
    s.append("<td><a href=\"/diffs/");
    s.append(text::i64_text(r.id).as_str());
    s.append("\">view</a></td>");
    s
}

/// The row of the listing for one difference. It is greyed out where a dropped
/// write explains the difference.
pub open spec fn listing_row(r: db::DiffRowView) -> Seq<char> {
    (if r.descended_from_failed_write_id is Some {
        "<tr class=\"degraded\">"@
    } else {
        "<tr>"@
    }) + listing_cells(r) + "</tr>"@
}

fn render_listing_row(r: &DiffRow) -> (s: String)
    ensures
        s@ == listing_row(r@),
{
    let mut s = if r.descended_from_failed_write_id.is_some() {
        "<tr class=\"degraded\">".to_owned()
    } else {
        "<tr>".to_owned()
    };
    s.append(render_listing_cells(r).as_str());
    s.append("</tr>");
    s
}

/// The rows of the listing.
pub open spec fn listing_rows(rows: Seq<db::DiffRowView>) -> Seq<char>
    decreases rows.len(),
{
    if rows.len() == 0 {
        Seq::empty()
    } else {
        listing_rows(rows.drop_last()) + listing_row(rows.last())
    }
}

pub open spec fn rows_view(rows: Seq<DiffRow>) -> Seq<db::DiffRowView> {
    rows.map_values(|d: DiffRow| d@)
}

fn render_listing_rows(rows: &Vec<DiffRow>) -> (s: String)
    ensures
        s@ == listing_rows(rows_view(rows@)),
{
    let ghost all = rows_view(rows@);
    let mut s = String::new();
    let mut i: usize = 0;
    assert(all.take(0) == Seq::<db::DiffRowView>::empty());
    while i < rows.len()
        invariant
            i <= rows.len(),
            all == rows_view(rows@),
            s@ == listing_rows(all.take(i as int)),
        decreases rows.len() - i,
    {
        assert(all.take(i + 1).drop_last() == all.take(i as int));
        assert(all.take(i + 1).last() == rows@[i as int]@);
        s.append(render_listing_row(&rows[i]).as_str());
        i = i + 1;
    }
    assert(all.take(all.len() as int) == all);
    s
}

/// The table of the listing, or what stands in its place where it is empty.
pub open spec fn listing_table(rows: Seq<db::DiffRowView>) -> Seq<char> {
    if rows.len() == 0 {
        "<div class=\"empty\">no diffs match the current filter.</div>"@
    } else {
        "<table><thead><tr>"@
            + "<th>timestamp</th><th>method</th><th>path</th><th>primary</th><th>shadow</th><th>severity</th><th></th>"@
            + "</tr></thead><tbody>"@ + listing_rows(rows) + "</tbody></table>"@
    }
}

fn render_listing_table(rows: &Vec<DiffRow>) -> (s: String)
    ensures
        s@ == listing_table(rows_view(rows@)),
{
    if rows.len() == 0 {
        "<div class=\"empty\">no diffs match the current filter.</div>".to_owned()
    } else {
        let mut s = "<table><thead><tr>".to_owned();
        s.append(
            "<th>timestamp</th><th>method</th><th>path</th><th>primary</th><th>shadow</th><th>severity</th><th></th>",
        );
        s.append("</tr></thead><tbody>");
        s.append(render_listing_rows(rows).as_str());
        s.append("</tbody></table>");
        s
    }
}

/// The page that lists differences.
pub open spec fn index_page(rows: Seq<db::DiffRowView>, q: ListQueryView) -> Seq<char> {
    html::page_top("diffs"@, STYLE@) + listing_head(q) + listing_table(rows) + "<footer>showing "@
        + text::decimal(rows.len()) + " diff(s); limit "@ + text::signed_decimal(LIMIT as int)
        + ".</footer>"@ + html::page_end()
}

/// The page that lists differences.
pub fn render_index_html(rows: &Vec<DiffRow>, q: &ListQuery) -> (s: String)
    ensures
        s@ == index_page(rows_view(rows@), q@),
{
    let mut s = html::page_header("diffs", STYLE);
    s.append(render_listing_head(q).as_str());
    s.append(render_listing_table(rows).as_str());
    s.append("<footer>showing ");
    text::push_u64(&mut s, rows.len() as u64);
    s.append(" diff(s); limit ");
    text::push_i64(&mut s, LIMIT);
    s.append(".</footer>");
    html::push_footer(&mut s);
    s
}

// ---------------------------------------------------------------------------
// One difference

/// A named value in a table.
pub open spec fn kv_row(k: Seq<char>, v: Seq<char>) -> Seq<char> {
    "<tr><th style=\"width:14em\">"@ + text::escaped(k) + "</th><td>"@ + text::escaped(v)
        + "</td></tr>"@
}

/// Appends a named value to a table.
pub fn push_kv(s: &mut String, k: &str, v: &str)
    ensures
        final(s)@ == old(s)@ + kv_row(k@, v@),
{
    let mut row = "<tr><th style=\"width:14em\">".to_owned();
    row.append(text::html_escape(k).as_str());
    row.append("</th><td>");
    row.append(text::html_escape(v).as_str());
    row.append("</td></tr>");
    s.append(row.as_str());
}

/// A status, or a dash where there is none.
pub open spec fn status_text(status: Option<i64>) -> Seq<char> {
    match status {
        Some(n) => text::signed_decimal(n as int),
        None => "—"@,
    }
}

fn status_or_dash(status: Option<i64>) -> (s: String)
    ensures
        s@ == status_text(status),
{
    match status {
        Some(n) => text::i64_text(n),
        None => "—".to_owned(),
    }
}

/// A JSON text written over several lines; any other text as it stands.
pub open spec fn pretty_text(raw: Seq<char>) -> Seq<char> {
    match json::parsed(raw) {
        Some(tree) => json::pretty(tree),
        None => raw,
    }
}

/// A JSON text written over several lines; any other text as it stands.
pub fn pretty_json_or_raw(raw: &str) -> (s: String)
    ensures
        s@ == pretty_text(raw@),
{
    match json::parse(raw) {
        Some(v) => json::write_pretty(v),
        None => raw.to_owned(),
    }
}

/// The heading of a difference's page.
pub open spec fn detail_head(d: db::DiffDetailView) -> Seq<char> {
    "<header><h1>"@ + "diff #"@ + text::signed_decimal(d.id) + " "@
        + "<span class=\"sev sev-"@ + text::escaped(d.severity) + "\">"@ + text::escaped(
        d.severity,
    ) + "</span>"@ + "</h1>"@ + "<nav><a href=\"/diffs\">&larr; back</a>"@
        + "<a href=\"/diffs.json\">json</a></nav></header>"@
}

fn render_detail_head(d: &DiffDetail) -> (s: String)
    ensures
        s@ == detail_head(d@),
{
    let severity = text::html_escape(d.severity.as_str());
    let mut s = "<header><h1>".to_owned();
    s.append("diff #");
    s.append(text::i64_text(d.id).as_str());
    s.append(" ");
    s.append("<span class=\"sev sev-");
    s.append(severity.as_str());
    s.append("\">");
    s.append(severity.as_str());
    s.append("</span>");
    s.append("</h1>");
    s.append("<nav><a href=\"/diffs\">&larr; back</a>");
    s.append("<a href=\"/diffs.json\">json</a></nav></header>");
    s
}

/// The write whose loss explains a difference.
pub open spec fn descent_text(id: i64) -> Seq<char> {
    "#"@ + text::signed_decimal(id as int) + " (shadow degraded — see K13)"@
}

/// The named values of a difference.
pub open spec fn detail_table(d: db::DiffDetailView) -> Seq<char> {
    "<table><tbody>"@ + kv_row("observed"@, calendar::stamp(d.observed_at_ns)) + kv_row(
        "method"@,
        d.method,
    ) + kv_row("path"@, d.path) + kv_row("primary status"@, status_text(d.primary_status))
        + kv_row("shadow status"@, status_text(d.shadow_status)) + (
    match d.descended_from_failed_write_id {
        Some(id) => kv_row("descended from failed write"@, descent_text(id)),
        None => ""@,
    }) + "</tbody></table>"@
}

fn render_detail_table(d: &DiffDetail) -> (s: String)
    ensures
        s@ == detail_table(d@),
{
    let mut s = "<table><tbody>".to_owned();
    push_kv(&mut s, "observed", calendar::format_ns(d.observed_at_ns).as_str());
    push_kv(&mut s, "method", d.method.as_str());
    push_kv(&mut s, "path", d.path.as_str());
    push_kv(&mut s, "primary status", status_or_dash(d.primary_status).as_str());
    push_kv(&mut s, "shadow status", status_or_dash(d.shadow_status).as_str());
    match d.descended_from_failed_write_id {
        Some(id) => {
            let mut descent = "#".to_owned();
            descent.append(text::i64_text(id).as_str());
            descent.append(" (shadow degraded — see K13)");
            push_kv(&mut s, "descended from failed write", descent.as_str());
        },
        None => {
            s.append("");
        },
    }
    s.append("</tbody></table>");
    s
}

/// A body, or a note that there is none.
pub open spec fn body_text(body: Option<Seq<char>>) -> Seq<char> {
    match body {
        Some(b) => b,
        None => "(none)"@,
    }
}

fn body_or_none<'a>(body: &'a Option<String>) -> (s: &'a str)
    ensures
        s@ == body_text(db::opt_text(*body)),
{
    match body {
        Some(b) => b.as_str(),
        None => "(none)",
    }
}

/// Both bodies side by side, and below them how they differ.
pub open spec fn detail_bodies(d: db::DiffDetailView) -> Seq<char> {
    "<div class=\"split\">"@ + "<section><h2>primary body</h2><pre>"@ + text::escaped(
        body_text(d.primary_body),
    ) + "</pre></section>"@ + "<section><h2>shadow body</h2><pre>"@ + text::escaped(
        body_text(d.shadow_body),
    ) + "</pre></section>"@ + "</div>"@
        + "<section style=\"margin-top:1rem;background:#fff;padding:.75rem;border:1px solid #ddd;\">"@
        + "<h2 style=\"margin:0 0 .5rem 0;font-size:1rem;\">structured diff</h2>"@
        + "<pre style=\"white-space:pre-wrap;word-break:break-word;margin:0;\">"@ + text::escaped(
        pretty_text(d.diff_blob),
    ) + "</pre></section>"@
}

fn render_detail_bodies(d: &DiffDetail) -> (s: String)
    ensures
        s@ == detail_bodies(d@),
{
    let mut s = "<div class=\"split\">".to_owned();
    s.append("<section><h2>primary body</h2><pre>");
    s.append(text::html_escape(body_or_none(&d.primary_body)).as_str());
    s.append("</pre></section>");
    s.append("<section><h2>shadow body</h2><pre>");
    s.append(text::html_escape(body_or_none(&d.shadow_body)).as_str());
    s.append("</pre></section>");
    s.append("</div>");
    s.append(
        "<section style=\"margin-top:1rem;background:#fff;padding:.75rem;border:1px solid #ddd;\">",
    );
    s.append("<h2 style=\"margin:0 0 .5rem 0;font-size:1rem;\">structured diff</h2>");
    s.append("<pre style=\"white-space:pre-wrap;word-break:break-word;margin:0;\">");
    s.append(text::html_escape(pretty_json_or_raw(d.diff_blob.as_str()).as_str()).as_str());
    s.append("</pre></section>");
    s
}

/// The page of one difference.
pub open spec fn show_page(d: db::DiffDetailView) -> Seq<char> {
    html::page_top("diff #"@ + text::signed_decimal(d.id), STYLE@) + detail_head(d) + detail_table(
        d,
    ) + detail_bodies(d) + html::page_end()
}

/// The page of one difference.
pub fn render_show_html(d: &DiffDetail) -> (s: String)
    ensures
        s@ == show_page(d@),
{
    let mut title = "diff #".to_owned();
    title.append(text::i64_text(d.id).as_str());
    let mut s = html::page_header(title.as_str(), STYLE);
    s.append(render_detail_head(d).as_str());
    s.append(render_detail_table(d).as_str());
    s.append(render_detail_bodies(d).as_str());
    html::push_footer(&mut s);
    s
}

// ---------------------------------------------------------------------------
// The document

pub open spec fn number_or_null(n: Option<i64>) -> json::Tree {
    match n {
        Some(i) => json::Tree::Number(json::int_view(i)),
        None => json::Tree::Null,
    }
}

fn json_number_or_null(n: Option<i64>) -> (j: Json)
    ensures
        j.tree() == number_or_null(n),
{
    match n {
        Some(i) => Json::whole(i),
        None => Json::Null,
    }
}

/// What the document says of one difference.
pub open spec fn row_tree(r: db::DiffRowView) -> json::Tree {
    json::Tree::Object(
        json::members(
            seq![
                ("id"@, json::Tree::Number(json::int_view(r.id as i64))),
                ("observed_at_ns"@, json::Tree::Number(json::int_view(r.observed_at_ns as i64))),
                ("method"@, json::Tree::Text(r.method)),
                ("path"@, json::Tree::Text(r.path)),
                ("primary_status"@, number_or_null(r.primary_status)),
                ("shadow_status"@, number_or_null(r.shadow_status)),
                ("diff_blob"@, json::Tree::Text(r.diff_blob)),
                ("severity"@, json::Tree::Text(r.severity)),
                (
                    "descended_from_failed_write_id"@,
                    number_or_null(r.descended_from_failed_write_id),
                ),
            ],
        ),
    )
}

fn row_json(r: &DiffRow) -> (j: Json)
    ensures
        j.tree() == row_tree(r@),
{
    let mut m: Vec<(String, Json)> = Vec::new();
    m.push(("id".to_owned(), Json::whole(r.id)));
    m.push(("observed_at_ns".to_owned(), Json::whole(r.observed_at_ns)));
    m.push(("method".to_owned(), Json::text(r.method.as_str())));
    m.push(("path".to_owned(), Json::text(r.path.as_str())));
    m.push(("primary_status".to_owned(), json_number_or_null(r.primary_status)));
    m.push(("shadow_status".to_owned(), json_number_or_null(r.shadow_status)));
    m.push(("diff_blob".to_owned(), Json::text(r.diff_blob.as_str())));
    m.push(("severity".to_owned(), Json::text(r.severity.as_str())));
    m.push(
        (
            "descended_from_failed_write_id".to_owned(),
            json_number_or_null(r.descended_from_failed_write_id),
        ),
    );
    let ghost v = r@;
    assert(json::pairs(m@) == seq![
        ("id"@, json::Tree::Number(json::int_view(v.id as i64))),
        ("observed_at_ns"@, json::Tree::Number(json::int_view(v.observed_at_ns as i64))),
        ("method"@, json::Tree::Text(v.method)),
        ("path"@, json::Tree::Text(v.path)),
        ("primary_status"@, number_or_null(v.primary_status)),
        ("shadow_status"@, number_or_null(v.shadow_status)),
        ("diff_blob"@, json::Tree::Text(v.diff_blob)),
        ("severity"@, json::Tree::Text(v.severity)),
        ("descended_from_failed_write_id"@, number_or_null(v.descended_from_failed_write_id)),
    ]);
    Json::Object(m)
}

/// What the document says: a member `diffs` with one object for each row.
pub open spec fn diffs_tree(rows: Seq<db::DiffRowView>) -> json::Tree {
    json::Tree::Object(
        map!["diffs"@ => json::Tree::Array(rows.map_values(|r: db::DiffRowView| row_tree(r)))],
    )
}

/// The rows as a JSON document.
pub fn diffs_document(rows: &Vec<DiffRow>) -> (j: Json)
    ensures
        j.tree() == diffs_tree(rows_view(rows@)),
{
    let ghost all = rows_view(rows@);
    let mut items: Vec<Json> = Vec::new();
    let mut i: usize = 0;
    while i < rows.len()
        invariant
            i <= rows.len(),
            all == rows_view(rows@),
            items.len() == i,
            forall|k: int| 0 <= k < i ==> (#[trigger] items@[k]).tree() == row_tree(all[k]),
        decreases rows.len() - i,
    {
        items.push(row_json(&rows[i]));
        i = i + 1;
    }
    let ghost trees = json::trees(items@);
    assert(trees == all.map_values(|r: db::DiffRowView| row_tree(r)));
    let mut m: Vec<(String, Json)> = Vec::new();
    m.push(("diffs".to_owned(), Json::Array(items)));
    proof {
        let ps = json::pairs(m@);
        reveal_with_fuel(json::members, 2);
        assert(ps == seq![("diffs"@, json::Tree::Array(trees))]);
        assert(ps.drop_last() == Seq::<(Seq<char>, json::Tree)>::empty());
    }
    Json::Object(m)
}

/// The document as text.
pub open spec fn diffs_text(rows: Seq<db::DiffRowView>) -> Seq<char> {
    json::compact(diffs_tree(rows))
}

// ---------------------------------------------------------------------------
// Requests

/// The rows that a listing shows.
pub open spec fn shown_rows(
    s: db::StoreView,
    severity: Option<Seq<char>>,
    since: Option<i64>,
) -> Seq<db::DiffRowView> {
    db::first_rows(db::newest_first(s.diffs, severity, since), LIMIT as int)
}

pub open spec fn narrow(o: Option<int>) -> Option<i64> {
    match o {
        Some(i) => Some(i as i64),
        None => None,
    }
}

/// What answers a request for the listing page.
pub open spec fn index_reply(s: db::StoreView, q: ListQueryView) -> html::ReplyView {
    match filters(q) {
        Ok(f) => html::html_reply(index_page(shown_rows(s, f.0, narrow(f.1)), q)),
        Err(message) => html::text_reply(400, message),
    }
}

/// What answers a request for the listing document.
pub open spec fn document_reply(s: db::StoreView, q: ListQueryView) -> html::ReplyView {
    match filters(q) {
        Ok(f) => html::json_reply(diffs_text(shown_rows(s, f.0, narrow(f.1)))),
        Err(message) => html::text_reply(400, message),
    }
}

/// What answers a request for the page of one difference.
pub open spec fn show_reply(s: db::StoreView, id: int) -> html::ReplyView {
    let ids = db::diff_ids(s.diffs);
    if ids.contains(id) {
        html::html_reply(show_page(s.diffs[ids.index_of(id)].detail))
    } else {
        html::text_reply(404, "diff not found"@)
    }
}

fn opt_as_str<'a>(o: &'a Option<String>) -> (r: Option<&'a str>)
    ensures
        db::opt_str(r) == db::opt_text(*o),
{
    match o {
        Some(s) => Some(s.as_str()),
        None => None,
    }
}

/// Answers a request for the listing page.
pub fn diffs_index(store: &Store, q: &ListQuery) -> (r: Reply)
    ensures
        r@ == index_reply(store@, q@),
{
    match parse_filters(q) {
        Ok((severity, since)) => {
            let rows = db::list_diffs_filtered(store, LIMIT, opt_as_str(&severity), since);
            assert(since == narrow(opt_int(since)));
            Reply::html(render_index_html(&rows, q))
        },
        Err((status, message)) => Reply::text(status, message),
    }
}

/// Answers a request for the page of one difference.
pub fn diffs_show(store: &Store, id: i64) -> (r: Reply)
    requires
        store@.wf(),
    ensures
        r@ == show_reply(store@, id as int),
{
    match db::get_diff(store, id) {
        Some(d) => Reply::html(render_show_html(&d)),
        None => Reply::text(404, "diff not found".to_owned()),
    }
}

/// Answers a request for the listing document. Who reads it gets back what the
/// listing shows.
pub fn diffs_json(store: &Store, q: &ListQuery) -> (r: Reply)
    ensures
        r@ == document_reply(store@, q@),
        filters(q@) matches Ok(f) ==> json::parsed(r.body@) == Some(
            diffs_tree(shown_rows(store@, f.0, narrow(f.1))),
        ),
{
    match parse_filters(q) {
        Ok((severity, since)) => {
            let rows = db::list_diffs_filtered(store, LIMIT, opt_as_str(&severity), since);
            assert(since == narrow(opt_int(since)));
            proof {
                diffs_tree_is_legible(rows_view(rows@));
            }
            Reply::json(json::write_compact(diffs_document(&rows)))
        },
        Err((status, message)) => Reply::text(status, message),
    }
}

// ---------------------------------------------------------------------------
// What the pages promise

proof fn row_tree_is_legible(r: db::DiffRowView)
    ensures
        json::legible(row_tree(r), 1, false),
{
    let pairs = seq![
        ("id"@, json::Tree::Number(json::int_view(r.id as i64))),
        ("observed_at_ns"@, json::Tree::Number(json::int_view(r.observed_at_ns as i64))),
        ("method"@, json::Tree::Text(r.method)),
        ("path"@, json::Tree::Text(r.path)),
        ("primary_status"@, number_or_null(r.primary_status)),
        ("shadow_status"@, number_or_null(r.shadow_status)),
        ("diff_blob"@, json::Tree::Text(r.diff_blob)),
        ("severity"@, json::Tree::Text(r.severity)),
        ("descended_from_failed_write_id"@, number_or_null(r.descended_from_failed_write_id)),
    ];
    assert forall|i: int| 0 <= i < pairs.len() implies (#[trigger] pairs[i]).0
        != json::reserved_key() by {
        reveal_strlit("id");
        reveal_strlit("observed_at_ns");
        reveal_strlit("method");
        reveal_strlit("path");
        reveal_strlit("primary_status");
        reveal_strlit("shadow_status");
        reveal_strlit("diff_blob");
        reveal_strlit("severity");
        reveal_strlit("descended_from_failed_write_id");
        json::other_keys_are_not_reserved(pairs[i].0);
    }
    json::legible_pairs_make_legible_values(pairs, 0, false);
}

proof fn diffs_tree_is_legible(rows: Seq<db::DiffRowView>)
    ensures
        json::legible(diffs_tree(rows), 100, false),
{
    let items = rows.map_values(|r: db::DiffRowView| row_tree(r));
    assert forall|i: int| 0 <= i < items.len() implies json::legible(
        #[trigger] items[i],
        98,
        false,
    ) by {
        row_tree_is_legible(rows[i]);
        json::legible_further(items[i], 1, 98, false, false);
    }
    assert(json::legible_items(items, 98, false));
    let m = map!["diffs"@ => json::Tree::Array(items)];
    assert(json::legible(json::Tree::Array(items), 99, false));
    reveal_strlit("diffs");
    json::other_keys_are_not_reserved("diffs"@);
    assert(json::legible_values(m, 99, false));
}

/// A request with a filter that cannot be read is refused, by the page and by
/// the document alike, and every other request is answered.
pub proof fn bad_filters_are_refused(s: db::StoreView, q: ListQueryView)
    ensures
        filters(q) is Err ==> index_reply(s, q).status == 400 && document_reply(s, q).status == 400,
        filters(q) is Ok ==> index_reply(s, q).status == 200 && document_reply(s, q).status == 200,
        filters(q) is Ok <==> (filled(q.severity) is Some ==> known_severity(
            filled(q.severity)->0,
        )) && (filled(q.since) is Some ==> calendar::date_ns(filled(q.since)->0) is Some),
{
}

/// A listing shows no more rows than its limit, and only differences that pass
/// its filters.
pub proof fn listings_show_only_matches(
    s: db::StoreView,
    severity: Option<Seq<char>>,
    since: Option<i64>,
    i: int,
)
    requires
        0 <= i < shown_rows(s, severity, since).len(),
    ensures
        shown_rows(s, severity, since).len() <= LIMIT,
        severity matches Some(f) ==> shown_rows(s, severity, since)[i].severity == f,
        since matches Some(ns) ==> shown_rows(s, severity, since)[i].observed_at_ns >= ns,
{
    let listing = db::newest_first(s.diffs, severity, since);
    laws::listings_are_complete(s.diffs, severity, since);
    assert(shown_rows(s, severity, since)[i] == listing[i]);
    assert(listing.contains(listing[i]));
}

/// A difference that a dropped write explains is greyed out in the listing,
/// and no other is.
pub proof fn explained_differences_are_greyed_out(r: db::DiffRowView)
    ensures
        r.descended_from_failed_write_id is Some <==> "<tr class=\"degraded\">"@.is_prefix_of(
            listing_row(r),
        ),
        r.descended_from_failed_write_id is None <==> "<tr>"@.is_prefix_of(listing_row(r)),
{
    reveal_strlit("<tr>");
    reveal_strlit("<tr class=\"degraded\">");
    let row = listing_row(r);
    assert("<tr>"@[3] == '>');
    assert("<tr class=\"degraded\">"@[3] == ' ');
    if r.descended_from_failed_write_id is Some {
        assert(row.take(21) == "<tr class=\"degraded\">"@);
        assert(row.take(4)[3] == ' ');
    } else {
        assert(row.take(4) == "<tr>"@);
        assert(row[3] == '>');
        if "<tr class=\"degraded\">"@.is_prefix_of(row) {
            assert(row.subrange(0, 21)[3] == row[3]);
        }
    }
}

/// Five severities are known.
pub proof fn five_severities_are_known(s: Seq<char>)
    ensures
        known_severity(s) <==> seq!["critical"@, "high"@, "medium"@, "low"@, "noise"@].contains(s),
{
    let five = seq!["critical"@, "high"@, "medium"@, "low"@, "noise"@];
    assert(five[0] == "critical"@ && five[1] == "high"@ && five[2] == "medium"@);
    assert(five[3] == "low"@ && five[4] == "noise"@);
}

/// Filters ask for what they say: a filter that is missing or left empty asks for
/// nothing, a severity for that severity, a date for its first nanosecond. The
/// first one that cannot be read is named in the refusal.
pub proof fn filters_ask_for_what_they_say(q: ListQueryView)
    ensures
        ({
            let severity = q.severity is Some && q.severity->0.len() > 0;
            let since = q.since is Some && q.since->0.len() > 0;
            let bad_severity = severity && !known_severity(q.severity->0);
            let bad_since = since && calendar::date_ns(q.since->0) is None;
            &&& filters(q) is Err <==> bad_severity || bad_since
            &&& bad_severity ==> filters(q)->Err_0 == "invalid severity `"@ + q.severity->0
                + "`; want one of critical|high|medium|low|noise"@
            &&& !bad_severity && bad_since ==> filters(q)->Err_0 == "invalid since `"@
                + q.since->0 + "`; want YYYY-MM-DD"@
            &&& filters(q) matches Ok(f) ==> f.0 == (if severity {
                q.severity
            } else {
                None
            })
            &&& filters(q) matches Ok(f) ==> f.1 == (if since {
                calendar::date_ns(q.since->0)
            } else {
                None
            })
        }),
{
}

/// A listing shows the latest differences that match, at most a hundred, and
/// leaves one out only where a hundred others are shown.
pub proof fn listings_show_the_latest(
    s: db::StoreView,
    severity: Option<Seq<char>>,
    since: Option<i64>,
    i: int,
    j: int,
    k: int,
)
    ensures
        ({
            let shown = shown_rows(s, severity, since);
            &&& shown.len() <= 100
            &&& 0 <= i < j < shown.len() ==> shown[i].observed_at_ns >= shown[j].observed_at_ns
            &&& 0 <= k < s.diffs.len() && shown.len() < 100 && (severity is None || severity
                == Some(s.diffs[k].detail.severity)) && (since is None || since->0
                <= s.diffs[k].detail.observed_at_ns) ==> shown.contains(s.diffs[k].detail.row())
            &&& 0 <= i < shown.len() ==> exists|d: int|
                0 <= d < s.diffs.len() && (#[trigger] s.diffs[d]).detail.row() == shown[i] && (
                severity is None || severity == Some(s.diffs[d].detail.severity)) && (since is None
                    || since->0 <= s.diffs[d].detail.observed_at_ns)
        }),
{
    let all = db::newest_first(s.diffs, severity, since);
    let shown = shown_rows(s, severity, since);
    db::listings_fall_in_time(s.diffs, severity, since);
    laws::listings_are_complete(s.diffs, severity, since);
    if 0 <= i < j < shown.len() {
        let keys = db::times(all);
        assert(keys[i] >= keys[j]);
        assert(shown[i] == all[i] && shown[j] == all[j]);
    }
    if 0 <= k < s.diffs.len() && shown.len() < 100 {
        assert(shown == all);
    }
    if 0 <= i < shown.len() {
        assert(shown[i] == all[i]);
        assert(all.contains(all[i]));
        let d = choose|d: int|
            0 <= d < s.diffs.len() && db::listed(#[trigger] s.diffs[d], severity, since)
                && s.diffs[d].detail.row() == all[i];
        assert(s.diffs[d].detail.row() == shown[i]);
    }
}

/// A row of a table, given its cells.
pub open spec fn cells(items: Seq<Seq<char>>) -> Seq<char>
    decreases items.len(),
{
    if items.len() == 0 {
        Seq::empty()
    } else {
        cells(items.drop_last()) + "<td>"@ + items.last() + "</td>"@
    }
}

/// The head of a table, given its titles.
pub open spec fn titles(items: Seq<Seq<char>>) -> Seq<char>
    decreases items.len(),
{
    if items.len() == 0 {
        Seq::empty()
    } else {
        titles(items.drop_last()) + "<th>"@ + items.last() + "</th>"@
    }
}

/// One cell more stands behind the others.
pub proof fn cells_are_put_behind(items: Seq<Seq<char>>, item: Seq<char>)
    ensures
        cells(items.push(item)) == cells(items) + "<td>"@ + item + "</td>"@,
{
    assert(items.push(item).drop_last() =~= items);
}

/// One title more stands behind the others.
pub proof fn titles_are_put_behind(items: Seq<Seq<char>>, item: Seq<char>)
    ensures
        titles(items.push(item)) == titles(items) + "<th>"@ + item + "</th>"@,
{
    assert(items.push(item).drop_last() =~= items);
}

/// The row of a difference has seven cells: when it was observed, the method, the
/// path, the primary's status, the shadow's, the severity, and where to read more.
#[verifier::spinoff_prover]
#[verifier::rlimit(40)]
pub proof fn listed_rows_have_seven_cells(r: db::DiffRowView)
    ensures
        listing_cells(r) == cells(
            seq![
                "<code>"@ + text::escaped(calendar::stamp(r.observed_at_ns)) + "</code>"@,
                text::escaped(r.method),
                "<code>"@ + text::escaped(r.path) + "</code>"@,
                status_cell(r.primary_status),
                status_cell(r.shadow_status),
                "<span class=\"sev sev-"@ + text::escaped(r.severity) + "\">"@ + text::escaped(
                    r.severity,
                ) + "</span>"@,
                "<a href=\"/diffs/"@ + text::signed_decimal(r.id) + "\">view</a>"@,
            ],
        ),
{
    let time = text::escaped(calendar::stamp(r.observed_at_ns));
    let path = text::escaped(r.path);
    let severity = text::escaped(r.severity);
    let id = text::signed_decimal(r.id);
    let c0 = "<code>"@ + time + "</code>"@;
    let c1 = text::escaped(r.method);
    let c2 = "<code>"@ + path + "</code>"@;
    let c3 = status_cell(r.primary_status);
    let c4 = status_cell(r.shadow_status);
    let c5 = "<span class=\"sev sev-"@ + severity + "\">"@ + severity + "</span>"@;
    let c6 = "<a href=\"/diffs/"@ + id + "\">view</a>"@;
    let none = Seq::<Seq<char>>::empty();
    let s1 = none.push(c0);
    let s2 = s1.push(c1);
    let s3 = s2.push(c2);
    let s4 = s3.push(c3);
    let s5 = s4.push(c4);
    let s6 = s5.push(c5);
    let s7 = s6.push(c6);
    assert(s7 =~= seq![c0, c1, c2, c3, c4, c5, c6]);
    cells_are_put_behind(none, c0);
    cells_are_put_behind(s1, c1);
    cells_are_put_behind(s2, c2);
    cells_are_put_behind(s3, c3);
    cells_are_put_behind(s4, c4);
    cells_are_put_behind(s5, c5);
    cells_are_put_behind(s6, c6);
    code_cell(Seq::empty(), time);
    assert(Seq::<char>::empty() + "<td><code>"@ =~= "<td><code>"@);
    code_cell(cells(s2), path);
    severity_cell(cells(s5), severity);
    link_cell(cells(s6), id);
}

proof fn code_cell(before: Seq<char>, x: Seq<char>)
    ensures
        before + "<td><code>"@ + x + "</code></td>"@ == before + "<td>"@ + ("<code>"@ + x
            + "</code>"@) + "</td>"@,
{
    reveal_strlit("<td><code>");
    reveal_strlit("</code></td>");
    reveal_strlit("<td>");
    reveal_strlit("<code>");
    reveal_strlit("</code>");
    reveal_strlit("</td>");
    assert("<td><code>"@ =~= "<td>"@ + "<code>"@);
    assert("</code></td>"@ =~= "</code>"@ + "</td>"@);
    assert(before + "<td><code>"@ + x + "</code></td>"@ =~= before + "<td>"@ + ("<code>"@ + x
        + "</code>"@) + "</td>"@);
}

proof fn severity_cell(before: Seq<char>, x: Seq<char>)
    ensures
        before + "<td><span class=\"sev sev-"@ + x + "\">"@ + x + "</span></td>"@ == before
            + "<td>"@ + ("<span class=\"sev sev-"@ + x + "\">"@ + x + "</span>"@) + "</td>"@,
{
    reveal_strlit("<td><span class=\"sev sev-");
    reveal_strlit("</span></td>");
    reveal_strlit("<td>");
    reveal_strlit("<span class=\"sev sev-");
    reveal_strlit("</span>");
    reveal_strlit("</td>");
    assert("<td><span class=\"sev sev-"@ =~= "<td>"@ + "<span class=\"sev sev-"@);
    assert("</span></td>"@ =~= "</span>"@ + "</td>"@);
    assert(before + "<td><span class=\"sev sev-"@ + x + "\">"@ + x + "</span></td>"@ =~= before
        + "<td>"@ + ("<span class=\"sev sev-"@ + x + "\">"@ + x + "</span>"@) + "</td>"@);
}

proof fn link_cell(before: Seq<char>, x: Seq<char>)
    ensures
        before + "<td><a href=\"/diffs/"@ + x + "\">view</a></td>"@ == before + "<td>"@ + (
        "<a href=\"/diffs/"@ + x + "\">view</a>"@) + "</td>"@,
{
    reveal_strlit("<td><a href=\"/diffs/");
    reveal_strlit("\">view</a></td>");
    reveal_strlit("<td>");
    reveal_strlit("<a href=\"/diffs/");
    reveal_strlit("\">view</a>");
    reveal_strlit("</td>");
    assert("<td><a href=\"/diffs/"@ =~= "<td>"@ + "<a href=\"/diffs/"@);
    assert("\">view</a></td>"@ =~= "\">view</a>"@ + "</td>"@);
    assert(before + "<td><a href=\"/diffs/"@ + x + "\">view</a></td>"@ =~= before + "<td>"@ + (
    "<a href=\"/diffs/"@ + x + "\">view</a>"@) + "</td>"@);
}

/// The table has a title for each cell of a row.
pub proof fn listing_has_seven_titles()
    ensures
        "<th>timestamp</th><th>method</th><th>path</th><th>primary</th><th>shadow</th><th>severity</th><th></th>"@
            == titles(
            seq![
                "timestamp"@,
                "method"@,
                "path"@,
                "primary"@,
                "shadow"@,
                "severity"@,
                ""@,
            ],
        ),
{
    reveal_strlit(
        "<th>timestamp</th><th>method</th><th>path</th><th>primary</th><th>shadow</th><th>severity</th><th></th>",
    );
    reveal_strlit("<th>");
    reveal_strlit("</th>");
    reveal_strlit("timestamp");
    reveal_strlit("method");
    reveal_strlit("path");
    reveal_strlit("primary");
    reveal_strlit("shadow");
    reveal_strlit("severity");
    reveal_strlit("");
    let none = Seq::<Seq<char>>::empty();
    let s1 = none.push("timestamp"@);
    let s2 = s1.push("method"@);
    let s3 = s2.push("path"@);
    let s4 = s3.push("primary"@);
    let s5 = s4.push("shadow"@);
    let s6 = s5.push("severity"@);
    let s7 = s6.push(""@);
    assert(s7 =~= seq![
        "timestamp"@,
        "method"@,
        "path"@,
        "primary"@,
        "shadow"@,
        "severity"@,
        ""@,
    ]);
    titles_are_put_behind(none, "timestamp"@);
    titles_are_put_behind(s1, "method"@);
    titles_are_put_behind(s2, "path"@);
    titles_are_put_behind(s3, "primary"@);
    titles_are_put_behind(s4, "shadow"@);
    titles_are_put_behind(s5, "severity"@);
    titles_are_put_behind(s6, ""@);
    assert(titles(s7)
        =~= "<th>timestamp</th><th>method</th><th>path</th><th>primary</th><th>shadow</th><th>severity</th><th></th>"@);
}

/// A row stands in the table as one row, whatever it is, and each row behind the
/// one before.
pub proof fn rows_stand_in_order(rows: Seq<db::DiffRowView>, r: db::DiffRowView)
    ensures
        listing_rows(rows.push(r)) == listing_rows(rows) + listing_row(r),
        listing_rows(Seq::empty()).len() == 0,
        r.descended_from_failed_write_id is Some ==> listing_row(r) == "<tr class=\"degraded\">"@
            + listing_cells(r) + "</tr>"@,
        r.descended_from_failed_write_id is None ==> listing_row(r) == "<tr>"@ + listing_cells(r)
            + "</tr>"@,
{
    assert(rows.push(r).drop_last() =~= rows);
}

/// A status is shown as its number, and one that is missing as a dash.
pub proof fn statuses_are_shown(n: i64)
    ensures
        status_cell(Some(n)) == "<code>"@ + text::signed_decimal(n as int) + "</code>"@,
        status_cell(None) == "<code>—</code>"@,
        status_text(Some(n)) == text::signed_decimal(n as int),
        status_text(None) == "—"@,
{
}

/// The listing page shows the rows that it is given, how many there are, and the
/// filters that were asked for; without rows it says so.
#[verifier::spinoff_prover]
#[verifier::rlimit(40)]
pub proof fn listing_pages_show_their_rows(rows: Seq<db::DiffRowView>, q: ListQueryView, i: int)
    ensures
        0 <= i < rows.len() ==> text::holds(index_page(rows, q), listing_row(rows[i])),
        rows.len() > 0 ==> text::holds(index_page(rows, q), "<tbody>"@ + listing_rows(rows)
            + "</tbody></table>"@),
        rows.len() == 0 ==> text::holds(
            index_page(rows, q),
            "<div class=\"empty\">no diffs match the current filter.</div>"@,
        ),
        text::holds(
            index_page(rows, q),
            "<footer>showing "@ + text::decimal(rows.len()) + " diff(s); limit 100.</footer>"@,
        ),
{
    broadcast use text::longer_texts_hold_more;

    let page = index_page(rows, q);
    let top = html::page_top("diffs"@, STYLE@) + listing_head(q);
    if rows.len() > 0 {
        let open = "<table><thead><tr>"@
            + "<th>timestamp</th><th>method</th><th>path</th><th>primary</th><th>shadow</th><th>severity</th><th></th>"@;
        reveal_strlit("</tr></thead><tbody>");
        reveal_strlit("</tr></thead>");
        reveal_strlit("<tbody>");
        assert("</tr></thead><tbody>"@ =~= "</tr></thead>"@ + "<tbody>"@);
        let body = "<tbody>"@ + listing_rows(rows) + "</tbody></table>"@;
        assert(listing_table(rows) =~= open + "</tr></thead>"@ + body);
        text::texts_hold_themselves(body);
        assert(text::holds(open + "</tr></thead>"@ + body, body));
        assert(text::holds(top + listing_table(rows), body));
        if 0 <= i < rows.len() {
            rows_hold_each_row(rows, i);
            assert(text::holds("<tbody>"@ + listing_rows(rows), listing_row(rows[i])));
            assert(text::holds(body, listing_row(rows[i])));
            assert(text::holds(open + "</tr></thead>"@ + body, listing_row(rows[i])));
            assert(text::holds(top + listing_table(rows), listing_row(rows[i])));
        }
    } else {
        text::texts_hold_themselves(listing_table(rows));
        assert(text::holds(top + listing_table(rows), listing_table(rows)));
    }
    let upto = top + listing_table(rows);
    let foot = "<footer>showing "@ + text::decimal(rows.len()) + " diff(s); limit 100.</footer>"@;
    limit_is_a_hundred();
    reveal_strlit(" diff(s); limit 100.</footer>");
    reveal_strlit(" diff(s); limit ");
    reveal_strlit(".</footer>");
    assert(" diff(s); limit 100.</footer>"@ =~= " diff(s); limit "@ + text::signed_decimal(
        LIMIT as int,
    ) + ".</footer>"@);
    let flat = upto + "<footer>showing "@ + text::decimal(rows.len()) + " diff(s); limit "@
        + text::signed_decimal(LIMIT as int) + ".</footer>"@;
    assert(flat =~= upto + foot);
    assert(page == upto + foot + html::page_end());
    text::texts_hold_themselves(foot);
    assert(text::holds(upto + foot, foot));
    assert(text::holds(upto + foot + html::page_end(), foot));
    if 0 <= i < rows.len() {
        assert(text::holds(upto + foot, listing_row(rows[i])));
        assert(text::holds(upto + foot + html::page_end(), listing_row(rows[i])));
    }
    if rows.len() > 0 {
        let body = "<tbody>"@ + listing_rows(rows) + "</tbody></table>"@;
        assert(text::holds(upto + foot, body));
        assert(text::holds(upto + foot + html::page_end(), body));
    } else {
        assert(text::holds(upto + foot, listing_table(rows)));
        assert(text::holds(upto + foot + html::page_end(), listing_table(rows)));
    }
}

proof fn limit_is_a_hundred()
    ensures
        text::signed_decimal(LIMIT as int) == seq!['1', '0', '0'],
{
    reveal_with_fuel(text::decimal, 4);
    assert(text::decimal(1) =~= seq!['1']);
    assert(text::decimal(10) =~= seq!['1', '0']);
    assert(text::decimal(100) =~= seq!['1', '0', '0']);
}

proof fn rows_hold_each_row(rows: Seq<db::DiffRowView>, i: int)
    requires
        0 <= i < rows.len(),
    ensures
        text::holds(listing_rows(rows), listing_row(rows[i])),
    decreases rows.len(),
{
    broadcast use text::longer_texts_hold_more;

    let rest = rows.drop_last();
    if i < rest.len() {
        rows_hold_each_row(rest, i);
        assert(rest[i] == rows[i]);
    } else {
        text::texts_hold_themselves(listing_row(rows.last()));
    }
    assert(text::holds(listing_rows(rest) + listing_row(rows.last()), listing_row(rows[i])));
}

/// The page of a difference shows what was asked for, both statuses, both bodies
/// side by side, and what the comparison found.
#[verifier::spinoff_prover]
#[verifier::rlimit(40)]
pub proof fn detail_pages_show_the_difference(d: db::DiffDetailView)
    ensures
        ({
            let page = show_page(d);
            &&& text::holds(page, kv_row("observed"@, calendar::stamp(d.observed_at_ns)))
            &&& text::holds(page, kv_row("method"@, d.method))
            &&& text::holds(page, kv_row("path"@, d.path))
            &&& text::holds(page, kv_row("primary status"@, status_text(d.primary_status)))
            &&& text::holds(page, kv_row("shadow status"@, status_text(d.shadow_status)))
            &&& d.descended_from_failed_write_id matches Some(id) ==> text::holds(
                page,
                kv_row(
                    "descended from failed write"@,
                    "#"@ + text::signed_decimal(id as int) + " (shadow degraded — see K13)"@,
                ),
            )
            &&& text::holds(
                page,
                "<section><h2>primary body</h2><pre>"@ + text::escaped(
                    match d.primary_body {
                        Some(b) => b,
                        None => "(none)"@,
                    },
                ) + "</pre></section>"@,
            )
            &&& text::holds(
                page,
                "<section><h2>shadow body</h2><pre>"@ + text::escaped(
                    match d.shadow_body {
                        Some(b) => b,
                        None => "(none)"@,
                    },
                ) + "</pre></section>"@,
            )
            &&& text::holds(
                page,
                text::escaped(
                    match json::parsed(d.diff_blob) {
                        Some(tree) => json::pretty(tree),
                        None => d.diff_blob,
                    },
                ) + "</pre></section>"@,
            )
        }),
{
    broadcast use text::longer_texts_hold_more;

    let top = html::page_top("diff #"@ + text::signed_decimal(d.id), STYLE@) + detail_head(d);
    let page = show_page(d);
    let observed = kv_row("observed"@, calendar::stamp(d.observed_at_ns));
    let method = kv_row("method"@, d.method);
    let path = kv_row("path"@, d.path);
    let primary = kv_row("primary status"@, status_text(d.primary_status));
    let shadow = kv_row("shadow status"@, status_text(d.shadow_status));
    let descent = match d.descended_from_failed_write_id {
        Some(id) => kv_row("descended from failed write"@, descent_text(id)),
        None => ""@,
    };
    assert forall|part: Seq<char>|
        part == observed || part == method || part == path || part == primary || part == shadow
            || part == descent implies #[trigger] text::holds(page, part) by {
        text::texts_hold_themselves(part);
        let t1 = "<table><tbody>"@ + observed;
        let t2 = t1 + method;
        let t3 = t2 + path;
        let t4 = t3 + primary;
        let t5 = t4 + shadow;
        let t6 = t5 + descent;
        assert(text::holds(t1, part) || part != observed);
        assert(text::holds(t2, part) || (part != method && !text::holds(t1, part)));
        assert(text::holds(t3, part) || (part != path && !text::holds(t2, part)));
        assert(text::holds(t4, part) || (part != primary && !text::holds(t3, part)));
        assert(text::holds(t5, part) || (part != shadow && !text::holds(t4, part)));
        assert(text::holds(t6, part));
        assert(text::holds(t6 + "</tbody></table>"@, part));
        assert(text::holds(top + detail_table(d), part));
        assert(text::holds(top + detail_table(d) + detail_bodies(d), part));
        assert(text::holds(
            top + detail_table(d) + detail_bodies(d) + html::page_end(),
            part,
        ));
    }
    let one = "<section><h2>primary body</h2><pre>"@ + text::escaped(body_text(d.primary_body))
        + "</pre></section>"@;
    let two = "<section><h2>shadow body</h2><pre>"@ + text::escaped(body_text(d.shadow_body))
        + "</pre></section>"@;
    let three = text::escaped(pretty_text(d.diff_blob)) + "</pre></section>"@;
    let open = "<div class=\"split\">"@;
    let style = "</div>"@
        + "<section style=\"margin-top:1rem;background:#fff;padding:.75rem;border:1px solid #ddd;\">"@
        + "<h2 style=\"margin:0 0 .5rem 0;font-size:1rem;\">structured diff</h2>"@
        + "<pre style=\"white-space:pre-wrap;word-break:break-word;margin:0;\">"@;
    bodies_are_parts(
        open,
        "<section><h2>primary body</h2><pre>"@,
        text::escaped(body_text(d.primary_body)),
        "</pre></section>"@,
        "<section><h2>shadow body</h2><pre>"@,
        text::escaped(body_text(d.shadow_body)),
        "</div>"@,
        "<section style=\"margin-top:1rem;background:#fff;padding:.75rem;border:1px solid #ddd;\">"@,
        "<h2 style=\"margin:0 0 .5rem 0;font-size:1rem;\">structured diff</h2>"@,
        "<pre style=\"white-space:pre-wrap;word-break:break-word;margin:0;\">"@,
        text::escaped(pretty_text(d.diff_blob)),
    );
    assert(detail_bodies(d) == open + one + two + style + three);
    assert forall|part: Seq<char>| part == one || part == two || part == three implies
        #[trigger] text::holds(page, part) by {
        text::texts_hold_themselves(part);
        assert(text::holds(open + one, part) || part != one);
        assert(text::holds(open + one + two, part) || part == three);
        assert(text::holds(open + one + two + style, part) || part == three);
        assert(text::holds(open + one + two + style + three, part));
        assert(text::holds(top + detail_table(d) + detail_bodies(d), part));
        assert(text::holds(
            top + detail_table(d) + detail_bodies(d) + html::page_end(),
            part,
        ));
    }
    assert(text::holds(page, observed) && text::holds(page, method) && text::holds(page, path));
    assert(text::holds(page, primary) && text::holds(page, shadow) && text::holds(page, descent));
    assert(text::holds(page, one) && text::holds(page, two) && text::holds(page, three));
}

proof fn bodies_are_parts(
    open: Seq<char>,
    a: Seq<char>,
    p: Seq<char>,
    end: Seq<char>,
    b: Seq<char>,
    s: Seq<char>,
    c: Seq<char>,
    d: Seq<char>,
    e: Seq<char>,
    f: Seq<char>,
    x: Seq<char>,
)
    ensures
        open + a + p + end + b + s + end + c + d + e + f + x + end == open + (a + p + end) + (b + s
            + end) + (c + d + e + f) + (x + end),
{
    let one = a + p + end;
    let two = b + s + end;
    assert(open + a + p + end =~= open + one);
    assert(open + one + b + s + end =~= open + one + two);
    let upto = open + one + two;
    assert(upto + c + d + e + f =~= upto + (c + d + e + f));
    let more = upto + (c + d + e + f);
    assert(more + x + end =~= more + (x + end));
}

/// A line of the page of a difference names what it shows.
pub proof fn lines_name_what_they_show(k: Seq<char>, v: Seq<char>)
    ensures
        kv_row(k, v) == "<tr><th style=\"width:14em\">"@ + text::escaped(k) + "</th>"@ + "<td>"@
            + text::escaped(v) + "</td>"@ + "</tr>"@,
{
    reveal_strlit("</th><td>");
    reveal_strlit("</th>");
    reveal_strlit("<td>");
    reveal_strlit("</td></tr>");
    reveal_strlit("</td>");
    reveal_strlit("</tr>");
    assert("</th><td>"@ =~= "</th>"@ + "<td>"@);
    assert("</td></tr>"@ =~= "</td>"@ + "</tr>"@);
    let a = "<tr><th style=\"width:14em\">"@ + text::escaped(k);
    assert(a + "</th><td>"@ =~= a + "</th>"@ + "<td>"@);
    let b = a + "</th>"@ + "<td>"@ + text::escaped(v);
    assert(b + "</td></tr>"@ =~= b + "</td>"@ + "</tr>"@);
}

/// A difference in the document has nine members, each of them what was
/// recorded.
#[verifier::spinoff_prover]
#[verifier::rlimit(40)]
pub proof fn documents_show_the_difference(r: db::DiffRowView, k: Seq<char>)
    ensures
        ({
            let m = row_tree(r)->Object_0;
            let number = |n: int| json::Tree::Number(json::int_view(n as i64));
            let status = |n: Option<i64>|
                match n {
                    Some(i) => json::Tree::Number(json::int_view(i)),
                    None => json::Tree::Null,
                };
            &&& row_tree(r) is Object
            &&& m.contains_key(k) <==> k == "id"@ || k == "observed_at_ns"@ || k == "method"@ || k
                == "path"@ || k == "primary_status"@ || k == "shadow_status"@ || k == "diff_blob"@
                || k == "severity"@ || k == "descended_from_failed_write_id"@
            &&& m["id"@] == number(r.id)
            &&& m["observed_at_ns"@] == number(r.observed_at_ns)
            &&& m["method"@] == json::Tree::Text(r.method)
            &&& m["path"@] == json::Tree::Text(r.path)
            &&& m["primary_status"@] == status(r.primary_status)
            &&& m["shadow_status"@] == status(r.shadow_status)
            &&& m["diff_blob"@] == json::Tree::Text(r.diff_blob)
            &&& m["severity"@] == json::Tree::Text(r.severity)
            &&& m["descended_from_failed_write_id"@] == status(r.descended_from_failed_write_id)
        }),
{
    let pairs = seq![
        ("id"@, json::Tree::Number(json::int_view(r.id as i64))),
        ("observed_at_ns"@, json::Tree::Number(json::int_view(r.observed_at_ns as i64))),
        ("method"@, json::Tree::Text(r.method)),
        ("path"@, json::Tree::Text(r.path)),
        ("primary_status"@, number_or_null(r.primary_status)),
        ("shadow_status"@, number_or_null(r.shadow_status)),
        ("diff_blob"@, json::Tree::Text(r.diff_blob)),
        ("severity"@, json::Tree::Text(r.severity)),
        ("descended_from_failed_write_id"@, number_or_null(r.descended_from_failed_write_id)),
    ];
    reveal_strlit("id");
    reveal_strlit("observed_at_ns");
    reveal_strlit("method");
    reveal_strlit("path");
    reveal_strlit("primary_status");
    reveal_strlit("shadow_status");
    reveal_strlit("diff_blob");
    reveal_strlit("severity");
    reveal_strlit("descended_from_failed_write_id");
    assert("id"@.len() == 2 && "observed_at_ns"@.len() == 14 && "method"@.len() == 6);
    assert("path"@.len() == 4 && "primary_status"@.len() == 14 && "shadow_status"@.len() == 13);
    assert("diff_blob"@.len() == 9 && "severity"@.len() == 8);
    assert("descended_from_failed_write_id"@.len() == 30);
    assert("observed_at_ns"@[0] == 'o' && "primary_status"@[0] == 'p');
    assert(json::distinct_keys(pairs));
    json::members_facts(pairs);
    assert(pairs[0].0 == "id"@ && pairs[1].0 == "observed_at_ns"@ && pairs[2].0 == "method"@);
    assert(pairs[3].0 == "path"@ && pairs[4].0 == "primary_status"@ && pairs[5].0
        == "shadow_status"@);
    assert(pairs[6].0 == "diff_blob"@ && pairs[7].0 == "severity"@ && pairs[8].0
        == "descended_from_failed_write_id"@);
    let m = json::members(pairs);
    assert(m.contains_key(k) <==> json::has_key(pairs, k));
}

/// The document holds the differences that it is given, in their order, under
/// one name.
pub proof fn documents_hold_their_rows(rows: Seq<db::DiffRowView>, i: int, k: Seq<char>)
    ensures
        ({
            let m = diffs_tree(rows)->Object_0;
            &&& diffs_tree(rows) is Object
            &&& m.contains_key(k) <==> k == "diffs"@
            &&& m["diffs"@] matches json::Tree::Array(items) && items.len() == rows.len() && (0 <= i
                < rows.len() ==> items[i] == row_tree(rows[i]))
        }),
{
}

/// The page and the document are answers of their kind, over the differences that
/// the filters ask for; a difference that is not there is not found.
pub proof fn replies_answer_the_request(s: db::StoreView, q: ListQueryView, id: int, i: int)
    requires
        s.wf(),
    ensures
        filters(q) matches Ok(f) ==> {
            let rows = shown_rows(s, f.0, narrow(f.1));
            let (page, document) = (index_reply(s, q), document_reply(s, q));
            &&& page.status == 200 && document.status == 200
            &&& page.content_type == "text/html; charset=utf-8"@
            &&& document.content_type == "application/json"@
            &&& page.body == index_page(rows, q)
            &&& document.body == json::compact(diffs_tree(rows))
        },
        filters(q) matches Err(e) ==> {
            let (page, document) = (index_reply(s, q), document_reply(s, q));
            &&& page.status == 400 && document.status == 400
            &&& page.body == e && document.body == e
            &&& page.content_type == "text/plain; charset=utf-8"@
            &&& document.content_type == "text/plain; charset=utf-8"@
        },
        0 <= i < s.diffs.len() && s.diffs[i].detail.id == id ==> show_reply(s, id).status == 200
            && show_reply(s, id).content_type == "text/html; charset=utf-8"@ && show_reply(
            s,
            id,
        ).body == show_page(s.diffs[i].detail),
        (forall|k: int| 0 <= k < s.diffs.len() ==> (#[trigger] s.diffs[k]).detail.id != id)
            ==> show_reply(s, id).status == 404 && show_reply(s, id).body == "diff not found"@,
{
    let ids = db::diff_ids(s.diffs);
    if 0 <= i < s.diffs.len() && s.diffs[i].detail.id == id {
        assert(ids[i] == id);
        db::index_of_id(ids, s.last_diff_id, i);
    }
    if ids.contains(id) {
        let k = ids.index_of(id);
        assert(ids[k] == id && s.diffs[k].detail.id == id);
    }
}

/// The form of the listing offers the five severities, and marks the one that was
/// asked for and no other.
pub proof fn asked_for_severity_is_marked(severity: Seq<char>, chosen: Option<Seq<char>>)
    ensures
        chosen == Some(severity) ==> option_tag(severity, chosen) == "<option value=\""@
            + text::escaped(severity) + "\" selected>"@ + text::escaped(severity) + "</option>"@,
        chosen != Some(severity) ==> option_tag(severity, chosen) == "<option value=\""@
            + text::escaped(severity) + "\">"@ + text::escaped(severity) + "</option>"@,
{
    reveal_strlit("\" selected>");
    reveal_strlit("\">");
    reveal_strlit("\"");
    reveal_strlit(" selected");
    reveal_strlit("");
    reveal_strlit(">");
    let a = "<option value=\""@ + text::escaped(severity);
    if chosen == Some(severity) {
        assert(a + "\""@ + " selected"@ + ">"@ =~= a + "\" selected>"@);
    } else {
        assert(a + "\""@ + ""@ + ">"@ =~= a + "\">"@);
    }
}

/// What a listing is asked for is seen as it was asked.
pub proof fn queries_are_seen_whole(q: ListQuery)
    ensures
        q@.severity == db::opt_text(q.severity),
        q@.since == db::opt_text(q.since),
{
}

/// The listing page offers the five severities, the most severe first, and shows
/// the date that was asked for.
#[verifier::spinoff_prover]
#[verifier::rlimit(40)]
pub proof fn listing_pages_show_their_filters(rows: Seq<db::DiffRowView>, q: ListQueryView)
    ensures
        text::holds(
            index_page(rows, q),
            "<option value=\"\">(any)</option>"@ + option_tag("critical"@, q.severity)
                + option_tag("high"@, q.severity) + option_tag("medium"@, q.severity) + option_tag(
                "low"@,
                q.severity,
            ) + option_tag("noise"@, q.severity) + "</select></label>"@,
        ),
        text::holds(
            index_page(rows, q),
            "<input type=\"date\" name=\"since\" value=\""@ + text::escaped(
                match q.since {
                    Some(s) => s,
                    None => Seq::empty(),
                },
            ) + "\"></label>"@,
        ),
{
    date_tags_split();
    let a = "<header><h1>diffsplitter — diffs</h1>"@ + "<nav><a href=\"/diffs\">all</a>"@
        + "<a href=\"/diffs.json\">json</a>"@ + "<a href=\"/metrics\">metrics</a></nav></header>"@
        + "<form class=\"filters\" method=\"GET\" action=\"/diffs\">"@ + "<label>severity "@
        + "<select name=\"severity\">"@;
    let any = "<option value=\"\">(any)</option>"@;
    let o1 = option_tag("critical"@, q.severity);
    let o2 = option_tag("high"@, q.severity);
    let o3 = option_tag("medium"@, q.severity);
    let o4 = option_tag("low"@, q.severity);
    let o5 = option_tag("noise"@, q.severity);
    let end = "</select></label>"@;
    let options = any + o1 + o2 + o3 + o4 + o5 + end;
    let since = text::escaped(
        match q.since {
            Some(s) => s,
            None => ""@,
        },
    );
    let input = "<input type=\"date\" name=\"since\" value=\""@ + since + "\"></label>"@;
    let tail = "<button type=\"submit\">apply</button>"@ + "</form>"@;
    let b = a + options;
    let c = b + "<label>since (UTC date) "@ + input;
    seven_are_one(a, any, o1, o2, o3, o4, o5, end);
    input_is_one(
        b,
        "<label>since (UTC date) "@,
        "<input type=\"date\" name=\"since\" value=\""@,
        since,
        "\"></label>"@,
    );
    assert(c + "<button type=\"submit\">apply</button>"@ + "</form>"@ =~= c + tail);
    assert(listing_head(q) == c + tail);
    text::texts_hold_themselves(options);
    text::texts_hold_themselves(input);
    text::longer_texts_hold_more(a, options, options);
    text::longer_texts_hold_more(b, "<label>since (UTC date) "@, options);
    text::longer_texts_hold_more(b + "<label>since (UTC date) "@, input, options);
    text::longer_texts_hold_more(b + "<label>since (UTC date) "@, input, input);
    text::longer_texts_hold_more(c, tail, options);
    text::longer_texts_hold_more(c, tail, input);
    page_holds_its_head(rows, q, options);
    page_holds_its_head(rows, q, input);
}

proof fn date_tags_split()
    ensures
        ""@ == Seq::<char>::empty(),
        "<label>since (UTC date) <input type=\"date\" name=\"since\" value=\""@
            == "<label>since (UTC date) "@ + "<input type=\"date\" name=\"since\" value=\""@,
{
    reveal_strlit("");
    reveal_strlit("<label>since (UTC date) <input type=\"date\" name=\"since\" value=\"");
    reveal_strlit("<label>since (UTC date) ");
    reveal_strlit("<input type=\"date\" name=\"since\" value=\"");
    assert(""@ =~= Seq::<char>::empty());
    assert("<label>since (UTC date) <input type=\"date\" name=\"since\" value=\""@
        =~= "<label>since (UTC date) "@ + "<input type=\"date\" name=\"since\" value=\""@);
}

proof fn seven_are_one(
    a: Seq<char>,
    b: Seq<char>,
    c: Seq<char>,
    d: Seq<char>,
    e: Seq<char>,
    f: Seq<char>,
    g: Seq<char>,
    h: Seq<char>,
)
    ensures
        a + b + c + d + e + f + g + h == a + (b + c + d + e + f + g + h),
{
    let x1 = b + c;
    assert(a + b + c =~= a + x1);
    let x2 = x1 + d;
    assert(a + x1 + d =~= a + x2);
    let x3 = x2 + e;
    assert(a + x2 + e =~= a + x3);
    let x4 = x3 + f;
    assert(a + x3 + f =~= a + x4);
    let x5 = x4 + g;
    assert(a + x4 + g =~= a + x5);
    assert(a + x5 + h =~= a + (x5 + h));
}

proof fn input_is_one(b: Seq<char>, l: Seq<char>, i: Seq<char>, s: Seq<char>, e: Seq<char>)
    ensures
        b + (l + i) + s + e == b + l + (i + s + e),
{
    assert(b + (l + i) + s + e =~= b + l + (i + s + e));
}

proof fn page_holds_its_head(rows: Seq<db::DiffRowView>, q: ListQueryView, part: Seq<char>)
    requires
        text::holds(listing_head(q), part),
    ensures
        text::holds(index_page(rows, q), part),
{
    let p0 = html::page_top("diffs"@, STYLE@);
    let p1 = p0 + listing_head(q);
    let p2 = p1 + listing_table(rows);
    let p3 = p2 + "<footer>showing "@;
    let p4 = p3 + text::decimal(rows.len());
    let p5 = p4 + " diff(s); limit "@;
    let p6 = p5 + text::signed_decimal(LIMIT as int);
    let p7 = p6 + ".</footer>"@;
    text::longer_texts_hold_more(p0, listing_head(q), part);
    text::longer_texts_hold_more(p1, listing_table(rows), part);
    text::longer_texts_hold_more(p2, "<footer>showing "@, part);
    text::longer_texts_hold_more(p3, text::decimal(rows.len()), part);
    text::longer_texts_hold_more(p4, " diff(s); limit "@, part);
    text::longer_texts_hold_more(p5, text::signed_decimal(LIMIT as int), part);
    text::longer_texts_hold_more(p6, ".</footer>"@, part);
    text::longer_texts_hold_more(p7, html::page_end(), part);
}

/// The page of a difference is headed by its id and its severity.
pub proof fn detail_pages_are_headed(d: db::DiffDetailView)
    ensures
        text::holds(
            show_page(d),
            "<h1>"@ + "diff #"@ + text::signed_decimal(d.id) + " "@ + "<span class=\"sev sev-"@
                + text::escaped(d.severity) + "\">"@ + text::escaped(d.severity) + "</span>"@
                + "</h1>"@,
        ),
{
    reveal_strlit("<header><h1>");
    reveal_strlit("<header>");
    reveal_strlit("<h1>");
    assert("<header><h1>"@ =~= "<header>"@ + "<h1>"@);
    let id = text::signed_decimal(d.id);
    let sev = text::escaped(d.severity);
    let name = "diff #"@;
    let space = " "@;
    let open = "<span class=\"sev sev-"@;
    let quote = "\">"@;
    let close = "</span>"@;
    let end = "</h1>"@;
    let part = "<h1>"@ + name + id + space + open + sev + quote + sev + close + end;
    headings_are_parts("<header>"@, "<h1>"@, name, id, space, open, sev, quote, close, end);
    let nav = "<nav><a href=\"/diffs\">&larr; back</a>"@
        + "<a href=\"/diffs.json\">json</a></nav></header>"@;
    assert("<header>"@ + part + "<nav><a href=\"/diffs\">&larr; back</a>"@
        + "<a href=\"/diffs.json\">json</a></nav></header>"@ =~= "<header>"@ + part + nav);
    assert(detail_head(d) == "<header>"@ + part + nav);
    let top = html::page_top("diff #"@ + id, STYLE@);
    text::texts_hold_themselves(part);
    text::longer_texts_hold_more("<header>"@, part, part);
    text::longer_texts_hold_more("<header>"@ + part, nav, part);
    text::longer_texts_hold_more(top, detail_head(d), part);
    text::longer_texts_hold_more(top + detail_head(d), detail_table(d), part);
    text::longer_texts_hold_more(top + detail_head(d) + detail_table(d), detail_bodies(d), part);
    text::longer_texts_hold_more(
        top + detail_head(d) + detail_table(d) + detail_bodies(d),
        html::page_end(),
        part,
    );
}

proof fn headings_are_parts(
    h: Seq<char>,
    a: Seq<char>,
    b: Seq<char>,
    c: Seq<char>,
    d: Seq<char>,
    e: Seq<char>,
    f: Seq<char>,
    g: Seq<char>,
    i: Seq<char>,
    j: Seq<char>,
)
    ensures
        (h + a) + b + c + d + e + f + g + f + i + j == h + (a + b + c + d + e + f + g + f + i + j),
{
    assert((h + a) + b =~= h + (a + b));
    let x = a + b;
    assert(h + x + c =~= h + (x + c));
    let x = x + c;
    assert(h + x + d =~= h + (x + d));
    let x = x + d;
    assert(h + x + e =~= h + (x + e));
    let x = x + e;
    assert(h + x + f =~= h + (x + f));
    let x = x + f;
    assert(h + x + g =~= h + (x + g));
    let x = x + g;
    assert(h + x + f =~= h + (x + f));
    let x = x + f;
    assert(h + x + i =~= h + (x + i));
    let x = x + i;
    assert(h + x + j =~= h + (x + j));
}

} // verus!
