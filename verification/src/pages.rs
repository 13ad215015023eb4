//! The pages hold no script: every text that comes from outside is escaped,
//! and the fixed parts open no script tag.
#[allow(unused_imports)]
use crate::calendar;
#[allow(unused_imports)]
use crate::dashboard;
#[allow(unused_imports)]
use crate::db;
#[allow(unused_imports)]
use crate::html;
#[allow(unused_imports)]
use crate::scoreboard;
#[allow(unused_imports)]
use crate::text;
use vstd::prelude::*;

verus! {

/// Whether a script tag is opened at a position of a page, in lower or upper
/// case.
pub open spec fn script_opens_at(s: Seq<char>, i: int) -> bool {
    &&& 0 <= i
    &&& i + 6 < s.len()
    &&& s[i] == '<'
    &&& s[i + 1] == 's' || s[i + 1] == 'S'
    &&& s[i + 2] == 'c' || s[i + 2] == 'C'
    &&& s[i + 3] == 'r' || s[i + 3] == 'R'
    &&& s[i + 4] == 'i' || s[i + 4] == 'I'
    &&& s[i + 5] == 'p' || s[i + 5] == 'P'
    &&& s[i + 6] == 't' || s[i + 6] == 'T'
}

/// Whether a page opens no script tag.
pub open spec fn scriptless(s: Seq<char>) -> bool {
    forall|i: int| !#[trigger] script_opens_at(s, i)
}

/// Whether every `<` in a piece of a page is followed, inside the piece, by two
/// characters that do not begin a script tag.
#[verifier::opaque]
spec fn tame(s: Seq<char>) -> bool {
    forall|i: int|
        0 <= i < s.len() && #[trigger] s[i] == '<' ==> i + 2 < s.len() && !((s[i + 1] == 's'
            || s[i + 1] == 'S') && (s[i + 2] == 'c' || s[i + 2] == 'C'))
}

broadcast proof fn tame_joins(a: Seq<char>, b: Seq<char>)
    requires
        tame(a),
        tame(b),
    ensures
        #[trigger] tame(a + b),
{
    reveal(tame);
    let s = a + b;
    assert forall|i: int| 0 <= i < s.len() && #[trigger] s[i] == '<' implies i + 2 < s.len() && !((
    s[i + 1] == 's' || s[i + 1] == 'S') && (s[i + 2] == 'c' || s[i + 2] == 'C')) by {
        if i < a.len() {
            assert(a[i] == '<');
        } else {
            assert(b[i - a.len()] == '<');
        }
    }
}

proof fn nothing_is_tame()
    ensures
        tame(Seq::empty()),
{
    reveal(tame);
}

proof fn tame_is_scriptless(s: Seq<char>)
    requires
        tame(s),
    ensures
        scriptless(s),
{
    reveal(tame);
    assert forall|i: int| !#[trigger] script_opens_at(s, i) by {
        if script_opens_at(s, i) {
            assert(s[i] == '<');
        }
    }
}

proof fn escaped_is_tame(s: Seq<char>)
    ensures
        tame(text::escaped(s)),
{
    reveal(tame);
    assert forall|i: int| 0 <= i < text::escaped(s).len() implies #[trigger] text::escaped(s)[i]
        != '<' by {
        text::escaped_text_holds_no_markup(s, i);
    }
}

proof fn number_is_tame(i: int)
    ensures
        tame(text::signed_decimal(i)),
{
    reveal(tame);
    if i < 0 {
        text::decimal_is_digits((-i) as nat);
    } else {
        text::decimal_is_digits(i as nat);
    }
}

proof fn grouped_is_tame(n: nat)
    ensures
        tame(scoreboard::grouped(n)),
    decreases n,
{
    broadcast use tame_joins;

    if n < 1000 {
        number_is_tame(n as int);
    } else {
        grouped_is_tame(n / 1000);
        assert(tame(","@)) by {
            reveal_strlit(",");
            reveal(tame);
        }
        assert(tame(text::padded(n % 1000, 3))) by {
            text::decimal_is_digits(n % 1000);
            reveal(tame);
        }
    }
}

proof fn grouped_number_is_tame(i: int)
    ensures
        tame(scoreboard::signed_grouped(i)),
{
    broadcast use tame_joins;

    assert(tame("-"@)) by {
        reveal_strlit("-");
        reveal(tame);
    }
    if i < 0 {
        grouped_is_tame((-i) as nat);
    } else {
        grouped_is_tame(i as nat);
    }
}

proof fn dashboard_style_is_tame()
    ensures
        tame(dashboard::STYLE@),
{
    reveal(tame);
    reveal_strlit(
        r#"
:root { color-scheme: light dark; }
body { font: 14px/1.4 -apple-system, BlinkMacSystemFont, "Segoe UI", system-ui, sans-serif;
       margin: 0; padding: 1rem; background: #fafafa; color: #111; }
h1 { font-size: 1.2rem; margin: 0 0 .5rem 0; }
header { display: flex; align-items: baseline; gap: 1rem; flex-wrap: wrap;
         border-bottom: 1px solid #ddd; padding-bottom: .5rem; margin-bottom: .75rem; }
header nav a { color: #06c; text-decoration: none; margin-right: .5rem; }
form.filters { display: flex; gap: .5rem; align-items: center; flex-wrap: wrap; margin: .5rem 0; }
form.filters label { font-size: 12px; color: #555; }
form.filters input, form.filters select { font: inherit; padding: 2px 4px; }
table { width: 100%; border-collapse: collapse; background: #fff;
        box-shadow: 0 1px 2px rgba(0,0,0,0.04); }
th, td { text-align: left; padding: 6px 8px; border-bottom: 1px solid #eee;
         font-variant-numeric: tabular-nums; }
th { background: #f3f3f3; font-weight: 600; font-size: 12px;
     text-transform: uppercase; letter-spacing: .04em; color: #555; }
tr.degraded td { color: #888; background: #f5f5f5; font-style: italic; }
tr.degraded td:first-child::after { content: " (degraded)"; color: #c60; font-style: normal; font-size: 11px; }
.sev { display: inline-block; padding: 1px 6px; border-radius: 3px; font-size: 11px;
       font-weight: 600; text-transform: uppercase; }
.sev-critical { background: #b00020; color: #fff; }
.sev-high     { background: #d35400; color: #fff; }
.sev-medium   { background: #b58900; color: #fff; }
.sev-low      { background: #888;    color: #fff; }
.sev-noise    { background: #ddd;    color: #333; }
code, pre { font-family: ui-monospace, SFMono-Regular, Menlo, monospace; font-size: 12px; }
.split { display: grid; grid-template-columns: 1fr 1fr; gap: 1rem; margin-top: 1rem; }
.split section { background: #fff; padding: .75rem; border: 1px solid #ddd;
                 box-shadow: 0 1px 2px rgba(0,0,0,0.04); overflow-x: auto; }
.split h2 { font-size: 1rem; margin: 0 0 .5rem 0; }
.split pre { white-space: pre-wrap; word-break: break-word; max-height: 60vh; overflow: auto;
             margin: 0; background: #fafafa; padding: .5rem; border: 1px solid #eee; }
.empty { padding: 2rem; text-align: center; color: #777; }
footer { margin-top: 1rem; font-size: 12px; color: #777; }
@media (prefers-color-scheme: dark) {
  body { background: #181818; color: #ddd; }
  header { border-color: #333; }
  table, .split section { background: #222; box-shadow: none; border-color: #333; }
  th { background: #2a2a2a; color: #aaa; }
  th, td { border-color: #333; }
  tr.degraded td { background: #1f1f1f; color: #777; }
  .split pre { background: #181818; border-color: #333; }
  header nav a { color: #6cf; }
  form.filters label { color: #aaa; }
}
"#,
    );
}

proof fn scoreboard_style_is_tame()
    ensures
        tame(scoreboard::STYLE@),
{
    reveal(tame);
    reveal_strlit(
        r#"
:root { color-scheme: light dark; }
body { font: 14px/1.4 -apple-system, BlinkMacSystemFont, "Segoe UI", system-ui, sans-serif;
       margin: 0; padding: 1rem; background: #fafafa; color: #111; }
h1 { font-size: 1.2rem; margin: 0 0 .5rem 0; }
h2 { font-size: 1rem; margin: 1rem 0 .5rem 0; }
header { display: flex; align-items: baseline; gap: 1rem; flex-wrap: wrap;
         border-bottom: 1px solid #ddd; padding-bottom: .5rem; margin-bottom: .75rem; }
header nav a { color: #06c; text-decoration: none; margin-right: .5rem; }
.cards { display: grid; grid-template-columns: repeat(auto-fit, minmax(160px, 1fr));
         gap: .75rem; margin: .5rem 0 1rem 0; }
.card { background: #fff; border: 1px solid #ddd; border-radius: 4px;
        padding: .75rem; box-shadow: 0 1px 2px rgba(0,0,0,0.04); }
.card .lbl { font-size: 11px; color: #777; text-transform: uppercase;
             letter-spacing: .05em; }
.card .val { font: 600 1.4rem/1.1 ui-monospace, SFMono-Regular, Menlo, monospace;
             font-variant-numeric: tabular-nums; margin-top: .25em; }
.card .sub { font-size: 11px; color: #777; margin-top: .25em; }
.card.degraded { opacity: 0.5; }
.banner { background: #fff7e0; border: 1px solid #d4a017; padding: .5rem .75rem;
          border-radius: 4px; margin: .5rem 0; color: #6b4f00; }
.svg-wrap { background: #fff; border: 1px solid #ddd; padding: .75rem;
            border-radius: 4px; box-shadow: 0 1px 2px rgba(0,0,0,0.04); }
table { width: 100%; border-collapse: collapse; background: #fff;
        box-shadow: 0 1px 2px rgba(0,0,0,0.04); border: 1px solid #ddd; }
th, td { text-align: left; padding: 6px 8px; border-bottom: 1px solid #eee;
         font-variant-numeric: tabular-nums; }
th { background: #f3f3f3; font-weight: 600; font-size: 12px;
     text-transform: uppercase; letter-spacing: .04em; color: #555; }
.sev { display: inline-block; padding: 1px 6px; border-radius: 3px; font-size: 11px;
       font-weight: 600; text-transform: uppercase; }
.sev-critical { background: #b00020; color: #fff; }
.sev-high     { background: #d35400; color: #fff; }
.sev-medium   { background: #b58900; color: #fff; }
.sev-low      { background: #888;    color: #fff; }
.sev-noise    { background: #ddd;    color: #333; }
code { font-family: ui-monospace, SFMono-Regular, Menlo, monospace; font-size: 12px; }
footer { margin-top: 1rem; font-size: 12px; color: #777; }
.empty { padding: 2rem; text-align: center; color: #777; }
@media (prefers-color-scheme: dark) {
  body { background: #181818; color: #ddd; }
  header { border-color: #333; }
  .card, .svg-wrap, table { background: #222; box-shadow: none; border-color: #333; }
  .card .lbl, .card .sub, footer { color: #888; }
  th { background: #2a2a2a; color: #aaa; }
  th, td { border-color: #333; }
  header nav a { color: #6cf; }
  .banner { background: #3a2c00; color: #ffd770; border-color: #d4a017; }
}
"#,
    );
}

/// The tags of the tables are tame.
proof fn table_tags_are_tame()
    ensures
        tame("<td><code>"@),
        tame("</code></td>"@),
        tame("<td>"@),
        tame("</td>"@),
        tame("<tr>"@),
        tame("</tr>"@),
        tame("<table><thead><tr>"@),
        tame("</tr></thead><tbody>"@),
        tame("</tbody></table>"@),
{
    assert(tame("<td><code>"@)) by {
        reveal_strlit("<td><code>");
        reveal(tame);
    }
    assert(tame("</code></td>"@)) by {
        reveal_strlit("</code></td>");
        reveal(tame);
    }
    assert(tame("<td>"@)) by {
        reveal_strlit("<td>");
        reveal(tame);
    }
    assert(tame("</td>"@)) by {
        reveal_strlit("</td>");
        reveal(tame);
    }
    assert(tame("<tr>"@)) by {
        reveal_strlit("<tr>");
        reveal(tame);
    }
    assert(tame("</tr>"@)) by {
        reveal_strlit("</tr>");
        reveal(tame);
    }
    assert(tame("<table><thead><tr>"@)) by {
        reveal_strlit("<table><thead><tr>");
        reveal(tame);
    }
    assert(tame("</tr></thead><tbody>"@)) by {
        reveal_strlit("</tr></thead><tbody>");
        reveal(tame);
    }
    assert(tame("</tbody></table>"@)) by {
        reveal_strlit("</tbody></table>");
        reveal(tame);
    }
}

/// The tags of the cards are tame.
proof fn card_tags_are_tame()
    ensures
        tame("<div class=\"card"@),
        tame(" degraded"@),
        tame("</div><div class=\"val\">"@),
        tame("</div><div class=\"sub\">"@),
        tame("</div></div>"@),
{
    assert(tame("<div class=\"card"@)) by {
        reveal_strlit("<div class=\"card");
        reveal(tame);
    }
    assert(tame(" degraded"@)) by {
        reveal_strlit(" degraded");
        reveal(tame);
    }
    assert(tame("</div><div class=\"val\">"@)) by {
        reveal_strlit("</div><div class=\"val\">");
        reveal(tame);
    }
    assert(tame("</div><div class=\"sub\">"@)) by {
        reveal_strlit("</div><div class=\"sub\">");
        reveal(tame);
    }
    assert(tame("</div></div>"@)) by {
        reveal_strlit("</div></div>");
        reveal(tame);
    }
}

/// Tags that stand in several parts of the pages are tame.
proof fn common_tags_are_tame()
    ensures
        tame(""@),
        tame("\">"@),
        tame("</div>"@),
{
    assert(tame(""@)) by {
        reveal_strlit("");
        reveal(tame);
    }
    assert(tame("\">"@)) by {
        reveal_strlit("\">");
        reveal(tame);
    }
    assert(tame("</div>"@)) by {
        reveal_strlit("</div>");
        reveal(tame);
    }
}

proof fn page_top_is_tame(title: Seq<char>, style: Seq<char>)
    requires
        tame(style),
    ensures
        tame(html::page_top(title, style)),
{
    broadcast use tame_joins;

    assert(tame("<!doctype html><html lang=\"en\"><head><meta charset=\"utf-8\">"@)) by {
        reveal_strlit("<!doctype html><html lang=\"en\"><head><meta charset=\"utf-8\">");
        reveal(tame);
    }
    assert(tame("<meta name=\"viewport\" content=\"width=device-width,initial-scale=1\">"@)) by {
        reveal_strlit("<meta name=\"viewport\" content=\"width=device-width,initial-scale=1\">");
        reveal(tame);
    }
    assert(tame("<title>"@)) by {
        reveal_strlit("<title>");
        reveal(tame);
    }
    assert(tame(" · diffsplitter</title>"@)) by {
        reveal_strlit(" · diffsplitter</title>");
        reveal(tame);
    }
    assert(tame("<style>"@)) by {
        reveal_strlit("<style>");
        reveal(tame);
    }
    assert(tame("</style></head><body>"@)) by {
        reveal_strlit("</style></head><body>");
        reveal(tame);
    }
    escaped_is_tame(title);
}

proof fn page_end_is_tame()
    ensures
        tame(html::page_end()),
{
    broadcast use tame_joins;

    assert(tame("</body></html>"@)) by {
        reveal_strlit("</body></html>");
        reveal(tame);
    }
}

proof fn option_tag_is_tame(severity: Seq<char>, chosen: Option<Seq<char>>)
    ensures
        tame(dashboard::option_tag(severity, chosen)),
{
    broadcast use tame_joins;

    common_tags_are_tame();
    assert(tame("<option value=\""@)) by {
        reveal_strlit("<option value=\"");
        reveal(tame);
    }
    assert(tame("\""@)) by {
        reveal_strlit("\"");
        reveal(tame);
    }
    assert(tame(" selected"@)) by {
        reveal_strlit(" selected");
        reveal(tame);
    }
    assert(tame(">"@)) by {
        reveal_strlit(">");
        reveal(tame);
    }
    assert(tame("</option>"@)) by {
        reveal_strlit("</option>");
        reveal(tame);
    }
    escaped_is_tame(severity);
}

proof fn listing_head_is_tame(q: dashboard::ListQueryView)
    ensures
        tame(dashboard::listing_head(q)),
{
    broadcast use tame_joins;

    assert(tame("<header><h1>diffsplitter — diffs</h1>"@)) by {
        reveal_strlit("<header><h1>diffsplitter — diffs</h1>");
        reveal(tame);
    }
    assert(tame("<nav><a href=\"/diffs\">all</a>"@)) by {
        reveal_strlit("<nav><a href=\"/diffs\">all</a>");
        reveal(tame);
    }
    assert(tame("<a href=\"/diffs.json\">json</a>"@)) by {
        reveal_strlit("<a href=\"/diffs.json\">json</a>");
        reveal(tame);
    }
    assert(tame("<a href=\"/metrics\">metrics</a></nav></header>"@)) by {
        reveal_strlit("<a href=\"/metrics\">metrics</a></nav></header>");
        reveal(tame);
    }
    assert(tame("<form class=\"filters\" method=\"GET\" action=\"/diffs\">"@)) by {
        reveal_strlit("<form class=\"filters\" method=\"GET\" action=\"/diffs\">");
        reveal(tame);
    }
    assert(tame("<label>severity "@)) by {
        reveal_strlit("<label>severity ");
        reveal(tame);
    }
    assert(tame("<select name=\"severity\">"@)) by {
        reveal_strlit("<select name=\"severity\">");
        reveal(tame);
    }
    assert(tame("<option value=\"\">(any)</option>"@)) by {
        reveal_strlit("<option value=\"\">(any)</option>");
        reveal(tame);
    }
    assert(tame("</select></label>"@)) by {
        reveal_strlit("</select></label>");
        reveal(tame);
    }
    assert(tame("<label>since (UTC date) <input type=\"date\" name=\"since\" value=\""@)) by {
        reveal_strlit("<label>since (UTC date) <input type=\"date\" name=\"since\" value=\"");
        reveal(tame);
    }
    assert(tame("\"></label>"@)) by {
        reveal_strlit("\"></label>");
        reveal(tame);
    }
    assert(tame("<button type=\"submit\">apply</button>"@)) by {
        reveal_strlit("<button type=\"submit\">apply</button>");
        reveal(tame);
    }
    assert(tame("</form>"@)) by {
        reveal_strlit("</form>");
        reveal(tame);
    }
    option_tag_is_tame("critical"@, q.severity);
    option_tag_is_tame("high"@, q.severity);
    option_tag_is_tame("medium"@, q.severity);
    option_tag_is_tame("low"@, q.severity);
    option_tag_is_tame("noise"@, q.severity);
    escaped_is_tame(
        match q.since {
            Some(s) => s,
            None => ""@,
        },
    );
}

proof fn status_cell_is_tame(status: Option<i64>)
    ensures
        tame(dashboard::status_cell(status)),
{
    broadcast use tame_joins;

    assert(tame("<code>"@)) by {
        reveal_strlit("<code>");
        reveal(tame);
    }
    assert(tame("</code>"@)) by {
        reveal_strlit("</code>");
        reveal(tame);
    }
    assert(tame("<code>—</code>"@)) by {
        reveal_strlit("<code>—</code>");
        reveal(tame);
    }
    if status is Some {
        number_is_tame(status->0 as int);
    }
}

proof fn listing_cells_are_tame(r: db::DiffRowView)
    ensures
        tame(dashboard::listing_cells(r)),
{
    broadcast use tame_joins;

    table_tags_are_tame();
    common_tags_are_tame();
    assert(tame("<td><span class=\"sev sev-"@)) by {
        reveal_strlit("<td><span class=\"sev sev-");
        reveal(tame);
    }
    assert(tame("</span></td>"@)) by {
        reveal_strlit("</span></td>");
        reveal(tame);
    }
    assert(tame("<td><a href=\"/diffs/"@)) by {
        reveal_strlit("<td><a href=\"/diffs/");
        reveal(tame);
    }
    assert(tame("\">view</a></td>"@)) by {
        reveal_strlit("\">view</a></td>");
        reveal(tame);
    }
    escaped_is_tame(calendar::stamp(r.observed_at_ns));
    escaped_is_tame(r.method);
    escaped_is_tame(r.path);
    escaped_is_tame(r.severity);
    status_cell_is_tame(r.primary_status);
    status_cell_is_tame(r.shadow_status);
    number_is_tame(r.id);
}

proof fn listing_row_is_tame(r: db::DiffRowView)
    ensures
        tame(dashboard::listing_row(r)),
{
    broadcast use tame_joins;

    table_tags_are_tame();
    assert(tame("<tr class=\"degraded\">"@)) by {
        reveal_strlit("<tr class=\"degraded\">");
        reveal(tame);
    }
    listing_cells_are_tame(r);
}

proof fn listing_rows_are_tame(rows: Seq<db::DiffRowView>)
    ensures
        tame(dashboard::listing_rows(rows)),
    decreases rows.len(),
{
    broadcast use tame_joins;

    if rows.len() == 0 {
        nothing_is_tame();
    } else {
        listing_rows_are_tame(rows.drop_last());
        listing_row_is_tame(rows.last());
    }
}

proof fn listing_table_is_tame(rows: Seq<db::DiffRowView>)
    ensures
        tame(dashboard::listing_table(rows)),
{
    broadcast use tame_joins;

    table_tags_are_tame();
    assert(tame("<div class=\"empty\">no diffs match the current filter.</div>"@)) by {
        reveal_strlit("<div class=\"empty\">no diffs match the current filter.</div>");
        reveal(tame);
    }
    assert(tame("<th>timestamp</th><th>method</th><th>path</th><th>primary</th><th>shadow</th><th>severity</th><th></th>"@)) by {
        reveal_strlit("<th>timestamp</th><th>method</th><th>path</th><th>primary</th><th>shadow</th><th>severity</th><th></th>");
        reveal(tame);
    }
    listing_rows_are_tame(rows);
}

/// No page that lists differences holds a script, whatever was recorded and
/// whatever the listing was asked for.
pub proof fn listings_hold_no_script(rows: Seq<db::DiffRowView>, q: dashboard::ListQueryView)
    ensures
        scriptless(dashboard::index_page(rows, q)),
{
    broadcast use tame_joins;

    assert(tame("<footer>showing "@)) by {
        reveal_strlit("<footer>showing ");
        reveal(tame);
    }
    assert(tame(" diff(s); limit "@)) by {
        reveal_strlit(" diff(s); limit ");
        reveal(tame);
    }
    assert(tame(".</footer>"@)) by {
        reveal_strlit(".</footer>");
        reveal(tame);
    }
    dashboard_style_is_tame();
    page_top_is_tame("diffs"@, dashboard::STYLE@);
    listing_head_is_tame(q);
    listing_table_is_tame(rows);
    number_is_tame(rows.len() as int);
    number_is_tame(dashboard::LIMIT as int);
    page_end_is_tame();
    tame_is_scriptless(dashboard::index_page(rows, q));
}

proof fn kv_row_is_tame(k: Seq<char>, v: Seq<char>)
    ensures
        tame(dashboard::kv_row(k, v)),
{
    broadcast use tame_joins;

    assert(tame("<tr><th style=\"width:14em\">"@)) by {
        reveal_strlit("<tr><th style=\"width:14em\">");
        reveal(tame);
    }
    assert(tame("</th><td>"@)) by {
        reveal_strlit("</th><td>");
        reveal(tame);
    }
    assert(tame("</td></tr>"@)) by {
        reveal_strlit("</td></tr>");
        reveal(tame);
    }
    escaped_is_tame(k);
    escaped_is_tame(v);
}

proof fn detail_head_is_tame(d: db::DiffDetailView)
    ensures
        tame(dashboard::detail_head(d)),
{
    broadcast use tame_joins;

    common_tags_are_tame();
    assert(tame("<header><h1>"@)) by {
        reveal_strlit("<header><h1>");
        reveal(tame);
    }
    assert(tame("diff #"@)) by {
        reveal_strlit("diff #");
        reveal(tame);
    }
    assert(tame(" "@)) by {
        reveal_strlit(" ");
        reveal(tame);
    }
    assert(tame("<span class=\"sev sev-"@)) by {
        reveal_strlit("<span class=\"sev sev-");
        reveal(tame);
    }
    assert(tame("</span>"@)) by {
        reveal_strlit("</span>");
        reveal(tame);
    }
    assert(tame("</h1>"@)) by {
        reveal_strlit("</h1>");
        reveal(tame);
    }
    assert(tame("<nav><a href=\"/diffs\">&larr; back</a>"@)) by {
        reveal_strlit("<nav><a href=\"/diffs\">&larr; back</a>");
        reveal(tame);
    }
    assert(tame("<a href=\"/diffs.json\">json</a></nav></header>"@)) by {
        reveal_strlit("<a href=\"/diffs.json\">json</a></nav></header>");
        reveal(tame);
    }
    escaped_is_tame(d.severity);
    number_is_tame(d.id);
}

proof fn detail_table_is_tame(d: db::DiffDetailView)
    ensures
        tame(dashboard::detail_table(d)),
{
    broadcast use tame_joins;

    common_tags_are_tame();
    table_tags_are_tame();
    assert(tame("<table><tbody>"@)) by {
        reveal_strlit("<table><tbody>");
        reveal(tame);
    }
    kv_row_is_tame("observed"@, calendar::stamp(d.observed_at_ns));
    kv_row_is_tame("method"@, d.method);
    kv_row_is_tame("path"@, d.path);
    kv_row_is_tame("primary status"@, dashboard::status_text(d.primary_status));
    kv_row_is_tame("shadow status"@, dashboard::status_text(d.shadow_status));
    if d.descended_from_failed_write_id is Some {
        kv_row_is_tame(
            "descended from failed write"@,
            dashboard::descent_text(d.descended_from_failed_write_id->0),
        );
    }
}

proof fn detail_bodies_are_tame(d: db::DiffDetailView)
    ensures
        tame(dashboard::detail_bodies(d)),
{
    broadcast use tame_joins;

    common_tags_are_tame();
    assert(tame("<div class=\"split\">"@)) by {
        reveal_strlit("<div class=\"split\">");
        reveal(tame);
    }
    assert(tame("<section><h2>primary body</h2><pre>"@)) by {
        reveal_strlit("<section><h2>primary body</h2><pre>");
        reveal(tame);
    }
    assert(tame("</pre></section>"@)) by {
        reveal_strlit("</pre></section>");
        reveal(tame);
    }
    assert(tame("<section><h2>shadow body</h2><pre>"@)) by {
        reveal_strlit("<section><h2>shadow body</h2><pre>");
        reveal(tame);
    }
    assert(tame("<section style=\"margin-top:1rem;background:#fff;padding:.75rem;border:1px solid #ddd;\">"@)) by {
        reveal_strlit("<section style=\"margin-top:1rem;background:#fff;padding:.75rem;border:1px solid #ddd;\">");
        reveal(tame);
    }
    assert(tame("<h2 style=\"margin:0 0 .5rem 0;font-size:1rem;\">structured diff</h2>"@)) by {
        reveal_strlit("<h2 style=\"margin:0 0 .5rem 0;font-size:1rem;\">structured diff</h2>");
        reveal(tame);
    }
    assert(tame("<pre style=\"white-space:pre-wrap;word-break:break-word;margin:0;\">"@)) by {
        reveal_strlit("<pre style=\"white-space:pre-wrap;word-break:break-word;margin:0;\">");
        reveal(tame);
    }
    escaped_is_tame(dashboard::body_text(d.primary_body));
    escaped_is_tame(dashboard::body_text(d.shadow_body));
    escaped_is_tame(dashboard::pretty_text(d.diff_blob));
}

/// No page of a difference holds a script, whatever the two backends answered.
pub proof fn details_hold_no_script(d: db::DiffDetailView)
    ensures
        scriptless(dashboard::show_page(d)),
{
    broadcast use tame_joins;

    dashboard_style_is_tame();
    page_top_is_tame("diff #"@ + text::signed_decimal(d.id), dashboard::STYLE@);
    detail_head_is_tame(d);
    detail_table_is_tame(d);
    detail_bodies_are_tame(d);
    page_end_is_tame();
    tame_is_scriptless(dashboard::show_page(d));
}

proof fn colour_is_tame(severity: Seq<char>)
    ensures
        tame(scoreboard::colour(severity)),
{
    broadcast use tame_joins;

    assert(tame("#b00020"@)) by {
        reveal_strlit("#b00020");
        reveal(tame);
    }
    assert(tame("#d35400"@)) by {
        reveal_strlit("#d35400");
        reveal(tame);
    }
    assert(tame("#b58900"@)) by {
        reveal_strlit("#b58900");
        reveal(tame);
    }
    assert(tame("#888888"@)) by {
        reveal_strlit("#888888");
        reveal(tame);
    }
    assert(tame("#cccccc"@)) by {
        reveal_strlit("#cccccc");
        reveal(tame);
    }
    assert(tame("#999999"@)) by {
        reveal_strlit("#999999");
        reveal(tame);
    }
}

proof fn bar_is_tame(i: int, severity: Seq<char>, n: int, max: int)
    ensures
        tame(scoreboard::bar(i, severity, n, max)),
{
    broadcast use tame_joins;

    common_tags_are_tame();
    assert(tame("<rect x=\"80\" y=\""@)) by {
        reveal_strlit("<rect x=\"80\" y=\"");
        reveal(tame);
    }
    assert(tame("\" width=\""@)) by {
        reveal_strlit("\" width=\"");
        reveal(tame);
    }
    assert(tame("\" height=\"20\" fill=\""@)) by {
        reveal_strlit("\" height=\"20\" fill=\"");
        reveal(tame);
    }
    assert(tame("\" rx=\"2\"/>"@)) by {
        reveal_strlit("\" rx=\"2\"/>");
        reveal(tame);
    }
    number_is_tame(30 * i + 4);
    number_is_tame(scoreboard::bar_width(n, max));
    colour_is_tame(severity);
}

proof fn chart_row_is_tame(i: int, severity: Seq<char>, n: int, max: int)
    ensures
        tame(scoreboard::chart_row(i, severity, n, max)),
{
    broadcast use tame_joins;

    assert(tame("<text x=\"0\" y=\""@)) by {
        reveal_strlit("<text x=\"0\" y=\"");
        reveal(tame);
    }
    assert(tame("\" fill=\"currentColor\">"@)) by {
        reveal_strlit("\" fill=\"currentColor\">");
        reveal(tame);
    }
    assert(tame("</text>"@)) by {
        reveal_strlit("</text>");
        reveal(tame);
    }
    assert(tame("<text x=\"448\" y=\""@)) by {
        reveal_strlit("<text x=\"448\" y=\"");
        reveal(tame);
    }
    number_is_tame(30 * i + 20);
    number_is_tame(n);
    escaped_is_tame(severity);
    bar_is_tame(i, severity, n, max);
}

proof fn chart_rows_are_tame(counts: Seq<(Seq<char>, int)>, max: int)
    ensures
        tame(scoreboard::chart_rows(counts, max)),
    decreases counts.len(),
{
    broadcast use tame_joins;

    if counts.len() == 0 {
        nothing_is_tame();
    } else {
        chart_rows_are_tame(counts.drop_last(), max);
        chart_row_is_tame(counts.len() - 1, counts.last().0, counts.last().1, max);
    }
}

proof fn chart_is_tame(counts: Seq<(Seq<char>, int)>)
    ensures
        tame(scoreboard::chart(counts)),
{
    broadcast use tame_joins;

    assert(tame("<svg xmlns=\"http://www.w3.org/2000/svg\" viewBox=\"0 0 516 158\" width=\"100%\" style=\"max-width:516px;height:auto;font:12px ui-monospace,SFMono-Regular,Menlo,monospace\" role=\"img\" aria-label=\"severity breakdown bar chart\">"@)) by {
        reveal_strlit("<svg xmlns=\"http://www.w3.org/2000/svg\" viewBox=\"0 0 516 158\" width=\"100%\" style=\"max-width:516px;height:auto;font:12px ui-monospace,SFMono-Regular,Menlo,monospace\" role=\"img\" aria-label=\"severity breakdown bar chart\">");
        reveal(tame);
    }
    assert(tame("</svg>"@)) by {
        reveal_strlit("</svg>");
        reveal(tame);
    }
    chart_rows_are_tame(counts, scoreboard::largest(counts));
}

proof fn card_is_tame(label: Seq<char>, val: Seq<char>, sub: Seq<char>, grey: bool)
    ensures
        tame(scoreboard::card(label, val, sub, grey)),
{
    broadcast use tame_joins;

    card_tags_are_tame();
    common_tags_are_tame();
    assert(tame("\"><div class=\"lbl\">"@)) by {
        reveal_strlit("\"><div class=\"lbl\">");
        reveal(tame);
    }
    escaped_is_tame(label);
    escaped_is_tame(val);
    escaped_is_tame(sub);
}

proof fn window_card_is_tame(w: scoreboard::WindowView, rate: Seq<char>, grey: bool)
    ensures
        tame(scoreboard::window_card(w, rate, grey)),
{
    broadcast use tame_joins;

    card_tags_are_tame();
    common_tags_are_tame();
    assert(tame("\"><div class=\"lbl\">divergence rate · "@)) by {
        reveal_strlit("\"><div class=\"lbl\">divergence rate · ");
        reveal(tame);
    }
    escaped_is_tame(w.label);
    escaped_is_tame(rate);
    escaped_is_tame(scoreboard::window_sub(w));
}

proof fn window_cards_are_tame(
    windows: Seq<scoreboard::WindowView>,
    rates: Seq<Seq<char>>,
    grey: bool,
)
    ensures
        tame(scoreboard::window_cards(windows, rates, grey)),
    decreases windows.len(),
{
    broadcast use tame_joins;

    if windows.len() == 0 {
        nothing_is_tame();
    } else {
        window_cards_are_tame(windows.drop_last(), rates, grey);
        window_card_is_tame(windows.last(), rates[windows.len() - 1], grey);
    }
}

proof fn path_row_is_tame(p: (Seq<char>, int, int), rate: Seq<char>)
    ensures
        tame(scoreboard::path_row(p, rate)),
{
    broadcast use tame_joins;

    table_tags_are_tame();
    escaped_is_tame(p.0);
    escaped_is_tame(rate);
    grouped_number_is_tame(p.1);
    grouped_number_is_tame(p.2);
}

proof fn path_rows_are_tame(paths: Seq<(Seq<char>, int, int)>, rates: Seq<Seq<char>>)
    ensures
        tame(scoreboard::path_rows(paths, rates)),
    decreases paths.len(),
{
    broadcast use tame_joins;

    if paths.len() == 0 {
        nothing_is_tame();
    } else {
        path_rows_are_tame(paths.drop_last(), rates);
        path_row_is_tame(paths.last(), rates[paths.len() - 1]);
    }
}

proof fn path_table_is_tame(paths: Seq<(Seq<char>, int, int)>, rates: Seq<Seq<char>>)
    ensures
        tame(scoreboard::path_table(paths, rates)),
{
    broadcast use tame_joins;

    table_tags_are_tame();
    assert(tame("<div class=\"empty\">no diffs in the last 24h.</div>"@)) by {
        reveal_strlit("<div class=\"empty\">no diffs in the last 24h.</div>");
        reveal(tame);
    }
    assert(tame("<th>path</th><th>diffs</th><th>requests (approx)</th><th>rate</th>"@)) by {
        reveal_strlit("<th>path</th><th>diffs</th><th>requests (approx)</th><th>rate</th>");
        reveal(tame);
    }
    path_rows_are_tame(paths, rates);
}

proof fn critical_card_is_tame(c: Option<(int, int)>)
    ensures
        tame(scoreboard::critical_card(c)),
{
    broadcast use tame_joins;

    assert(tame("<div class=\"card\"><div class=\"lbl\">observed</div>"@)) by {
        reveal_strlit("<div class=\"card\"><div class=\"lbl\">observed</div>");
        reveal(tame);
    }
    assert(tame("<div class=\"val\"><code>"@)) by {
        reveal_strlit("<div class=\"val\"><code>");
        reveal(tame);
    }
    assert(tame("</code></div><div class=\"sub\"><a href=\"/diffs/"@)) by {
        reveal_strlit("</code></div><div class=\"sub\"><a href=\"/diffs/");
        reveal(tame);
    }
    assert(tame("\">view diff #"@)) by {
        reveal_strlit("\">view diff #");
        reveal(tame);
    }
    assert(tame("</a></div></div>"@)) by {
        reveal_strlit("</a></div></div>");
        reveal(tame);
    }
    assert(tame("<div class=\"empty\">no critical diffs ever recorded.</div>"@)) by {
        reveal_strlit("<div class=\"empty\">no critical diffs ever recorded.</div>");
        reveal(tame);
    }
    if let Some((id, ns)) = c {
        escaped_is_tame(calendar::stamp(ns));
        number_is_tame(id);
    }
}

proof fn board_head_is_tame(shadow_degraded: bool)
    ensures
        tame(scoreboard::board_head(shadow_degraded)),
{
    broadcast use tame_joins;

    common_tags_are_tame();
    assert(tame("<header><h1>diffsplitter — conformance scoreboard</h1>"@)) by {
        reveal_strlit("<header><h1>diffsplitter — conformance scoreboard</h1>");
        reveal(tame);
    }
    assert(tame("<nav>"@)) by {
        reveal_strlit("<nav>");
        reveal(tame);
    }
    assert(tame("<a href=\"/scoreboard\">scoreboard</a>"@)) by {
        reveal_strlit("<a href=\"/scoreboard\">scoreboard</a>");
        reveal(tame);
    }
    assert(tame("<a href=\"/diffs\">diffs</a>"@)) by {
        reveal_strlit("<a href=\"/diffs\">diffs</a>");
        reveal(tame);
    }
    assert(tame("<a href=\"/scoreboard.json\">json</a>"@)) by {
        reveal_strlit("<a href=\"/scoreboard.json\">json</a>");
        reveal(tame);
    }
    assert(tame("<a href=\"/metrics\">metrics</a>"@)) by {
        reveal_strlit("<a href=\"/metrics\">metrics</a>");
        reveal(tame);
    }
    assert(tame("</nav></header>"@)) by {
        reveal_strlit("</nav></header>");
        reveal(tame);
    }
    assert(tame("<div class=\"banner\">shadow backend is currently <strong>degraded</strong> (K13). Divergence-rate panels are greyed out — they aren't meaningful while writes are being dropped.</div>"@)) by {
        reveal_strlit("<div class=\"banner\">shadow backend is currently <strong>degraded</strong> (K13). Divergence-rate panels are greyed out — they aren't meaningful while writes are being dropped.</div>");
        reveal(tame);
    }
}

proof fn board_foot_is_tame(now: int)
    ensures
        tame(scoreboard::board_foot(now)),
{
    broadcast use tame_joins;

    assert(tame("<footer>page generated at <code>"@)) by {
        reveal_strlit("<footer>page generated at <code>");
        reveal(tame);
    }
    assert(tame("</code>. "@)) by {
        reveal_strlit("</code>. ");
        reveal(tame);
    }
    assert(tame("\"requests (approx)\" = diffs + queued writes + failed writes — successful writes are not retained, so this undercounts slightly. The resulting rate is conservative (overstates divergence rather than hiding it)."@)) by {
        reveal_strlit("\"requests (approx)\" = diffs + queued writes + failed writes — successful writes are not retained, so this undercounts slightly. The resulting rate is conservative (overstates divergence rather than hiding it).");
        reveal(tame);
    }
    assert(tame("</footer>"@)) by {
        reveal_strlit("</footer>");
        reveal(tame);
    }
    escaped_is_tame(calendar::stamp(now));
}

/// No scoreboard holds a script, whatever was recorded.
pub proof fn scoreboards_hold_no_script(
    d: scoreboard::BoardView,
    window_rates: Seq<Seq<char>>,
    path_rates: Seq<Seq<char>>,
)
    ensures
        scriptless(scoreboard::board_page(d, window_rates, path_rates)),
{
    broadcast use tame_joins;

    common_tags_are_tame();
    assert(tame("<h2>at a glance</h2>"@)) by {
        reveal_strlit("<h2>at a glance</h2>");
        reveal(tame);
    }
    assert(tame("<div class=\"cards\">"@)) by {
        reveal_strlit("<div class=\"cards\">");
        reveal(tame);
    }
    assert(tame("<h2>severity breakdown · last 24h</h2>"@)) by {
        reveal_strlit("<h2>severity breakdown · last 24h</h2>");
        reveal(tame);
    }
    assert(tame("<div class=\"svg-wrap\">"@)) by {
        reveal_strlit("<div class=\"svg-wrap\">");
        reveal(tame);
    }
    assert(tame("<h2>top diverging paths · last 24h</h2>"@)) by {
        reveal_strlit("<h2>top diverging paths · last 24h</h2>");
        reveal(tame);
    }
    assert(tame("<h2>last critical diff</h2>"@)) by {
        reveal_strlit("<h2>last critical diff</h2>");
        reveal(tame);
    }
    scoreboard_style_is_tame();
    page_top_is_tame("scoreboard"@, scoreboard::STYLE@);
    board_head_is_tame(d.shadow_degraded);
    card_is_tame(
        "total requests (approx)"@,
        scoreboard::signed_grouped(d.requests_total_approx),
        "diffs + writes; see footer"@,
        false,
    );
    card_is_tame(
        "total diffs"@,
        scoreboard::signed_grouped(d.diffs_total),
        "all-time recorded divergences"@,
        false,
    );
    window_cards_are_tame(d.windows, window_rates, d.shadow_degraded);
    chart_is_tame(d.severity_24h);
    path_table_is_tame(d.top_paths_24h, path_rates);
    critical_card_is_tame(d.last_critical);
    board_foot_is_tame(d.now_ns);
    page_end_is_tame();
    tame_is_scriptless(scoreboard::board_page(d, window_rates, path_rates));
}

} // verus!
