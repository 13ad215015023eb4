use diffsplitter::dashboard::{
    diffs_index, diffs_json, diffs_show, opt_status, parse_filters,
    pretty_json_or_raw, render_index_html, ListQuery,
};
use diffsplitter::db;
use diffsplitter::db::Store;

const T0: i64 = 1_700_000_000_000_000_000;

fn fresh_state() -> Store {
    let mut store = Store::new();
    db::migrate(&mut store);
    store
}

fn seed_diff(store: &mut Store, path: &str, severity: &str, descended_from: Option<i64>) -> i64 {
    let now = T0 + store.last_diff_id;
    db::record_diff(
        store,
        "GET",
        path,
        Some(200),
        Some(500),
        Some(r#"{"a":1}"#),
        Some(r#"{"a":2}"#),
        r#"{"kind":"json","primary":{"a":1},"shadow":{"a":2}}"#,
        severity,
        descended_from,
        now,
    )
    .expect("record_diff")
}

fn severity_query(severity: &str) -> ListQuery {
    ListQuery {
        severity: Some(severity.to_string()),
        since: None,
    }
}

fn since_query(since: &str) -> ListQuery {
    ListQuery {
        severity: None,
        since: Some(since.to_string()),
    }
}

#[test]
fn parse_filters_rejects_bad_severity() {
    let q = ListQuery {
        severity: Some("nope".into()),
        since: None,
    };
    assert!(parse_filters(&q).is_err());
    assert_eq!(
        parse_filters(&q).unwrap_err(),
        (
            400,
            "invalid severity `nope`; want one of critical|high|medium|low|noise".to_string()
        )
    );
}

#[test]
fn parse_filters_accepts_known_severity() {
    let q = ListQuery {
        severity: Some("critical".into()),
        since: None,
    };
    let (sev, since) = parse_filters(&q).unwrap();
    assert_eq!(sev.as_deref(), Some("critical"));
    assert!(since.is_none());
}

#[test]
fn parse_filters_reads_dates() {
    assert_eq!(
        parse_filters(&since_query("2024-01-01")).unwrap(),
        (None, Some(19723 * 86_400 * 1_000_000_000))
    );
    assert_eq!(
        parse_filters(&since_query("soon")).unwrap_err(),
        (400, "invalid since `soon`; want YYYY-MM-DD".to_string())
    );
    let empty = ListQuery {
        severity: Some(String::new()),
        since: Some(String::new()),
    };
    assert_eq!(parse_filters(&empty).unwrap(), (None, None));
    assert_eq!(parse_filters(&ListQuery::default()).unwrap(), (None, None));
    assert_eq!(
        parse_filters(&since_query("2262-04-11")).unwrap(),
        (None, Some(106_751 * 86_400 * 1_000_000_000))
    );
    assert_eq!(
        parse_filters(&since_query("2262-04-12")).unwrap_err(),
        (400, "invalid since `2262-04-12`; want YYYY-MM-DD".to_string())
    );
}

#[test]
fn diffs_index_returns_200_with_expected_columns() {
    let mut store = fresh_state();
    let _ = seed_diff(&mut store, "/timeline", "high", None);
    let _ = seed_diff(&mut store, "/u/alice", "critical", Some(42));
    let resp = diffs_index(&store, &ListQuery::default());
    assert_eq!(resp.status, 200);
    assert_eq!(resp.content_type, "text/html; charset=utf-8");
    let html = resp.body;
    // Column headers
    for col in [
        "timestamp",
        "method",
        "path",
        "primary",
        "shadow",
        "severity",
    ] {
        assert!(
            html.contains(&format!("<th>{col}</th>")),
            "missing column header `{col}` in body:\n{}",
            &html[..html.len().min(2000)]
        );
    }
    // Both rows present
    assert!(html.contains("/timeline"));
    assert!(html.contains("/u/alice"));
    // Degraded styling for the descended-from row
    assert!(
        html.contains("class=\"degraded\""),
        "expected greyed-out row for diff with descended_from_failed_write_id"
    );
    // Per-row drill-in link
    assert!(html.contains("/diffs/2") || html.contains("/diffs/1"));
    // Page weight budget: well under 50 KB.
    assert!(
        html.len() < 50 * 1024,
        "page exceeded 50KB budget: {} bytes",
        html.len()
    );
}

#[test]
fn diffs_show_nonexistent_returns_404() {
    let store = fresh_state();
    let resp = diffs_show(&store, 9999);
    assert_eq!(resp.status, 404);
    assert_eq!(resp.body, "diff not found");
}

#[test]
fn diffs_show_existing_returns_html() {
    let mut store = fresh_state();
    let id = seed_diff(&mut store, "/timeline", "high", None);
    let resp = diffs_show(&store, id);
    assert_eq!(resp.status, 200);
    let html = resp.body;
    assert!(html.contains("primary body"));
    assert!(html.contains("shadow body"));
    assert!(html.contains("structured diff"));
}

#[test]
fn diffs_json_round_trips_schema() {
    let mut store = fresh_state();
    let id = seed_diff(&mut store, "/timeline", "high", None);
    let resp = diffs_json(&store, &ListQuery::default());
    assert_eq!(resp.status, 200);
    assert_eq!(resp.content_type, "application/json");
    let v: serde_json::Value = serde_json::from_str(&resp.body).expect("valid json");
    let diffs = v.get("diffs").and_then(|d| d.as_array()).expect("diffs[]");
    assert_eq!(diffs.len(), 1);
    let row = &diffs[0];
    assert_eq!(row["id"].as_i64(), Some(id));
    assert_eq!(row["method"].as_str(), Some("GET"));
    assert_eq!(row["path"].as_str(), Some("/timeline"));
    assert_eq!(row["severity"].as_str(), Some("high"));
    assert_eq!(row["primary_status"].as_i64(), Some(200));
    assert_eq!(row["shadow_status"].as_i64(), Some(500));
    assert!(row["observed_at_ns"].as_i64().unwrap_or(0) > 0);
}

#[test]
fn diffs_json_is_exact() {
    let mut store = fresh_state();
    assert_eq!(
        diffs_json(&store, &ListQuery::default()).body,
        r#"{"diffs":[]}"#
    );
    let _ = db::record_diff(
        &mut store, "GET", "/a\"b", None, Some(500), None, None, "x", "low", Some(7), 5,
    );
    assert_eq!(
        diffs_json(&store, &ListQuery::default()).body,
        "{\"diffs\":[{\"descended_from_failed_write_id\":7,\"diff_blob\":\"x\",\"id\":1,\
         \"method\":\"GET\",\"observed_at_ns\":5,\"path\":\"/a\\\"b\",\"primary_status\":null,\
         \"severity\":\"low\",\"shadow_status\":500}]}"
    );
}

#[test]
fn diffs_index_severity_filter() {
    let mut store = fresh_state();
    let _ = seed_diff(&mut store, "/timeline", "high", None);
    let _ = seed_diff(&mut store, "/u/alice", "critical", None);
    let resp = diffs_json(&store, &severity_query("critical"));
    assert_eq!(resp.status, 200);
    let v: serde_json::Value = serde_json::from_str(&resp.body).unwrap();
    let diffs = v["diffs"].as_array().unwrap();
    assert_eq!(diffs.len(), 1);
    assert_eq!(diffs[0]["severity"].as_str(), Some("critical"));
}

#[test]
fn diffs_index_rejects_bad_severity() {
    let store = fresh_state();
    let resp = diffs_index(&store, &severity_query("bogus"));
    assert_eq!(resp.status, 400);
    assert_eq!(resp.content_type, "text/plain; charset=utf-8");
    assert_eq!(diffs_json(&store, &severity_query("bogus")).status, 400);
    assert_eq!(diffs_index(&store, &since_query("yesterday")).status, 400);
}

#[test]
fn index_shows_at_most_a_hundred_rows() {
    let mut store = fresh_state();
    for _ in 0..120 {
        let _ = seed_diff(&mut store, "/timeline", "high", None);
    }
    let html = diffs_index(&store, &ListQuery::default()).body;
    assert_eq!(html.matches("<tr><td>").count(), 100);
    assert!(html.contains("<footer>showing 100 diff(s); limit 100.</footer>"));
    assert!(html.contains("href=\"/diffs/120\""));
    assert!(!html.contains("href=\"/diffs/20\""));
}

#[test]
fn index_row_is_exact() {
    let mut store = fresh_state();
    let _ = db::record_diff(
        &mut store, "GET", "/<x>", Some(200), None, None, None, "b", "low", None, 0,
    );
    let html = diffs_index(&store, &ListQuery::default()).body;
    assert!(html.contains(
        "<tr><td><code>1970-01-01T00:00:00Z</code></td><td>GET</td>\
         <td><code>/&lt;x&gt;</code></td><td><code>200</code></td><td><code>—</code></td>\
         <td><span class=\"sev sev-low\">low</span></td>\
         <td><a href=\"/diffs/1\">view</a></td></tr>"
    ));
    assert!(html.starts_with("<!doctype html><html lang=\"en\">"));
    assert!(html.contains("<title>diffs · diffsplitter</title>"));
    assert!(html.ends_with("</body></html>"));
}

#[test]
fn index_keeps_the_chosen_filters() {
    let store = fresh_state();
    let q = ListQuery {
        severity: Some("low".to_string()),
        since: Some("2024-01-01".to_string()),
    };
    let html = render_index_html(&Vec::new(), &q);
    assert!(html.contains("<option value=\"low\" selected>low</option>"));
    assert!(html.contains("<option value=\"high\">high</option>"));
    assert!(html.contains("name=\"since\" value=\"2024-01-01\">"));
    assert!(html.contains("no diffs match the current filter."));
    assert_eq!(diffs_index(&store, &q).status, 200);
}

#[test]
fn detail_page_is_escaped() {
    let mut store = fresh_state();
    let id = db::record_diff(
        &mut store,
        "GET",
        "/x",
        Some(200),
        Some(500),
        Some("<script>alert(1)</script>"),
        None,
        "{\"b\":1,\"a\":[]}",
        "high",
        Some(3),
        0,
    )
    .unwrap();
    let html = diffs_show(&store, id).body;
    assert!(!html.contains("<script"));
    assert!(html.contains("&lt;script&gt;alert(1)&lt;/script&gt;"));
    assert!(html.contains("<section><h2>shadow body</h2><pre>(none)</pre></section>"));
    assert!(html.contains("{\n  &quot;a&quot;: [],\n  &quot;b&quot;: 1\n}"));
    assert!(html.contains("#3 (shadow degraded — see K13)"));
    assert!(html.contains("<title>diff #1 · diffsplitter</title>"));
}

#[test]
fn small_pieces_are_exact() {
    assert_eq!(opt_status(Some(-1)), "<code>-1</code>");
    assert_eq!(opt_status(None), "<code>—</code>");
    assert_eq!(pretty_json_or_raw("not json"), "not json");
    assert_eq!(pretty_json_or_raw("{\"a\":1}"), "{\n  \"a\": 1\n}");
}
