use diffsplitter::db;
use diffsplitter::db::Store;
use diffsplitter::json::Json;
use diffsplitter::scoreboard::{
    collect, format_int, is_drawable, rate_quotient, render_severity_svg, scoreboard_html,
    scoreboard_json, severity_colour, ScoreboardData,
};

const NS_SEC: i64 = 1_000_000_000;
const NOW: i64 = 1_700_000_000 * NS_SEC;

fn fresh_state() -> Store {
    let mut store = Store::new();
    db::migrate(&mut store);
    store
}

fn seed_diff_at(store: &mut Store, observed_at_ns: i64, path: &str, severity: &str) -> i64 {
    db::record_diff(
        store,
        "GET",
        path,
        Some(200),
        Some(500),
        Some(r#"{"a":1}"#),
        Some(r#"{"a":2}"#),
        r#"{"kind":"json"}"#,
        severity,
        None,
        observed_at_ns,
    )
    .expect("insert diff")
}

fn seed_write_at(store: &mut Store, enqueued_at_ns: i64, path: &str) {
    db::enqueue_write(store, "POST", path, &[], None, enqueued_at_ns).expect("insert write");
}

fn rate(diffs: i64, requests: i64) -> f64 {
    match rate_quotient(diffs, requests) {
        Some((d, r)) => d as f64 / r as f64,
        None => 0.0,
    }
}

fn number(f: f64) -> Json {
    Json::Number(serde_json::Number::from_f64(f).expect("finite"))
}

fn html_of(store: &Store) -> String {
    let d: ScoreboardData = collect(store, NOW);
    let windows: Vec<String> = d
        .windows
        .iter()
        .map(|w| format!("{}", rate(w.diffs, w.requests)))
        .collect();
    let paths: Vec<String> = d
        .top_paths_24h
        .iter()
        .map(|p| format!("{}", rate(p.1, p.2)))
        .collect();
    assert!(is_drawable(&d.severity_24h));
    let resp = scoreboard_html(&d, &windows, &paths);
    assert_eq!(resp.status, 200);
    assert_eq!(resp.content_type, "text/html; charset=utf-8");
    resp.body
}

fn json_of(store: &Store) -> serde_json::Value {
    let d: ScoreboardData = collect(store, NOW);
    let windows: Vec<Json> = d
        .windows
        .iter()
        .map(|w| number(rate(w.diffs, w.requests)))
        .collect();
    let paths: Vec<Json> = d
        .top_paths_24h
        .iter()
        .map(|p| number(rate(p.1, p.2)))
        .collect();
    let resp = scoreboard_json(&d, windows, paths);
    assert_eq!(resp.status, 200);
    assert_eq!(resp.content_type, "application/json");
    serde_json::from_str(&resp.body).expect("valid json")
}

#[test]
fn format_int_grouping() {
    assert_eq!(format_int(0), "0");
    assert_eq!(format_int(7), "7");
    assert_eq!(format_int(1_234), "1,234");
    assert_eq!(format_int(1_000_000), "1,000,000");
    assert_eq!(format_int(-12_345), "-12,345");
}

#[test]
fn format_int_edges() {
    assert_eq!(format_int(999), "999");
    assert_eq!(format_int(1_000), "1,000");
    assert_eq!(format_int(1_001_001), "1,001,001");
    assert_eq!(format_int(i64::MAX), "9,223,372,036,854,775,807");
    assert_eq!(format_int(i64::MIN), "-9,223,372,036,854,775,808");
}

#[test]
fn severity_svg_renders_all_rows() {
    let sevs: [(String, i64); 5] = [
        ("critical".into(), 3),
        ("high".into(), 7),
        ("medium".into(), 0),
        ("low".into(), 2),
        ("noise".into(), 1),
    ];
    let svg = render_severity_svg(&sevs);
    assert!(svg.starts_with("<svg"));
    assert!(svg.contains("critical"));
    assert!(svg.contains("noise"));
    assert!(svg.contains("#b00020")); // critical colour
}

#[test]
fn severity_svg_is_exact() {
    let sevs: [(String, i64); 5] = [
        ("critical".into(), 3),
        ("high".into(), 1000),
        ("medium".into(), 0),
        ("low".into(), 500),
        ("odd&".into(), 1),
    ];
    let svg = render_severity_svg(&sevs);
    assert_eq!(
        svg,
        "<svg xmlns=\"http://www.w3.org/2000/svg\" viewBox=\"0 0 516 158\" width=\"100%\" \
         style=\"max-width:516px;height:auto;font:12px ui-monospace,SFMono-Regular,Menlo,monospace\" \
         role=\"img\" aria-label=\"severity breakdown bar chart\">\
         <text x=\"0\" y=\"20\" fill=\"currentColor\">critical</text>\
         <rect x=\"80\" y=\"4\" width=\"2\" height=\"20\" fill=\"#b00020\" rx=\"2\"/>\
         <text x=\"448\" y=\"20\" fill=\"currentColor\">3</text>\
         <text x=\"0\" y=\"50\" fill=\"currentColor\">high</text>\
         <rect x=\"80\" y=\"34\" width=\"360\" height=\"20\" fill=\"#d35400\" rx=\"2\"/>\
         <text x=\"448\" y=\"50\" fill=\"currentColor\">1000</text>\
         <text x=\"0\" y=\"80\" fill=\"currentColor\">medium</text>\
         <text x=\"448\" y=\"80\" fill=\"currentColor\">0</text>\
         <text x=\"0\" y=\"110\" fill=\"currentColor\">low</text>\
         <rect x=\"80\" y=\"94\" width=\"180\" height=\"20\" fill=\"#888888\" rx=\"2\"/>\
         <text x=\"448\" y=\"110\" fill=\"currentColor\">500</text>\
         <text x=\"0\" y=\"140\" fill=\"currentColor\">odd&amp;</text>\
         <rect x=\"80\" y=\"124\" width=\"2\" height=\"20\" fill=\"#999999\" rx=\"2\"/>\
         <text x=\"448\" y=\"140\" fill=\"currentColor\">1</text></svg>"
    );
}

#[test]
fn severity_colours() {
    assert_eq!(severity_colour("critical"), "#b00020");
    assert_eq!(severity_colour("high"), "#d35400");
    assert_eq!(severity_colour("medium"), "#b58900");
    assert_eq!(severity_colour("low"), "#888888");
    assert_eq!(severity_colour("noise"), "#cccccc");
    assert_eq!(severity_colour(""), "#999999");
}

#[test]
fn huge_counts_are_not_drawable() {
    let sevs: [(String, i64); 5] = [
        ("critical".into(), i64::MAX),
        ("high".into(), 0),
        ("medium".into(), 0),
        ("low".into(), 0),
        ("noise".into(), 0),
    ];
    assert!(!is_drawable(&sevs));
}

#[test]
fn rates_are_quotients() {
    assert_eq!(rate_quotient(3, 4), Some((3, 4)));
    assert_eq!(rate_quotient(0, 0), None);
    assert_eq!(rate_quotient(5, -1), None);
}

#[test]
fn scoreboard_html_returns_200_with_all_sections() {
    let mut store = fresh_state();
    seed_diff_at(&mut store, NOW - 60 * NS_SEC, "/timeline", "critical");
    seed_diff_at(&mut store, NOW - 5 * 60 * NS_SEC, "/u/alice", "high");
    seed_write_at(&mut store, NOW - 60 * NS_SEC, "/users");
    let html = html_of(&store);

    // All required sections present
    for needle in [
        "conformance scoreboard",
        "at a glance",
        "divergence rate · 1h",
        "divergence rate · 24h",
        "divergence rate · 7d",
        "severity breakdown",
        "<svg",
        "top diverging paths",
        "last critical diff",
        "/timeline",
        "/u/alice",
    ] {
        assert!(
            html.contains(needle),
            "missing `{needle}` in scoreboard HTML"
        );
    }
    // Page weight budget
    assert!(
        html.len() < 50 * 1024,
        "scoreboard exceeded 50KB budget: {} bytes",
        html.len()
    );
    assert!(html.contains("2 diffs / 3 req"));
    assert!(html.contains("<a href=\"/diffs/1\">view diff #1</a>"));
    assert!(!html.contains("class=\"banner\""));
}

#[test]
fn scoreboard_json_round_trips() {
    let mut store = fresh_state();
    seed_diff_at(&mut store, NOW - 60 * NS_SEC, "/timeline", "critical");
    seed_diff_at(&mut store, NOW - 60 * NS_SEC, "/timeline", "high");
    seed_diff_at(&mut store, NOW - 60 * NS_SEC, "/timeline", "high");
    seed_write_at(&mut store, NOW - 60 * NS_SEC, "/users");
    let v = json_of(&store);

    // Top-level shape
    assert!(v["now_ns"].as_i64().unwrap_or(0) > 0);
    assert_eq!(v["diffs_total"].as_i64(), Some(3));
    assert_eq!(v["shadow_degraded"].as_bool(), Some(false));
    let windows = v["windows"].as_array().expect("windows[]");
    assert_eq!(windows.len(), 3);
    let labels: Vec<&str> = windows.iter().filter_map(|w| w["label"].as_str()).collect();
    assert_eq!(labels, vec!["1h", "24h", "7d"]);

    // 1h window has 3 diffs and 4 requests (3 diffs + 1 write).
    let h1 = &windows[0];
    assert_eq!(h1["diffs"].as_i64(), Some(3));
    assert_eq!(h1["requests"].as_i64(), Some(4));
    let rate = h1["rate"].as_f64().unwrap();
    assert!((rate - 0.75).abs() < 1e-9, "got rate {rate}");

    // Severity breakdown: canonical order, contains expected counts
    let sevs = v["severity_24h"].as_array().expect("sev[]");
    assert_eq!(sevs.len(), 5);
    let map: std::collections::HashMap<&str, i64> = sevs
        .iter()
        .map(|e| {
            (
                e["severity"].as_str().unwrap(),
                e["count"].as_i64().unwrap(),
            )
        })
        .collect();
    assert_eq!(map.get("critical"), Some(&1));
    assert_eq!(map.get("high"), Some(&2));
    assert_eq!(map.get("medium"), Some(&0));
    let order: Vec<&str> = sevs.iter().filter_map(|e| e["severity"].as_str()).collect();
    assert_eq!(order, vec!["critical", "high", "medium", "low", "noise"]);

    // Top paths
    let top = v["top_paths_24h"].as_array().expect("top[]");
    assert_eq!(top.len(), 1);
    assert_eq!(top[0]["path"].as_str(), Some("/timeline"));
    assert_eq!(top[0]["diffs"].as_i64(), Some(3));

    // Last critical
    assert!(!v["last_critical"].is_null());
    assert!(v["last_critical"]["id"].as_i64().unwrap() > 0);
}

#[test]
fn scoreboard_empty_db_returns_zeros() {
    let store = fresh_state();
    let v = json_of(&store);

    assert_eq!(v["diffs_total"].as_i64(), Some(0));
    assert_eq!(v["requests_total_approx"].as_i64(), Some(0));
    assert!(v["last_critical"].is_null());
    let windows = v["windows"].as_array().unwrap();
    for w in windows {
        assert_eq!(w["diffs"].as_i64(), Some(0));
        assert_eq!(w["requests"].as_i64(), Some(0));
        assert_eq!(w["rate"].as_f64(), Some(0.0));
    }
    let top = v["top_paths_24h"].as_array().unwrap();
    assert!(top.is_empty());
    let html = html_of(&store);
    assert!(html.contains("no diffs in the last 24h."));
    assert!(html.contains("no critical diffs ever recorded."));
}

#[test]
fn divergence_rate_calculation_buckets_correctly() {
    // Seed events at 30min, 12h, and 4d ago. The 1h window should see only
    // the 30min event; the 24h window should see the first two; the 7d
    // window should see all three.
    let mut store = fresh_state();
    let min30 = NOW - 30 * 60 * NS_SEC;
    let h12 = NOW - 12 * 3600 * NS_SEC;
    let d4 = NOW - 4 * 86400 * NS_SEC;
    seed_diff_at(&mut store, min30, "/p", "high");
    seed_diff_at(&mut store, h12, "/p", "high");
    seed_diff_at(&mut store, d4, "/p", "high");
    let v = json_of(&store);
    let windows = v["windows"].as_array().unwrap();

    assert_eq!(windows[0]["label"].as_str(), Some("1h"));
    assert_eq!(windows[0]["diffs"].as_i64(), Some(1));

    assert_eq!(windows[1]["label"].as_str(), Some("24h"));
    assert_eq!(windows[1]["diffs"].as_i64(), Some(2));

    assert_eq!(windows[2]["label"].as_str(), Some("7d"));
    assert_eq!(windows[2]["diffs"].as_i64(), Some(3));
}

#[test]
fn scoreboard_shows_degraded_banner_when_shadow_degraded() {
    let mut store = fresh_state();
    db::upsert_backend_state(&mut store, "shadow", 0, "abc", "degraded", NOW);
    let html = html_of(&store);
    assert!(html.contains("degraded"));
    assert!(html.contains("class=\"banner\""));
    assert!(html.contains("<div class=\"card degraded\"><div class=\"lbl\">divergence rate · 1h"));
    assert_eq!(json_of(&store)["shadow_degraded"].as_bool(), Some(true));
}

#[test]
fn windows_include_their_first_moment() {
    let mut store = fresh_state();
    seed_diff_at(&mut store, NOW - 3600 * NS_SEC, "/p", "low");
    seed_diff_at(&mut store, NOW - 3600 * NS_SEC - 1, "/p", "low");
    let d = collect(&store, NOW);
    assert_eq!(d.windows[0].diffs, 1);
    assert_eq!(d.windows[1].diffs, 2);
    assert_eq!(d.requests_total_approx, 2);
}

#[test]
fn scoreboard_escapes_paths() {
    let mut store = fresh_state();
    seed_diff_at(&mut store, NOW, "/<script>", "low");
    let html = html_of(&store);
    assert!(!html.contains("<script"));
    assert!(html.contains("<td><code>/&lt;script&gt;</code></td><td>1</td><td>1</td><td>1</td>"));
}
