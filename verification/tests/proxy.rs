use diffsplitter::db;
use diffsplitter::db::Store;
use diffsplitter::diff::{compare, Severity};
use diffsplitter::proxy::{
    call_upstream, class_label, classify, content_type, diff_read, forward_header, is_hop_by_hop,
    reply_to_bad_body, reply_to_client, settle_outcome, settle_request,
    shadow_is_sampled, truncate, visible_text, Class, ClientRequest, Header, ReadResult,
    UpstreamResponse,
};

fn header(name: &str, value: &str) -> Header {
    Header {
        name: name.to_string(),
        value: value.as_bytes().to_vec(),
    }
}

fn request(method: &str, path: &str, query: &str, body: &str) -> ClientRequest {
    ClientRequest {
        method: method.to_string(),
        path: path.to_string(),
        path_and_query: Some(format!("{path}{query}")),
        headers: vec![
            header("host", "proxy"),
            header("content-type", "application/json"),
            header("cookie", "s=1"),
            header("x-trace", "t"),
            header("referer", "r"),
        ],
        body: body.as_bytes().to_vec(),
    }
}

fn fresh() -> Store {
    let mut store = Store::new();
    db::migrate(&mut store);
    store
}

fn answer(status: u16, body: &str) -> Result<UpstreamResponse, String> {
    Ok(UpstreamResponse {
        status,
        headers: vec![
            header("content-type", "text/plain"),
            header("connection", "close"),
            header("set-cookie", "a=1"),
            header("set-cookie", "b=2"),
        ],
        body: body.as_bytes().to_vec(),
    })
}

#[test]
fn requests_are_classified() {
    assert_eq!(classify("POST", "/users"), Class::Write);
    assert_eq!(classify("POST", "/tweets"), Class::Write);
    assert_eq!(classify("POST", "/follow"), Class::Write);
    assert_eq!(classify("DELETE", "/follow"), Class::Write);
    assert_eq!(classify("DELETE", "/users"), Class::Other);
    assert_eq!(classify("POST", "/login"), Class::Other);
    assert_eq!(classify("GET", "/users"), Class::Read);
    assert_eq!(classify("GET", "/_admin/snapshot"), Class::Admin);
    assert_eq!(classify("POST", "/_admin/"), Class::Admin);
    assert_eq!(classify("GET", "/_admin"), Class::Read);
    assert_eq!(classify("get", "/users"), Class::Other);
    assert_eq!(class_label(Class::Write), "write");
    assert_eq!(class_label(Class::Read), "read");
    assert_eq!(class_label(Class::Admin), "admin");
    assert_eq!(class_label(Class::Other), "other");
}

#[test]
fn headers_are_sorted_out() {
    for name in [
        "host",
        "connection",
        "keep-alive",
        "transfer-encoding",
        "te",
        "trailer",
        "upgrade",
        "proxy-authorization",
        "proxy-authenticate",
    ] {
        assert!(is_hop_by_hop(name));
        assert!(!forward_header(name));
    }
    for name in [
        "accept",
        "accept-encoding",
        "accept-language",
        "authorization",
        "content-type",
        "content-length",
        "cookie",
        "user-agent",
        "x-admin-token",
        "x-anything",
    ] {
        assert!(!is_hop_by_hop(name));
        assert!(forward_header(name));
    }
    assert!(!forward_header("referer"));
    assert!(!forward_header("x"));
}

#[test]
fn upstream_requests_are_planned() {
    let req = request("POST", "/tweets", "?a=1", "{}");
    let up = call_upstream("http://p", &req);
    assert_eq!(up.method, "POST");
    assert_eq!(up.url, "http://p/tweets?a=1");
    let names: Vec<&str> = up.headers.iter().map(|h| h.name.as_str()).collect();
    assert_eq!(names, vec!["content-type", "cookie", "x-trace"]);
    assert_eq!(up.body, Some(b"{}".to_vec()));
    let mut bare = request("GET", "/u/a", "", "");
    bare.path_and_query = None;
    let up = call_upstream("http://p", &bare);
    assert_eq!(up.url, "http://p/u/a");
    assert_eq!(up.body, None);
}

#[test]
fn clients_get_the_primary_response() {
    let r = reply_to_client(&answer(404, "gone"));
    assert_eq!(r.status, 404);
    assert_eq!(r.body, b"gone".to_vec());
    let names: Vec<&str> = r.headers.iter().map(|h| h.name.as_str()).collect();
    assert_eq!(names, vec!["content-type", "set-cookie", "set-cookie"]);
    let e = reply_to_client(&Err("timed out".to_string()));
    assert_eq!(e.status, 502);
    assert_eq!(e.body, b"primary upstream: timed out".to_vec());
    assert_eq!(e.headers[0].value, b"text/plain; charset=utf-8".to_vec());
    let b = reply_to_bad_body();
    assert_eq!(b.status, 400);
    assert_eq!(b.body, b"request body".to_vec());
}

#[test]
fn writes_are_queued_whatever_the_primary_says() {
    let mut store = fresh();
    let req = request("POST", "/follow", "?x=y", "{\"a\":1}");
    let r = settle_request(&mut store, 50, &req, &answer(201, "ok"), true);
    assert_eq!(r.queued, Some(Ok(1)));
    assert_eq!(r.compare_with, None);
    assert_eq!(r.response.status, 201);
    let failed = settle_request(&mut store, 60, &req, &Err("down".to_string()), false);
    assert_eq!(failed.queued, Some(Ok(2)));
    assert_eq!(failed.response.status, 502);
    assert_eq!(store.write_queue.len(), 2);
    let row = &store.write_queue[0];
    assert_eq!(row.method, "POST");
    assert_eq!(row.path, "/follow?x=y");
    assert_eq!(row.body, b"{\"a\":1}".to_vec());
    assert_eq!(row.content_type.as_deref(), Some("application/json"));
    assert_eq!(row.enqueued_at_ns, 50);
    assert_eq!(row.next_attempt_at_ns, 50);
}

#[test]
fn sampled_reads_are_compared() {
    let mut store = fresh();
    let req = request("GET", "/timeline", "?for=a", "");
    let r = settle_request(&mut store, 1, &req, &answer(200, "[]"), true);
    assert_eq!(r.compare_with, Some(200));
    assert_eq!(r.queued, None);
    let unsampled = settle_request(&mut store, 1, &req, &answer(200, "[]"), false);
    assert_eq!(unsampled.compare_with, None);
    let down = settle_request(&mut store, 1, &req, &Err("e".to_string()), true);
    assert_eq!(down.compare_with, None);
    let admin = request("GET", "/_admin/snapshot", "", "");
    let a = settle_request(&mut store, 1, &admin, &answer(200, ""), true);
    assert_eq!(a.compare_with, None);
    assert_eq!(a.queued, None);
    assert!(store.write_queue.is_empty());
}

#[test]
fn content_types_are_read() {
    assert_eq!(
        content_type(&vec![header("a", "b"), header("content-type", "x/y")]).as_deref(),
        Some("x/y")
    );
    assert_eq!(content_type(&vec![header("a", "b")]), None);
    assert_eq!(content_type(&vec![header("content-type", "né")]), None);
    assert_eq!(visible_text(&vec![9, 32, 126]).as_deref(), Some("\t ~"));
    assert_eq!(visible_text(&vec![127]), None);
    assert_eq!(visible_text(&vec![31]), None);
}

#[test]
fn degraded_shadows_are_not_sampled() {
    let mut store = fresh();
    assert!(shadow_is_sampled(&store));
    db::upsert_backend_state(&mut store, "shadow", 0, "", "degraded", 1);
    assert!(!shadow_is_sampled(&store));
    db::upsert_backend_state(&mut store, "shadow", 0, "", "live", 2);
    assert!(shadow_is_sampled(&store));
}

#[test]
fn bodies_are_cut_at_a_number_of_bytes() {
    assert_eq!(truncate("hello", 5), "hello");
    assert_eq!(truncate("hello", 2), "he...[truncated]");
    assert_eq!(truncate("né", 1), "n...[truncated]");
    assert_eq!(truncate("", 0), "");
    // A character that would be cut in two is left out.
    assert_eq!(truncate("né", 2), "n...[truncated]");
    assert_eq!(truncate("né", 3), "né");
    assert_eq!(truncate("a\u{1f600}b", 4), "a...[truncated]");
    assert_eq!(truncate("a\u{1f600}b", 5), "a\u{1f600}...[truncated]");
    assert_eq!(truncate("é", 1), "...[truncated]");
    assert_eq!(truncate("é", 0), "...[truncated]");
}

#[test]
fn agreeing_reads_leave_no_trace() {
    let mut store = fresh();
    let r = diff_read(
        &mut store, 5, "GET", "/timeline", 200, b"{\"a\":1}", 200, b"{ \"a\": 1 }", 64,
    );
    assert!(matches!(r, ReadResult::Same));
    assert!(store.diffs.is_empty());
}

#[test]
fn differing_reads_are_recorded() {
    let mut store = fresh();
    let r = diff_read(
        &mut store, 5, "GET", "/timeline", 200, b"[1]", 200, b"[2,3,4]", 4,
    );
    match r {
        ReadResult::Recorded { severity, id, alert } => {
            assert_eq!(severity, Severity::High);
            assert_eq!(id, 1);
            assert!(alert.is_none());
        }
        other => panic!("unexpected {other:?}"),
    }
    let d = db::get_diff(&store, 1).unwrap();
    assert_eq!(d.observed_at_ns, 5);
    assert_eq!(d.method, "GET");
    assert_eq!(d.path, "/timeline");
    assert_eq!(d.primary_status, Some(200));
    assert_eq!(d.shadow_status, Some(200));
    assert_eq!(d.primary_body.as_deref(), Some("[1]"));
    assert_eq!(d.shadow_body.as_deref(), Some("[2,3...[truncated]"));
    assert_eq!(d.diff_blob, r#"{"kind":"json","primary":[1],"shadow":[2,3,4]}"#);
    assert_eq!(d.severity, "high");
    assert_eq!(d.descended_from_failed_write_id, None);
    assert_eq!(store.diffs[0].notified_at_ns, None);
}

#[test]
fn critical_reads_are_claimed_and_alerted() {
    let mut store = fresh();
    let r = diff_read(&mut store, 9, "GET", "/tweets", 200, b"x", 500, b"y", 64);
    match r {
        ReadResult::Recorded { severity, id, alert } => {
            assert_eq!(severity, Severity::Critical);
            let a = alert.unwrap();
            assert_eq!(a.diff_id, id);
            assert_eq!(a.severity, "critical");
            assert_eq!(a.request_path, "/tweets");
            assert_eq!(a.method, "GET");
            assert_eq!(a.primary_status, Some(200));
            assert_eq!(a.shadow_status, Some(500));
            assert_eq!(a.observed_at_ns, 9);
            assert_eq!(db::get_diff(&store, id).unwrap().observed_at_ns, 9);
            assert!(!db::claim_for_notification(&mut store, id, 10));
        }
        other => panic!("unexpected {other:?}"),
    }
}

#[test]
fn differences_are_recorded_where_a_cut_falls_inside_a_character() {
    let mut store = fresh();
    let r = diff_read(&mut store, 9, "GET", "/users", 200, "é".as_bytes(), 200, b"e", 1);
    match r {
        ReadResult::Recorded { severity, id, alert } => {
            assert_eq!(severity, Severity::Medium);
            assert_eq!(id, 1);
            assert!(alert.is_none());
        }
        other => panic!("unexpected {other:?}"),
    }
    assert_eq!(store.diffs.len(), 1);
    let d = db::get_diff(&store, 1).unwrap();
    assert_eq!(d.severity, "medium");
    assert_eq!(d.primary_body.as_deref(), Some("...[truncated]"));
    assert_eq!(d.shadow_body.as_deref(), Some("e"));
    assert_eq!(d.diff_blob, r#"{"kind":"text","primary_len":2,"shadow_len":1}"#);
    // Nothing is recorded where the responses agree.
    let same = diff_read(
        &mut store, 9, "GET", "/t", 200, "né".as_bytes(), 200, "né".as_bytes(), 2,
    );
    assert!(matches!(same, ReadResult::Same));
    assert_eq!(store.diffs.len(), 1);
}

#[test]
fn invalid_bytes_are_compared_as_replaced() {
    let mut store = fresh();
    let same = diff_read(&mut store, 9, "GET", "/t", 200, b"a\xff", 200, b"a\xfe", 64);
    assert!(matches!(same, ReadResult::Same));
    let r = diff_read(&mut store, 9, "GET", "/t", 200, b"a\xff", 200, b"b\xff", 64);
    assert!(matches!(r, ReadResult::Recorded { .. }));
    assert_eq!(
        db::get_diff(&store, 1).unwrap().primary_body.as_deref(),
        Some("a\u{fffd}")
    );
}

#[test]
fn full_tables_leave_differences_unrecorded() {
    let mut store = fresh();
    store.last_diff_id = i64::MAX;
    let outcome = compare("/t", 200, 500, "a", "b");
    let r = settle_outcome(&mut store, 1, "GET", "/t", 200, 500, "a", "b", &outcome, 64);
    assert!(matches!(
        r,
        ReadResult::Unrecorded {
            severity: Severity::Critical
        }
    ));
    assert!(store.diffs.is_empty());
}
