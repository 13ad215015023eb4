use diffsplitter::diff::{
    compare, compare_bodies, compare_documents, compare_texts, mask_version_fields,
    severity_for_path, severity_for_status_diff, Severity,
};
use diffsplitter::json::{json_equal, parse, write_compact, Json};

#[test]
fn equal_json_no_diff() {
    let r = compare(
        "/timeline",
        200,
        200,
        r#"{"a":1,"b":2}"#,
        r#"{"b":2,"a":1}"#,
    );
    assert!(!r.diverged);
}

#[test]
fn array_order_matters() {
    let r = compare("/timeline", 200, 200, r#"[1,2,3]"#, r#"[3,2,1]"#);
    assert!(r.diverged);
    assert_eq!(r.severity, Severity::High);
}

#[test]
fn version_image_digest_masked() {
    let r = compare(
        "/version",
        200,
        200,
        r#"{"git_sha":"a","image_digest":"sha256:1","snapshot_version":1}"#,
        r#"{"git_sha":"b","image_digest":"sha256:2","snapshot_version":1}"#,
    );
    assert!(!r.diverged, "blob: {}", r.blob);
}

#[test]
fn status_5xx_is_critical() {
    let r = compare("/tweets", 500, 200, "x", "y");
    assert!(r.diverged);
    assert_eq!(r.severity, Severity::Critical);
}

#[test]
fn status_difference_is_described() {
    let r = compare("/tweets", 200, 404, "same", "same");
    assert!(r.diverged);
    assert_eq!(r.blob, r#"{"kind":"status","primary":200,"shadow":404}"#);
    assert_eq!(r.severity, Severity::High);
    let near = compare("/tweets", 200, 201, "same", "same");
    assert!(near.diverged);
    assert_eq!(near.severity, Severity::Medium);
}

#[test]
fn document_difference_is_described() {
    let r = compare("/tweets", 200, 200, r#"{"b":[1,null],"a":"x"}"#, "true");
    assert!(r.diverged);
    assert_eq!(
        r.blob,
        r#"{"kind":"json","primary":{"a":"x","b":[1,null]},"shadow":true}"#
    );
    assert_eq!(r.severity, Severity::Medium);
}

#[test]
fn text_difference_is_described_by_bytes() {
    let r = compare("/u/alice", 200, 200, "né", "{}");
    assert!(r.diverged);
    assert_eq!(r.blob, r#"{"kind":"text","primary_len":3,"shadow_len":2}"#);
    assert_eq!(r.severity, Severity::High);
}

#[test]
fn equal_texts_do_not_diverge() {
    let r = compare("/healthz", 200, 200, "ok", "ok");
    assert!(!r.diverged);
    assert_eq!(r.severity, Severity::Noise);
    assert_eq!(r.blob, "");
}

#[test]
fn json_against_text_is_compared_as_text() {
    let r = compare("/tweets", 200, 200, "1", "one");
    assert!(r.diverged);
    assert_eq!(r.blob, r#"{"kind":"text","primary_len":1,"shadow_len":3}"#);
}

#[test]
fn masking_is_for_version_only() {
    let p = r#"{"git_sha":"a"}"#;
    let s = r#"{"git_sha":"b"}"#;
    assert!(!compare("/version", 200, 200, p, s).diverged);
    assert!(compare("/tweets", 200, 200, p, s).diverged);
}

#[test]
fn masking_removes_the_four_fields() {
    let mut v = parse(
        r#"{"image_digest":1,"git_sha":2,"process_uptime_seconds":3,"captured_at_unix_nanos":4,"kept":5}"#,
    )
    .unwrap();
    mask_version_fields(&mut v);
    assert_eq!(write_compact(v), r#"{"kept":5}"#);
    let mut list = parse(r#"[{"git_sha":2}]"#).unwrap();
    mask_version_fields(&mut list);
    assert_eq!(write_compact(list), r#"[{"git_sha":2}]"#);
}

#[test]
fn severities_are_ordered_and_named() {
    assert!(Severity::Critical > Severity::High);
    assert!(Severity::High > Severity::Medium);
    assert!(Severity::Medium > Severity::Low);
    assert!(Severity::Low > Severity::Noise);
    assert_eq!(Severity::High.max(Severity::Noise), Severity::High);
    assert_eq!(Severity::Critical.as_str(), "critical");
    assert_eq!(Severity::High.as_str(), "high");
    assert_eq!(Severity::Medium.as_str(), "medium");
    assert_eq!(Severity::Low.as_str(), "low");
    assert_eq!(Severity::Noise.as_str(), "noise");
}

#[test]
fn path_severities() {
    assert_eq!(severity_for_path("/timeline?for=a"), Severity::High);
    assert_eq!(severity_for_path("/u/bob"), Severity::High);
    assert_eq!(severity_for_path("/version"), Severity::Noise);
    assert_eq!(severity_for_path("/healthz"), Severity::Noise);
    assert_eq!(severity_for_path("/users"), Severity::Medium);
}

#[test]
fn status_severities() {
    assert_eq!(severity_for_status_diff("/version", 200, 503), Severity::Critical);
    assert_eq!(severity_for_status_diff("/version", 200, 404), Severity::High);
    assert_eq!(severity_for_status_diff("/version", 200, 201), Severity::Noise);
    assert_eq!(severity_for_status_diff("/users", 400, 404), Severity::Medium);
}

#[test]
fn documents_are_compared_member_by_member() {
    let p = parse(r#"{"x":{"a":1,"b":[true,{}]},"y":null}"#).unwrap();
    let s = parse(r#"{"y":null,"x":{"b":[true,{}],"a":1}}"#).unwrap();
    assert!(json_equal(&p, &s));
    let r = compare_documents("/tweets", p, s);
    assert!(!r.diverged);
    let fewer = compare_documents(
        "/tweets",
        parse(r#"{"a":1,"b":2}"#).unwrap(),
        parse(r#"{"a":1}"#).unwrap(),
    );
    assert!(fewer.diverged);
}

#[test]
fn numbers_of_different_kinds_differ() {
    assert!(!json_equal(&parse("1").unwrap(), &parse("1.0").unwrap()));
    assert!(json_equal(&parse("0.0").unwrap(), &parse("-0.0").unwrap()));
    assert!(!json_equal(&parse("-1").unwrap(), &parse("1").unwrap()));
    assert!(json_equal(&parse("2.50").unwrap(), &parse("2.5").unwrap()));
}

#[test]
fn bodies_are_compared_as_what_they_are() {
    let r = compare_bodies(
        "/tweets",
        parse("[1]"),
        parse("[1]"),
        "[1]",
        "[1] ",
    );
    assert!(!r.diverged);
    let t = compare_bodies("/tweets", None, parse("[1]"), "oops", "[1]");
    assert!(t.diverged);
    assert_eq!(t.blob, r#"{"kind":"text","primary_len":4,"shadow_len":3}"#);
    assert!(!compare_texts("/tweets", "a", "a").diverged);
}

#[test]
fn divergence_is_symmetric_on_examples() {
    for (a, b) in [("{}", "[]"), ("x", "y"), ("1", "1"), ("{\"a\":1}", "{\"a\":1}")] {
        assert_eq!(
            compare("/p", 200, 200, a, b).diverged,
            compare("/p", 200, 200, b, a).diverged
        );
    }
}

#[test]
fn json_text_is_rewritten_with_sorted_members() {
    let v = parse("{ \"b\" : 1, \"a\" : \"\\u0041\" }").unwrap();
    assert_eq!(write_compact(v), r#"{"a":"A","b":1}"#);
    assert!(parse("{").is_none());
    assert!(matches!(parse("null"), Some(Json::Null)));
}

#[test]
fn a_later_member_replaces_an_earlier_one() {
    let v = Json::Object(vec![
        ("a".to_string(), Json::whole(1)),
        ("b".to_string(), Json::whole(2)),
        ("a".to_string(), Json::whole(3)),
    ]);
    assert_eq!(write_compact(v), r#"{"a":3,"b":2}"#);
}

#[test]
fn documents_read_back_from_their_text() {
    let text = r#"{"a":[1,-2,null,true,"x\ny"],"b":{"c":""},"d":0.75,"e":1.0}"#;
    let written = write_compact(parse(text).unwrap());
    assert_eq!(written, text);
    assert!(json_equal(&parse(text).unwrap(), &parse(&written).unwrap()));
}

#[test]
fn differences_and_nothing_else_are_described() {
    assert!(compare("/t", 200, 200, "{}", "{ }").blob.is_empty());
    assert!(compare("/t", 200, 200, "a", "a").blob.is_empty());
    assert!(!compare("/t", 200, 200, "{}", "[]").blob.is_empty());
    assert!(!compare("/t", 200, 200, "a", "b").blob.is_empty());
    assert!(!compare("/t", 200, 201, "a", "a").blob.is_empty());
}
