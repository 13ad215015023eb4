use diffsplitter::alerting::{
    alert_body, write_alert, write_comment, AlertDiff, AlertSettings, Channel, Delivery, GitHubPRCommentNotifier,
    LogNotifier, Notifier, NotifierSet, WebhookNotifier,
};
use diffsplitter::db;
use diffsplitter::db::Store;
use serde_json::Value;

fn sample_diff(id: i64) -> AlertDiff {
    AlertDiff {
        diff_id: id,
        severity: "critical".to_string(),
        request_path: "/tweets/abc".to_string(),
        method: "GET".to_string(),
        primary_status: Some(200),
        shadow_status: Some(500),
        observed_at_ns: 1_700_000_000_000_000_000,
    }
}

fn sample_diff_42() -> AlertDiff {
    AlertDiff {
        diff_id: 42,
        severity: "critical".to_string(),
        request_path: "/tweets/123".to_string(),
        method: "GET".to_string(),
        primary_status: Some(200),
        shadow_status: Some(500),
        observed_at_ns: 1_700_000_000_000_000_000,
    }
}

fn settings(
    webhook: Option<&str>,
    repo: Option<&str>,
    pr: Option<&str>,
    token: Option<&str>,
) -> AlertSettings {
    AlertSettings {
        webhook_url: webhook.map(|s| s.to_string()),
        gh_repo: repo.map(|s| s.to_string()),
        gh_pr: pr.map(|s| s.to_string()),
        gh_token: token.map(|s| s.to_string()),
    }
}

fn names(set: &NotifierSet) -> Vec<&'static str> {
    set.notifiers.iter().map(|n| n.name()).collect()
}

#[test]
fn log_notifier_succeeds() {
    let n = LogNotifier;
    assert!(matches!(n.delivery(&sample_diff_42()), Delivery::Log));
    assert!(n.judge(500, "500 Internal Server Error", "").is_ok());
    assert_eq!(n.name(), "log");
}

#[test]
fn notifier_set_default_only_log() {
    let set = NotifierSet {
        notifiers: vec![Channel::Log(LogNotifier)],
    };
    let deliveries = set.deliveries(&sample_diff_42());
    assert_eq!(deliveries.len(), 1);
    assert!(matches!(deliveries[0], Delivery::Log));
    assert_eq!(set.notifiers.len(), 1);
}

#[test]
fn gh_comment_url_shape() {
    let n = GitHubPRCommentNotifier::new(
        "owner/repo".to_string(),
        7,
        "ghp_test".to_string(),
    );
    assert_eq!(
        n.comment_url(),
        "https://api.github.com/repos/owner/repo/issues/7/comments"
    );
}

#[test]
fn gh_body_markdown_contains_fields() {
    let body = GitHubPRCommentNotifier::body_markdown(&sample_diff_42());
    assert!(body.contains("id `42`"));
    assert!(body.contains("severity: `critical`"));
    assert!(body.contains("`/tweets/123`"));
}

#[test]
fn gh_body_markdown_is_exact() {
    let mut diff = sample_diff_42();
    diff.shadow_status = None;
    assert_eq!(
        GitHubPRCommentNotifier::body_markdown(&diff),
        "**Critical diff observed** (id `42`)\n\n\
         - severity: `critical`\n\
         - method: `GET`\n\
         - path: `/tweets/123`\n\
         - primary_status: `Some(200)`\n\
         - shadow_status: `None`\n\
         - observed_at_ns: `1700000000000000000`\n\n\
         _Posted automatically by the diffsplitter (Stream 2 Phase 3 alerting)._"
    );
}

#[test]
fn gh_delivery_is_exact() {
    let n = GitHubPRCommentNotifier::new(
        "owner/repo".to_string(),
        7,
        "ghp_test".to_string(),
    );
    assert_eq!(n.name(), "github_pr_comment");
    match n.delivery(&sample_diff_42()) {
        Delivery::Post(p) => {
            assert_eq!(p.url, "https://api.github.com/repos/owner/repo/issues/7/comments");
            assert_eq!(p.bearer_token.as_deref(), Some("ghp_test"));
            assert!(p.headers.contains(&(
                "accept".to_string(),
                "application/vnd.github+json".to_string()
            )));
            assert!(p.headers.contains(&(
                "x-github-api-version".to_string(),
                "2022-11-28".to_string()
            )));
            let v: Value = serde_json::from_str(&p.body).unwrap();
            assert_eq!(
                v["body"].as_str().unwrap(),
                GitHubPRCommentNotifier::body_markdown(&sample_diff_42())
            );
        }
        other => panic!("unexpected {other:?}"),
    }
    assert_eq!(write_comment("\"x\""), "{\"body\":\"x\"}");
    assert_eq!(
        n.judge(422, "422 Unprocessable Entity", "no").unwrap_err(),
        "github api returned 422 Unprocessable Entity: no"
    );
}

#[test]
fn webhook_notifier_posts_expected_json_shape() {
    let n = WebhookNotifier::new("http://localhost/hook".to_string());
    let diff = sample_diff(99);
    match n.delivery(&diff) {
        Delivery::Post(p) => {
            assert_eq!(p.url, "http://localhost/hook");
            assert!(p.bearer_token.is_none());
            assert_eq!(
                p.headers,
                vec![("content-type".to_string(), "application/json".to_string())]
            );
            let v: Value = serde_json::from_str(&p.body).unwrap();
            assert_eq!(v["diff_id"].as_i64(), Some(99));
            assert_eq!(v["severity"].as_str(), Some("critical"));
            assert_eq!(v["request_path"].as_str(), Some("/tweets/abc"));
            assert_eq!(v["method"].as_str(), Some("GET"));
            assert_eq!(
                p.body,
                "{\"diff_id\":99,\"severity\":\"critical\",\"request_path\":\"/tweets/abc\",\
                 \"method\":\"GET\",\"primary_status\":200,\"shadow_status\":500,\
                 \"observed_at_ns\":1700000000000000000}"
            );
        }
        other => panic!("unexpected {other:?}"),
    }
    assert!(n.judge(200, "200 OK", "ok").is_ok());
}

#[test]
fn webhook_notifier_propagates_non_2xx_as_error() {
    let n = WebhookNotifier::new("http://localhost/fail".to_string());
    let err = n
        .judge(503, "503 Service Unavailable", "upstream busy")
        .expect_err("should error");
    let msg = format!("{err}");
    assert!(msg.contains("503"), "expected 503 in error: {msg}");
    assert_eq!(msg, "webhook returned 503 Service Unavailable: upstream busy");
    let long = "é".repeat(300);
    let cut = n.judge(500, "500", &long).unwrap_err();
    assert_eq!(cut, format!("webhook returned 500: {}", "é".repeat(200)));
}

#[test]
fn notifier_set_fan_out_does_not_propagate_individual_failures() {
    // A webhook that fails beside the log: the log's delivery is there, and
    // the failure is the webhook's alone.
    let set = NotifierSet {
        notifiers: vec![
            Channel::Log(LogNotifier),
            Channel::Webhook(WebhookNotifier::new("http://localhost/fail".to_string())),
        ],
    };
    let deliveries = set.deliveries(&sample_diff(7));
    assert_eq!(deliveries.len(), 2);
    assert!(matches!(deliveries[0], Delivery::Log));
    assert!(matches!(deliveries[1], Delivery::Post(_)));
    assert!(set.notifiers[0].judge(500, "500", "").is_ok());
    assert!(set.notifiers[1].judge(500, "500", "").is_err());
}

#[test]
fn claim_for_notification_is_single_shot() {
    let mut pool = Store::new();
    db::migrate(&mut pool);

    // Insert a critical diff.
    let id = db::record_diff(
        &mut pool, "GET", "/x", Some(200), Some(500),
        Some("a"), Some("b"), "diff", "critical", None, 1,
    ).expect("record");

    let first = db::claim_for_notification(&mut pool, id, 2);
    let second = db::claim_for_notification(&mut pool, id, 3);
    assert!(first, "first claim must succeed");
    assert!(!second, "second claim must be skipped (no double-fire)");
    assert_eq!(pool.diffs[0].notified_at_ns, Some(2));
    assert!(!db::claim_for_notification(&mut pool, id + 1, 4));
}

#[test]
fn end_to_end_critical_diff_triggers_log_notifier() {
    let mut pool = Store::new();
    db::migrate(&mut pool);

    let id = db::record_diff(
        &mut pool,
        "GET",
        "/users/me",
        Some(200),
        Some(500),
        Some(r#"{"author":"alice"}"#),
        Some(r#"{"author":"bob"}"#),
        "diff: author differs",
        "critical",
        None,
        1_700_000_000_000_000_000,
    )
    .expect("record diff");

    assert!(db::claim_for_notification(&mut pool, id, 2));

    let set = NotifierSet {
        notifiers: vec![Channel::Log(LogNotifier)],
    };
    let alert = AlertDiff {
        diff_id: id,
        severity: "critical".to_string(),
        request_path: "/users/me".to_string(),
        method: "GET".to_string(),
        primary_status: Some(200),
        shadow_status: Some(500),
        observed_at_ns: 1_700_000_000_000_000_000,
    };
    assert!(matches!(set.deliveries(&alert)[0], Delivery::Log));

    // Second claim must be a no-op (de-dup contract).
    assert!(!db::claim_for_notification(&mut pool, id, 3));
}

#[test]
fn diffs_json_payload_shape_matches_alert_payload() {
    let diff = sample_diff(123);
    let v: Value = serde_json::from_str(&alert_body(&diff)).expect("serialize");
    for field in [
        "diff_id",
        "severity",
        "request_path",
        "method",
        "primary_status",
        "shadow_status",
        "observed_at_ns",
    ] {
        assert!(v.get(field).is_some(), "missing field {field}");
    }
}

#[test]
fn alert_payload_quotes_its_texts() {
    let mut diff = sample_diff(1);
    diff.request_path = "/a\"b\n".to_string();
    diff.primary_status = None;
    let v: Value = serde_json::from_str(&alert_body(&diff)).unwrap();
    assert_eq!(v["request_path"].as_str(), Some("/a\"b\n"));
    assert!(v["primary_status"].is_null());
    assert_eq!(
        write_alert(&diff, "1", "2", "3"),
        "{\"diff_id\":1,\"severity\":1,\"request_path\":2,\"method\":3,\
         \"primary_status\":null,\"shadow_status\":500,\"observed_at_ns\":1700000000000000000}"
    );
}

#[test]
fn settings_turn_notifiers_on() {
    let none = NotifierSet::from_settings(&settings(None, None, None, None));
    assert_eq!(names(&none), vec!["log"]);
    let empty = NotifierSet::from_settings(&settings(Some(""), Some("o/r"), Some("1"), Some("")));
    assert_eq!(names(&empty), vec!["log"]);
    let hook = NotifierSet::from_settings(&settings(Some("http://h"), None, None, None));
    assert_eq!(names(&hook), vec!["log", "webhook"]);
    let all =
        NotifierSet::from_settings(&settings(Some("http://h"), Some("o/r"), Some("12"), Some("t")));
    assert_eq!(names(&all), vec!["log", "webhook", "github_pr_comment"]);
    let bad = NotifierSet::from_settings(&settings(None, Some("o/r"), Some("twelve"), Some("t")));
    assert_eq!(names(&bad), vec!["log"]);
    let partial = NotifierSet::from_settings(&settings(None, Some("o/r"), Some("12"), None));
    assert_eq!(names(&partial), vec!["log"]);
    match &all.notifiers[2] {
        Channel::GitHub(n) => {
            assert_eq!(n.pr_number, 12);
            assert_eq!(n.repo, "o/r");
            assert_eq!(n.gh_token, "t");
        }
        other => panic!("unexpected {other:?}"),
    }
}
