use diffsplitter::config::{Config, Settings};
use diffsplitter::db;
use diffsplitter::db::Store;
use diffsplitter::worker::{
    backend_endpoint, backoff_ms, begin_resync, continue_resync, finish_replay, finish_resync,
    handle_attempt_failure, observe_backend, poll_interval_secs, poll_once, replay_step,
    retry_in_range, version_url, AfterReplay, ReplayStep, Resyncs, SendOutcome, VersionSeen,
};

fn settings() -> Settings {
    Settings {
        backend_primary_url: Some("http://p//".to_string()),
        backend_shadow_url: Some("http://s".to_string()),
        primary_admin_token: Some("tok".to_string()),
        shadow_admin_token: None,
        sqlite_path: None,
        port: None,
        max_write_attempts: None,
        version_poll_interval_secs: None,
        diff_body_max_bytes: None,
    }
}

fn fresh() -> Store {
    let mut store = Store::new();
    db::migrate(&mut store);
    store
}

fn version(uptime: i64) -> VersionSeen {
    VersionSeen {
        git_sha: "sha".to_string(),
        process_uptime_seconds: uptime,
    }
}

#[test]
fn configuration_has_defaults() {
    let none = Settings {
        backend_primary_url: None,
        backend_shadow_url: None,
        primary_admin_token: None,
        shadow_admin_token: None,
        sqlite_path: None,
        port: None,
        max_write_attempts: None,
        version_poll_interval_secs: None,
        diff_body_max_bytes: None,
    };
    let c = Config::from_settings(&none);
    assert_eq!(c.backend_primary_url, "https://twitter-formal-rust.fly.dev");
    assert_eq!(c.backend_shadow_url, "https://twitter-formal-go.fly.dev");
    assert_eq!(c.primary_admin_token, None);
    assert_eq!(c.sqlite_path, "/data/diffsplitter.db");
    assert_eq!(c.port, 8080);
    assert_eq!(c.max_write_attempts, 5);
    assert_eq!(c.version_poll_interval_secs, 5);
    assert_eq!(c.diff_body_max_bytes, 64 * 1024);
}

#[test]
fn configuration_reads_settings() {
    let mut s = settings();
    s.port = Some("65535".to_string());
    s.max_write_attempts = Some("0".to_string());
    s.version_poll_interval_secs = Some("+9".to_string());
    s.diff_body_max_bytes = Some("10".to_string());
    s.sqlite_path = Some("x.db".to_string());
    let c = Config::from_settings(&s);
    assert_eq!(c.backend_primary_url, "http://p");
    assert_eq!(c.backend_shadow_url, "http://s");
    assert_eq!(c.primary_admin_token.as_deref(), Some("tok"));
    assert_eq!(c.port, 65535);
    assert_eq!(c.max_write_attempts, 0);
    assert_eq!(c.version_poll_interval_secs, 9);
    assert_eq!(c.diff_body_max_bytes, 10);
    assert_eq!(c.sqlite_path, "x.db");
    s.port = Some("65536".to_string());
    s.max_write_attempts = Some("-1".to_string());
    s.version_poll_interval_secs = Some("soon".to_string());
    let d = Config::from_settings(&s);
    assert_eq!(d.port, 8080);
    assert_eq!(d.max_write_attempts, 5);
    assert_eq!(d.version_poll_interval_secs, 5);
}

#[test]
fn backoffs_grow() {
    assert_eq!(backoff_ms(0), 1_000);
    assert_eq!(backoff_ms(1), 1_000);
    assert_eq!(backoff_ms(2), 5_000);
    assert_eq!(backoff_ms(3), 15_000);
    assert_eq!(backoff_ms(4), 60_000);
    assert_eq!(backoff_ms(5), 180_000);
    assert_eq!(backoff_ms(u32::MAX), 180_000);
}

#[test]
fn due_writes_are_sent() {
    let mut store = fresh();
    assert!(matches!(
        replay_step(&mut store, "http://s", 0),
        ReplayStep::Idle
    ));
    db::enqueue_write(&mut store, "POST", "/users?a=b", b"{}", Some("a/b"), 5).unwrap();
    db::enqueue_write(&mut store, "DELETE", "/follow", b"", None, 5).unwrap();
    assert!(matches!(
        replay_step(&mut store, "http://s", 4),
        ReplayStep::Idle
    ));
    match replay_step(&mut store, "http://s", 5) {
        ReplayStep::Send(r) => {
            assert_eq!(r.id, 1);
            assert_eq!(r.attempts, 0);
            assert_eq!(r.method, "POST");
            assert_eq!(r.url, "http://s/users?a=b");
            assert_eq!(r.content_type.as_deref(), Some("a/b"));
            assert_eq!(r.body, Some(b"{}".to_vec()));
        }
        other => panic!("unexpected {other:?}"),
    }
    db::mark_succeeded(&mut store, 1, 200);
    match replay_step(&mut store, "http://s", 5) {
        ReplayStep::Send(r) => {
            assert_eq!(r.method, "DELETE");
            assert_eq!(r.body, None);
            assert_eq!(r.content_type, None);
        }
        other => panic!("unexpected {other:?}"),
    }
}

#[test]
fn writes_with_a_bad_method_are_dropped() {
    for bad in ["", "GE T", "PÖST", "A(B", "A\tB", "{}"] {
        let mut store = fresh();
        db::enqueue_write(&mut store, bad, "/users", b"x", None, 0).unwrap();
        assert!(matches!(
            replay_step(&mut store, "http://s", 0),
            ReplayStep::Dropped { id: 1 }
        ));
        assert_eq!(db::queue_depth(&store), 0);
        assert_eq!(db::failed_count(&store), 1);
        assert!(!db::shadow_degraded_now(&store));
    }
    for good in ["get", "X-A1!#$%&'*+.^_`|~", "PROPFIND-LONGER-THAN-FIFTEEN"] {
        let mut store = fresh();
        db::enqueue_write(&mut store, good, "/users", b"x", None, 0).unwrap();
        assert!(matches!(
            replay_step(&mut store, "http://s", 0),
            ReplayStep::Send(_)
        ));
    }
}

#[test]
fn accepted_writes_leave_the_queue() {
    let mut store = fresh();
    db::enqueue_write(&mut store, "POST", "/users", b"", None, 0).unwrap();
    db::enqueue_write(&mut store, "POST", "/tweets", b"", None, 0).unwrap();
    let r = finish_replay(&mut store, 5, 1, 0, &SendOutcome::Status(299), 7);
    assert_eq!(r, AfterReplay::Done);
    assert_eq!(store.write_queue.len(), 1);
    assert_eq!(store.write_queue[0].id, 2);
}

#[test]
fn failed_writes_are_retried_then_given_up() {
    let mut store = fresh();
    db::enqueue_write(&mut store, "POST", "/users", b"x", None, 0).unwrap();
    let mut now = 0;
    for (attempts, backoff) in [(1, 1_000), (2, 5_000), (3, 15_000), (4, 60_000)] {
        let w = db::pop_one_ready(&store, now).unwrap();
        assert!(retry_in_range(&store, 5, w.id, w.attempts, now));
        let r = finish_replay(&mut store, 5, w.id, w.attempts, &SendOutcome::Status(500), now);
        assert_eq!(
            r,
            AfterReplay::Retry {
                attempts,
                backoff_ms: backoff
            }
        );
        assert_eq!(store.write_queue[0].last_error.as_deref(), Some("HTTP 500"));
        assert!(db::pop_one_ready(&store, now).is_none());
        now = store.write_queue[0].next_attempt_at_ns;
    }
    let w = db::pop_one_ready(&store, now).unwrap();
    assert_eq!(w.attempts, 4);
    let r = finish_replay(
        &mut store,
        5,
        w.id,
        w.attempts,
        &SendOutcome::Transport("refused".to_string()),
        now,
    );
    assert_eq!(r, AfterReplay::GivenUp);
    assert_eq!(db::queue_depth(&store), 0);
    assert_eq!(db::failed_count(&store), 1);
    assert_eq!(store.failed_writes[0].attempts, 4);
    assert!(db::shadow_degraded_now(&store));
    let s = db::get_backend_state(&store, "shadow").unwrap();
    assert_eq!(s.last_observed_uptime_seconds, Some(-1));
}

#[test]
fn errors_of_attempts_are_kept() {
    let mut store = fresh();
    db::enqueue_write(&mut store, "POST", "/users", b"", None, 0).unwrap();
    finish_replay(
        &mut store,
        5,
        1,
        0,
        &SendOutcome::Transport("no route".to_string()),
        0,
    );
    assert_eq!(
        store.write_queue[0].last_error.as_deref(),
        Some("transport: no route")
    );
    let r = handle_attempt_failure(&mut store, 0, 1, 0, "HTTP 300", 0);
    assert_eq!(r, AfterReplay::GivenUp);
    assert!(!retry_in_range(&store, 5, 1, u32::MAX, 0));
    assert!(!retry_in_range(&store, 5, 1, 0, i64::MAX));
    assert!(retry_in_range(&store, 1, 1, 0, i64::MAX));
}

#[test]
fn restarts_are_noticed() {
    let mut store = fresh();
    assert!(!observe_backend(&mut store, "primary", &version(100), 1));
    assert!(!observe_backend(&mut store, "primary", &version(100), 2));
    assert!(observe_backend(&mut store, "primary", &version(99), 3));
    assert!(!observe_backend(&mut store, "primary", &version(105), 4));
    let row = db::get_backend_state(&store, "primary").unwrap();
    assert_eq!(row.last_observed_uptime_seconds, Some(105));
    assert_eq!(row.last_observed_git_sha.as_deref(), Some("sha"));
    assert_eq!(row.state, "live");
}

#[test]
fn polling_looks_at_both_backends() {
    let mut store = fresh();
    let none = poll_once(&mut store, &None, &None, 1);
    assert_eq!(
        none,
        Resyncs {
            primary: false,
            shadow: false
        }
    );
    assert_eq!(db::get_backend_state(&store, "primary").unwrap().state, "seeded");
    poll_once(&mut store, &Some(version(10)), &Some(version(20)), 2);
    let r = poll_once(&mut store, &Some(version(11)), &Some(version(1)), 3);
    assert_eq!(
        r,
        Resyncs {
            primary: false,
            shadow: true
        }
    );
    let r = poll_once(&mut store, &Some(version(0)), &None, 4);
    assert_eq!(
        r,
        Resyncs {
            primary: true,
            shadow: false
        }
    );
}

#[test]
fn degraded_shadow_stays_degraded_until_resync() {
    let mut store = fresh();
    let c = Config::from_settings(&settings());
    db::upsert_backend_state(&mut store, "shadow", -1, "", "degraded", 1);
    db::upsert_backend_state(&mut store, "primary", -1, "", "degraded", 1);
    poll_once(&mut store, &Some(version(10)), &Some(version(20)), 2);
    assert!(db::shadow_degraded_now(&store));
    assert_eq!(db::get_backend_state(&store, "primary").unwrap().state, "live");
    let refused = finish_resync(&mut store, &c, "shadow", 500, "500 X", "why", 3);
    assert_eq!(
        refused.unwrap_err(),
        "load-snapshot http://s/_admin/load-snapshot -> 500 X why"
    );
    assert!(db::shadow_degraded_now(&store));
    assert!(finish_resync(&mut store, &c, "shadow", 204, "204 No Content", "", 4).is_ok());
    assert!(!db::shadow_degraded_now(&store));
    let row = db::get_backend_state(&store, "shadow").unwrap();
    assert_eq!(row.state, "live");
    assert_eq!(row.last_observed_uptime_seconds, Some(0));
}

#[test]
fn snapshots_are_passed_on() {
    let c = Config::from_settings(&settings());
    let snap = begin_resync(&c, "primary").unwrap();
    assert_eq!(snap.url, "http://p/_admin/snapshot");
    assert_eq!(
        snap.headers,
        vec![("x-admin-token".to_string(), "tok".to_string())]
    );
    assert_eq!(snap.body, None);
    let load = continue_resync(&c, "primary", "shadow", 200, "200 OK", b"bytes".to_vec()).unwrap();
    assert_eq!(load.url, "http://s/_admin/load-snapshot");
    assert_eq!(
        load.headers,
        vec![("content-type".to_string(), "application/json".to_string())]
    );
    assert_eq!(load.body, Some(b"bytes".to_vec()));
    let back = continue_resync(&c, "shadow", "primary", 200, "200 OK", Vec::new()).unwrap();
    assert_eq!(back.headers.len(), 2);
    assert_eq!(back.headers[0].0, "x-admin-token");
    assert_eq!(back.body, Some(Vec::new()));
    let e = continue_resync(&c, "primary", "shadow", 401, "401 Unauthorized", Vec::new());
    assert_eq!(
        e.unwrap_err(),
        "snapshot http://p/_admin/snapshot -> 401 Unauthorized"
    );
}

#[test]
fn tokens_must_fit_a_header() {
    let mut s = settings();
    s.primary_admin_token = Some("a\nb".to_string());
    let c = Config::from_settings(&s);
    assert_eq!(
        begin_resync(&c, "primary").unwrap_err(),
        "failed to parse header value"
    );
    assert_eq!(
        continue_resync(&c, "shadow", "primary", 200, "", Vec::new()).unwrap_err(),
        "failed to parse header value"
    );
    s.primary_admin_token = Some("tab\tand é".to_string());
    assert!(begin_resync(&Config::from_settings(&s), "primary").is_ok());
    s.primary_admin_token = Some("\u{7f}".to_string());
    assert!(begin_resync(&Config::from_settings(&s), "primary").is_err());
}

#[test]
fn endpoints_are_found() {
    let c = Config::from_settings(&settings());
    assert_eq!(
        backend_endpoint(&c, "primary"),
        ("http://p".to_string(), Some("tok".to_string()))
    );
    assert_eq!(backend_endpoint(&c, "shadow"), ("http://s".to_string(), None));
    assert_eq!(backend_endpoint(&c, "other").0, "http://s");
    assert_eq!(version_url("http://p"), "http://p/version");
    assert_eq!(poll_interval_secs(0), 1);
    assert_eq!(poll_interval_secs(7), 7);
}
