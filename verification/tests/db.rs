use diffsplitter::db;
use diffsplitter::db::{clock_ns, now_ns, Store, StoreFull};

fn fresh() -> Store {
    let mut store = Store::new();
    db::migrate(&mut store);
    store
}

fn record(store: &mut Store, now: i64, path: &str, severity: &str) -> i64 {
    db::record_diff(
        store, "GET", path, Some(200), None, Some("p"), None, "blob", severity, None, now,
    )
    .unwrap()
}

fn listed(store: &Store, limit: i64, severity: Option<&str>, since: Option<i64>) -> Vec<i64> {
    db::list_diffs_filtered(store, limit, severity, since)
        .iter()
        .map(|d| d.id)
        .collect()
}

#[test]
fn migrating_seeds_both_backends_once() {
    let mut store = fresh();
    assert_eq!(store.backend_state.len(), 2);
    let p = db::get_backend_state(&store, "primary").unwrap();
    assert_eq!(p.state, "seeded");
    assert_eq!(p.last_observed_uptime_seconds, None);
    assert_eq!(p.last_observed_git_sha, None);
    db::upsert_backend_state(&mut store, "shadow", 3, "sha", "live", 9);
    db::migrate(&mut store);
    assert_eq!(store.backend_state.len(), 2);
    assert_eq!(db::get_backend_state(&store, "shadow").unwrap().state, "live");
}

#[test]
fn queued_writes_come_out_in_order() {
    let mut store = fresh();
    let a = db::enqueue_write(&mut store, "POST", "/users", b"{}", Some("application/json"), 10);
    let b = db::enqueue_write(&mut store, "DELETE", "/follow?x=1", b"", None, 20);
    assert_eq!((a, b), (Ok(1), Ok(2)));
    assert_eq!(db::queue_depth(&store), 2);
    assert!(db::pop_one_ready(&store, 9).is_none());
    let w = db::pop_one_ready(&store, 20).unwrap();
    assert_eq!(w.id, 1);
    assert_eq!(w.method, "POST");
    assert_eq!(w.path, "/users");
    assert_eq!(w.body, b"{}".to_vec());
    assert_eq!(w.content_type.as_deref(), Some("application/json"));
    assert_eq!(w.attempts, 0);
    // It stays queued until it is marked.
    assert_eq!(db::pop_one_ready(&store, 20).unwrap().id, 1);
    db::mark_succeeded(&mut store, 1, 201);
    let next = db::pop_one_ready(&store, 20).unwrap();
    assert_eq!(next.id, 2);
    assert!(next.body.is_empty());
    assert_eq!(next.content_type, None);
    db::mark_succeeded(&mut store, 2, 204);
    assert_eq!(db::queue_depth(&store), 0);
    assert_eq!(db::enqueue_write(&mut store, "POST", "/t", b"", None, 30), Ok(3));
}

#[test]
fn failed_attempts_put_a_write_off() {
    let mut store = fresh();
    db::enqueue_write(&mut store, "POST", "/users", b"x", None, 0).unwrap();
    db::enqueue_write(&mut store, "POST", "/tweets", b"y", None, 0).unwrap();
    assert_eq!(db::mark_failed_attempt(&mut store, 1, "HTTP 500", 1_000, 5), 1);
    assert_eq!(store.write_queue[0].next_attempt_at_ns, 1_000_000_005);
    assert_eq!(store.write_queue[0].last_error.as_deref(), Some("HTTP 500"));
    assert_eq!(db::pop_one_ready(&store, 5).unwrap().id, 2);
    assert_eq!(db::pop_one_ready(&store, 1_000_000_005).unwrap().id, 1);
    assert_eq!(db::pop_one_ready(&store, 1_000_000_005).unwrap().attempts, 1);
    assert_eq!(db::mark_failed_attempt(&mut store, 1, "HTTP 502", 5_000, 5), 2);
    assert_eq!(db::mark_failed_attempt(&mut store, 77, "?", 5_000, 5), 0);
    assert_eq!(db::queue_depth(&store), 2);
}

#[test]
fn given_up_writes_are_kept() {
    let mut store = fresh();
    db::enqueue_write(&mut store, "POST", "/users", b"x", Some("a/b"), 3).unwrap();
    db::mark_failed_attempt(&mut store, 1, "boom", 1, 4);
    assert_eq!(db::move_to_failed(&mut store, 1, 9, 7), Ok(1));
    // An unknown write inserts no row: the last one is still the one before.
    assert_eq!(db::move_to_failed(&mut store, 1, 9, 7), Ok(7));
    assert_eq!(db::give_up_write(&mut store, 1, 9), Ok(None));
    assert_eq!(db::queue_depth(&store), 0);
    assert_eq!(db::failed_count(&store), 1);
    let f = &store.failed_writes[0];
    assert_eq!(f.original_queue_id, 1);
    assert_eq!(f.enqueued_at_ns, 3);
    assert_eq!(f.failed_at_ns, 9);
    assert_eq!(f.method, "POST");
    assert_eq!(f.path, "/users");
    assert_eq!(f.body, b"x".to_vec());
    assert_eq!(f.content_type.as_deref(), Some("a/b"));
    assert_eq!(f.attempts, 1);
    assert_eq!(f.last_error.as_deref(), Some("boom"));
}

#[test]
fn full_tables_take_no_more_rows() {
    let mut store = fresh();
    store.last_queue_id = i64::MAX;
    assert_eq!(
        db::enqueue_write(&mut store, "POST", "/users", b"", None, 0),
        Err(StoreFull)
    );
    store.last_diff_id = i64::MAX;
    assert_eq!(
        db::record_diff(&mut store, "GET", "/", None, None, None, None, "", "low", None, 0),
        Err(StoreFull)
    );
    store.last_queue_id = 0;
    db::enqueue_write(&mut store, "POST", "/users", b"", None, 0).unwrap();
    store.last_failed_id = i64::MAX;
    assert_eq!(db::move_to_failed(&mut store, 1, 0, 7), Err(StoreFull));
    assert_eq!(db::move_to_failed(&mut store, 5, 0, 7), Ok(7));
    assert_eq!(db::give_up_write(&mut store, 1, 0), Err(StoreFull));
    assert_eq!(db::queue_depth(&store), 1);
}

#[test]
fn recorded_differences_read_back() {
    let mut store = fresh();
    let id = db::record_diff(
        &mut store,
        "GET",
        "/u/a",
        Some(200),
        Some(404),
        Some("p"),
        None,
        "blob",
        "high",
        Some(4),
        77,
    )
    .unwrap();
    let d = db::get_diff(&store, id).unwrap();
    assert_eq!(d.id, 1);
    assert_eq!(d.observed_at_ns, 77);
    assert_eq!(d.method, "GET");
    assert_eq!(d.path, "/u/a");
    assert_eq!(d.primary_status, Some(200));
    assert_eq!(d.shadow_status, Some(404));
    assert_eq!(d.primary_body.as_deref(), Some("p"));
    assert_eq!(d.shadow_body, None);
    assert_eq!(d.diff_blob, "blob");
    assert_eq!(d.severity, "high");
    assert_eq!(d.descended_from_failed_write_id, Some(4));
    assert!(db::get_diff(&store, 2).is_none());
}

#[test]
fn listings_are_filtered_and_ordered() {
    let mut store = fresh();
    record(&mut store, 30, "/a", "high");
    record(&mut store, 10, "/b", "low");
    record(&mut store, 30, "/c", "low");
    record(&mut store, 20, "/d", "high");
    assert_eq!(listed(&store, -1, None, None), vec![1, 3, 4, 2]);
    assert_eq!(listed(&store, 100, None, None), vec![1, 3, 4, 2]);
    assert_eq!(listed(&store, 2, None, None), vec![1, 3]);
    assert_eq!(listed(&store, 0, None, None), Vec::<i64>::new());
    assert_eq!(listed(&store, -1, Some("high"), None), vec![1, 4]);
    assert_eq!(listed(&store, -1, None, Some(20)), vec![1, 3, 4]);
    assert_eq!(listed(&store, 1, Some("low"), Some(11)), vec![3]);
    assert_eq!(listed(&store, -1, Some("noise"), None), Vec::<i64>::new());
    let recent: Vec<i64> = db::list_recent_diffs(&store, 3).iter().map(|d| d.id).collect();
    assert_eq!(recent, vec![1, 3, 4]);
}

#[test]
fn backends_are_recorded_apart() {
    let mut store = fresh();
    assert!(!db::shadow_degraded_now(&store));
    db::upsert_backend_state(&mut store, "shadow", -1, "", "degraded", 5);
    assert!(db::shadow_degraded_now(&store));
    let p = db::get_backend_state(&store, "primary").unwrap();
    assert_eq!(p.state, "seeded");
    let s = db::get_backend_state(&store, "shadow").unwrap();
    assert_eq!(s.last_observed_uptime_seconds, Some(-1));
    assert_eq!(s.last_observed_git_sha.as_deref(), Some(""));
    assert!(db::get_backend_state(&store, "third").is_none());
    db::upsert_backend_state(&mut store, "third", 1, "x", "live", 6);
    assert_eq!(db::get_backend_state(&store, "third").unwrap().backend, "third");
    assert_eq!(store.backend_state[2].updated_at_ns, 6);
}

#[test]
fn requests_are_what_left_a_row() {
    let mut store = fresh();
    record(&mut store, 100, "/a", "high");
    record(&mut store, 50, "/a", "low");
    db::enqueue_write(&mut store, "POST", "/a", b"", None, 100).unwrap();
    db::enqueue_write(&mut store, "POST", "/b", b"", None, 60).unwrap();
    db::move_to_failed(&mut store, 2, 500, 0).unwrap();
    assert_eq!(db::requests_in_window(&store, 0), 4);
    assert_eq!(db::requests_in_window(&store, 60), 3);
    assert_eq!(db::requests_in_window(&store, 61), 2);
    assert_eq!(db::requests_in_window(&store, 101), 0);
    assert_eq!(db::diffs_in_window(&store, 50, None), 2);
    assert_eq!(db::diffs_in_window(&store, 51, None), 1);
    assert_eq!(db::diffs_in_window(&store, 0, Some("low")), 1);
    assert_eq!(db::diffs_total(&store), 2);
}

#[test]
fn severities_are_counted() {
    let mut store = fresh();
    for s in ["low", "high", "critical", "high", "noise", "low", "low", "odd"] {
        record(&mut store, 10, "/a", s);
    }
    record(&mut store, 9, "/a", "medium");
    let counts = db::severity_breakdown(&store, 10);
    assert_eq!(
        counts,
        [
            ("critical".to_string(), 1),
            ("high".to_string(), 2),
            ("medium".to_string(), 0),
            ("low".to_string(), 3),
            ("noise".to_string(), 1),
        ]
    );
}

#[test]
fn paths_are_ranked_by_differences() {
    let mut store = fresh();
    for p in ["/a", "/b", "/b", "/c", "/d", "/d"] {
        record(&mut store, 10, p, "high");
    }
    record(&mut store, 1, "/e", "high");
    db::enqueue_write(&mut store, "POST", "/b", b"", None, 10).unwrap();
    let top = db::top_diverging_paths(&store, 10, 10);
    assert_eq!(
        top,
        vec![
            ("/b".to_string(), 2, 3),
            ("/d".to_string(), 2, 2),
            ("/a".to_string(), 1, 1),
            ("/c".to_string(), 1, 1),
        ]
    );
    assert_eq!(db::top_diverging_paths(&store, 10, 1).len(), 1);
    assert_eq!(db::top_diverging_paths(&store, 10, 0).len(), 0);
    assert_eq!(db::top_diverging_paths(&store, 0, -1).len(), 5);
}

#[test]
fn last_critical_difference_is_found() {
    let mut store = fresh();
    assert_eq!(db::last_critical_diff(&store), None);
    record(&mut store, 10, "/a", "critical");
    record(&mut store, 30, "/a", "critical");
    record(&mut store, 20, "/a", "critical");
    record(&mut store, 40, "/a", "high");
    assert_eq!(db::last_critical_diff(&store), Some((2, 30)));
}

#[test]
fn claims_survive_other_operations() {
    let mut store = fresh();
    let a = record(&mut store, 1, "/a", "critical");
    let b = record(&mut store, 2, "/b", "critical");
    assert!(db::claim_for_notification(&mut store, a, 7));
    record(&mut store, 3, "/c", "critical");
    db::enqueue_write(&mut store, "POST", "/users", b"", None, 3).unwrap();
    db::move_to_failed(&mut store, 1, 4, 0).unwrap();
    assert!(!db::claim_for_notification(&mut store, a, 8));
    assert!(db::claim_for_notification(&mut store, b, 8));
    assert_eq!(store.diffs[0].notified_at_ns, Some(7));
}

#[test]
fn soundness_of_rows_is_checked() {
    let mut store = fresh();
    record(&mut store, 1, "/a", "low");
    record(&mut store, 2, "/b", "low");
    assert!(store.is_sound());
    assert!(store.is_countable());
    let mut swapped = store.clone();
    swapped.diffs.swap(0, 1);
    assert!(!swapped.is_sound());
    let mut behind = store.clone();
    behind.last_diff_id = 1;
    assert!(!behind.is_sound());
    let mut doubled = store.clone();
    let again = doubled.backend_state[0].clone();
    doubled.backend_state.push(again);
    assert!(!doubled.is_sound());
}

#[test]
fn clock_readings_become_nanoseconds() {
    assert_eq!(clock_ns(None), 0);
    assert_eq!(clock_ns(Some(5)), 5);
    assert_eq!(clock_ns(Some(i64::MAX as u128)), i64::MAX);
    assert_eq!(clock_ns(Some(i64::MAX as u128 + 1)), i64::MIN);
    let a = now_ns();
    // After 2020-01-01 and before 2200-01-01.
    assert!(a > 1_577_836_800_000_000_000);
    assert!(a < 7_258_118_400_000_000_000);
}
