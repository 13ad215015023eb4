//! What holds of the records across operations: the queue loses nothing and
//! hands out the oldest write first, a difference is announced once, listings
//! are complete, and the counts of the scoreboard fit together.
#[allow(unused_imports)]
use crate::dashboard;
#[allow(unused_imports)]
use crate::db;
#[allow(unused_imports)]
use crate::db::{
    DiffRowView, FailedWriteView, QueueRowView, StoreView, StoredBackendView, StoredDiffView,
};
#[allow(unused_imports)]
use crate::diff;
#[allow(unused_imports)]
use crate::proxy;
#[allow(unused_imports)]
use crate::worker;
use vstd::prelude::*;

verus! {

broadcast use vstd::string::group_string_axioms;

// ---------------------------------------------------------------------------
// The write queue

/// The write that is handed out next is due, and no due write is older. Where
/// a write is due, one is handed out.
pub proof fn oldest_due_write_comes_first(queue: Seq<QueueRowView>, last: int, now: int, i: int)
    requires
        db::ids_in_order(db::queue_ids(queue), last),
        0 <= i < queue.len(),
        queue[i].next_attempt_at_ns <= now,
    ensures
        db::next_ready(queue, now) matches Some(row) && queue.contains(row)
            && row.next_attempt_at_ns <= now && row.id <= queue[i].id,
    decreases queue.len(),
{
    let ids = db::queue_ids(queue);
    if queue[0].next_attempt_at_ns <= now {
        assert(queue.contains(queue[0]));
        if i > 0 {
            assert(ids[0] < ids[i]);
        }
    } else {
        let rest = queue.drop_first();
        assert(db::queue_ids(rest) == ids.drop_first());
        assert forall|a: int, b: int| 0 <= a < b < rest.len() implies #[trigger] db::queue_ids(
            rest,
        )[a] < #[trigger] db::queue_ids(rest)[b] by {
            assert(ids[a + 1] < ids[b + 1]);
        }
        assert forall|a: int| 0 <= a < rest.len() implies 1 <= #[trigger] db::queue_ids(rest)[a]
            <= last by {
            assert(1 <= ids[a + 1] <= last);
        }
        assert(rest[i - 1] == queue[i]);
        oldest_due_write_comes_first(rest, last, now, i - 1);
        let row = db::next_ready(rest, now)->0;
        let k = choose|k: int| 0 <= k < rest.len() && rest[k] == row;
        assert(queue[k + 1] == row);
    }
}

/// Only a queued write that is due is handed out.
pub proof fn only_due_writes_are_handed_out(queue: Seq<QueueRowView>, now: int)
    ensures
        db::next_ready(queue, now) matches Some(row) ==> queue.contains(row)
            && row.next_attempt_at_ns <= now,
    decreases queue.len(),
{
    if queue.len() > 0 {
        if queue[0].next_attempt_at_ns <= now {
            assert(queue.contains(queue[0]));
        } else {
            let rest = queue.drop_first();
            only_due_writes_are_handed_out(rest, now);
            if db::next_ready(rest, now) is Some {
                let row = db::next_ready(rest, now)->0;
                let k = choose|k: int| 0 <= k < rest.len() && rest[k] == row;
                assert(queue[k + 1] == row);
            }
        }
    }
}

/// A write that is queued while nothing else is due is handed out next, as it
/// came in.
pub proof fn queued_write_reads_back(
    s: StoreView,
    now: int,
    later: int,
    method: Seq<char>,
    path: Seq<char>,
    body: Seq<u8>,
    content_type: Option<Seq<char>>,
)
    requires
        db::next_ready(s.write_queue, later) is None,
        now <= later,
    ensures
        ({
            let row = db::new_queue_row(
                s.last_queue_id + 1,
                now,
                method,
                path,
                body,
                content_type,
            );
            db::next_ready(db::enqueued(s, row).write_queue, later) == Some(row)
        }),
{
    let row = db::new_queue_row(s.last_queue_id + 1, now, method, path, body, content_type);
    last_row_is_next(s.write_queue, row, later);
}

proof fn last_row_is_next(queue: Seq<QueueRowView>, row: QueueRowView, now: int)
    requires
        db::next_ready(queue, now) is None,
        row.next_attempt_at_ns <= now,
    ensures
        db::next_ready(queue.push(row), now) == Some(row),
    decreases queue.len(),
{
    if queue.len() > 0 {
        assert(queue.push(row)[0] == queue[0]);
        assert(queue.push(row).drop_first() == queue.drop_first().push(row));
        last_row_is_next(queue.drop_first(), row, now);
    } else {
        assert(queue.push(row)[0] == row);
    }
}

/// A write that is given up is kept among the failed writes with all that it
/// held, and no other write leaves the queue.
pub proof fn given_up_write_is_kept(s: StoreView, i: int, now: int)
    requires
        s.wf(),
        0 <= i < s.write_queue.len(),
    ensures
        ({
            let row = s.write_queue[i];
            let after = db::given_up(s, row.id, now);
            &&& after.write_queue == s.write_queue.remove(i)
            &&& after.failed_writes.len() == s.failed_writes.len() + 1
            &&& after.write_queue.len() + after.failed_writes.len() == s.write_queue.len()
                + s.failed_writes.len()
            &&& after.failed_writes.drop_last() == s.failed_writes
            &&& after.failed_writes.last().original_queue_id == row.id
            &&& after.failed_writes.last().enqueued_at_ns == row.enqueued_at_ns
            &&& after.failed_writes.last().method == row.method
            &&& after.failed_writes.last().path == row.path
            &&& after.failed_writes.last().body == row.body
            &&& after.failed_writes.last().content_type == row.content_type
            &&& after.failed_writes.last().attempts == row.attempts
            &&& after.failed_writes.last().last_error == row.last_error
        }),
{
    let ids = db::queue_ids(s.write_queue);
    assert(ids[i] == s.write_queue[i].id);
    db::index_of_id(ids, s.last_queue_id, i);
    let after = db::given_up(s, s.write_queue[i].id, now);
    assert(after.failed_writes.drop_last() == s.failed_writes);
}

/// A failed attempt loses nothing: every write stays queued, in its place and
/// with what it asks for.
pub proof fn failed_attempt_keeps_writes(
    s: StoreView,
    id: int,
    err: Seq<char>,
    next: int,
    i: int,
)
    requires
        s.wf(),
        0 <= i < s.write_queue.len(),
    ensures
        ({
            let row = s.write_queue[i];
            let after = db::rescheduled(s, id, err, next);
            &&& after.write_queue.len() == s.write_queue.len()
            &&& after.write_queue[i].id == row.id
            &&& after.write_queue[i].method == row.method
            &&& after.write_queue[i].path == row.path
            &&& after.write_queue[i].body == row.body
            &&& after.write_queue[i].content_type == row.content_type
            &&& row.id != id ==> after.write_queue[i] == row
            &&& row.id == id ==> after.write_queue[i].attempts == row.attempts + 1
        }),
{
    let ids = db::queue_ids(s.write_queue);
    assert(ids[i] == s.write_queue[i].id);
    if ids.contains(id) {
        let k = ids.index_of(id);
        assert(ids[k] == id);
        db::index_of_id(ids, s.last_queue_id, i);
    }
}

/// A write that was put off is not handed out before its time.
pub proof fn put_off_write_waits(
    s: StoreView,
    id: int,
    err: Seq<char>,
    next: int,
    now: int,
)
    requires
        s.wf(),
        now < next,
    ensures
        db::next_ready(db::rescheduled(s, id, err, next).write_queue, now) matches Some(row)
            ==> row.id != id,
{
    let after = db::rescheduled(s, id, err, next);
    only_due_writes_are_handed_out(after.write_queue, now);
    if db::next_ready(after.write_queue, now) is Some {
        let row = db::next_ready(after.write_queue, now)->0;
        let k = choose|k: int|
            0 <= k < after.write_queue.len() && after.write_queue[k] == row;
        let ids = db::queue_ids(s.write_queue);
        assert(ids[k] == s.write_queue[k].id);
        db::index_of_id(ids, s.last_queue_id, k);
        failed_attempt_keeps_writes(s, id, err, next, k);
    }
}

// ---------------------------------------------------------------------------
// Setting up

/// Setting up a store a second time changes nothing.
pub proof fn setting_up_twice_is_setting_up_once(s: StoreView)
    ensures
        db::migrated(db::migrated(s)) == db::migrated(s),
{
    let one = db::with_backend(s.backend_state, "primary"@);
    let two = db::with_backend(one, "shadow"@);
    seeding_lists(s.backend_state, "primary"@);
    seeding_lists(one, "shadow"@);
    seeding_keeps(one, "shadow"@, "primary"@);
}

proof fn seeding_lists(rows: Seq<StoredBackendView>, name: Seq<char>)
    ensures
        db::backend_names(db::with_backend(rows, name)).contains(name),
{
    let after = db::with_backend(rows, name);
    if !db::backend_names(rows).contains(name) {
        assert(db::backend_names(after)[rows.len() as int] == name);
    }
}

proof fn seeding_keeps(rows: Seq<StoredBackendView>, name: Seq<char>, other: Seq<char>)
    requires
        db::backend_names(rows).contains(other),
    ensures
        db::backend_names(db::with_backend(rows, name)).contains(other),
{
    let names = db::backend_names(rows);
    let k = names.index_of(other);
    assert(names[k] == other);
    assert(db::backend_names(db::with_backend(rows, name))[k] == other);
}

// ---------------------------------------------------------------------------
// Backends

/// What is recorded of a backend is read back.
pub proof fn observed_backend_reads_back(s: StoreView, b: StoredBackendView)
    ensures
        db::backend_row(db::observed(s, b), b.row.backend) == Some(b.row),
{
    let names = db::backend_names(s.backend_state);
    let after = db::observed(s, b);
    let after_names = db::backend_names(after.backend_state);
    if names.contains(b.row.backend) {
        let k = names.index_of(b.row.backend);
        assert(names[k] == b.row.backend);
        assert(after_names == names);
    } else {
        assert(after_names == names.push(b.row.backend));
        assert(after_names[names.len() as int] == b.row.backend);
        let k = after_names.index_of(b.row.backend);
        assert(after_names[k] == b.row.backend);
        if k < names.len() {
            assert(names[k] == b.row.backend);
        }
    }
}

/// What is recorded of one backend leaves the others as they were.
pub proof fn other_backends_are_kept(s: StoreView, b: StoredBackendView, other: Seq<char>)
    requires
        s.wf(),
        other != b.row.backend,
    ensures
        db::backend_row(db::observed(s, b), other) == db::backend_row(s, other),
{
    let names = db::backend_names(s.backend_state);
    let after = db::observed(s, b);
    let after_names = db::backend_names(after.backend_state);
    if names.contains(b.row.backend) {
        let k = names.index_of(b.row.backend);
        assert(names[k] == b.row.backend);
        assert(after_names == names);
        if names.contains(other) {
            assert(names[names.index_of(other)] == other);
        }
    } else {
        assert(after_names == names.push(b.row.backend));
        if names.contains(other) {
            let k = names.index_of(other);
            assert(names[k] == other);
            assert(after_names[k] == other);
            db::index_of_name(names, k);
            assert(after_names.no_duplicates());
            db::index_of_name(after_names, k);
        } else if after_names.contains(other) {
            let k = after_names.index_of(other);
            assert(after_names[k] == other);
            assert(names[k] == other);
        }
    }
}

// ---------------------------------------------------------------------------
// Differences and their announcement

/// A recorded difference is there with all that it holds, not announced yet,
/// and the earlier ones are kept.
pub proof fn recorded_difference_reads_back(s: StoreView, diff: StoredDiffView)
    requires
        s.wf(),
        diff.detail.id == s.last_diff_id + 1,
        s.last_diff_id < i64::MAX,
    ensures
        ({
            let after = db::recorded(s, diff);
            let ids = db::diff_ids(after.diffs);
            &&& ids.contains(diff.detail.id)
            &&& after.diffs[ids.index_of(diff.detail.id)] == diff
            &&& after.diffs.drop_last() == s.diffs
            &&& diff.notified_at_ns is None ==> db::claimable(after, diff.detail.id)
        }),
{
    let after = db::recorded(s, diff);
    let before_ids = db::diff_ids(s.diffs);
    let ids = db::diff_ids(after.diffs);
    let n = s.diffs.len() as int;
    assert(ids[n] == diff.detail.id);
    let k = ids.index_of(diff.detail.id);
    assert(ids[k] == diff.detail.id);
    if k < n {
        assert(before_ids[k] == ids[k]);
        assert(before_ids[k] <= s.last_diff_id);
    }
    assert(after.diffs.drop_last() == s.diffs);
}

/// Whether the difference with an id is there and was claimed.
pub open spec fn announced(s: StoreView, id: int) -> bool {
    db::diff_ids(s.diffs).contains(id) && s.diffs[db::diff_ids(s.diffs).index_of(
        id,
    )].notified_at_ns is Some
}

/// A difference that was claimed cannot be claimed again.
pub proof fn difference_is_claimed_once(s: StoreView, id: int, now: i64)
    requires
        s.wf(),
    ensures
        db::claimable(s, id) ==> announced(db::claimed(s, id, now), id),
        announced(s, id) ==> db::claimed(s, id, now) == s,
        !db::claimable(db::claimed(s, id, now), id),
{
    let ids = db::diff_ids(s.diffs);
    if db::claimable(s, id) {
        let after = db::claimed(s, id, now);
        let k = ids.index_of(id);
        assert(ids[k] == id);
        assert(db::diff_ids(after.diffs) == ids);
    }
}

/// To claim one difference leaves the others as they were.
pub proof fn claims_are_independent(s: StoreView, id: int, other: int, now: i64)
    requires
        s.wf(),
        id != other,
    ensures
        db::claimable(db::claimed(s, id, now), other) == db::claimable(s, other),
        announced(db::claimed(s, id, now), other) == announced(s, other),
{
    let ids = db::diff_ids(s.diffs);
    if db::claimable(s, id) {
        let after = db::claimed(s, id, now);
        let k = ids.index_of(id);
        assert(ids[k] == id);
        assert(db::diff_ids(after.diffs) == ids);
        if ids.contains(other) {
            assert(ids[ids.index_of(other)] == other);
        }
    }
}

/// An announced difference stays announced, whatever happens to the store.
pub proof fn announced_differences_stay_announced(
    s: StoreView,
    id: int,
    diff: StoredDiffView,
    claimed_id: int,
    now: i64,
    row: QueueRowView,
    queue_id: int,
    err: Seq<char>,
    next: int,
    backend: StoredBackendView,
)
    requires
        s.wf(),
        announced(s, id),
        diff.detail.id == s.last_diff_id + 1,
    ensures
        announced(db::recorded(s, diff), id),
        announced(db::claimed(s, claimed_id, now), id),
        announced(db::enqueued(s, row), id),
        announced(db::dequeued(s, queue_id), id),
        announced(db::rescheduled(s, queue_id, err, next), id),
        announced(db::given_up(s, queue_id, now as int), id),
        announced(db::observed(s, backend), id),
        announced(db::migrated(s), id),
{
    let ids = db::diff_ids(s.diffs);
    let k = ids.index_of(id);
    assert(ids[k] == id);
    let after = db::recorded(s, diff);
    let after_ids = db::diff_ids(after.diffs);
    assert(after_ids[k] == id);
    let j = after_ids.index_of(id);
    assert(after_ids[j] == id);
    if j < ids.len() {
        assert(ids[j] == id);
        db::index_of_id(ids, s.last_diff_id, j);
    } else {
        assert(ids[k] <= s.last_diff_id);
    }
    if claimed_id != id {
        claims_are_independent(s, claimed_id, id, now);
    }
}

// ---------------------------------------------------------------------------
// Listings

/// A listing holds a row for every difference that passes the filters, and no
/// other row.
pub proof fn listings_are_complete(
    diffs: Seq<StoredDiffView>,
    severity: Option<Seq<char>>,
    since: Option<i64>,
)
    ensures
        forall|i: int|
            0 <= i < diffs.len() && db::listed(#[trigger] diffs[i], severity, since)
                ==> db::newest_first(diffs, severity, since).contains(diffs[i].detail.row()),
        forall|r: DiffRowView| #[trigger]
            db::newest_first(diffs, severity, since).contains(r) ==> exists|i: int|
                0 <= i < diffs.len() && db::listed(#[trigger] diffs[i], severity, since)
                    && diffs[i].detail.row() == r,
    decreases diffs.len(),
{
    let listing = db::newest_first(diffs, severity, since);
    if diffs.len() > 0 {
        let before_diffs = diffs.drop_last();
        let before = db::newest_first(before_diffs, severity, since);
        let d = diffs.last();
        let p = db::place(db::times(before), d.detail.observed_at_ns);
        listings_are_complete(before_diffs, severity, since);
        db::place_facts(db::times(before), d.detail.observed_at_ns);
        assert forall|i: int|
            0 <= i < diffs.len() && db::listed(
                #[trigger] diffs[i],
                severity,
                since,
            ) implies listing.contains(diffs[i].detail.row()) by {
            if i < diffs.len() - 1 {
                assert(before_diffs[i] == diffs[i]);
                assert(before.contains(diffs[i].detail.row()));
                let k = before.index_of(diffs[i].detail.row());
                assert(before[k] == diffs[i].detail.row());
                if db::listed(d, severity, since) {
                    if k < p {
                        assert(listing[k] == before[k]);
                    } else {
                        assert(listing[k + 1] == before[k]);
                    }
                }
            } else {
                assert(listing[p] == d.detail.row());
            }
        }
        assert forall|r: DiffRowView| #[trigger] listing.contains(r) implies exists|i: int|
            0 <= i < diffs.len() && db::listed(#[trigger] diffs[i], severity, since)
                && diffs[i].detail.row() == r by {
            let k = listing.index_of(r);
            assert(listing[k] == r);
            if db::listed(d, severity, since) && k == p {
                assert(diffs[diffs.len() - 1].detail.row() == r);
            } else {
                if db::listed(d, severity, since) {
                    if k < p {
                        assert(before[k] == r);
                    } else {
                        assert(before[k - 1] == r);
                    }
                } else {
                    assert(before[k] == r);
                }
                assert(before.contains(r));
                let i = choose|i: int|
                    0 <= i < before_diffs.len() && db::listed(
                        #[trigger] before_diffs[i],
                        severity,
                        since,
                    ) && before_diffs[i].detail.row() == r;
                assert(diffs[i] == before_diffs[i]);
            }
        }
    }
}

/// A listing since a moment is as long as the number of differences that the
/// scoreboard counts for that moment.
pub proof fn listings_are_as_long_as_counts(
    diffs: Seq<StoredDiffView>,
    severity: Option<Seq<char>>,
    since: i64,
)
    ensures
        db::newest_first(diffs, severity, Some(since)).len() == db::count_diffs(
            diffs,
            since as int,
            severity,
            None,
        ),
    decreases diffs.len(),
{
    if diffs.len() > 0 {
        let before = db::newest_first(diffs.drop_last(), severity, Some(since));
        listings_are_as_long_as_counts(diffs.drop_last(), severity, since);
        db::place_facts(db::times(before), diffs.last().detail.observed_at_ns);
    }
}

/// The first row of a listing is the latest of all that pass the filters.
pub proof fn listings_begin_with_the_latest(
    diffs: Seq<StoredDiffView>,
    severity: Option<Seq<char>>,
    since: Option<i64>,
    i: int,
)
    requires
        0 <= i < diffs.len(),
        db::listed(diffs[i], severity, since),
    ensures
        db::newest_first(diffs, severity, since).len() > 0,
        db::newest_first(diffs, severity, since)[0].observed_at_ns
            >= diffs[i].detail.observed_at_ns,
{
    let listing = db::newest_first(diffs, severity, since);
    listings_are_complete(diffs, severity, since);
    db::listings_fall_in_time(diffs, severity, since);
    assert(listing.contains(diffs[i].detail.row()));
    let k = listing.index_of(diffs[i].detail.row());
    assert(listing[k] == diffs[i].detail.row());
    let times = db::times(listing);
    assert(times[k] == listing[k].observed_at_ns);
    assert(times[0] == listing[0].observed_at_ns);
    if k > 0 {
        assert(times[0] >= times[k]);
    }
}

// ---------------------------------------------------------------------------
// The counts of the scoreboard

/// A longer window counts at least as many differences.
pub proof fn longer_windows_count_more_differences(
    diffs: Seq<StoredDiffView>,
    earlier: int,
    later: int,
    severity: Option<Seq<char>>,
    path: Option<Seq<char>>,
)
    requires
        earlier <= later,
    ensures
        db::count_diffs(diffs, later, severity, path) <= db::count_diffs(
            diffs,
            earlier,
            severity,
            path,
        ) <= diffs.len(),
    decreases diffs.len(),
{
    if diffs.len() > 0 {
        longer_windows_count_more_differences(diffs.drop_last(), earlier, later, severity, path);
    }
}

/// A longer window counts at least as many requests.
pub proof fn longer_windows_count_more_requests(
    s: StoreView,
    earlier: int,
    later: int,
    path: Option<Seq<char>>,
)
    requires
        earlier <= later,
    ensures
        db::count_requests(s, later, path) <= db::count_requests(s, earlier, path),
{
    longer_windows_count_more_differences(s.diffs, earlier, later, None, path);
    longer_windows_count_more_queued(s.write_queue, earlier, later, path);
    longer_windows_count_more_failed(s.failed_writes, earlier, later, path);
}

proof fn longer_windows_count_more_queued(
    queue: Seq<QueueRowView>,
    earlier: int,
    later: int,
    path: Option<Seq<char>>,
)
    requires
        earlier <= later,
    ensures
        db::count_queued(queue, later, path) <= db::count_queued(queue, earlier, path),
    decreases queue.len(),
{
    if queue.len() > 0 {
        longer_windows_count_more_queued(queue.drop_last(), earlier, later, path);
    }
}

proof fn longer_windows_count_more_failed(
    failed: Seq<FailedWriteView>,
    earlier: int,
    later: int,
    path: Option<Seq<char>>,
)
    requires
        earlier <= later,
    ensures
        db::count_failed(failed, later, path) <= db::count_failed(failed, earlier, path),
    decreases failed.len(),
{
    if failed.len() > 0 {
        longer_windows_count_more_failed(failed.drop_last(), earlier, later, path);
    }
}

/// In every window there are no more differences than requests, so the rate
/// never exceeds one.
pub proof fn rates_never_exceed_one(s: StoreView, since: int, path: Option<Seq<char>>)
    ensures
        db::count_diffs(s.diffs, since, None, path) <= db::count_requests(s, since, path),
{
}

/// The five counts of the breakdown add up to the count of all differences.
pub proof fn breakdown_adds_up(diffs: Seq<StoredDiffView>, since: int)
    requires
        forall|i: int| 0 <= i < diffs.len() ==> dashboard::known_severity((#[trigger] diffs[i]).detail.severity),
    ensures
        ({
            let b = db::breakdown(diffs, since);
            b[0].1 + b[1].1 + b[2].1 + b[3].1 + b[4].1 == db::count_diffs(diffs, since, None, None)
        }),
    decreases diffs.len(),
{
    if diffs.len() > 0 {
        let rest = diffs.drop_last();
        assert forall|i: int| 0 <= i < rest.len() implies dashboard::known_severity(
            (#[trigger] rest[i]).detail.severity,
        ) by {
            assert(rest[i] == diffs[i]);
        }
        breakdown_adds_up(rest, since);
        five_severities_differ();
        assert(dashboard::known_severity(diffs[diffs.len() - 1].detail.severity));
    }
}

/// The names of the five severities differ.
pub proof fn five_severities_differ()
    ensures
        "critical"@ != "high"@,
        "critical"@ != "medium"@,
        "critical"@ != "low"@,
        "critical"@ != "noise"@,
        "high"@ != "medium"@,
        "high"@ != "low"@,
        "high"@ != "noise"@,
        "medium"@ != "low"@,
        "medium"@ != "noise"@,
        "low"@ != "noise"@,
{
    reveal_strlit("critical");
    reveal_strlit("high");
    reveal_strlit("medium");
    reveal_strlit("low");
    reveal_strlit("noise");
    assert("critical"@[0] == 'c');
    assert("high"@[0] == 'h');
    assert("medium"@[0] == 'm');
    assert("low"@[0] == 'l');
    assert("noise"@[0] == 'n');
}

/// Every path of the leaderboard stands there once, and a path stands there
/// exactly where a difference was observed on it in the window.
pub proof fn diverging_paths_are_distinct(diffs: Seq<StoredDiffView>, since: int)
    ensures
        db::diverging_paths(diffs, since).no_duplicates(),
        forall|path: Seq<char>| #[trigger]
            db::diverging_paths(diffs, since).contains(path) <==> db::count_diffs(
                diffs,
                since,
                None,
                Some(path),
            ) > 0,
    decreases diffs.len(),
{
    if diffs.len() > 0 {
        let before = db::diverging_paths(diffs.drop_last(), since);
        let all = db::diverging_paths(diffs, since);
        let d = diffs.last().detail;
        diverging_paths_are_distinct(diffs.drop_last(), since);
        assert forall|path: Seq<char>| #[trigger] all.contains(path) <==> db::count_diffs(
            diffs,
            since,
            None,
            Some(path),
        ) > 0 by {
            assert(before.contains(path) <==> db::count_diffs(
                diffs.drop_last(),
                since,
                None,
                Some(path),
            ) > 0);
            if d.observed_at_ns >= since && !before.contains(d.path) {
                assert(all == before.push(d.path));
                assert(all[before.len() as int] == d.path);
                if before.contains(path) {
                    assert(all[before.index_of(path)] == path);
                }
                if all.contains(path) && path != d.path {
                    let k = all.index_of(path);
                    assert(all[k] == path);
                    assert(before[k] == path);
                }
            }
        }
    }
}

/// The leaderboard falls in the number of differences, and holds each path
/// that it ranks with its counts.
pub proof fn leaderboard_ranks_by_differences(s: StoreView, since: int, paths: Seq<Seq<char>>)
    ensures
        db::falling(db::diff_counts(db::leaderboard(s, since, paths))),
        db::leaderboard(s, since, paths).len() == paths.len(),
        forall|i: int|
            0 <= i < paths.len() ==> db::leaderboard(s, since, paths).contains(
                db::path_counts(s, since, #[trigger] paths[i]),
            ),
    decreases paths.len(),
{
    if paths.len() > 0 {
        let rest = paths.drop_last();
        let before = db::leaderboard(s, since, rest);
        let row = db::path_counts(s, since, paths.last());
        let board = db::leaderboard(s, since, paths);
        let p = db::place(db::diff_counts(before), row.1);
        leaderboard_ranks_by_differences(s, since, rest);
        db::place_facts(db::diff_counts(before), row.1);
        db::inserted_keys_fall(db::diff_counts(before), row.1);
        assert(db::diff_counts(board) == db::diff_counts(before).insert(p, row.1));
        assert forall|i: int| 0 <= i < paths.len() implies board.contains(
            db::path_counts(s, since, #[trigger] paths[i]),
        ) by {
            let want = db::path_counts(s, since, paths[i]);
            if i < rest.len() {
                assert(rest[i] == paths[i]);
                assert(before.contains(want));
            }
            inserted_rows_stand_in_the_board(before, p, row, want);
        }
    }
}

proof fn inserted_rows_stand_in_the_board(
    before: Seq<(Seq<char>, int, int)>,
    p: int,
    row: (Seq<char>, int, int),
    want: (Seq<char>, int, int),
)
    requires
        0 <= p <= before.len(),
        before.contains(want) || want == row,
    ensures
        before.insert(p, row).contains(want),
{
    let board = before.insert(p, row);
    if want == row {
        assert(board[p] == want);
    } else {
        let k = before.index_of(want);
        assert(before[k] == want);
        assert(board[if k < p { k } else { k + 1 }] == want);
    }
}

/// The last critical difference is critical, and none was observed later.
pub proof fn last_critical_is_the_latest(diffs: Seq<StoredDiffView>, i: int)
    requires
        0 <= i < diffs.len(),
        diffs[i].detail.severity == "critical"@,
    ensures
        db::last_critical(diffs) matches Some(c) && c.1 >= diffs[i].detail.observed_at_ns
            && exists|k: int|
            0 <= k < diffs.len() && (#[trigger] diffs[k]).detail.severity == "critical"@
                && diffs[k].detail.id == c.0 && diffs[k].detail.observed_at_ns == c.1,
{
    listings_begin_with_the_latest(diffs, Some("critical"@), None, i);
    listings_are_complete(diffs, Some("critical"@), None);
    let listing = db::newest_first(diffs, Some("critical"@), None);
    assert(listing.contains(listing[0]));
}

// ---------------------------------------------------------------------------
// Severities

/// Every severity that a comparison gives is one of the five that listings
/// filter by and the scoreboard counts.
pub proof fn compared_severities_are_known(severity: diff::Severity)
    ensures
        dashboard::known_severity(diff::severity_name(severity)),
{
}

/// Where all recorded severities are known, they still are once a read was
/// compared: the breakdown of the scoreboard goes on adding up.
pub proof fn recorded_severities_stay_known(
    s: StoreView,
    now: i64,
    read: proxy::ReadView,
    p_text: Seq<char>,
    s_text: Seq<char>,
    o: diff::OutcomeView,
    max: int,
)
    requires
        forall|i: int|
            0 <= i < s.diffs.len() ==> dashboard::known_severity(
                (#[trigger] s.diffs[i]).detail.severity,
            ),
    ensures
        ({
            let after = proxy::settled(s, now, read, p_text, s_text, o, max).0;
            forall|i: int|
                0 <= i < after.diffs.len() ==> dashboard::known_severity(
                    (#[trigger] after.diffs[i]).detail.severity,
                )
        }),
{
    let after = proxy::settled(s, now, read, p_text, s_text, o, max).0;
    let d = proxy::read_diff(s.last_diff_id + 1, now as int, read, p_text, s_text, o, max);
    let recorded = db::recorded(s, d);
    compared_severities_are_known(o.severity);
    assert forall|i: int| 0 <= i < after.diffs.len() implies dashboard::known_severity(
        (#[trigger] after.diffs[i]).detail.severity,
    ) by {
        if after.diffs.len() > s.diffs.len() {
            assert(after.diffs[i].detail == recorded.diffs[i].detail);
            if i < s.diffs.len() {
                assert(recorded.diffs[i] == s.diffs[i]);
            }
        } else {
            assert(after == s);
        }
    }
}

// ---------------------------------------------------------------------------
// From the client to the shadow

/// Whether a store still has a write queued with what it asks for.
pub open spec fn waits(s: StoreView, row: QueueRowView) -> bool {
    exists|k: int|
        0 <= k < s.write_queue.len() && (#[trigger] s.write_queue[k]).id == row.id
            && s.write_queue[k].method == row.method && s.write_queue[k].path == row.path
            && s.write_queue[k].body == row.body && s.write_queue[k].content_type
            == row.content_type
}

/// A queued write waits until it is replayed or given up itself: nothing else
/// that happens to the store loses it.
pub proof fn queued_writes_are_never_lost(
    s: StoreView,
    i: int,
    other: int,
    row: QueueRowView,
    err: Seq<char>,
    next: int,
    diff: StoredDiffView,
    now: i64,
    backend: StoredBackendView,
)
    requires
        s.wf(),
        0 <= i < s.write_queue.len(),
        other != s.write_queue[i].id,
    ensures
        waits(db::enqueued(s, row), s.write_queue[i]),
        waits(db::dequeued(s, other), s.write_queue[i]),
        db::queue_ids(s.write_queue).contains(other) ==> waits(
            db::given_up(s, other, now as int),
            s.write_queue[i],
        ),
        waits(db::rescheduled(s, other, err, next), s.write_queue[i]),
        waits(db::rescheduled(s, s.write_queue[i].id, err, next), s.write_queue[i]),
        waits(db::recorded(s, diff), s.write_queue[i]),
        waits(db::claimed(s, other, now), s.write_queue[i]),
        waits(db::observed(s, backend), s.write_queue[i]),
        waits(db::migrated(s), s.write_queue[i]),
{
    let w = s.write_queue[i];
    let ids = db::queue_ids(s.write_queue);
    assert(ids[i] == w.id);
    assert(db::enqueued(s, row).write_queue[i] == w);
    let rest = db::dequeued(s, other).write_queue;
    if ids.contains(other) {
        let k = ids.index_of(other);
        assert(ids[k] == other);
        if i < k {
            assert(rest[i] == w);
        } else {
            assert(rest[i - 1] == w);
        }
        assert(db::given_up(s, other, now as int).write_queue == rest);
    } else {
        assert(rest[i] == w);
    }
    failed_attempt_keeps_writes(s, other, err, next, i);
    failed_attempt_keeps_writes(s, w.id, err, next, i);
    assert(db::rescheduled(s, other, err, next).write_queue[i].id == w.id);
    assert(db::rescheduled(s, w.id, err, next).write_queue[i].id == w.id);
    assert(db::recorded(s, diff).write_queue[i] == w);
    assert(db::claimed(s, other, now).write_queue[i] == w);
    assert(db::observed(s, backend).write_queue[i] == w);
    assert(db::migrated(s).write_queue[i] == w);
}

/// Every write that the proxy queues has a method that can be replayed.
pub proof fn queued_methods_can_be_replayed(req: proxy::RequestView)
    requires
        proxy::class_of(req.method, req.path) is Write,
    ensures
        worker::is_method(vstd::utf8::encode_utf8(req.method)),
{
    reveal_strlit("POST");
    reveal_strlit("DELETE");
    vstd::utf8::is_ascii_chars_encode_utf8("POST"@);
    vstd::utf8::is_ascii_chars_encode_utf8("DELETE"@);
}

/// A write reaches the shadow as it reached the primary: once it is queued and
/// nothing older is due, what is replayed has the same method, path, query and
/// body.
pub proof fn writes_reach_the_shadow_as_they_came(
    s: StoreView,
    req: proxy::RequestView,
    now: int,
    later: int,
    primary_url: Seq<char>,
    shadow_url: Seq<char>,
)
    requires
        s.last_queue_id < i64::MAX,
        proxy::class_of(req.method, req.path) is Write,
        db::next_ready(s.write_queue, later) is None,
        now <= later,
    ensures
        ({
            let sent = proxy::upstream(primary_url, req);
            let (after, step) = worker::next_step(
                proxy::store_after(s, now, req),
                shadow_url,
                later,
            );
            &&& after == proxy::store_after(s, now, req)
            &&& step matches worker::ReplayStepView::Send(replayed) && replayed.method
                == sent.method && sent.url == primary_url + req.target() && replayed.url
                == shadow_url + req.target() && replayed.body == sent.body
                && replayed.content_type == proxy::content_type_of(req.headers)
        }),
{
    queued_write_reads_back(
        s,
        now,
        later,
        req.method,
        req.target(),
        req.body,
        proxy::content_type_of(req.headers),
    );
    queued_methods_can_be_replayed(req);
}

// ---------------------------------------------------------------------------
// What each operation does to the records

/// Taking a write out of the queue takes that write out and changes nothing
/// else; an unknown write changes nothing.
pub proof fn writes_are_taken_out_one_by_one(s: StoreView, id: int, i: int)
    requires
        s.wf(),
    ensures
        ({
            let after = db::dequeued(s, id);
            &&& 0 <= i < s.write_queue.len() && s.write_queue[i].id == id ==> after.write_queue
                == s.write_queue.remove(i)
            &&& (forall|k: int|
                0 <= k < s.write_queue.len() ==> (#[trigger] s.write_queue[k]).id != id)
                ==> after.write_queue == s.write_queue
            &&& after == (StoreView { write_queue: after.write_queue, ..s })
        }),
{
    let ids = db::queue_ids(s.write_queue);
    if 0 <= i < s.write_queue.len() && s.write_queue[i].id == id {
        assert(ids[i] == id);
        db::index_of_id(ids, s.last_queue_id, i);
    }
    if ids.contains(id) {
        let k = ids.index_of(id);
        assert(ids[k] == id);
        assert(s.write_queue[k].id == id);
    }
}

/// A failed attempt counts one more, keeps its error and puts the write off to
/// the given time; the write stays where it was, every other write stays as it
/// was, and nothing else changes. An unknown write changes nothing.
pub proof fn failed_attempts_are_written_down(
    s: StoreView,
    id: int,
    err: Seq<char>,
    next: int,
    i: int,
)
    requires
        s.wf(),
    ensures
        ({
            let after = db::rescheduled(s, id, err, next);
            &&& after.write_queue.len() == s.write_queue.len()
            &&& 0 <= i < s.write_queue.len() && s.write_queue[i].id != id ==> after.write_queue[i]
                == s.write_queue[i]
            &&& 0 <= i < s.write_queue.len() && s.write_queue[i].id == id ==> {
                let (row, was) = (after.write_queue[i], s.write_queue[i]);
                &&& row.attempts == was.attempts + 1
                &&& row.last_error == Some(err)
                &&& row.next_attempt_at_ns == next
                &&& row.id == was.id
                &&& row.enqueued_at_ns == was.enqueued_at_ns
                &&& row.method == was.method
                &&& row.path == was.path
                &&& row.body == was.body
                &&& row.content_type == was.content_type
            }
            &&& after == (StoreView { write_queue: after.write_queue, ..s })
        }),
{
    let ids = db::queue_ids(s.write_queue);
    if 0 <= i < s.write_queue.len() {
        assert(ids[i] == s.write_queue[i].id);
        db::index_of_id(ids, s.last_queue_id, i);
    }
    if ids.contains(id) {
        assert(ids[ids.index_of(id)] == id);
    }
}

/// A write that is given up moves: it leaves the queue, every other write stays,
/// and it is kept behind all earlier failed writes with everything that was
/// known of it and the time.
pub proof fn given_up_writes_move(s: StoreView, i: int, now: int)
    requires
        s.wf(),
        0 <= i < s.write_queue.len(),
    ensures
        ({
            let was = s.write_queue[i];
            let after = db::given_up(s, was.id, now);
            let kept = after.failed_writes.last();
            &&& after.write_queue == s.write_queue.remove(i)
            &&& after.failed_writes.len() == s.failed_writes.len() + 1
            &&& after.failed_writes.drop_last() == s.failed_writes
            &&& kept.id == s.last_failed_id + 1
            &&& after.last_failed_id == s.last_failed_id + 1
            &&& kept.original_queue_id == was.id
            &&& kept.failed_at_ns == now
            &&& kept.enqueued_at_ns == was.enqueued_at_ns
            &&& kept.method == was.method
            &&& kept.path == was.path
            &&& kept.body == was.body
            &&& kept.content_type == was.content_type
            &&& kept.attempts == was.attempts
            &&& kept.last_error == was.last_error
            &&& after.last_queue_id == s.last_queue_id
            &&& after.diffs == s.diffs
            &&& after.last_diff_id == s.last_diff_id
            &&& after.backend_state == s.backend_state
        }),
{
    let ids = db::queue_ids(s.write_queue);
    assert(ids[i] == s.write_queue[i].id);
    db::index_of_id(ids, s.last_queue_id, i);
    given_up_write_is_kept(s, i, now);
}

/// A write is handed out with its id, its attempts so far and all that is to be
/// sent.
pub proof fn writes_are_handed_out_whole(row: QueueRowView)
    requires
        0 <= row.attempts <= u32::MAX,
    ensures
        row.queued().id == row.id,
        row.queued().method == row.method,
        row.queued().path == row.path,
        row.queued().body == row.body,
        row.queued().content_type == row.content_type,
        row.queued().attempts == row.attempts,
{
}

/// A write is handed out exactly where one is due.
pub proof fn a_due_write_is_handed_out(queue: Seq<QueueRowView>, now: int)
    ensures
        db::next_ready(queue, now) is Some <==> exists|i: int|
            0 <= i < queue.len() && (#[trigger] queue[i]).next_attempt_at_ns <= now,
    decreases queue.len(),
{
    if queue.len() > 0 {
        let rest = queue.drop_first();
        a_due_write_is_handed_out(rest, now);
        if queue[0].next_attempt_at_ns > now {
            if db::next_ready(rest, now) is Some {
                let i = choose|i: int|
                    0 <= i < rest.len() && (#[trigger] rest[i]).next_attempt_at_ns <= now;
                assert(queue[i + 1].next_attempt_at_ns <= now);
            }
            assert forall|i: int|
                0 <= i < queue.len() && (#[trigger] queue[i]).next_attempt_at_ns <= now implies
                db::next_ready(queue, now) is Some by {
                assert(rest[i - 1] == queue[i]);
            }
        }
    }
}

/// A difference that was not announced can be claimed, and the claim writes down
/// when; nothing else of it, and nothing else at all, changes. Where there is
/// nothing to claim, nothing changes.
pub proof fn claims_are_written_down(s: StoreView, id: int, now: i64, i: int)
    requires
        s.wf(),
        0 <= i < s.diffs.len(),
    ensures
        ({
            let after = db::claimed(s, id, now);
            let was = s.diffs[i];
            &&& was.detail.id == id ==> (db::claimable(s, id) <==> was.notified_at_ns is None)
            &&& after.diffs.len() == s.diffs.len()
            &&& after.diffs[i].detail == was.detail
            &&& was.detail.id == id && was.notified_at_ns is None
                ==> after.diffs[i].notified_at_ns == Some(now)
            &&& was.detail.id != id || was.notified_at_ns is Some ==> after.diffs[i] == was
            &&& after == (StoreView { diffs: after.diffs, ..s })
        }),
{
    let ids = db::diff_ids(s.diffs);
    assert(ids[i] == s.diffs[i].detail.id);
    db::index_of_id(ids, s.last_diff_id, i);
    if ids.contains(id) {
        assert(ids[ids.index_of(id)] == id);
    }
}

/// Only a difference that was recorded can be claimed.
pub proof fn unknown_differences_are_not_claimed(s: StoreView, id: int, now: i64)
    requires
        forall|i: int| 0 <= i < s.diffs.len() ==> (#[trigger] s.diffs[i]).detail.id != id,
    ensures
        !db::claimable(s, id),
        db::claimed(s, id, now) == s,
{
    let ids = db::diff_ids(s.diffs);
    if ids.contains(id) {
        let i = ids.index_of(id);
        assert(ids[i] == id && s.diffs[i].detail.id == id);
    }
}

/// What is known of a backend is what its row says, and nothing is known of one
/// without a row.
pub proof fn backends_are_found_by_name(s: StoreView, i: int, name: Seq<char>)
    requires
        s.wf(),
    ensures
        0 <= i < s.backend_state.len() && s.backend_state[i].row.backend == name
            ==> db::backend_row(s, name) == Some(s.backend_state[i].row),
        (forall|k: int|
            0 <= k < s.backend_state.len() ==> (#[trigger] s.backend_state[k]).row.backend != name)
            ==> db::backend_row(s, name) is None,
        0 <= i < s.backend_state.len() && s.backend_state[i].row.backend == name ==> (db::degraded(
            s,
            name,
        ) <==> s.backend_state[i].row.state == "degraded"@),
        db::degraded(s, name) ==> exists|k: int|
            0 <= k < s.backend_state.len() && (#[trigger] s.backend_state[k]).row.backend == name
                && s.backend_state[k].row.state == "degraded"@,
{
    let names = db::backend_names(s.backend_state);
    if 0 <= i < s.backend_state.len() && s.backend_state[i].row.backend == name {
        assert(names[i] == name);
        db::index_of_name(names, i);
    }
    if names.contains(name) {
        let k = names.index_of(name);
        assert(names[k] == name);
        assert(s.backend_state[k].row.backend == name);
    }
}

/// What was seen of a backend is written down as it was seen, in place of what
/// was known of it; what is known of the others stays, and nothing else changes.
pub proof fn sightings_are_written_down(
    s: StoreView,
    name: Seq<char>,
    uptime: i64,
    git_sha: Seq<char>,
    state: Seq<char>,
    now: int,
    other: Seq<char>,
)
    requires
        s.wf(),
    ensures
        ({
            let after = db::observed(s, db::observed_backend(name, uptime, git_sha, state, now));
            &&& db::backend_row(after, name) matches Some(row) && row.backend == name
                && row.last_observed_uptime_seconds == Some(uptime) && row.last_observed_git_sha
                == Some(git_sha) && row.state == state
            &&& exists|i: int|
                0 <= i < after.backend_state.len() && (
                #[trigger] after.backend_state[i]).row.backend == name
                    && after.backend_state[i].updated_at_ns == now
            &&& other != name ==> db::backend_row(after, other) == db::backend_row(s, other)
            &&& after == (StoreView { backend_state: after.backend_state, ..s })
        }),
{
    let b = db::observed_backend(name, uptime, git_sha, state, now);
    let after = db::observed(s, b);
    let names = db::backend_names(s.backend_state);
    observed_backend_reads_back(s, b);
    if other != name {
        other_backends_are_kept(s, b, other);
    }
    if names.contains(name) {
        let i = names.index_of(name);
        assert(names[i] == name);
        assert(after.backend_state[i] == b);
    } else {
        assert(after.backend_state[s.backend_state.len() as int] == b);
    }
}

/// Setting the store up lists both backends: one that was known stays as it
/// was, one that was not is there and nothing was seen of it. Nothing else
/// changes.
pub proof fn setting_up_lists_both_backends(s: StoreView, name: Seq<char>)
    requires
        s.wf(),
        name == "primary"@ || name == "shadow"@,
    ensures
        ({
            let after = db::migrated(s);
            &&& db::backend_row(s, name) matches Some(row) ==> db::backend_row(after, name)
                == Some(row)
            &&& db::backend_row(s, name) is None ==> (db::backend_row(after, name) matches Some(
                row,
            ) && row.backend == name && row.last_observed_uptime_seconds is None
                && row.last_observed_git_sha is None && row.state == "seeded"@)
            &&& s.backend_state.is_prefix_of(after.backend_state)
            &&& after == (StoreView { backend_state: after.backend_state, ..s })
        }),
{
    reveal_strlit("primary");
    reveal_strlit("shadow");
    assert("primary"@.len() == 7 && "shadow"@.len() == 6);
    let first = StoreView {
        backend_state: db::with_backend(s.backend_state, "primary"@),
        ..s
    };
    seeded_backend_is_listed(s, "primary"@, name);
    assert(first.wf());
    seeded_backend_is_listed(first, "shadow"@, name);
}

proof fn seeded_backend_is_listed(s: StoreView, seeded: Seq<char>, name: Seq<char>)
    requires
        s.wf(),
    ensures
        ({
            let after = StoreView {
                backend_state: db::with_backend(s.backend_state, seeded),
                ..s
            };
            &&& after.wf()
            &&& s.backend_state.is_prefix_of(after.backend_state)
            &&& db::backend_row(s, name) is Some ==> db::backend_row(after, name)
                == db::backend_row(s, name)
            &&& db::backend_row(s, name) is None && name != seeded ==> db::backend_row(
                after,
                name,
            ) is None
            &&& db::backend_row(s, name) is None && name == seeded ==> db::backend_row(
                after,
                name,
            ) == Some(db::seeded_backend(name).row)
        }),
{
    let rows = s.backend_state;
    let names = db::backend_names(rows);
    let after = StoreView { backend_state: db::with_backend(rows, seeded), ..s };
    let more = db::backend_names(after.backend_state);
    if !names.contains(seeded) {
        assert(more == names.push(seeded));
        assert forall|i: int, j: int| 0 <= i < more.len() && 0 <= j < more.len() && i != j implies
            more[i] != more[j] by {
            if i < names.len() {
                assert(names.contains(names[i]));
            }
            if j < names.len() {
                assert(names.contains(names[j]));
            }
        }
        if names.contains(name) {
            let i = names.index_of(name);
            assert(names[i] == name && more[i] == name);
            db::index_of_name(names, i);
            db::index_of_name(more, i);
        } else if name == seeded {
            assert(more[names.len() as int] == name);
            db::index_of_name(more, names.len() as int);
        } else if more.contains(name) {
            let i = more.index_of(name);
            assert(more[i] == name);
            if i < names.len() {
                assert(names[i] == name);
            }
        }
    }
}

/// Recording a difference puts it behind all others, with all that was given
/// and not yet announced; nothing else changes.
pub proof fn differences_are_put_behind_all_others(
    s: StoreView,
    now: int,
    method: Seq<char>,
    path: Seq<char>,
    primary_status: Option<u16>,
    shadow_status: Option<u16>,
    primary_body: Option<Seq<char>>,
    shadow_body: Option<Seq<char>>,
    blob: Seq<char>,
    severity: Seq<char>,
    descended_from: Option<i64>,
)
    ensures
        ({
            let diff = db::new_diff(
                s.last_diff_id + 1,
                now,
                method,
                path,
                primary_status,
                shadow_status,
                primary_body,
                shadow_body,
                blob,
                severity,
                descended_from,
            );
            let after = db::recorded(s, diff);
            let d = after.diffs.last().detail;
            &&& after.diffs.len() == s.diffs.len() + 1
            &&& after.diffs.drop_last() == s.diffs
            &&& after.diffs.last().notified_at_ns is None
            &&& d.id == s.last_diff_id + 1
            &&& after.last_diff_id == s.last_diff_id + 1
            &&& d.observed_at_ns == now
            &&& d.method == method
            &&& d.path == path
            &&& d.primary_status is Some <==> primary_status is Some
            &&& d.shadow_status is Some <==> shadow_status is Some
            &&& primary_status matches Some(p) ==> d.primary_status->0 == p
            &&& shadow_status matches Some(p) ==> d.shadow_status->0 == p
            &&& d.primary_body == primary_body
            &&& d.shadow_body == shadow_body
            &&& d.diff_blob == blob
            &&& d.severity == severity
            &&& d.descended_from_failed_write_id == descended_from
            &&& after == (StoreView {
                diffs: after.diffs,
                last_diff_id: after.last_diff_id,
                ..s
            })
        }),
{
    let diff = db::new_diff(
        s.last_diff_id + 1,
        now,
        method,
        path,
        primary_status,
        shadow_status,
        primary_body,
        shadow_body,
        blob,
        severity,
        descended_from,
    );
    assert(db::recorded(s, diff).diffs.drop_last() =~= s.diffs);
}

/// Queueing a write puts it behind all others, due at once and never tried;
/// nothing else changes.
pub proof fn writes_are_put_behind_all_others(
    s: StoreView,
    now: int,
    method: Seq<char>,
    path: Seq<char>,
    body: Seq<u8>,
    content_type: Option<Seq<char>>,
)
    ensures
        ({
            let row = db::new_queue_row(
                s.last_queue_id + 1,
                now,
                method,
                path,
                body,
                content_type,
            );
            let after = db::enqueued(s, row);
            let queued = after.write_queue.last();
            &&& after.write_queue.len() == s.write_queue.len() + 1
            &&& after.write_queue.drop_last() == s.write_queue
            &&& queued.id == s.last_queue_id + 1
            &&& after.last_queue_id == s.last_queue_id + 1
            &&& queued.enqueued_at_ns == now
            &&& queued.next_attempt_at_ns == now
            &&& queued.attempts == 0
            &&& queued.last_error is None
            &&& queued.method == method
            &&& queued.path == path
            &&& queued.body == body
            &&& queued.content_type == content_type
            &&& after == (StoreView {
                write_queue: after.write_queue,
                last_queue_id: after.last_queue_id,
                ..s
            })
        }),
{
    let row = db::new_queue_row(s.last_queue_id + 1, now, method, path, body, content_type);
    assert(db::enqueued(s, row).write_queue.drop_last() =~= s.write_queue);
}

// ---------------------------------------------------------------------------
// What is listed and counted

/// A listing shows a difference exactly where it has the severity that was asked
/// for, if one was, and was observed at the given time or later, if one was.
pub proof fn listings_filter_by_severity_and_time(
    d: StoredDiffView,
    severity: Option<Seq<char>>,
    since: Option<i64>,
)
    ensures
        db::listed(d, severity, since) <==> (severity is None || severity
            == Some(d.detail.severity)) && (since is None || since->0 <= d.detail.observed_at_ns),
{
}

/// A listing shows of a difference all but its bodies.
pub proof fn listed_rows_show_the_difference(d: StoredDiffView)
    ensures
        ({
            let (row, was) = (d.detail.row(), d.detail);
            &&& row.id == was.id
            &&& row.observed_at_ns == was.observed_at_ns
            &&& row.method == was.method
            &&& row.path == was.path
            &&& row.primary_status == was.primary_status
            &&& row.shadow_status == was.shadow_status
            &&& row.diff_blob == was.diff_blob
            &&& row.severity == was.severity
            &&& row.descended_from_failed_write_id == was.descended_from_failed_write_id
        }),
{
}

/// A limit cuts a listing at its end: no more rows than allowed, all of them
/// where they are no more, and a negative limit is none.
pub proof fn limits_cut_the_end(rows: Seq<DiffRowView>, limit: int)
    ensures
        db::first_rows(rows, limit).is_prefix_of(rows),
        limit >= 0 ==> db::first_rows(rows, limit).len() == if rows.len() <= limit {
            rows.len() as int
        } else {
            limit
        },
        limit < 0 ==> db::first_rows(rows, limit) == rows,
{
}

/// The differences of a window, counted: those observed at its start or later,
/// with the severity and on the path that were asked for, if any.
pub proof fn differences_are_counted_in_their_window(
    diffs: Seq<StoredDiffView>,
    since: int,
    severity: Option<Seq<char>>,
    path: Option<Seq<char>>,
)
    ensures
        db::count_diffs(diffs, since, severity, path) == diffs.filter(
            |d: StoredDiffView|
                since <= d.detail.observed_at_ns && (severity is None || severity
                    == Some(d.detail.severity)) && (path is None || path == Some(d.detail.path)),
        ).len(),
    decreases diffs.len(),
{
    reveal(Seq::filter);
    if diffs.len() > 0 {
        differences_are_counted_in_their_window(diffs.drop_last(), since, severity, path);
    }
}

/// The requests of a window, counted: its differences, and the writes that were
/// queued in it, whether they still wait or were given up.
pub proof fn requests_are_counted_in_their_window(s: StoreView, since: int, path: Option<Seq<char>>)
    ensures
        db::count_requests(s, since, path) == db::count_diffs(s.diffs, since, None, path)
            + s.write_queue.filter(
            |w: QueueRowView| since <= w.enqueued_at_ns && (path is None || path == Some(w.path)),
        ).len() + s.failed_writes.filter(
            |w: FailedWriteView|
                since <= w.enqueued_at_ns && (path is None || path == Some(w.path)),
        ).len(),
{
    waiting_writes_are_counted(s.write_queue, since, path);
    failed_writes_are_counted(s.failed_writes, since, path);
}

proof fn waiting_writes_are_counted(queue: Seq<QueueRowView>, since: int, path: Option<Seq<char>>)
    ensures
        db::count_queued(queue, since, path) == queue.filter(
            |w: QueueRowView| since <= w.enqueued_at_ns && (path is None || path == Some(w.path)),
        ).len(),
    decreases queue.len(),
{
    reveal(Seq::filter);
    if queue.len() > 0 {
        waiting_writes_are_counted(queue.drop_last(), since, path);
    }
}

proof fn failed_writes_are_counted(
    failed: Seq<FailedWriteView>,
    since: int,
    path: Option<Seq<char>>,
)
    ensures
        db::count_failed(failed, since, path) == failed.filter(
            |w: FailedWriteView|
                since <= w.enqueued_at_ns && (path is None || path == Some(w.path)),
        ).len(),
    decreases failed.len(),
{
    reveal(Seq::filter);
    if failed.len() > 0 {
        failed_writes_are_counted(failed.drop_last(), since, path);
    }
}

/// The breakdown counts the differences of each severity, the most severe first.
pub proof fn breakdown_counts_each_severity(diffs: Seq<StoredDiffView>, since: int, i: int)
    requires
        0 <= i < 5,
    ensures
        ({
            let b = db::breakdown(diffs, since);
            let name = if i == 0 {
                "critical"@
            } else if i == 1 {
                "high"@
            } else if i == 2 {
                "medium"@
            } else if i == 3 {
                "low"@
            } else {
                "noise"@
            };
            &&& b.len() == 5
            &&& b[i].0 == name
            &&& b[i].1 == diffs.filter(
                |d: StoredDiffView|
                    since <= d.detail.observed_at_ns && d.detail.severity == name,
            ).len()
        }),
{
    let name = db::breakdown(diffs, since)[i].0;
    differences_are_counted_in_their_window(diffs, since, Some(name), None);
    let asked = |d: StoredDiffView|
        since <= d.detail.observed_at_ns && (Some(name) is None || Some(name) == Some(
            d.detail.severity,
        )) && (None::<Seq<char>> is None || None::<Seq<char>> == Some(d.detail.path));
    let plain = |d: StoredDiffView|
        since <= d.detail.observed_at_ns && d.detail.severity == name;
    assert(asked =~= plain);
}

/// The leaderboard ranks only the paths that it was given, each with the
/// differences and the requests of its window.
pub proof fn leaderboard_rows_count_their_path(
    s: StoreView,
    since: int,
    paths: Seq<Seq<char>>,
    i: int,
)
    requires
        0 <= i < db::leaderboard(s, since, paths).len(),
    ensures
        ({
            let row = db::leaderboard(s, since, paths)[i];
            &&& paths.contains(row.0)
            &&& row.1 == db::count_diffs(s.diffs, since, None, Some(row.0))
            &&& row.2 == db::count_requests(s, since, Some(row.0))
        }),
    decreases paths.len(),
{
    if paths.len() > 0 {
        let rest = paths.drop_last();
        let before = db::leaderboard(s, since, rest);
        let row = db::path_counts(s, since, paths.last());
        let p = db::place(db::diff_counts(before), row.1);
        db::place_facts(db::diff_counts(before), row.1);
        if i == p {
            assert(paths[paths.len() - 1] == row.0);
        } else {
            let k = if i < p {
                i
            } else {
                i - 1
            };
            assert(db::leaderboard(s, since, paths)[i] == before[k]);
            leaderboard_rows_count_their_path(s, since, rest, k);
            let path = before[k].0;
            let at = rest.index_of(path);
            assert(rest[at] == path && paths[at] == path);
        }
    }
}

/// There is a last critical difference exactly where a critical one was
/// recorded.
pub proof fn last_critical_exists_with_a_critical(diffs: Seq<StoredDiffView>)
    ensures
        db::last_critical(diffs) is Some <==> exists|i: int|
            0 <= i < diffs.len() && (#[trigger] diffs[i]).detail.severity == "critical"@,
{
    listings_are_complete(diffs, Some("critical"@), None);
    let listing = db::newest_first(diffs, Some("critical"@), None);
    if listing.len() > 0 {
        assert(listing.contains(listing[0]));
    }
    if exists|i: int| 0 <= i < diffs.len() && (#[trigger] diffs[i]).detail.severity
        == "critical"@ {
        let i = choose|i: int|
            0 <= i < diffs.len() && (#[trigger] diffs[i]).detail.severity == "critical"@;
        last_critical_is_the_latest(diffs, i);
    }
}

/// A clock that stands before 1970 reads as its start, any other as the
/// nanoseconds since.
pub proof fn clocks_count_nanoseconds(nanos: u128)
    ensures
        nanos <= i64::MAX ==> db::clock_value(Some(nanos)) == nanos,
        db::clock_value(None) == 0,
{
}

/// The attempts that are reported are those that are written down; none for an
/// unknown write.
pub proof fn reported_attempts_are_written_down(
    s: StoreView,
    id: int,
    err: Seq<char>,
    next: int,
    i: int,
)
    requires
        s.wf(),
    ensures
        0 <= i < s.write_queue.len() && s.write_queue[i].id == id ==> db::attempts_then(s, id)
            == s.write_queue[i].attempts + 1 && db::attempts_then(s, id) == db::rescheduled(
            s,
            id,
            err,
            next,
        ).write_queue[i].attempts,
        (forall|k: int|
            0 <= k < s.write_queue.len() ==> (#[trigger] s.write_queue[k]).id != id)
            ==> db::attempts_then(s, id) == 0,
{
    let ids = db::queue_ids(s.write_queue);
    if 0 <= i < s.write_queue.len() && s.write_queue[i].id == id {
        assert(ids[i] == id);
        db::index_of_id(ids, s.last_queue_id, i);
    }
    if ids.contains(id) {
        let k = ids.index_of(id);
        assert(ids[k] == id && s.write_queue[k].id == id);
    }
}

// ---------------------------------------------------------------------------
// What is seen of the records

/// Writes are seen with all that is kept of them.
pub proof fn writes_are_seen_whole(q: db::QueueRow, w: db::QueuedWrite, f: db::FailedWrite)
    ensures
        q@.id == q.id && q@.enqueued_at_ns == q.enqueued_at_ns && q@.method == q.method@ && q@.path
            == q.path@ && q@.body == q.body@ && q@.attempts == q.attempts && q@.next_attempt_at_ns
            == q.next_attempt_at_ns,
        q@.content_type == db::opt_text(q.content_type) && q@.last_error == db::opt_text(
            q.last_error,
        ),
        w@.id == w.id && w@.method == w.method@ && w@.path == w.path@ && w@.body == w.body@
            && w@.attempts == w.attempts && w@.content_type == db::opt_text(w.content_type),
        f@.id == f.id && f@.original_queue_id == f.original_queue_id && f@.enqueued_at_ns
            == f.enqueued_at_ns && f@.failed_at_ns == f.failed_at_ns && f@.method == f.method@
            && f@.path == f.path@ && f@.body == f.body@ && f@.attempts == f.attempts,
        f@.content_type == db::opt_text(f.content_type) && f@.last_error == db::opt_text(
            f.last_error,
        ),
{
}

/// Differences are seen with all that is kept of them.
pub proof fn differences_are_seen_whole(r: db::DiffRow, d: db::DiffDetail, s: db::StoredDiff)
    ensures
        r@.id == r.id && r@.observed_at_ns == r.observed_at_ns && r@.method == r.method@ && r@.path
            == r.path@ && r@.primary_status == r.primary_status && r@.shadow_status
            == r.shadow_status && r@.diff_blob == r.diff_blob@ && r@.severity == r.severity@
            && r@.descended_from_failed_write_id == r.descended_from_failed_write_id,
        d@.id == d.id && d@.observed_at_ns == d.observed_at_ns && d@.method == d.method@ && d@.path
            == d.path@ && d@.primary_status == d.primary_status && d@.shadow_status
            == d.shadow_status && d@.diff_blob == d.diff_blob@ && d@.severity == d.severity@
            && d@.descended_from_failed_write_id == d.descended_from_failed_write_id,
        d@.primary_body == db::opt_text(d.primary_body) && d@.shadow_body == db::opt_text(
            d.shadow_body,
        ),
        s@.detail == s.detail@ && s@.notified_at_ns == s.notified_at_ns,
{
}

/// Backends are seen with all that is kept of them.
pub proof fn backends_are_seen_whole(b: db::BackendStateRow, s: db::StoredBackend)
    ensures
        b@.backend == b.backend@ && b@.last_observed_uptime_seconds
            == b.last_observed_uptime_seconds && b@.state == b.state@ && b@.last_observed_git_sha
            == db::opt_text(b.last_observed_git_sha),
        s@.row == s.row@ && s@.updated_at_ns == s.updated_at_ns,
{
}

/// The store is seen row by row.
pub proof fn stores_are_seen_whole(s: db::Store, i: int)
    ensures
        s@.last_queue_id == s.last_queue_id && s@.last_failed_id == s.last_failed_id
            && s@.last_diff_id == s.last_diff_id,
        s@.write_queue.len() == s.write_queue.len() && s@.failed_writes.len()
            == s.failed_writes.len() && s@.diffs.len() == s.diffs.len() && s@.backend_state.len()
            == s.backend_state.len(),
        0 <= i < s.write_queue.len() ==> s@.write_queue[i] == s.write_queue@[i]@,
        0 <= i < s.failed_writes.len() ==> s@.failed_writes[i] == s.failed_writes@[i]@,
        0 <= i < s.diffs.len() ==> s@.diffs[i] == s.diffs@[i]@,
        0 <= i < s.backend_state.len() ==> s@.backend_state[i] == s.backend_state@[i]@,
{
}

/// A text that may be missing is seen as it is.
pub proof fn missing_texts_are_missing(s: String)
    ensures
        db::opt_text(Some(s)) == Some(s@),
        db::opt_text(None) is None,
{
}

/// A store is sound exactly where the ids of its rows rise from one and stay
/// below what was given out, and each backend stands there once.
pub proof fn sound_stores_number_their_rows(s: StoreView)
    ensures
        s.wf() <==> {
            let rising = |ids: Seq<int>, last: int|
                0 <= last <= i64::MAX && (forall|i: int|
                    0 <= i < ids.len() ==> 1 <= #[trigger] ids[i] <= last) && (forall|
                    i: int,
                    j: int,
                |
                    0 <= i < j < ids.len() ==> #[trigger] ids[i] < #[trigger] ids[j]);
            &&& rising(s.write_queue.map_values(|r: QueueRowView| r.id), s.last_queue_id)
            &&& rising(s.failed_writes.map_values(|r: FailedWriteView| r.id), s.last_failed_id)
            &&& rising(s.diffs.map_values(|r: StoredDiffView| r.detail.id), s.last_diff_id)
            &&& s.backend_state.map_values(|r: StoredBackendView| r.row.backend).no_duplicates()
        },
{
}

/// What is queued is one more that waits; what is done is one less; what is given
/// up is one less that waits and one more that was given up; what is tried again
/// is neither.
pub proof fn waiting_and_given_up_are_counted(
    s: StoreView,
    row: QueueRowView,
    i: int,
    now: int,
    err: Seq<char>,
    next: int,
)
    requires
        s.wf(),
        0 <= i < s.write_queue.len(),
    ensures
        ({
            let id = s.write_queue[i].id;
            let given_up = db::given_up(s, id, now);
            &&& db::depth(db::enqueued(s, row)) == db::depth(s) + 1
            &&& db::depth(db::dequeued(s, id)) == db::depth(s) - 1
            &&& db::depth(given_up) == db::depth(s) - 1
            &&& db::losses(given_up) == db::losses(s) + 1
            &&& db::depth(db::rescheduled(s, id, err, next)) == db::depth(s)
            &&& db::losses(db::enqueued(s, row)) == db::losses(s)
            &&& db::losses(db::dequeued(s, id)) == db::losses(s)
            &&& s.failed_writes.len() == 0 ==> db::losses(s) == 0
            &&& db::depth(s) > 0
        }),
{
    writes_are_taken_out_one_by_one(s, s.write_queue[i].id, i);
    given_up_writes_move(s, i, now);
    failed_attempts_are_written_down(s, s.write_queue[i].id, err, next, i);
}

/// Moving a write to the failed writes moves a queued one and gives its new id;
/// an unknown one changes nothing and gives the id that was handed in; without an
/// id left nothing changes and none is given.
pub proof fn moves_give_the_last_row(
    s: StoreView,
    i: int,
    id: int,
    now: int,
    last_inserted: int,
)
    requires
        s.wf(),
    ensures
        ({
            let (after, given) = db::moved(s, id, now, last_inserted);
            let queued = 0 <= i < s.write_queue.len() && s.write_queue[i].id == id;
            &&& queued && s.last_failed_id < i64::MAX ==> given == Some(s.last_failed_id + 1)
                && after.write_queue == s.write_queue.remove(i) && after.failed_writes.len()
                == s.failed_writes.len() + 1 && after.failed_writes.last().id == s.last_failed_id
                + 1 && after.failed_writes.last().original_queue_id == id
            &&& queued && s.last_failed_id == i64::MAX ==> given is None && after == s
            &&& (forall|k: int|
                0 <= k < s.write_queue.len() ==> (#[trigger] s.write_queue[k]).id != id) ==> given
                == Some(last_inserted) && after == s
        }),
{
    let ids = db::queue_ids(s.write_queue);
    if 0 <= i < s.write_queue.len() && s.write_queue[i].id == id {
        assert(ids[i] == id);
        db::index_of_id(ids, s.last_queue_id, i);
        given_up_writes_move(s, i, now);
    }
    if ids.contains(id) {
        let k = ids.index_of(id);
        assert(ids[k] == id && s.write_queue[k].id == id);
    }
}

} // verus!
