//! The proxy's records: queued writes, failed writes, observed differences and
//! the state of the two backends.
//!
//! A `Store` holds the rows of the four tables. Rows stand in the order of
//! their ids, ids are never used twice, and every operation says what it does
//! to the rows.
use crate::text;
use vstd::prelude::*;

verus! {

broadcast use vstd::string::group_string_axioms;

// ---------------------------------------------------------------------------
// Rows

pub open spec fn opt_text(o: Option<String>) -> Option<Seq<char>> {
    match o {
        Some(s) => Some(s@),
        None => None,
    }
}

pub open spec fn opt_str(o: Option<&str>) -> Option<Seq<char>> {
    match o {
        Some(s) => Some(s@),
        None => None,
    }
}

/// A write that waits to be replayed against the shadow.
#[derive(Clone, Debug)]
pub struct QueueRow {
    pub id: i64,
    pub enqueued_at_ns: i64,
    pub method: String,
    pub path: String,
    pub body: Vec<u8>,
    pub content_type: Option<String>,
    pub attempts: i64,
    pub last_error: Option<String>,
    pub next_attempt_at_ns: i64,
}

pub struct QueueRowView {
    pub id: int,
    pub enqueued_at_ns: int,
    pub method: Seq<char>,
    pub path: Seq<char>,
    pub body: Seq<u8>,
    pub content_type: Option<Seq<char>>,
    pub attempts: int,
    pub last_error: Option<Seq<char>>,
    pub next_attempt_at_ns: int,
}

impl View for QueueRow {
    type V = QueueRowView;

    open spec fn view(&self) -> QueueRowView {
        QueueRowView {
            id: self.id as int,
            enqueued_at_ns: self.enqueued_at_ns as int,
            method: self.method@,
            path: self.path@,
            body: self.body@,
            content_type: opt_text(self.content_type),
            attempts: self.attempts as int,
            last_error: opt_text(self.last_error),
            next_attempt_at_ns: self.next_attempt_at_ns as int,
        }
    }
}

/// What the replay worker needs to know of a queued write.
#[derive(Clone, Debug)]
pub struct QueuedWrite {
    pub id: i64,
    pub method: String,
    pub path: String,
    pub body: Vec<u8>,
    pub content_type: Option<String>,
    pub attempts: u32,
}

pub struct QueuedWriteView {
    pub id: int,
    pub method: Seq<char>,
    pub path: Seq<char>,
    pub body: Seq<u8>,
    pub content_type: Option<Seq<char>>,
    pub attempts: u32,
}

impl View for QueuedWrite {
    type V = QueuedWriteView;

    open spec fn view(&self) -> QueuedWriteView {
        QueuedWriteView {
            id: self.id as int,
            method: self.method@,
            path: self.path@,
            body: self.body@,
            content_type: opt_text(self.content_type),
            attempts: self.attempts,
        }
    }
}

impl QueueRowView {
    /// What the replay worker is handed of this row. The attempt counter is
    /// cut down to 32 bits.
    pub open spec fn queued(self) -> QueuedWriteView {
        QueuedWriteView {
            id: self.id,
            method: self.method,
            path: self.path,
            body: self.body,
            content_type: self.content_type,
            attempts: self.attempts as u32,
        }
    }
}

/// A write that exhausted its attempts.
#[derive(Clone, Debug)]
pub struct FailedWrite {
    pub id: i64,
    pub original_queue_id: i64,
    pub enqueued_at_ns: i64,
    pub failed_at_ns: i64,
    pub method: String,
    pub path: String,
    pub body: Vec<u8>,
    pub content_type: Option<String>,
    pub attempts: i64,
    pub last_error: Option<String>,
}

pub struct FailedWriteView {
    pub id: int,
    pub original_queue_id: int,
    pub enqueued_at_ns: int,
    pub failed_at_ns: int,
    pub method: Seq<char>,
    pub path: Seq<char>,
    pub body: Seq<u8>,
    pub content_type: Option<Seq<char>>,
    pub attempts: int,
    pub last_error: Option<Seq<char>>,
}

impl View for FailedWrite {
    type V = FailedWriteView;

    open spec fn view(&self) -> FailedWriteView {
        FailedWriteView {
            id: self.id as int,
            original_queue_id: self.original_queue_id as int,
            enqueued_at_ns: self.enqueued_at_ns as int,
            failed_at_ns: self.failed_at_ns as int,
            method: self.method@,
            path: self.path@,
            body: self.body@,
            content_type: opt_text(self.content_type),
            attempts: self.attempts as int,
            last_error: opt_text(self.last_error),
        }
    }
}

impl QueueRowView {
    /// The failed write that this row becomes.
    pub open spec fn failed(self, id: int, now: int) -> FailedWriteView {
        FailedWriteView {
            id,
            original_queue_id: self.id,
            enqueued_at_ns: self.enqueued_at_ns,
            failed_at_ns: now,
            method: self.method,
            path: self.path,
            body: self.body,
            content_type: self.content_type,
            attempts: self.attempts,
            last_error: self.last_error,
        }
    }
}

/// One observed difference, without the bodies.
#[derive(Clone, Debug)]
pub struct DiffRow {
    pub id: i64,
    pub observed_at_ns: i64,
    pub method: String,
    pub path: String,
    pub primary_status: Option<i64>,
    pub shadow_status: Option<i64>,
    pub diff_blob: String,
    pub severity: String,
    pub descended_from_failed_write_id: Option<i64>,
}

pub struct DiffRowView {
    pub id: int,
    pub observed_at_ns: int,
    pub method: Seq<char>,
    pub path: Seq<char>,
    pub primary_status: Option<i64>,
    pub shadow_status: Option<i64>,
    pub diff_blob: Seq<char>,
    pub severity: Seq<char>,
    pub descended_from_failed_write_id: Option<i64>,
}

impl View for DiffRow {
    type V = DiffRowView;

    open spec fn view(&self) -> DiffRowView {
        DiffRowView {
            id: self.id as int,
            observed_at_ns: self.observed_at_ns as int,
            method: self.method@,
            path: self.path@,
            primary_status: self.primary_status,
            shadow_status: self.shadow_status,
            diff_blob: self.diff_blob@,
            severity: self.severity@,
            descended_from_failed_write_id: self.descended_from_failed_write_id,
        }
    }
}

/// One observed difference in full.
#[derive(Clone, Debug)]
pub struct DiffDetail {
    pub id: i64,
    pub observed_at_ns: i64,
    pub method: String,
    pub path: String,
    pub primary_status: Option<i64>,
    pub shadow_status: Option<i64>,
    pub primary_body: Option<String>,
    pub shadow_body: Option<String>,
    pub diff_blob: String,
    pub severity: String,
    pub descended_from_failed_write_id: Option<i64>,
}

pub struct DiffDetailView {
    pub id: int,
    pub observed_at_ns: int,
    pub method: Seq<char>,
    pub path: Seq<char>,
    pub primary_status: Option<i64>,
    pub shadow_status: Option<i64>,
    pub primary_body: Option<Seq<char>>,
    pub shadow_body: Option<Seq<char>>,
    pub diff_blob: Seq<char>,
    pub severity: Seq<char>,
    pub descended_from_failed_write_id: Option<i64>,
}

impl View for DiffDetail {
    type V = DiffDetailView;

    open spec fn view(&self) -> DiffDetailView {
        DiffDetailView {
            id: self.id as int,
            observed_at_ns: self.observed_at_ns as int,
            method: self.method@,
            path: self.path@,
            primary_status: self.primary_status,
            shadow_status: self.shadow_status,
            primary_body: opt_text(self.primary_body),
            shadow_body: opt_text(self.shadow_body),
            diff_blob: self.diff_blob@,
            severity: self.severity@,
            descended_from_failed_write_id: self.descended_from_failed_write_id,
        }
    }
}

impl DiffDetailView {
    /// The same difference without the bodies.
    pub open spec fn row(self) -> DiffRowView {
        DiffRowView {
            id: self.id,
            observed_at_ns: self.observed_at_ns,
            method: self.method,
            path: self.path,
            primary_status: self.primary_status,
            shadow_status: self.shadow_status,
            diff_blob: self.diff_blob,
            severity: self.severity,
            descended_from_failed_write_id: self.descended_from_failed_write_id,
        }
    }
}

/// An observed difference with the time at which it was claimed for
/// notification, if it was.
#[derive(Clone, Debug)]
pub struct StoredDiff {
    pub detail: DiffDetail,
    pub notified_at_ns: Option<i64>,
}

pub struct StoredDiffView {
    pub detail: DiffDetailView,
    pub notified_at_ns: Option<i64>,
}

impl View for StoredDiff {
    type V = StoredDiffView;

    open spec fn view(&self) -> StoredDiffView {
        StoredDiffView { detail: self.detail@, notified_at_ns: self.notified_at_ns }
    }
}

/// What was last seen of a backend.
#[derive(Clone, Debug)]
pub struct BackendStateRow {
    pub backend: String,
    pub last_observed_uptime_seconds: Option<i64>,
    pub last_observed_git_sha: Option<String>,
    pub state: String,
}

pub struct BackendStateView {
    pub backend: Seq<char>,
    pub last_observed_uptime_seconds: Option<i64>,
    pub last_observed_git_sha: Option<Seq<char>>,
    pub state: Seq<char>,
}

impl View for BackendStateRow {
    type V = BackendStateView;

    open spec fn view(&self) -> BackendStateView {
        BackendStateView {
            backend: self.backend@,
            last_observed_uptime_seconds: self.last_observed_uptime_seconds,
            last_observed_git_sha: opt_text(self.last_observed_git_sha),
            state: self.state@,
        }
    }
}

/// A backend's state with the time at which it was recorded.
#[derive(Clone, Debug)]
pub struct StoredBackend {
    pub row: BackendStateRow,
    pub updated_at_ns: i64,
}

pub struct StoredBackendView {
    pub row: BackendStateView,
    pub updated_at_ns: int,
}

impl View for StoredBackend {
    type V = StoredBackendView;

    open spec fn view(&self) -> StoredBackendView {
        StoredBackendView { row: self.row@, updated_at_ns: self.updated_at_ns as int }
    }
}

// ---------------------------------------------------------------------------
// The store

/// The rows of the four tables, and for each table with ids the largest id
/// that was ever given out.
#[derive(Clone, Debug)]
pub struct Store {
    pub write_queue: Vec<QueueRow>,
    pub last_queue_id: i64,
    pub failed_writes: Vec<FailedWrite>,
    pub last_failed_id: i64,
    pub diffs: Vec<StoredDiff>,
    pub last_diff_id: i64,
    pub backend_state: Vec<StoredBackend>,
}

#[verifier::ext_equal]
pub struct StoreView {
    pub write_queue: Seq<QueueRowView>,
    pub last_queue_id: int,
    pub failed_writes: Seq<FailedWriteView>,
    pub last_failed_id: int,
    pub diffs: Seq<StoredDiffView>,
    pub last_diff_id: int,
    pub backend_state: Seq<StoredBackendView>,
}

pub open spec fn queue_view(rows: Seq<QueueRow>) -> Seq<QueueRowView> {
    rows.map_values(|r: QueueRow| r@)
}

pub open spec fn failed_view(rows: Seq<FailedWrite>) -> Seq<FailedWriteView> {
    rows.map_values(|r: FailedWrite| r@)
}

pub open spec fn diffs_view(rows: Seq<StoredDiff>) -> Seq<StoredDiffView> {
    rows.map_values(|r: StoredDiff| r@)
}

pub open spec fn backends_view(rows: Seq<StoredBackend>) -> Seq<StoredBackendView> {
    rows.map_values(|r: StoredBackend| r@)
}

impl View for Store {
    type V = StoreView;

    open spec fn view(&self) -> StoreView {
        StoreView {
            write_queue: queue_view(self.write_queue@),
            last_queue_id: self.last_queue_id as int,
            failed_writes: failed_view(self.failed_writes@),
            last_failed_id: self.last_failed_id as int,
            diffs: diffs_view(self.diffs@),
            last_diff_id: self.last_diff_id as int,
            backend_state: backends_view(self.backend_state@),
        }
    }
}

pub open spec fn queue_ids(rows: Seq<QueueRowView>) -> Seq<int> {
    rows.map_values(|r: QueueRowView| r.id)
}

pub open spec fn failed_ids(rows: Seq<FailedWriteView>) -> Seq<int> {
    rows.map_values(|r: FailedWriteView| r.id)
}

pub open spec fn diff_ids(rows: Seq<StoredDiffView>) -> Seq<int> {
    rows.map_values(|r: StoredDiffView| r.detail.id)
}

pub open spec fn backend_names(rows: Seq<StoredBackendView>) -> Seq<Seq<char>> {
    rows.map_values(|r: StoredBackendView| r.row.backend)
}

/// Ids stand in increasing order, from 1 to the last one given out.
pub open spec fn ids_in_order(ids: Seq<int>, last: int) -> bool {
    &&& 0 <= last <= i64::MAX
    &&& forall|i: int| 0 <= i < ids.len() ==> 1 <= #[trigger] ids[i] <= last
    &&& forall|i: int, j: int| 0 <= i < j < ids.len() ==> #[trigger] ids[i] < #[trigger] ids[j]
}

impl StoreView {
    /// Ids stand in order in every table, and no backend is listed twice.
    pub open spec fn wf(self) -> bool {
        &&& ids_in_order(queue_ids(self.write_queue), self.last_queue_id)
        &&& ids_in_order(failed_ids(self.failed_writes), self.last_failed_id)
        &&& ids_in_order(diff_ids(self.diffs), self.last_diff_id)
        &&& backend_names(self.backend_state).no_duplicates()
    }
}

/// A table has given out its last id.
#[derive(Clone, Copy, Debug, PartialEq, Eq)]
pub struct StoreFull;

/// The rows that a new store holds: both backends, not observed yet.
pub open spec fn seeded_backend(name: Seq<char>) -> StoredBackendView {
    StoredBackendView {
        row: BackendStateView {
            backend: name,
            last_observed_uptime_seconds: None,
            last_observed_git_sha: None,
            state: "seeded"@,
        },
        updated_at_ns: 0,
    }
}

// ---------------------------------------------------------------------------
// Small helpers

pub proof fn index_of_id(ids: Seq<int>, last: int, i: int)
    requires
        ids_in_order(ids, last),
        0 <= i < ids.len(),
    ensures
        ids.contains(ids[i]),
        ids.index_of(ids[i]) == i,
{
    let j = ids.index_of(ids[i]);
    assert(0 <= j < ids.len() && ids[j] == ids[i]);
    if i < j {
        assert(ids[i] < ids[j]);
    } else if j < i {
        assert(ids[j] < ids[i]);
    }
}

/// There are at most as many rows as ids were given out.
pub proof fn fewer_rows_than_ids(ids: Seq<int>, last: int)
    requires
        ids_in_order(ids, last),
    ensures
        ids.len() <= last,
    decreases ids.len(),
{
    if ids.len() > 0 {
        let before = ids.drop_last();
        if before.len() > 0 {
            assert(ids[ids.len() - 2] < ids[ids.len() - 1]);
            assert forall|i: int| 0 <= i < before.len() implies 1 <= #[trigger] before[i]
                <= ids.last() - 1 by {
                assert(ids[i] < ids[ids.len() - 1]);
                assert(1 <= ids[i]);
            }
            assert forall|i: int, j: int| 0 <= i < j < before.len() implies #[trigger] before[i]
                < #[trigger] before[j] by {
                assert(ids[i] < ids[j]);
            }
            fewer_rows_than_ids(before, ids.last() - 1);
        }
        assert(1 <= ids[ids.len() - 1] <= last);
    }
}

pub(crate) fn copy_bytes(bytes: &[u8]) -> (r: Vec<u8>)
    ensures
        r@ == bytes@,
{
    let mut out: Vec<u8> = Vec::new();
    out.extend_from_slice(bytes);
    assert(out@ == bytes@);
    out
}

pub(crate) fn copy_opt(o: &Option<String>) -> (r: Option<String>)
    ensures
        opt_text(r) == opt_text(*o),
{
    match o {
        Some(s) => Some(s.clone()),
        None => None,
    }
}

fn own_opt(o: Option<&str>) -> (r: Option<String>)
    ensures
        opt_text(r) == opt_str(o),
{
    match o {
        Some(s) => Some(s.to_owned()),
        None => None,
    }
}

// ---------------------------------------------------------------------------
// Setting up

/// The backends with one more seeded, where it is not listed yet.
pub open spec fn with_backend(rows: Seq<StoredBackendView>, name: Seq<char>) -> Seq<
    StoredBackendView,
> {
    if backend_names(rows).contains(name) {
        rows
    } else {
        rows.push(seeded_backend(name))
    }
}

/// The store with both backends listed.
pub open spec fn migrated(s: StoreView) -> StoreView {
    StoreView {
        backend_state: with_backend(with_backend(s.backend_state, "primary"@), "shadow"@),
        ..s
    }
}

fn backend_position(rows: &Vec<StoredBackend>, name: &str) -> (r: Option<usize>)
    ensures
        r is Some <==> backend_names(backends_view(rows@)).contains(name@),
        r matches Some(i) ==> i < rows.len() && rows@[i as int].row.backend@ == name@,
        r matches Some(i) ==> forall|j: int|
            0 <= j < i ==> (#[trigger] rows@[j]).row.backend@ != name@,
{
    let ghost names = backend_names(backends_view(rows@));
    let mut i: usize = 0;
    while i < rows.len()
        invariant
            i <= rows.len(),
            names == backend_names(backends_view(rows@)),
            forall|j: int| 0 <= j < i ==> (#[trigger] rows@[j]).row.backend@ != name@,
        decreases rows.len() - i,
    {
        if text::same_text(rows[i].row.backend.as_str(), name) {
            assert(names[i as int] == name@);
            return Some(i);
        }
        i = i + 1;
    }
    assert forall|j: int| 0 <= j < names.len() implies names[j] != name@ by {
        assert(names[j] == rows@[j].row.backend@);
    }
    None
}

fn seed_backend(rows: &mut Vec<StoredBackend>, name: &str)
    requires
        backend_names(backends_view(old(rows)@)).no_duplicates(),
    ensures
        backends_view(final(rows)@) == with_backend(backends_view(old(rows)@), name@),
        backend_names(backends_view(final(rows)@)).no_duplicates(),
{
    if backend_position(rows, name).is_none() {
        let ghost before = rows@;
        rows.push(
            StoredBackend {
                row: BackendStateRow {
                    backend: name.to_owned(),
                    last_observed_uptime_seconds: None,
                    last_observed_git_sha: None,
                    state: "seeded".to_owned(),
                },
                updated_at_ns: 0,
            },
        );
        assert(backends_view(rows@) == backends_view(before).push(seeded_backend(name@)));
        assert(backend_names(backends_view(rows@)) == backend_names(backends_view(before)).push(
            name@,
        ));
    }
}

/// Lists both backends, where they are not listed yet.
pub fn migrate(store: &mut Store)
    requires
        old(store)@.wf(),
    ensures
        final(store)@.wf(),
        final(store)@ == migrated(old(store)@),
{
    seed_backend(&mut store.backend_state, "primary");
    seed_backend(&mut store.backend_state, "shadow");
}

impl Store {
    /// A store without rows.
    pub fn new() -> (r: Store)
        ensures
            r@.wf(),
            r@ == (StoreView {
                write_queue: Seq::empty(),
                last_queue_id: 0,
                failed_writes: Seq::empty(),
                last_failed_id: 0,
                diffs: Seq::empty(),
                last_diff_id: 0,
                backend_state: Seq::empty(),
            }),
    {
        let r = Store {
            write_queue: Vec::new(),
            last_queue_id: 0,
            failed_writes: Vec::new(),
            last_failed_id: 0,
            diffs: Vec::new(),
            last_diff_id: 0,
            backend_state: Vec::new(),
        };
        assert(r@.write_queue =~= Seq::empty());
        assert(r@.failed_writes =~= Seq::empty());
        assert(r@.diffs =~= Seq::empty());
        assert(r@.backend_state =~= Seq::empty());
        r
    }
}

// ---------------------------------------------------------------------------
// The write queue

/// The row for a write that arrives now: no attempt yet, due at once.
pub open spec fn new_queue_row(
    id: int,
    now: int,
    method: Seq<char>,
    path: Seq<char>,
    body: Seq<u8>,
    content_type: Option<Seq<char>>,
) -> QueueRowView {
    QueueRowView {
        id,
        enqueued_at_ns: now,
        method,
        path,
        body,
        content_type,
        attempts: 0,
        last_error: None,
        next_attempt_at_ns: now,
    }
}

/// The store with one more row at the end of the queue.
pub open spec fn enqueued(s: StoreView, row: QueueRowView) -> StoreView {
    StoreView { write_queue: s.write_queue.push(row), last_queue_id: row.id, ..s }
}

proof fn pushed_ids_in_order(ids: Seq<int>, last: int)
    requires
        ids_in_order(ids, last),
        last < i64::MAX,
    ensures
        ids_in_order(ids.push(last + 1), last + 1),
{
    let after = ids.push(last + 1);
    assert forall|i: int, j: int| 0 <= i < j < after.len() implies #[trigger] after[i]
        < #[trigger] after[j] by {
        assert(1 <= ids[i] <= last);
    }
    assert forall|i: int| 0 <= i < after.len() implies 1 <= #[trigger] after[i] <= last + 1 by {
        if i < ids.len() {
            assert(1 <= ids[i] <= last);
        }
    }
}

/// Queues a write; `Err` once the queue has no id left.
pub fn enqueue_write(
    store: &mut Store,
    method: &str,
    path: &str,
    body: &[u8],
    content_type: Option<&str>,
    now: i64,
) -> (r: Result<i64, StoreFull>)
    requires
        old(store)@.wf(),
    ensures
        final(store)@.wf(),
        r is Ok <==> old(store)@.last_queue_id < i64::MAX,
        r is Err ==> final(store)@ == old(store)@,
        r matches Ok(id) ==> id == old(store)@.last_queue_id + 1 && final(store)@ == enqueued(
            old(store)@,
            new_queue_row(id as int, now as int, method@, path@, body@, opt_str(content_type)),
        ),
{
    if store.last_queue_id == i64::MAX {
        return Err(StoreFull);
    }
    let id: i64 = store.last_queue_id + 1;
    let ghost before = store@;
    let row = QueueRow {
        id,
        enqueued_at_ns: now,
        method: method.to_owned(),
        path: path.to_owned(),
        body: copy_bytes(body),
        content_type: own_opt(content_type),
        attempts: 0,
        last_error: None,
        next_attempt_at_ns: now,
    };
    store.write_queue.push(row);
    store.last_queue_id = id;
    proof {
        assert(store@.write_queue == before.write_queue.push(row@));
        pushed_ids_in_order(queue_ids(before.write_queue), before.last_queue_id);
        assert(queue_ids(store@.write_queue) == queue_ids(before.write_queue).push(id as int));
    }
    Ok(id)
}

/// The first row of a queue whose time has come.
pub open spec fn next_ready(queue: Seq<QueueRowView>, now: int) -> Option<QueueRowView>
    decreases queue.len(),
{
    if queue.len() == 0 {
        None
    } else if queue[0].next_attempt_at_ns <= now {
        Some(queue[0])
    } else {
        next_ready(queue.drop_first(), now)
    }
}

/// The oldest queued write whose time has come. It stays in the queue until it
/// is marked.
pub fn pop_one_ready(store: &Store, now: i64) -> (r: Option<QueuedWrite>)
    ensures
        r is Some <==> next_ready(store@.write_queue, now as int) is Some,
        r matches Some(w) ==> w@ == next_ready(store@.write_queue, now as int)->0.queued(),
{
    let ghost queue = store@.write_queue;
    let mut i: usize = 0;
    assert(queue.skip(0) == queue);
    while i < store.write_queue.len()
        invariant
            i <= store.write_queue.len(),
            queue == store@.write_queue,
            next_ready(queue, now as int) == next_ready(queue.skip(i as int), now as int),
        decreases store.write_queue.len() - i,
    {
        let row = &store.write_queue[i];
        assert(queue.skip(i as int)[0] == row@);
        assert(queue.skip(i as int).drop_first() == queue.skip(i + 1));
        if row.next_attempt_at_ns <= now {
            return Some(
                QueuedWrite {
                    id: row.id,
                    method: row.method.clone(),
                    path: row.path.clone(),
                    body: copy_bytes(row.body.as_slice()),
                    content_type: copy_opt(&row.content_type),
                    attempts: #[verifier::truncate]
                    (row.attempts as u32),
                },
            );
        }
        i = i + 1;
    }
    None
}

fn queue_position(rows: &Vec<QueueRow>, id: i64) -> (r: Option<usize>)
    ensures
        r is Some <==> queue_ids(queue_view(rows@)).contains(id as int),
        r matches Some(i) ==> i < rows.len() && queue_ids(queue_view(rows@))[i as int] == id,
{
    let ghost ids = queue_ids(queue_view(rows@));
    let mut i: usize = 0;
    while i < rows.len()
        invariant
            i <= rows.len(),
            ids == queue_ids(queue_view(rows@)),
            forall|j: int| 0 <= j < i ==> #[trigger] ids[j] != id,
        decreases rows.len() - i,
    {
        assert(ids[i as int] == rows@[i as int].id);
        if rows[i].id == id {
            return Some(i);
        }
        i = i + 1;
    }
    None
}

/// A queue without the row with an id.
pub open spec fn queue_without(queue: Seq<QueueRowView>, id: int) -> Seq<QueueRowView> {
    if queue_ids(queue).contains(id) {
        queue.remove(queue_ids(queue).index_of(id))
    } else {
        queue
    }
}

/// The store without the queued write with an id.
pub open spec fn dequeued(s: StoreView, id: int) -> StoreView {
    StoreView { write_queue: queue_without(s.write_queue, id), ..s }
}

proof fn removed_ids_in_order(ids: Seq<int>, last: int, i: int)
    requires
        ids_in_order(ids, last),
        0 <= i < ids.len(),
    ensures
        ids_in_order(ids.remove(i), last),
{
    let after = ids.remove(i);
    assert forall|x: int, y: int| 0 <= x < y < after.len() implies #[trigger] after[x]
        < #[trigger] after[y] by {
        let bx = if x < i {
            x
        } else {
            x + 1
        };
        let by = if y < i {
            y
        } else {
            y + 1
        };
        assert(ids[bx] < ids[by]);
    }
    assert forall|x: int| 0 <= x < after.len() implies 1 <= #[trigger] after[x] <= last by {
        let bx = if x < i {
            x
        } else {
            x + 1
        };
        assert(1 <= ids[bx] <= last);
    }
}

/// Takes the row with an id out of the queue, where it is there.
fn take_from_queue(store: &mut Store, id: i64) -> (r: Option<QueueRow>)
    requires
        old(store)@.wf(),
    ensures
        final(store)@.wf(),
        final(store)@ == dequeued(old(store)@, id as int),
        r is Some <==> queue_ids(old(store)@.write_queue).contains(id as int),
        r matches Some(row) ==> row@ == old(store)@.write_queue[queue_ids(
            old(store)@.write_queue,
        ).index_of(id as int)],
{
    let ghost before = store@;
    match queue_position(&store.write_queue, id) {
        Some(i) => {
            let row = store.write_queue.remove(i);
            proof {
                let ids = queue_ids(before.write_queue);
                index_of_id(ids, before.last_queue_id, i as int);
                removed_ids_in_order(ids, before.last_queue_id, i as int);
                assert(store@.write_queue == before.write_queue.remove(i as int));
                assert(queue_ids(store@.write_queue) == ids.remove(i as int));
                assert(store@ == dequeued(before, id as int));
            }
            Some(row)
        },
        None => None,
    }
}

/// Ends a queued write that the shadow accepted: it leaves the queue, and its
/// status with it.
pub fn mark_succeeded(store: &mut Store, id: i64, _status: u16)
    requires
        old(store)@.wf(),
    ensures
        final(store)@.wf(),
        final(store)@ == dequeued(old(store)@, id as int),
{
    let _ = take_from_queue(store, id);
}

/// A row after one more failed attempt.
pub open spec fn after_attempt(row: QueueRowView, err: Seq<char>, next: int) -> QueueRowView {
    QueueRowView {
        attempts: row.attempts + 1,
        last_error: Some(err),
        next_attempt_at_ns: next,
        ..row
    }
}

/// The store after a failed attempt at the write with an id.
pub open spec fn rescheduled(s: StoreView, id: int, err: Seq<char>, next: int) -> StoreView {
    let ids = queue_ids(s.write_queue);
    if ids.contains(id) {
        let i = ids.index_of(id);
        StoreView {
            write_queue: s.write_queue.update(i, after_attempt(s.write_queue[i], err, next)),
            ..s
        }
    } else {
        s
    }
}

/// Whether one more attempt at the write with an id can be counted.
pub open spec fn attempts_countable(s: StoreView, id: int) -> bool {
    let ids = queue_ids(s.write_queue);
    ids.contains(id) ==> s.write_queue[ids.index_of(id)].attempts < i64::MAX
}

/// The attempts at the write with an id, once one more has failed.
pub open spec fn attempts_then(s: StoreView, id: int) -> int {
    let ids = queue_ids(s.write_queue);
    if ids.contains(id) {
        s.write_queue[ids.index_of(id)].attempts + 1
    } else {
        0
    }
}

/// Records a failed attempt: counts it, keeps its error, and puts the next
/// attempt off. Returns the attempts so far, or zero for an unknown write.
pub fn mark_failed_attempt(store: &mut Store, id: i64, err: &str, backoff_ms: u64, now: i64) -> (r:
    u32)
    requires
        old(store)@.wf(),
        now + backoff_ms * 1_000_000 <= i64::MAX,
        backoff_ms * 1_000_000 <= i64::MAX,
        attempts_countable(old(store)@, id as int),
    ensures
        final(store)@.wf(),
        final(store)@ == rescheduled(
            old(store)@,
            id as int,
            err@,
            now + backoff_ms * 1_000_000,
        ),
        r == (if queue_ids(old(store)@.write_queue).contains(id as int) {
            (old(store)@.write_queue[queue_ids(old(store)@.write_queue).index_of(id as int)].attempts
                + 1) as u32
        } else {
            0
        }),
        r == attempts_then(old(store)@, id as int) as u32,
{
    let next: i64 = now + (backoff_ms * 1_000_000) as i64;
    let ghost before = store@;
    match queue_position(&store.write_queue, id) {
        Some(i) => {
            proof {
                index_of_id(queue_ids(before.write_queue), before.last_queue_id, i as int);
            }
            let mut row = store.write_queue.remove(i);
            assert(row@ == before.write_queue[i as int]);
            row.attempts = row.attempts + 1;
            row.last_error = Some(err.to_owned());
            row.next_attempt_at_ns = next;
            let attempts: i64 = row.attempts;
            store.write_queue.insert(i, row);
            proof {
                let ids = queue_ids(before.write_queue);
                index_of_id(ids, before.last_queue_id, i as int);
                assert(store@.write_queue == before.write_queue.update(
                    i as int,
                    after_attempt(before.write_queue[i as int], err@, next as int),
                ));
                assert(queue_ids(store@.write_queue) == ids);
                assert(store@ == rescheduled(before, id as int, err@, next as int));
            }
            #[verifier::truncate]
            (attempts as u32)
        },
        None => 0,
    }
}

/// Whether one more attempt at the write with an id can be counted.
pub fn attempts_in_range(store: &Store, id: i64) -> (r: bool)
    requires
        store@.wf(),
    ensures
        r == attempts_countable(store@, id as int),
{
    match queue_position(&store.write_queue, id) {
        Some(i) => {
            proof {
                index_of_id(queue_ids(store@.write_queue), store@.last_queue_id, i as int);
                assert(store@.write_queue[i as int] == store.write_queue@[i as int]@);
            }
            store.write_queue[i].attempts < i64::MAX
        },
        None => true,
    }
}

/// The store after the write with an id was given up.
pub open spec fn given_up(s: StoreView, id: int, now: int) -> StoreView {
    let row = s.write_queue[queue_ids(s.write_queue).index_of(id)];
    StoreView {
        failed_writes: s.failed_writes.push(row.failed(s.last_failed_id + 1, now)),
        last_failed_id: s.last_failed_id + 1,
        ..dequeued(s, id)
    }
}

/// Gives up the write with an id: it leaves the queue and is kept among the
/// failed writes. Returns the failed write's id, or `None` for an unknown
/// write; `Err` once the failed writes have no id left.
pub fn give_up_write(store: &mut Store, id: i64, now: i64) -> (r: Result<Option<i64>, StoreFull>)
    requires
        old(store)@.wf(),
    ensures
        final(store)@.wf(),
        r is Err <==> queue_ids(old(store)@.write_queue).contains(id as int)
            && old(store)@.last_failed_id == i64::MAX,
        r is Err ==> final(store)@ == old(store)@,
        r is Ok ==> (r->Ok_0 is Some <==> queue_ids(old(store)@.write_queue).contains(id as int)),
        r matches Ok(None) ==> final(store)@ == old(store)@,
        r matches Ok(Some(failed_id)) ==> failed_id == old(store)@.last_failed_id + 1
            && final(store)@ == given_up(old(store)@, id as int, now as int),
{
    if store.last_failed_id == i64::MAX {
        return match queue_position(&store.write_queue, id) {
            Some(_) => Err(StoreFull),
            None => Ok(None),
        };
    }
    let ghost before = store@;
    match take_from_queue(store, id) {
        Some(row) => {
            let ghost taken = row@;
            let ghost between = store@;
            let failed_id: i64 = store.last_failed_id + 1;
            let failed = FailedWrite {
                id: failed_id,
                original_queue_id: row.id,
                enqueued_at_ns: row.enqueued_at_ns,
                failed_at_ns: now,
                method: row.method,
                path: row.path,
                body: row.body,
                content_type: row.content_type,
                attempts: row.attempts,
                last_error: row.last_error,
            };
            store.failed_writes.push(failed);
            store.last_failed_id = failed_id;
            proof {
                assert(failed@ == taken.failed(failed_id as int, now as int));
                assert(store@.failed_writes == between.failed_writes.push(failed@));
                pushed_ids_in_order(failed_ids(between.failed_writes), between.last_failed_id);
                assert(failed_ids(store@.failed_writes) == failed_ids(between.failed_writes).push(
                    failed_id as int,
                ));
                assert(store@ == given_up(before, id as int, now as int));
            }
            Ok(Some(failed_id))
        },
        None => Ok(None),
    }
}

/// The store once the write with an id is given up, and the id of the row that
/// was inserted last; no id where the failed writes have none left.
pub open spec fn moved(s: StoreView, id: int, now: int, last_inserted: int) -> (
    StoreView,
    Option<int>,
) {
    if !queue_ids(s.write_queue).contains(id) {
        (s, Some(last_inserted))
    } else if s.last_failed_id == i64::MAX {
        (s, None)
    } else {
        (given_up(s, id, now), Some(s.last_failed_id + 1))
    }
}

/// Gives up the write with an id. Returns the id of the row that was inserted
/// last: the failed write's, or, for an unknown write, that of whatever row the
/// connection inserted last before, which is handed in as `last_inserted`.
/// `Err` once the failed writes have no id left.
pub fn move_to_failed(store: &mut Store, id: i64, now: i64, last_inserted: i64) -> (r: Result<
    i64,
    StoreFull,
>)
    requires
        old(store)@.wf(),
    ensures
        final(store)@.wf(),
        r is Err <==> queue_ids(old(store)@.write_queue).contains(id as int)
            && old(store)@.last_failed_id == i64::MAX,
        r is Err ==> final(store)@ == old(store)@,
        r matches Ok(row_id) ==> if queue_ids(old(store)@.write_queue).contains(id as int) {
            row_id == old(store)@.last_failed_id + 1 && final(store)@ == given_up(
                old(store)@,
                id as int,
                now as int,
            )
        } else {
            row_id == last_inserted && final(store)@ == old(store)@
        },
        final(store)@ == moved(old(store)@, id as int, now as int, last_inserted as int).0,
        r is Err <==> moved(old(store)@, id as int, now as int, last_inserted as int).1 is None,
        r matches Ok(row_id) ==> Some(row_id as int) == moved(
            old(store)@,
            id as int,
            now as int,
            last_inserted as int,
        ).1,
{
    match give_up_write(store, id, now) {
        Ok(Some(failed_id)) => Ok(failed_id),
        Ok(None) => Ok(last_inserted),
        Err(e) => Err(e),
    }
}

/// The number of writes that wait.
pub open spec fn depth(s: StoreView) -> int {
    s.write_queue.len() as int
}

/// The number of writes that were given up.
pub open spec fn losses(s: StoreView) -> int {
    s.failed_writes.len() as int
}

/// The number of writes that wait.
pub fn queue_depth(store: &Store) -> (r: i64)
    requires
        store@.wf(),
    ensures
        r == depth(store@),
        r == store@.write_queue.len(),
{
    proof {
        fewer_rows_than_ids(queue_ids(store@.write_queue), store@.last_queue_id);
    }
    store.write_queue.len() as i64
}

/// The number of writes that were given up.
pub fn failed_count(store: &Store) -> (r: i64)
    requires
        store@.wf(),
    ensures
        r == store@.failed_writes.len(),
        r == losses(store@),
{
    proof {
        fewer_rows_than_ids(failed_ids(store@.failed_writes), store@.last_failed_id);
    }
    store.failed_writes.len() as i64
}

// ---------------------------------------------------------------------------
// Differences

/// A difference as it is recorded: not claimed for notification.
pub open spec fn new_diff(
    id: int,
    now: int,
    method: Seq<char>,
    path: Seq<char>,
    primary_status: Option<u16>,
    shadow_status: Option<u16>,
    primary_body: Option<Seq<char>>,
    shadow_body: Option<Seq<char>>,
    diff_blob: Seq<char>,
    severity: Seq<char>,
    descended_from: Option<i64>,
) -> StoredDiffView {
    StoredDiffView {
        detail: DiffDetailView {
            id,
            observed_at_ns: now,
            method,
            path,
            primary_status: wide_status(primary_status),
            shadow_status: wide_status(shadow_status),
            primary_body,
            shadow_body,
            diff_blob,
            severity,
            descended_from_failed_write_id: descended_from,
        },
        notified_at_ns: None,
    }
}

pub open spec fn wide_status(status: Option<u16>) -> Option<i64> {
    match status {
        Some(s) => Some(s as i64),
        None => None,
    }
}

/// The store with one more difference.
pub open spec fn recorded(s: StoreView, diff: StoredDiffView) -> StoreView {
    StoreView { diffs: s.diffs.push(diff), last_diff_id: diff.detail.id, ..s }
}

fn widen_status(status: Option<u16>) -> (r: Option<i64>)
    ensures
        r == wide_status(status),
{
    match status {
        Some(s) => Some(s as i64),
        None => None,
    }
}

/// Records a difference; `Err` once the differences have no id left.
pub fn record_diff(
    store: &mut Store,
    method: &str,
    path: &str,
    primary_status: Option<u16>,
    shadow_status: Option<u16>,
    primary_body: Option<&str>,
    shadow_body: Option<&str>,
    diff_blob: &str,
    severity: &str,
    descended_from: Option<i64>,
    now: i64,
) -> (r: Result<i64, StoreFull>)
    requires
        old(store)@.wf(),
    ensures
        final(store)@.wf(),
        r is Ok <==> old(store)@.last_diff_id < i64::MAX,
        r is Err ==> final(store)@ == old(store)@,
        r matches Ok(id) ==> id == old(store)@.last_diff_id + 1 && final(store)@ == recorded(
            old(store)@,
            new_diff(
                id as int,
                now as int,
                method@,
                path@,
                primary_status,
                shadow_status,
                opt_str(primary_body),
                opt_str(shadow_body),
                diff_blob@,
                severity@,
                descended_from,
            ),
        ),
{
    if store.last_diff_id == i64::MAX {
        return Err(StoreFull);
    }
    let id: i64 = store.last_diff_id + 1;
    let ghost before = store@;
    let diff = StoredDiff {
        detail: DiffDetail {
            id,
            observed_at_ns: now,
            method: method.to_owned(),
            path: path.to_owned(),
            primary_status: widen_status(primary_status),
            shadow_status: widen_status(shadow_status),
            primary_body: own_opt(primary_body),
            shadow_body: own_opt(shadow_body),
            diff_blob: diff_blob.to_owned(),
            severity: severity.to_owned(),
            descended_from_failed_write_id: descended_from,
        },
        notified_at_ns: None,
    };
    store.diffs.push(diff);
    store.last_diff_id = id;
    proof {
        assert(store@.diffs == before.diffs.push(diff@));
        pushed_ids_in_order(diff_ids(before.diffs), before.last_diff_id);
        assert(diff_ids(store@.diffs) == diff_ids(before.diffs).push(id as int));
    }
    Ok(id)
}

fn diff_position(rows: &Vec<StoredDiff>, id: i64) -> (r: Option<usize>)
    ensures
        r is Some <==> diff_ids(diffs_view(rows@)).contains(id as int),
        r matches Some(i) ==> i < rows.len() && diff_ids(diffs_view(rows@))[i as int] == id,
{
    let ghost ids = diff_ids(diffs_view(rows@));
    let mut i: usize = 0;
    while i < rows.len()
        invariant
            i <= rows.len(),
            ids == diff_ids(diffs_view(rows@)),
            forall|j: int| 0 <= j < i ==> #[trigger] ids[j] != id,
        decreases rows.len() - i,
    {
        assert(ids[i as int] == rows@[i as int].detail.id);
        if rows[i].detail.id == id {
            return Some(i);
        }
        i = i + 1;
    }
    None
}

/// Whether the difference with an id is there and was not claimed yet.
pub open spec fn claimable(s: StoreView, id: int) -> bool {
    diff_ids(s.diffs).contains(id) && s.diffs[diff_ids(s.diffs).index_of(id)].notified_at_ns is None
}

/// The store after the difference with an id was claimed.
pub open spec fn claimed(s: StoreView, id: int, now: i64) -> StoreView {
    if claimable(s, id) {
        let i = diff_ids(s.diffs).index_of(id);
        StoreView {
            diffs: s.diffs.update(
                i,
                StoredDiffView { notified_at_ns: Some(now), ..s.diffs[i] },
            ),
            ..s
        }
    } else {
        s
    }
}

/// Claims a difference for notification. True exactly when it was there and
/// nobody had claimed it before.
pub fn claim_for_notification(store: &mut Store, id: i64, now: i64) -> (r: bool)
    requires
        old(store)@.wf(),
    ensures
        final(store)@.wf(),
        r == claimable(old(store)@, id as int),
        final(store)@ == claimed(old(store)@, id as int, now),
{
    let ghost before = store@;
    match diff_position(&store.diffs, id) {
        Some(i) => {
            proof {
                index_of_id(diff_ids(before.diffs), before.last_diff_id, i as int);
                assert(before.diffs[i as int] == store.diffs@[i as int]@);
            }
            if store.diffs[i].notified_at_ns.is_some() {
                return false;
            }
            let mut diff = store.diffs.remove(i);
            diff.notified_at_ns = Some(now);
            store.diffs.insert(i, diff);
            proof {
                assert(store@.diffs == before.diffs.update(
                    i as int,
                    StoredDiffView { notified_at_ns: Some(now), ..before.diffs[i as int] },
                ));
                assert(diff_ids(store@.diffs) == diff_ids(before.diffs));
                assert(store@ == claimed(before, id as int, now));
            }
            true
        },
        None => false,
    }
}

fn copy_row(d: &DiffDetail) -> (r: DiffRow)
    ensures
        r@ == d@.row(),
{
    DiffRow {
        id: d.id,
        observed_at_ns: d.observed_at_ns,
        method: d.method.clone(),
        path: d.path.clone(),
        primary_status: d.primary_status,
        shadow_status: d.shadow_status,
        diff_blob: d.diff_blob.clone(),
        severity: d.severity.clone(),
        descended_from_failed_write_id: d.descended_from_failed_write_id,
    }
}

fn copy_detail(d: &DiffDetail) -> (r: DiffDetail)
    ensures
        r@ == d@,
{
    DiffDetail {
        id: d.id,
        observed_at_ns: d.observed_at_ns,
        method: d.method.clone(),
        path: d.path.clone(),
        primary_status: d.primary_status,
        shadow_status: d.shadow_status,
        primary_body: copy_opt(&d.primary_body),
        shadow_body: copy_opt(&d.shadow_body),
        diff_blob: d.diff_blob.clone(),
        severity: d.severity.clone(),
        descended_from_failed_write_id: d.descended_from_failed_write_id,
    }
}

/// The difference with an id.
pub fn get_diff(store: &Store, id: i64) -> (r: Option<DiffDetail>)
    requires
        store@.wf(),
    ensures
        r is Some <==> diff_ids(store@.diffs).contains(id as int),
        r matches Some(d) ==> d@ == store@.diffs[diff_ids(store@.diffs).index_of(
            id as int,
        )].detail,
{
    match diff_position(&store.diffs, id) {
        Some(i) => {
            proof {
                index_of_id(diff_ids(store@.diffs), store@.last_diff_id, i as int);
                assert(store@.diffs[i as int] == store.diffs@[i as int]@);
            }
            Some(copy_detail(&store.diffs[i].detail))
        },
        None => None,
    }
}

// ---------------------------------------------------------------------------
// Listing differences

/// Whether a difference passes the filters of a listing.
pub open spec fn listed(
    d: StoredDiffView,
    severity_eq: Option<Seq<char>>,
    since_ns: Option<i64>,
) -> bool {
    &&& severity_eq matches Some(s) ==> d.detail.severity == s
    &&& since_ns matches Some(ns) ==> d.detail.observed_at_ns >= ns
}

/// Where a row with a key goes among rows with falling keys: behind the last
/// one whose key is not smaller.
pub open spec fn place(keys: Seq<int>, key: int) -> int
    decreases keys.len(),
{
    if keys.len() == 0 || keys.last() >= key {
        keys.len() as int
    } else {
        place(keys.drop_last(), key)
    }
}

pub open spec fn times(rows: Seq<DiffRowView>) -> Seq<int> {
    rows.map_values(|r: DiffRowView| r.observed_at_ns)
}

/// The differences that pass the filters, the latest first; of two from the
/// same moment, the one recorded first.
pub open spec fn newest_first(
    diffs: Seq<StoredDiffView>,
    severity_eq: Option<Seq<char>>,
    since_ns: Option<i64>,
) -> Seq<DiffRowView>
    decreases diffs.len(),
{
    if diffs.len() == 0 {
        Seq::empty()
    } else {
        let before = newest_first(diffs.drop_last(), severity_eq, since_ns);
        let d = diffs.last();
        if listed(d, severity_eq, since_ns) {
            before.insert(place(times(before), d.detail.observed_at_ns), d.detail.row())
        } else {
            before
        }
    }
}

/// The first `limit` rows; all of them where `limit` is negative.
pub open spec fn first_rows<T>(rows: Seq<T>, limit: int) -> Seq<T> {
    if limit < 0 || rows.len() <= limit {
        rows
    } else {
        rows.take(limit)
    }
}

pub open spec fn falling(keys: Seq<int>) -> bool {
    forall|i: int, j: int| 0 <= i < j < keys.len() ==> #[trigger] keys[i] >= #[trigger] keys[j]
}

pub proof fn place_facts(keys: Seq<int>, key: int)
    ensures
        0 <= place(keys, key) <= keys.len(),
        forall|i: int| place(keys, key) <= i < keys.len() ==> #[trigger] keys[i] < key,
        place(keys, key) > 0 ==> keys[place(keys, key) - 1] >= key,
    decreases keys.len(),
{
    if keys.len() > 0 && keys.last() < key {
        place_facts(keys.drop_last(), key);
        let p = place(keys, key);
        assert forall|i: int| p <= i < keys.len() implies #[trigger] keys[i] < key by {
            if i < keys.len() - 1 {
                assert(keys.drop_last()[i] < key);
            }
        }
    }
}

proof fn place_is(keys: Seq<int>, key: int, p: int)
    requires
        0 <= p <= keys.len(),
        forall|i: int| p <= i < keys.len() ==> #[trigger] keys[i] < key,
        p > 0 ==> keys[p - 1] >= key,
    ensures
        place(keys, key) == p,
{
    place_facts(keys, key);
    let q = place(keys, key);
    if q < p {
        assert(keys[p - 1] < key);
    } else if p < q {
        assert(keys[q - 1] < key);
    }
}

pub proof fn inserted_keys_fall(keys: Seq<int>, key: int)
    requires
        falling(keys),
    ensures
        falling(keys.insert(place(keys, key), key)),
{
    place_facts(keys, key);
    let p = place(keys, key);
    let after = keys.insert(p, key);
    assert forall|i: int, j: int| 0 <= i < j < after.len() implies #[trigger] after[i]
        >= #[trigger] after[j] by {
        let a = if i < p {
            i
        } else {
            i - 1
        };
        let b = if j < p {
            j
        } else {
            j - 1
        };
        if i == p {
            assert(keys[b] < key);
        } else if j == p {
            if a < p - 1 {
                assert(keys[a] >= keys[p - 1]);
            }
        } else {
            assert(keys[a] >= keys[b]);
        }
    }
}

/// A listing falls in time.
pub proof fn listings_fall_in_time(
    diffs: Seq<StoredDiffView>,
    severity_eq: Option<Seq<char>>,
    since_ns: Option<i64>,
)
    ensures
        falling(times(newest_first(diffs, severity_eq, since_ns))),
    decreases diffs.len(),
{
    if diffs.len() > 0 {
        listings_fall_in_time(diffs.drop_last(), severity_eq, since_ns);
        let before = newest_first(diffs.drop_last(), severity_eq, since_ns);
        let d = diffs.last();
        if listed(d, severity_eq, since_ns) {
            let p = place(times(before), d.detail.observed_at_ns);
            place_facts(times(before), d.detail.observed_at_ns);
            inserted_keys_fall(times(before), d.detail.observed_at_ns);
            assert(times(before.insert(p, d.detail.row())) == times(before).insert(
                p,
                d.detail.observed_at_ns,
            ));
        }
    }
}

proof fn place_in_prefix(keys: Seq<int>, key: int, n: int)
    requires
        falling(keys),
        0 <= n <= keys.len(),
    ensures
        place(keys.take(n), key) == (if place(keys, key) <= n {
            place(keys, key)
        } else {
            n
        }),
{
    place_facts(keys, key);
    let p = place(keys, key);
    if p <= n {
        assert forall|i: int| p <= i < n implies #[trigger] keys.take(n)[i] < key by {
            assert(keys[i] < key);
        }
        place_is(keys.take(n), key, p);
    } else {
        if n > 0 {
            if n - 1 < p - 1 {
                assert(keys[n - 1] >= keys[p - 1]);
            }
        }
        place_is(keys.take(n), key, n);
    }
}

/// Lists the recorded differences that pass the filters, the latest first, and
/// no more than `limit` of them where `limit` is not negative.
pub fn list_diffs_filtered(
    store: &Store,
    limit: i64,
    severity_eq: Option<&str>,
    since_ns: Option<i64>,
) -> (r: Vec<DiffRow>)
    ensures
        r@.map_values(|d: DiffRow| d@) == first_rows(
            newest_first(store@.diffs, opt_str(severity_eq), since_ns),
            limit as int,
        ),
{
    let ghost sev = opt_str(severity_eq);
    let ghost all = store@.diffs;
    let mut out: Vec<DiffRow> = Vec::new();
    let mut i: usize = 0;
    assert(all.take(0) == Seq::<StoredDiffView>::empty());
    assert(out@.map_values(|d: DiffRow| d@) == Seq::<DiffRowView>::empty());
    while i < store.diffs.len()
        invariant
            i <= store.diffs.len(),
            all == store@.diffs,
            sev == opt_str(severity_eq),
            out@.map_values(|d: DiffRow| d@) == first_rows(
                newest_first(all.take(i as int), sev, since_ns),
                limit as int,
            ),
        decreases store.diffs.len() - i,
    {
        let d = &store.diffs[i].detail;
        assert(all[i as int] == store.diffs@[i as int]@);
        assert(all.take(i + 1).drop_last() == all.take(i as int));
        assert(all.take(i + 1).last() == all[i as int]);
        let right_severity: bool = match severity_eq {
            Some(s) => text::same_text(d.severity.as_str(), s),
            None => true,
        };
        let late_enough: bool = match since_ns {
            Some(ns) => d.observed_at_ns >= ns,
            None => true,
        };
        if right_severity && late_enough {
            let ghost full = newest_first(all.take(i as int), sev, since_ns);
            let ghost shown = out@.map_values(|d: DiffRow| d@);
            let ghost key = d@.observed_at_ns;
            let ghost full_place = place(times(full), key);
            let mut p: usize = out.len();
            assert(times(shown).take(p as int) == times(shown));
            while p > 0 && out[p - 1].observed_at_ns < d.observed_at_ns
                invariant
                    p <= out.len(),
                    shown == out@.map_values(|d: DiffRow| d@),
                    key == d@.observed_at_ns,
                    place(times(shown), key) == place(times(shown).take(p as int), key),
                decreases p,
            {
                assert(times(shown).take(p as int).last() == out@[p - 1]@.observed_at_ns);
                assert(times(shown).take(p as int).drop_last() == times(shown).take(p - 1));
                p = p - 1;
            }
            proof {
                if p > 0 {
                    assert(times(shown).take(p as int).last() == out@[p - 1]@.observed_at_ns);
                }
                assert(place(times(shown), key) == p);
                listings_fall_in_time(all.take(i as int), sev, since_ns);
                place_facts(times(full), key);
                assert(times(shown) == times(full).take(shown.len() as int));
                place_in_prefix(times(full), key, shown.len() as int);
            }
            if limit < 0 || (p as u64) < limit as u64 {
                let ghost old_out = out@;
                out.insert(p, copy_row(d));
                assert(out@.map_values(|d: DiffRow| d@) == shown.insert(p as int, d@.row()));
                let ghost longer = full.insert(full_place, d@.row());
                if limit >= 0 && out.len() as u64 > limit as u64 {
                    let ghost inserted = out@;
                    out.truncate(limit as usize);
                    assert(shown == full.take(limit as int));
                    assert(longer.take(limit as int) == shown.insert(p as int, d@.row()).take(
                        limit as int,
                    ));
                    assert(out@.map_values(|d: DiffRow| d@) == inserted.map_values(
                        |d: DiffRow| d@,
                    ).take(limit as int));
                    assert(out@.map_values(|d: DiffRow| d@) == longer.take(limit as int));
                } else {
                    assert(out@.map_values(|d: DiffRow| d@) == first_rows(longer, limit as int));
                }
            } else {
                let ghost longer = full.insert(full_place, d@.row());
                assert(out@.map_values(|d: DiffRow| d@) == first_rows(longer, limit as int));
            }
        }
        i = i + 1;
    }
    assert(all.take(all.len() as int) == all);
    out
}

/// Lists the latest recorded differences.
pub fn list_recent_diffs(store: &Store, limit: i64) -> (r: Vec<DiffRow>)
    ensures
        r@.map_values(|d: DiffRow| d@) == first_rows(
            newest_first(store@.diffs, None, None),
            limit as int,
        ),
{
    list_diffs_filtered(store, limit, None, None)
}

// ---------------------------------------------------------------------------
// Backends

fn copy_backend(b: &BackendStateRow) -> (r: BackendStateRow)
    ensures
        r@ == b@,
{
    BackendStateRow {
        backend: b.backend.clone(),
        last_observed_uptime_seconds: b.last_observed_uptime_seconds,
        last_observed_git_sha: copy_opt(&b.last_observed_git_sha),
        state: b.state.clone(),
    }
}

/// What was last recorded of a backend.
pub open spec fn backend_row(s: StoreView, backend: Seq<char>) -> Option<BackendStateView> {
    if backend_names(s.backend_state).contains(backend) {
        Some(s.backend_state[backend_names(s.backend_state).index_of(backend)].row)
    } else {
        None
    }
}

pub proof fn index_of_name(names: Seq<Seq<char>>, i: int)
    requires
        names.no_duplicates(),
        0 <= i < names.len(),
    ensures
        names.contains(names[i]),
        names.index_of(names[i]) == i,
{
    let j = names.index_of(names[i]);
    assert(0 <= j < names.len() && names[j] == names[i]);
}

/// What was last recorded of a backend.
pub fn get_backend_state(store: &Store, backend: &str) -> (r: Option<BackendStateRow>)
    requires
        store@.wf(),
    ensures
        r is Some <==> backend_row(store@, backend@) is Some,
        r matches Some(row) ==> row@ == backend_row(store@, backend@)->0,
{
    match backend_position(&store.backend_state, backend) {
        Some(i) => {
            proof {
                assert(backend_names(store@.backend_state)[i as int] == backend@);
                index_of_name(backend_names(store@.backend_state), i as int);
                assert(store@.backend_state[i as int] == store.backend_state@[i as int]@);
            }
            Some(copy_backend(&store.backend_state[i].row))
        },
        None => None,
    }
}

/// A backend as it was observed.
pub open spec fn observed_backend(
    backend: Seq<char>,
    uptime: i64,
    git_sha: Seq<char>,
    state: Seq<char>,
    now: int,
) -> StoredBackendView {
    StoredBackendView {
        row: BackendStateView {
            backend,
            last_observed_uptime_seconds: Some(uptime),
            last_observed_git_sha: Some(git_sha),
            state,
        },
        updated_at_ns: now,
    }
}

/// The store after a backend was observed: its row is replaced, or added where
/// there was none.
pub open spec fn observed(s: StoreView, b: StoredBackendView) -> StoreView {
    let names = backend_names(s.backend_state);
    StoreView {
        backend_state: if names.contains(b.row.backend) {
            s.backend_state.update(names.index_of(b.row.backend), b)
        } else {
            s.backend_state.push(b)
        },
        ..s
    }
}

/// Records what was observed of a backend.
pub fn upsert_backend_state(
    store: &mut Store,
    backend: &str,
    uptime: i64,
    git_sha: &str,
    state: &str,
    now: i64,
)
    requires
        old(store)@.wf(),
    ensures
        final(store)@.wf(),
        final(store)@ == observed(
            old(store)@,
            observed_backend(backend@, uptime, git_sha@, state@, now as int),
        ),
{
    let ghost before = store@;
    let ghost names = backend_names(before.backend_state);
    let row = StoredBackend {
        row: BackendStateRow {
            backend: backend.to_owned(),
            last_observed_uptime_seconds: Some(uptime),
            last_observed_git_sha: Some(git_sha.to_owned()),
            state: state.to_owned(),
        },
        updated_at_ns: now,
    };
    assert(row@ == observed_backend(backend@, uptime, git_sha@, state@, now as int));
    match backend_position(&store.backend_state, backend) {
        Some(i) => {
            proof {
                assert(names[i as int] == backend@);
                index_of_name(names, i as int);
            }
            let _ = store.backend_state.remove(i);
            store.backend_state.insert(i, row);
            proof {
                assert(store@.backend_state == before.backend_state.update(i as int, row@));
                assert(backend_names(store@.backend_state) == names);
                assert(store@ == observed(before, row@));
            }
        },
        None => {
            store.backend_state.push(row);
            proof {
                assert(store@.backend_state == before.backend_state.push(row@));
                assert(backend_names(store@.backend_state) == names.push(backend@));
                assert(store@ == observed(before, row@));
            }
        },
    }
}

/// Whether a backend is recorded as degraded.
pub open spec fn degraded(s: StoreView, backend: Seq<char>) -> bool {
    backend_row(s, backend) matches Some(row) && row.state == "degraded"@
}

/// Whether the shadow is recorded as degraded.
pub fn shadow_degraded_now(store: &Store) -> (r: bool)
    requires
        store@.wf(),
    ensures
        r == degraded(store@, "shadow"@),
{
    match get_backend_state(store, "shadow") {
        Some(row) => text::same_text(row.state.as_str(), "degraded"),
        None => false,
    }
}

// ---------------------------------------------------------------------------
// Counting

/// Whether a text passes a filter.
pub open spec fn passes(text: Seq<char>, filter: Option<Seq<char>>) -> bool {
    filter matches Some(f) ==> text == f
}

/// The differences observed since a moment, of a severity and on a path where
/// these are given.
pub open spec fn count_diffs(
    diffs: Seq<StoredDiffView>,
    since: int,
    severity: Option<Seq<char>>,
    path: Option<Seq<char>>,
) -> nat
    decreases diffs.len(),
{
    if diffs.len() == 0 {
        0
    } else {
        let d = diffs.last().detail;
        let before = count_diffs(diffs.drop_last(), since, severity, path);
        if d.observed_at_ns >= since && passes(d.severity, severity) && passes(d.path, path) {
            before + 1
        } else {
            before
        }
    }
}

/// The writes that were queued since a moment and still wait, on a path where
/// it is given.
pub open spec fn count_queued(
    queue: Seq<QueueRowView>,
    since: int,
    path: Option<Seq<char>>,
) -> nat
    decreases queue.len(),
{
    if queue.len() == 0 {
        0
    } else {
        let w = queue.last();
        let before = count_queued(queue.drop_last(), since, path);
        if w.enqueued_at_ns >= since && passes(w.path, path) {
            before + 1
        } else {
            before
        }
    }
}

/// The writes that were queued since a moment and given up, on a path where it
/// is given.
pub open spec fn count_failed(
    failed: Seq<FailedWriteView>,
    since: int,
    path: Option<Seq<char>>,
) -> nat
    decreases failed.len(),
{
    if failed.len() == 0 {
        0
    } else {
        let w = failed.last();
        let before = count_failed(failed.drop_last(), since, path);
        if w.enqueued_at_ns >= since && passes(w.path, path) {
            before + 1
        } else {
            before
        }
    }
}

/// An approximation of the requests since a moment: what left a row behind.
/// Reads that did not diverge and writes that were replayed leave none.
pub open spec fn count_requests(s: StoreView, since: int, path: Option<Seq<char>>) -> nat {
    count_diffs(s.diffs, since, None, path) + count_queued(s.write_queue, since, path)
        + count_failed(s.failed_writes, since, path)
}

impl StoreView {
    /// The rows of the tables together can be counted.
    pub open spec fn countable(self) -> bool {
        self.diffs.len() + self.write_queue.len() + self.failed_writes.len() <= i64::MAX
    }
}

fn text_passes(s: &String, filter: Option<&str>) -> (r: bool)
    ensures
        r == passes(s@, opt_str(filter)),
{
    match filter {
        Some(f) => text::same_text(s.as_str(), f),
        None => true,
    }
}

fn diff_count(
    diffs: &Vec<StoredDiff>,
    since: i64,
    severity: Option<&str>,
    path: Option<&str>,
) -> (r: i64)
    requires
        diffs.len() <= i64::MAX,
    ensures
        r == count_diffs(diffs_view(diffs@), since as int, opt_str(severity), opt_str(path)),
        r <= diffs.len(),
{
    let ghost all = diffs_view(diffs@);
    let mut n: i64 = 0;
    let mut i: usize = 0;
    while i < diffs.len()
        invariant
            i <= diffs.len() <= i64::MAX,
            all == diffs_view(diffs@),
            0 <= n <= i,
            n == count_diffs(all.take(i as int), since as int, opt_str(severity), opt_str(path)),
        decreases diffs.len() - i,
    {
        assert(all.take(i + 1).drop_last() == all.take(i as int));
        assert(all.take(i + 1).last() == diffs@[i as int]@);
        let d = &diffs[i].detail;
        if d.observed_at_ns >= since && text_passes(&d.severity, severity) && text_passes(
            &d.path,
            path,
        ) {
            n = n + 1;
        }
        i = i + 1;
    }
    assert(all.take(all.len() as int) == all);
    n
}

fn queued_count(queue: &Vec<QueueRow>, since: i64, path: Option<&str>) -> (r: i64)
    requires
        queue.len() <= i64::MAX,
    ensures
        r == count_queued(queue_view(queue@), since as int, opt_str(path)),
        r <= queue.len(),
{
    let ghost all = queue_view(queue@);
    let mut n: i64 = 0;
    let mut i: usize = 0;
    while i < queue.len()
        invariant
            i <= queue.len() <= i64::MAX,
            all == queue_view(queue@),
            0 <= n <= i,
            n == count_queued(all.take(i as int), since as int, opt_str(path)),
        decreases queue.len() - i,
    {
        assert(all.take(i + 1).drop_last() == all.take(i as int));
        assert(all.take(i + 1).last() == queue@[i as int]@);
        if queue[i].enqueued_at_ns >= since && text_passes(&queue[i].path, path) {
            n = n + 1;
        }
        i = i + 1;
    }
    assert(all.take(all.len() as int) == all);
    n
}

fn given_up_count(failed: &Vec<FailedWrite>, since: i64, path: Option<&str>) -> (r: i64)
    requires
        failed.len() <= i64::MAX,
    ensures
        r == count_failed(failed_view(failed@), since as int, opt_str(path)),
        r <= failed.len(),
{
    let ghost all = failed_view(failed@);
    let mut n: i64 = 0;
    let mut i: usize = 0;
    while i < failed.len()
        invariant
            i <= failed.len() <= i64::MAX,
            all == failed_view(failed@),
            0 <= n <= i,
            n == count_failed(all.take(i as int), since as int, opt_str(path)),
        decreases failed.len() - i,
    {
        assert(all.take(i + 1).drop_last() == all.take(i as int));
        assert(all.take(i + 1).last() == failed@[i as int]@);
        if failed[i].enqueued_at_ns >= since && text_passes(&failed[i].path, path) {
            n = n + 1;
        }
        i = i + 1;
    }
    assert(all.take(all.len() as int) == all);
    n
}

fn request_count(store: &Store, since: i64, path: Option<&str>) -> (r: i64)
    requires
        store@.countable(),
    ensures
        r == count_requests(store@, since as int, opt_str(path)),
{
    diff_count(&store.diffs, since, None, path) + queued_count(&store.write_queue, since, path)
        + given_up_count(&store.failed_writes, since, path)
}

/// The number of differences observed since a moment, of one severity where it
/// is given.
pub fn diffs_in_window(store: &Store, since_ns: i64, severity: Option<&str>) -> (r: i64)
    requires
        store@.wf(),
    ensures
        r == count_diffs(store@.diffs, since_ns as int, opt_str(severity), None),
{
    proof {
        fewer_rows_than_ids(diff_ids(store@.diffs), store@.last_diff_id);
    }
    diff_count(&store.diffs, since_ns, severity, None)
}

/// An approximation of the requests since a moment: differences, writes that
/// wait and writes that were given up.
pub fn requests_in_window(store: &Store, since_ns: i64) -> (r: i64)
    requires
        store@.countable(),
    ensures
        r == count_requests(store@, since_ns as int, None),
{
    request_count(store, since_ns, None)
}

/// The number of differences ever recorded.
pub fn diffs_total(store: &Store) -> (r: i64)
    requires
        store@.wf(),
    ensures
        r == store@.diffs.len(),
{
    proof {
        fewer_rows_than_ids(diff_ids(store@.diffs), store@.last_diff_id);
    }
    store.diffs.len() as i64
}

/// The number of differences of one severity, with its name.
pub open spec fn severity_count(
    diffs: Seq<StoredDiffView>,
    since: int,
    severity: Seq<char>,
) -> (Seq<char>, int) {
    (severity, count_diffs(diffs, since, Some(severity), None) as int)
}

/// The numbers of differences by severity, the gravest first.
pub open spec fn breakdown(diffs: Seq<StoredDiffView>, since: int) -> Seq<(Seq<char>, int)> {
    seq![
        severity_count(diffs, since, "critical"@),
        severity_count(diffs, since, "high"@),
        severity_count(diffs, since, "medium"@),
        severity_count(diffs, since, "low"@),
        severity_count(diffs, since, "noise"@),
    ]
}

pub open spec fn counts_view(counts: Seq<(String, i64)>) -> Seq<(Seq<char>, int)> {
    counts.map_values(|c: (String, i64)| (c.0@, c.1 as int))
}

/// The numbers of differences observed since a moment, by severity.
pub fn severity_breakdown(store: &Store, since_ns: i64) -> (r: [(String, i64); 5])
    requires
        store@.wf(),
    ensures
        counts_view(r@) == breakdown(store@.diffs, since_ns as int),
{
    let critical: i64 = diffs_in_window(store, since_ns, Some("critical"));
    let high: i64 = diffs_in_window(store, since_ns, Some("high"));
    let medium: i64 = diffs_in_window(store, since_ns, Some("medium"));
    let low: i64 = diffs_in_window(store, since_ns, Some("low"));
    let noise: i64 = diffs_in_window(store, since_ns, Some("noise"));
    let r = [
        ("critical".to_owned(), critical),
        ("high".to_owned(), high),
        ("medium".to_owned(), medium),
        ("low".to_owned(), low),
        ("noise".to_owned(), noise),
    ];
    assert(counts_view(r@) =~= breakdown(store@.diffs, since_ns as int));
    r
}

// ---------------------------------------------------------------------------
// The leaderboard of paths

/// The paths on which differences were observed since a moment, each once, in
/// the order in which they first occur.
pub open spec fn diverging_paths(diffs: Seq<StoredDiffView>, since: int) -> Seq<Seq<char>>
    decreases diffs.len(),
{
    if diffs.len() == 0 {
        Seq::empty()
    } else {
        let d = diffs.last().detail;
        let before = diverging_paths(diffs.drop_last(), since);
        if d.observed_at_ns >= since && !before.contains(d.path) {
            before.push(d.path)
        } else {
            before
        }
    }
}

/// A path with its differences and its requests.
pub open spec fn path_counts(s: StoreView, since: int, path: Seq<char>) -> (Seq<char>, int, int) {
    (
        path,
        count_diffs(s.diffs, since, None, Some(path)) as int,
        count_requests(s, since, Some(path)) as int,
    )
}

pub open spec fn diff_counts(rows: Seq<(Seq<char>, int, int)>) -> Seq<int> {
    rows.map_values(|r: (Seq<char>, int, int)| r.1)
}

/// Paths with their counts, the path with the most differences first; of two
/// with as many, the one that stood first.
pub open spec fn leaderboard(s: StoreView, since: int, paths: Seq<Seq<char>>) -> Seq<
    (Seq<char>, int, int),
>
    decreases paths.len(),
{
    if paths.len() == 0 {
        Seq::empty()
    } else {
        let before = leaderboard(s, since, paths.drop_last());
        let row = path_counts(s, since, paths.last());
        before.insert(place(diff_counts(before), row.1), row)
    }
}

pub open spec fn paths_view(rows: Seq<(String, i64, i64)>) -> Seq<(Seq<char>, int, int)> {
    rows.map_values(|r: (String, i64, i64)| (r.0@, r.1 as int, r.2 as int))
}

pub open spec fn texts(v: Seq<String>) -> Seq<Seq<char>> {
    v.map_values(|s: String| s@)
}

fn holds_text(v: &Vec<String>, s: &String) -> (r: bool)
    ensures
        r == texts(v@).contains(s@),
{
    let ghost all = texts(v@);
    let mut i: usize = 0;
    while i < v.len()
        invariant
            i <= v.len(),
            all == texts(v@),
            forall|j: int| 0 <= j < i ==> #[trigger] all[j] != s@,
        decreases v.len() - i,
    {
        assert(all[i as int] == v@[i as int]@);
        if text::same_text(v[i].as_str(), s.as_str()) {
            return true;
        }
        i = i + 1;
    }
    false
}

fn paths_since(diffs: &Vec<StoredDiff>, since: i64) -> (r: Vec<String>)
    ensures
        texts(r@) == diverging_paths(diffs_view(diffs@), since as int),
{
    let ghost all = diffs_view(diffs@);
    let mut out: Vec<String> = Vec::new();
    let mut i: usize = 0;
    assert(texts(out@) =~= Seq::empty());
    while i < diffs.len()
        invariant
            i <= diffs.len(),
            all == diffs_view(diffs@),
            texts(out@) == diverging_paths(all.take(i as int), since as int),
        decreases diffs.len() - i,
    {
        assert(all.take(i + 1).drop_last() == all.take(i as int));
        assert(all.take(i + 1).last() == diffs@[i as int]@);
        let d = &diffs[i].detail;
        if d.observed_at_ns >= since && !holds_text(&out, &d.path) {
            let ghost before = out@;
            out.push(d.path.clone());
            assert(texts(out@) == texts(before).push(d.path@));
        }
        i = i + 1;
    }
    assert(all.take(all.len() as int) == all);
    out
}

/// The paths with the most differences since a moment, no more than `limit` of
/// them where `limit` is not negative: path, differences, requests.
pub fn top_diverging_paths(store: &Store, since_ns: i64, limit: i64) -> (r: Vec<
    (String, i64, i64),
>)
    requires
        store@.countable(),
    ensures
        paths_view(r@) == first_rows(
            leaderboard(
                store@,
                since_ns as int,
                diverging_paths(store@.diffs, since_ns as int),
            ),
            limit as int,
        ),
{
    let paths = paths_since(&store.diffs, since_ns);
    let ghost all = texts(paths@);
    let mut out: Vec<(String, i64, i64)> = Vec::new();
    let mut i: usize = 0;
    assert(paths_view(out@) =~= Seq::empty());
    while i < paths.len()
        invariant
            i <= paths.len(),
            store@.countable(),
            all == texts(paths@),
            paths_view(out@) == leaderboard(store@, since_ns as int, all.take(i as int)),
        decreases paths.len() - i,
    {
        assert(all.take(i + 1).drop_last() == all.take(i as int));
        assert(all.take(i + 1).last() == paths@[i as int]@);
        let diffs: i64 = diff_count(&store.diffs, since_ns, None, Some(paths[i].as_str()));
        let requests: i64 = request_count(store, since_ns, Some(paths[i].as_str()));
        let ghost before = paths_view(out@);
        let ghost keys = diff_counts(before);
        let mut p: usize = out.len();
        assert(keys.take(p as int) == keys);
        while p > 0 && out[p - 1].1 < diffs
            invariant
                p <= out.len(),
                keys == diff_counts(paths_view(out@)),
                place(keys, diffs as int) == place(keys.take(p as int), diffs as int),
            decreases p,
        {
            assert(keys.take(p as int).last() == out@[p - 1].1);
            assert(keys.take(p as int).drop_last() == keys.take(p - 1));
            p = p - 1;
        }
        proof {
            if p > 0 {
                assert(keys.take(p as int).last() == out@[p - 1].1);
            }
        }
        let row = (paths[i].clone(), diffs, requests);
        out.insert(p, row);
        assert(paths_view(out@) == before.insert(
            p as int,
            path_counts(store@, since_ns as int, all[i as int]),
        ));
        i = i + 1;
    }
    assert(all.take(all.len() as int) == all);
    if limit >= 0 && out.len() as u64 > limit as u64 {
        let ghost full = out@;
        out.truncate(limit as usize);
        assert(paths_view(out@) == paths_view(full).take(limit as int));
    }
    out
}

/// The critical difference that was observed last: its id and its time.
pub open spec fn last_critical(diffs: Seq<StoredDiffView>) -> Option<(int, int)> {
    let rows = newest_first(diffs, Some("critical"@), None);
    if rows.len() == 0 {
        None
    } else {
        Some((rows[0].id, rows[0].observed_at_ns))
    }
}

/// The critical difference that was observed last: its id and its time.
pub fn last_critical_diff(store: &Store) -> (r: Option<(i64, i64)>)
    ensures
        r is Some <==> last_critical(store@.diffs) is Some,
        r matches Some(c) ==> (c.0 as int, c.1 as int) == last_critical(store@.diffs)->0,
{
    let rows = list_diffs_filtered(store, 1, Some("critical"), None);
    let ghost listed = newest_first(store@.diffs, Some("critical"@), None);
    let ghost shown = rows@.map_values(|d: DiffRow| d@);
    assert(shown == first_rows(listed, 1));
    if rows.len() == 0 {
        assert(shown.len() == 0);
        None
    } else {
        assert(shown[0] == rows@[0]@);
        assert(shown[0] == listed[0]);
        Some((rows[0].id, rows[0].observed_at_ns))
    }
}

// ---------------------------------------------------------------------------
// The clock

/// `std::time::SystemTime`, a reading of the machine's clock.
#[verifier::external_type_specification]
#[verifier::external_body]
pub struct ExSystemTime(std::time::SystemTime);

/// `std::time::SystemTimeError`, for a reading that lies before another.
#[verifier::external_type_specification]
#[verifier::external_body]
pub struct ExSystemTimeError(std::time::SystemTimeError);

/// Calls `std::time::SystemTime::now`. The reading depends on the machine's
/// clock: nothing is claimed of it.
#[verifier::external_body]
fn read_clock() -> (r: std::time::SystemTime) {
    std::time::SystemTime::now()
}

/// The nanoseconds that `std::time::SystemTime::duration_since` finds between
/// the Unix epoch and a reading; `None` for a reading before the epoch.
pub uninterp spec fn time_since_epoch(t: std::time::SystemTime) -> Option<u128>;

/// The nanoseconds that `std::time::Duration::as_nanos` finds in a duration.
pub uninterp spec fn duration_nanos(d: std::time::Duration) -> u128;

/// Calls `std::time::SystemTime::duration_since` with the Unix epoch: the
/// distance for a reading at or after the epoch, an error for an earlier one.
#[verifier::external_body]
fn since_epoch(t: std::time::SystemTime) -> (r: Result<
    std::time::Duration,
    std::time::SystemTimeError,
>)
    ensures
        r is Ok <==> time_since_epoch(t) is Some,
        r matches Ok(d) ==> duration_nanos(d) == time_since_epoch(t)->0,
{
    t.duration_since(std::time::UNIX_EPOCH)
}

/// Calls `std::time::Duration::as_nanos`, the whole duration in nanoseconds.
#[verifier::external_body]
fn whole_nanos(d: std::time::Duration) -> (r: u128)
    ensures
        r == duration_nanos(d),
{
    d.as_nanos()
}

/// The time in nanoseconds that a clock reading stands for: cut down to 64
/// bits, and zero for a clock before the Unix epoch.
pub open spec fn clock_value(reading: Option<u128>) -> i64 {
    match reading {
        Some(nanos) => nanos as i64,
        None => 0,
    }
}

/// The time in nanoseconds that a clock reading stands for.
pub fn clock_ns(reading: Option<u128>) -> (r: i64)
    ensures
        r == clock_value(reading),
{
    match reading {
        Some(nanos) => #[verifier::truncate]
        (nanos as i64),
        None => 0,
    }
}

/// The machine's time, in nanoseconds since the Unix epoch. Which time it is
/// depends on the machine's clock.
pub fn now_ns() -> (r: i64)
    ensures
        exists|t: std::time::SystemTime| r == clock_value(#[trigger] time_since_epoch(t)),
{
    let t = read_clock();
    let ghost reading = time_since_epoch(t);
    match since_epoch(t) {
        Ok(d) => clock_ns(Some(whole_nanos(d))),
        Err(_) => clock_ns(None),
    }
}

// ---------------------------------------------------------------------------
// Checking rows that were read

fn ids_ordered(ids: &Vec<i64>, last: i64) -> (r: bool)
    ensures
        r == ids_in_order(ids@.map_values(|i: i64| i as int), last as int),
{
    let ghost all = ids@.map_values(|i: i64| i as int);
    if last < 0 {
        return false;
    }
    let mut i: usize = 0;
    while i < ids.len()
        invariant
            i <= ids.len(),
            0 <= last,
            all == ids@.map_values(|i: i64| i as int),
            forall|j: int| 0 <= j < i ==> 1 <= #[trigger] all[j] <= last,
            forall|j: int, k: int| 0 <= j < k < i ==> #[trigger] all[j] < #[trigger] all[k],
        decreases ids.len() - i,
    {
        assert(all[i as int] == ids@[i as int]);
        if ids[i] < 1 || last < ids[i] {
            return false;
        }
        if i > 0 {
            assert(all[i - 1] == ids@[i - 1]);
            if ids[i - 1] >= ids[i] {
                return false;
            }
        }
        i = i + 1;
    }
    true
}

fn names_distinct(rows: &Vec<StoredBackend>) -> (r: bool)
    ensures
        r == backend_names(backends_view(rows@)).no_duplicates(),
{
    let ghost names = backend_names(backends_view(rows@));
    let mut i: usize = 0;
    while i < rows.len()
        invariant
            i <= rows.len(),
            names == backend_names(backends_view(rows@)),
            forall|j: int, k: int| 0 <= j < i && 0 <= k < i && j != k ==> names[j] != names[k],
        decreases rows.len() - i,
    {
        let mut j: usize = 0;
        while j < i
            invariant
                j <= i < rows.len(),
                names == backend_names(backends_view(rows@)),
                forall|k: int| 0 <= k < j ==> #[trigger] names[k] != names[i as int],
            decreases i - j,
        {
            assert(names[j as int] == rows@[j as int].row.backend@);
            assert(names[i as int] == rows@[i as int].row.backend@);
            if text::same_text(rows[j].row.backend.as_str(), rows[i].row.backend.as_str()) {
                return false;
            }
            j = j + 1;
        }
        i = i + 1;
    }
    true
}

impl Store {
    /// Whether ids stand in order in every table and no backend is listed
    /// twice.
    pub fn is_sound(&self) -> (r: bool)
        ensures
            r == self@.wf(),
    {
        let mut queue: Vec<i64> = Vec::new();
        let mut i: usize = 0;
        while i < self.write_queue.len()
            invariant
                i <= self.write_queue.len(),
                queue.len() == i,
                forall|j: int| 0 <= j < i ==> #[trigger] queue@[j] == self.write_queue@[j].id,
            decreases self.write_queue.len() - i,
        {
            queue.push(self.write_queue[i].id);
            i = i + 1;
        }
        let mut failed: Vec<i64> = Vec::new();
        let mut j: usize = 0;
        while j < self.failed_writes.len()
            invariant
                j <= self.failed_writes.len(),
                failed.len() == j,
                forall|k: int| 0 <= k < j ==> #[trigger] failed@[k] == self.failed_writes@[k].id,
            decreases self.failed_writes.len() - j,
        {
            failed.push(self.failed_writes[j].id);
            j = j + 1;
        }
        let mut diffs: Vec<i64> = Vec::new();
        let mut k: usize = 0;
        while k < self.diffs.len()
            invariant
                k <= self.diffs.len(),
                diffs.len() == k,
                forall|m: int| 0 <= m < k ==> #[trigger] diffs@[m] == self.diffs@[m].detail.id,
            decreases self.diffs.len() - k,
        {
            diffs.push(self.diffs[k].detail.id);
            k = k + 1;
        }
        assert(queue@.map_values(|i: i64| i as int) == queue_ids(self@.write_queue));
        assert(failed@.map_values(|i: i64| i as int) == failed_ids(self@.failed_writes));
        assert(diffs@.map_values(|i: i64| i as int) == diff_ids(self@.diffs));
        ids_ordered(&queue, self.last_queue_id) && ids_ordered(&failed, self.last_failed_id)
            && ids_ordered(&diffs, self.last_diff_id) && names_distinct(&self.backend_state)
    }

    /// Whether the rows of the tables together can be counted.
    pub fn is_countable(&self) -> (r: bool)
        ensures
            r == self@.countable(),
    {
        let rows: u128 = self.diffs.len() as u128 + self.write_queue.len() as u128
            + self.failed_writes.len() as u128;
        rows <= i64::MAX as u128
    }
}

} // verus!
