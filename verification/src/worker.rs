//! What the background work decides: which queued write is replayed against
//! the shadow next and what follows from the answer, what a look at the
//! backends' versions means, and how a backend is brought back in step with
//! its peer.
#[allow(unused_imports)]
use crate::alerting;
use crate::config::Config;
use crate::db;
use crate::db::Store;
#[allow(unused_imports)]
use crate::laws;
#[allow(unused_imports)]
use crate::proxy;
use crate::text;
use vstd::prelude::*;
use vstd::utf8;

verus! {

broadcast use vstd::string::group_string_axioms;

// ---------------------------------------------------------------------------
// Methods and header values

/// Whether a byte may stand in an HTTP method.
pub open spec fn token_byte(b: u8) -> bool {
    (48 <= b <= 57) || (65 <= b <= 90) || (97 <= b <= 122) || b == 33 || (35 <= b <= 39) || b == 42
        || b == 43 || b == 45 || b == 46 || b == 94 || b == 95 || b == 96 || b == 124 || b == 126
}

/// Whether bytes are an HTTP method.
pub open spec fn is_method(bytes: Seq<u8>) -> bool {
    bytes.len() > 0 && forall|i: int| 0 <= i < bytes.len() ==> token_byte(#[trigger] bytes[i])
}

/// Calls `http::Method::from_bytes`: it accepts bytes exactly where there is at
/// least one and each is a letter, a digit or one of ``!#$%&'*+-.^_`|~``.
#[verifier::external_body]
fn method_parses(bytes: &[u8]) -> (r: bool)
    ensures
        r == is_method(bytes@),
{
    http::Method::from_bytes(bytes).is_ok()
}

/// Whether bytes may be the value of a header.
pub open spec fn is_header_value(bytes: Seq<u8>) -> bool {
    forall|i: int|
        0 <= i < bytes.len() ==> (#[trigger] bytes[i] >= 32 && bytes[i] != 127) || bytes[i] == 9
}

/// Calls `http::HeaderValue::from_str`: it accepts a text exactly where no byte
/// of it is a control character other than a tab.
#[verifier::external_body]
fn header_value_parses(s: &str) -> (r: bool)
    ensures
        r == is_header_value(utf8::encode_utf8(s@)),
{
    http::HeaderValue::from_str(s).is_ok()
}

// ---------------------------------------------------------------------------
// Replaying writes

/// How long to wait, in milliseconds, after a number of failed attempts.
pub open spec fn backoff(attempts: int) -> int {
    if attempts <= 1 {
        1_000
    } else if attempts == 2 {
        5_000
    } else if attempts == 3 {
        15_000
    } else if attempts == 4 {
        60_000
    } else {
        180_000
    }
}

/// How long to wait, in milliseconds, after a number of failed attempts.
pub fn backoff_ms(attempts: u32) -> (r: u64)
    ensures
        r == backoff(attempts as int),
{
    if attempts <= 1 {
        1_000
    } else if attempts == 2 {
        5_000
    } else if attempts == 3 {
        15_000
    } else if attempts == 4 {
        60_000
    } else {
        180_000
    }
}

/// The waiting times never shrink.
pub proof fn backoffs_never_shrink(a: int, b: int)
    requires
        a <= b,
    ensures
        1_000 <= backoff(a) <= backoff(b) <= 180_000,
{
}

/// A write on its way to the shadow. A body that is empty is not sent.
#[derive(Clone, Debug)]
pub struct ReplayRequest {
    pub id: i64,
    pub attempts: u32,
    pub method: String,
    pub url: String,
    pub content_type: Option<String>,
    pub body: Option<Vec<u8>>,
}

pub struct ReplayRequestView {
    pub id: int,
    pub attempts: u32,
    pub method: Seq<char>,
    pub url: Seq<char>,
    pub content_type: Option<Seq<char>>,
    pub body: Option<Seq<u8>>,
}

impl View for ReplayRequest {
    type V = ReplayRequestView;

    open spec fn view(&self) -> ReplayRequestView {
        ReplayRequestView {
            id: self.id as int,
            attempts: self.attempts,
            method: self.method@,
            url: self.url@,
            content_type: db::opt_text(self.content_type),
            body: proxy::opt_bytes(self.body),
        }
    }
}

/// What the replay worker does next.
#[derive(Clone, Debug)]
pub enum ReplayStep {
    /// No write is due.
    Idle,
    /// The write that was due has no valid method and was given up.
    Dropped { id: i64 },
    /// Send the write that is due.
    Send(ReplayRequest),
}

pub enum ReplayStepView {
    Idle,
    Dropped { id: int },
    Send(ReplayRequestView),
}

impl View for ReplayStep {
    type V = ReplayStepView;

    open spec fn view(&self) -> ReplayStepView {
        match self {
            ReplayStep::Idle => ReplayStepView::Idle,
            ReplayStep::Dropped { id } => ReplayStepView::Dropped { id: *id as int },
            ReplayStep::Send(req) => ReplayStepView::Send(req@),
        }
    }
}

/// The store once a write is given up: it stays queued only where the failed
/// writes have no id left.
pub open spec fn give_up(s: db::StoreView, id: int, now: int) -> db::StoreView {
    if db::queue_ids(s.write_queue).contains(id) && s.last_failed_id < i64::MAX {
        db::given_up(s, id, now)
    } else {
        s
    }
}

/// A queued write as it is sent to the shadow.
pub open spec fn replay_request(shadow_url: Seq<char>, w: db::QueuedWriteView) -> ReplayRequestView {
    ReplayRequestView {
        id: w.id,
        attempts: w.attempts,
        method: w.method,
        url: shadow_url + w.path,
        content_type: w.content_type,
        body: if w.body.len() == 0 {
            None
        } else {
            Some(w.body)
        },
    }
}

/// What the replay worker does next, and the store then.
pub open spec fn next_step(s: db::StoreView, shadow_url: Seq<char>, now: int) -> (
    db::StoreView,
    ReplayStepView,
) {
    match db::next_ready(s.write_queue, now) {
        None => (s, ReplayStepView::Idle),
        Some(row) => if is_method(utf8::encode_utf8(row.method)) {
            (s, ReplayStepView::Send(replay_request(shadow_url, row.queued())))
        } else {
            (give_up(s, row.id, now), ReplayStepView::Dropped { id: row.id })
        },
    }
}

/// Decides what the replay worker does next. A write whose method is not valid
/// is given up.
pub fn replay_step(store: &mut Store, shadow_url: &str, now: i64) -> (r: ReplayStep)
    requires
        old(store)@.wf(),
    ensures
        final(store)@.wf(),
        (final(store)@, r@) == next_step(old(store)@, shadow_url@, now as int),
{
    match db::pop_one_ready(store, now) {
        None => ReplayStep::Idle,
        Some(w) => {
            if !method_parses(w.method.as_str().as_bytes()) {
                let _ = db::give_up_write(store, w.id, now);
                return ReplayStep::Dropped { id: w.id };
            }
            let mut url = shadow_url.to_owned();
            url.append(w.path.as_str());
            let body: Option<Vec<u8>> = if w.body.len() == 0 {
                None
            } else {
                Some(w.body)
            };
            ReplayStep::Send(
                ReplayRequest {
                    id: w.id,
                    attempts: w.attempts,
                    method: w.method,
                    url,
                    content_type: w.content_type,
                    body,
                },
            )
        },
    }
}

/// What came of sending a write to the shadow.
#[derive(Clone, Debug)]
pub enum SendOutcome {
    /// The shadow answered with a status.
    Status(u16),
    /// It could not be reached.
    Transport(String),
}

pub enum SendOutcomeView {
    Status(u16),
    Transport(Seq<char>),
}

impl View for SendOutcome {
    type V = SendOutcomeView;

    open spec fn view(&self) -> SendOutcomeView {
        match self {
            SendOutcome::Status(s) => SendOutcomeView::Status(*s),
            SendOutcome::Transport(e) => SendOutcomeView::Transport(e@),
        }
    }
}

/// What follows from an attempt.
#[derive(Clone, Copy, Debug, PartialEq, Eq, Structural)]
pub enum AfterReplay {
    /// The write reached the shadow and left the queue.
    Done,
    /// It is tried again after a while.
    Retry { attempts: u32, backoff_ms: u64 },
    /// It was given up and the shadow is degraded; the shadow is to be brought
    /// back in step.
    GivenUp,
}

/// The error that is kept of a failed attempt; none for an attempt that
/// reached the shadow.
pub open spec fn attempt_error(o: SendOutcomeView) -> Option<Seq<char>> {
    match o {
        SendOutcomeView::Status(s) => if 200 <= s < 300 {
            None
        } else {
            Some("HTTP "@ + text::decimal(s as nat))
        },
        SendOutcomeView::Transport(e) => Some("transport: "@ + e),
    }
}

fn error_of(o: &SendOutcome) -> (r: Option<String>)
    ensures
        db::opt_text(r) == attempt_error(o@),
{
    match o {
        SendOutcome::Status(s) => {
            if 200 <= *s && *s < 300 {
                return None;
            }
            let mut e = "HTTP ".to_owned();
            text::push_u64(&mut e, *s as u64);
            Some(e)
        },
        SendOutcome::Transport(t) => {
            let mut e = "transport: ".to_owned();
            e.append(t.as_str());
            Some(e)
        },
    }
}

/// The shadow as it is recorded once a write was given up.
pub open spec fn degraded_shadow(now: int) -> db::StoredBackendView {
    db::observed_backend("shadow"@, -1i64, ""@, "degraded"@, now)
}

/// What follows from a failed attempt, and the store then: the last attempt
/// gives the write up and degrades the shadow, an earlier one puts the write
/// off.
pub open spec fn after_failure(
    s: db::StoreView,
    max_attempts: u32,
    id: int,
    attempts_so_far: u32,
    err: Seq<char>,
    now: int,
) -> (db::StoreView, AfterReplay) {
    let attempts = attempts_so_far + 1;
    if attempts >= max_attempts {
        (db::observed(give_up(s, id, now), degraded_shadow(now)), AfterReplay::GivenUp)
    } else {
        (
            db::rescheduled(s, id, err, now + backoff(attempts) * 1_000_000),
            AfterReplay::Retry { attempts: attempts as u32, backoff_ms: backoff(attempts) as u64 },
        )
    }
}

/// Whether a failed attempt can be counted and the next one timed, where there
/// is a next one.
pub open spec fn retry_fits(
    s: db::StoreView,
    max_attempts: u32,
    id: int,
    attempts_so_far: u32,
    now: int,
) -> bool {
    &&& attempts_so_far < u32::MAX
    &&& attempts_so_far + 1 < max_attempts ==> now + backoff(attempts_so_far + 1) * 1_000_000
        <= i64::MAX && db::attempts_countable(s, id)
}

/// Acts on a failed attempt at a queued write.
pub fn handle_attempt_failure(
    store: &mut Store,
    max_attempts: u32,
    id: i64,
    attempts_so_far: u32,
    err: &str,
    now: i64,
) -> (r: AfterReplay)
    requires
        old(store)@.wf(),
        retry_fits(old(store)@, max_attempts, id as int, attempts_so_far, now as int),
    ensures
        final(store)@.wf(),
        (final(store)@, r) == after_failure(
            old(store)@,
            max_attempts,
            id as int,
            attempts_so_far,
            err@,
            now as int,
        ),
{
    let attempts: u32 = attempts_so_far + 1;
    if attempts >= max_attempts {
        let _ = db::give_up_write(store, id, now);
        db::upsert_backend_state(store, "shadow", -1, "", "degraded", now);
        return AfterReplay::GivenUp;
    }
    let wait: u64 = backoff_ms(attempts);
    let _ = db::mark_failed_attempt(store, id, err, wait, now);
    AfterReplay::Retry { attempts, backoff_ms: wait }
}

/// What follows from an attempt, and the store then.
pub open spec fn after_attempt(
    s: db::StoreView,
    max_attempts: u32,
    id: int,
    attempts_so_far: u32,
    o: SendOutcomeView,
    now: int,
) -> (db::StoreView, AfterReplay) {
    match attempt_error(o) {
        None => (db::dequeued(s, id), AfterReplay::Done),
        Some(err) => after_failure(s, max_attempts, id, attempts_so_far, err, now),
    }
}

/// Acts on an attempt at a queued write.
pub fn finish_replay(
    store: &mut Store,
    max_attempts: u32,
    id: i64,
    attempts_so_far: u32,
    outcome: &SendOutcome,
    now: i64,
) -> (r: AfterReplay)
    requires
        old(store)@.wf(),
        attempt_error(outcome@) is Some ==> retry_fits(
            old(store)@,
            max_attempts,
            id as int,
            attempts_so_far,
            now as int,
        ),
    ensures
        final(store)@.wf(),
        (final(store)@, r) == after_attempt(
            old(store)@,
            max_attempts,
            id as int,
            attempts_so_far,
            outcome@,
            now as int,
        ),
{
    match error_of(outcome) {
        None => {
            let status: u16 = match outcome {
                SendOutcome::Status(s) => *s,
                SendOutcome::Transport(_) => 0,
            };
            db::mark_succeeded(store, id, status);
            AfterReplay::Done
        },
        Some(err) => handle_attempt_failure(
            store,
            max_attempts,
            id,
            attempts_so_far,
            err.as_str(),
            now,
        ),
    }
}

/// Whether `finish_replay` can act on an attempt that failed.
pub fn retry_in_range(
    store: &Store,
    max_attempts: u32,
    id: i64,
    attempts_so_far: u32,
    now: i64,
) -> (r: bool)
    requires
        store@.wf(),
    ensures
        r == retry_fits(store@, max_attempts, id as int, attempts_so_far, now as int),
{
    if attempts_so_far == u32::MAX {
        return false;
    }
    if attempts_so_far + 1 >= max_attempts {
        return true;
    }
    let next: i128 = now as i128 + backoff_ms(attempts_so_far + 1) as i128 * 1_000_000;
    next <= i64::MAX as i128 && db::attempts_in_range(store, id)
}

// ---------------------------------------------------------------------------
// Watching the backends

/// What a backend says of itself.
#[derive(Clone, Debug)]
pub struct VersionSeen {
    pub git_sha: String,
    pub process_uptime_seconds: i64,
}

/// Whether a backend was restarted: its uptime is less than it was.
pub open spec fn regressed(s: db::StoreView, backend: Seq<char>, uptime: i64) -> bool {
    db::backend_row(s, backend) matches Some(row) && row.last_observed_uptime_seconds matches Some(
        before,
    ) && uptime < before
}

/// The state that is recorded for a backend that answers. The shadow stays
/// degraded until it is brought back in step.
pub open spec fn state_when_seen(s: db::StoreView, backend: Seq<char>) -> Seq<char> {
    if backend == "shadow"@ && db::degraded(s, backend) {
        "degraded"@
    } else {
        "live"@
    }
}

/// The store after a backend was seen.
pub open spec fn seen(
    s: db::StoreView,
    backend: Seq<char>,
    uptime: i64,
    git_sha: Seq<char>,
    now: int,
) -> db::StoreView {
    db::observed(
        s,
        db::observed_backend(backend, uptime, git_sha, state_when_seen(s, backend), now),
    )
}

/// Records that a backend was seen. True where it was restarted.
pub fn observe_backend(store: &mut Store, backend: &str, version: &VersionSeen, now: i64) -> (r:
    bool)
    requires
        old(store)@.wf(),
    ensures
        final(store)@.wf(),
        final(store)@ == seen(
            old(store)@,
            backend@,
            version.process_uptime_seconds,
            version.git_sha@,
            now as int,
        ),
        r == regressed(old(store)@, backend@, version.process_uptime_seconds),
{
    let prior = db::get_backend_state(store, backend);
    let restarted: bool = match &prior {
        Some(row) => match row.last_observed_uptime_seconds {
            Some(before) => version.process_uptime_seconds < before,
            None => false,
        },
        None => false,
    };
    let was_degraded: bool = match &prior {
        Some(row) => text::same_text(row.state.as_str(), "degraded"),
        None => false,
    };
    let state: &str = if was_degraded && text::same_text(backend, "shadow") {
        "degraded"
    } else {
        "live"
    };
    db::upsert_backend_state(
        store,
        backend,
        version.process_uptime_seconds,
        version.git_sha.as_str(),
        state,
        now,
    );
    restarted
}

/// Which backends are to be brought back in step with their peer.
#[derive(Clone, Copy, Debug, PartialEq, Eq, Structural)]
pub struct Resyncs {
    pub primary: bool,
    pub shadow: bool,
}

/// The store after a backend was looked at, and whether it was restarted. A
/// backend that does not answer changes nothing.
pub open spec fn looked_at(
    s: db::StoreView,
    backend: Seq<char>,
    version: Option<VersionSeen>,
    now: int,
) -> (db::StoreView, bool) {
    match version {
        Some(v) => (
            seen(s, backend, v.process_uptime_seconds, v.git_sha@, now),
            regressed(s, backend, v.process_uptime_seconds),
        ),
        None => (s, false),
    }
}

/// The store after both backends were looked at, and which of them is to be
/// brought back in step.
pub open spec fn polled(
    s: db::StoreView,
    primary: Option<VersionSeen>,
    shadow: Option<VersionSeen>,
    now: int,
) -> (db::StoreView, Resyncs) {
    let first = looked_at(s, "primary"@, primary, now);
    let second = looked_at(first.0, "shadow"@, shadow, now);
    (second.0, Resyncs { primary: first.1, shadow: second.1 })
}

/// Acts on a look at both backends, the primary first.
pub fn poll_once(
    store: &mut Store,
    primary: &Option<VersionSeen>,
    shadow: &Option<VersionSeen>,
    now: i64,
) -> (r: Resyncs)
    requires
        old(store)@.wf(),
    ensures
        final(store)@.wf(),
        ({
            let first = looked_at(old(store)@, "primary"@, *primary, now as int);
            let second = looked_at(first.0, "shadow"@, *shadow, now as int);
            &&& final(store)@ == second.0
            &&& r == (Resyncs { primary: first.1, shadow: second.1 })
        }),
        (final(store)@, r) == polled(old(store)@, *primary, *shadow, now as int),
{
    let first: bool = match primary {
        Some(v) => observe_backend(store, "primary", v, now),
        None => false,
    };
    let second: bool = match shadow {
        Some(v) => observe_backend(store, "shadow", v, now),
        None => false,
    };
    Resyncs { primary: first, shadow: second }
}

/// The seconds between two looks: at least one.
pub open spec fn poll_secs(configured: int) -> int {
    if configured < 1 {
        1
    } else {
        configured
    }
}

/// The seconds between two looks: at least one.
pub fn poll_interval_secs(configured: u64) -> (r: u64)
    ensures
        r == poll_secs(configured as int),
        r == (if configured < 1 {
            1
        } else {
            configured
        }),
{
    if configured < 1 {
        1
    } else {
        configured
    }
}

/// Where a backend says what it is.
pub open spec fn version_at(base: Seq<char>) -> Seq<char> {
    base + "/version"@
}

/// Where a backend says what it is.
pub fn version_url(base: &str) -> (r: String)
    ensures
        r@ == version_at(base@),
        r@ == base@ + "/version"@,
{
    let mut url = base.to_owned();
    url.append("/version");
    url
}

// ---------------------------------------------------------------------------
// Bringing a backend back in step

/// A backend's URL and its admin token.
pub open spec fn endpoint(c: Config, which: Seq<char>) -> (Seq<char>, Option<Seq<char>>) {
    if which == "primary"@ {
        (c.backend_primary_url@, db::opt_text(c.primary_admin_token))
    } else {
        (c.backend_shadow_url@, db::opt_text(c.shadow_admin_token))
    }
}

/// A backend's URL and its admin token.
pub fn backend_endpoint(c: &Config, which: &str) -> (r: (String, Option<String>))
    ensures
        (r.0@, db::opt_text(r.1)) == endpoint(*c, which@),
{
    if text::same_text(which, "primary") {
        (c.backend_primary_url.clone(), db::copy_opt(&c.primary_admin_token))
    } else {
        (c.backend_shadow_url.clone(), db::copy_opt(&c.shadow_admin_token))
    }
}

/// A POST request to a backend's admin endpoint.
#[derive(Clone, Debug)]
pub struct AdminPost {
    pub url: String,
    pub headers: Vec<(String, String)>,
    pub body: Option<Vec<u8>>,
}

pub struct AdminPostView {
    pub url: Seq<char>,
    pub headers: Seq<(Seq<char>, Seq<char>)>,
    pub body: Option<Seq<u8>>,
}

impl View for AdminPost {
    type V = AdminPostView;

    open spec fn view(&self) -> AdminPostView {
        AdminPostView {
            url: self.url@,
            headers: alerting::header_pairs(self.headers@),
            body: proxy::opt_bytes(self.body),
        }
    }
}

/// The header that carries an admin token, where there is one; an error where
/// the token cannot stand in a header.
pub open spec fn token_headers(token: Option<Seq<char>>) -> Result<
    Seq<(Seq<char>, Seq<char>)>,
    Seq<char>,
> {
    match token {
        Some(t) => if is_header_value(utf8::encode_utf8(t)) {
            Ok(seq![("x-admin-token"@, t)])
        } else {
            Err("failed to parse header value"@)
        },
        None => Ok(Seq::empty()),
    }
}

fn write_token_headers(token: &Option<String>) -> (r: Result<Vec<(String, String)>, String>)
    ensures
        r is Ok <==> token_headers(db::opt_text(*token)) is Ok,
        r matches Ok(h) ==> alerting::header_pairs(h@) == token_headers(db::opt_text(*token))->Ok_0,
        r matches Err(e) ==> e@ == token_headers(db::opt_text(*token))->Err_0,
{
    let mut headers: Vec<(String, String)> = Vec::new();
    match token {
        Some(t) => {
            if !header_value_parses(t.as_str()) {
                return Err("failed to parse header value".to_owned());
            }
            headers.push(("x-admin-token".to_owned(), t.clone()));
            assert(alerting::header_pairs(headers@) =~= seq![("x-admin-token"@, t@)]);
        },
        None => {
            assert(alerting::header_pairs(headers@) =~= Seq::empty());
        },
    }
    Ok(headers)
}

/// The request for a snapshot of a backend.
pub open spec fn snapshot_request(c: Config, from: Seq<char>) -> Result<AdminPostView, Seq<char>> {
    let (url, token) = endpoint(c, from);
    match token_headers(token) {
        Ok(headers) => Ok(AdminPostView { url: url + "/_admin/snapshot"@, headers, body: None }),
        Err(e) => Err(e),
    }
}

/// Begins to bring a backend back in step: asks its peer for a snapshot.
pub fn begin_resync(c: &Config, from: &str) -> (r: Result<AdminPost, String>)
    ensures
        r is Ok <==> snapshot_request(*c, from@) is Ok,
        r matches Ok(p) ==> p@ == snapshot_request(*c, from@)->Ok_0,
        r matches Err(e) ==> e@ == snapshot_request(*c, from@)->Err_0,
{
    let (base, token) = backend_endpoint(c, from);
    let mut url = base;
    url.append("/_admin/snapshot");
    match write_token_headers(&token) {
        Ok(headers) => Ok(AdminPost { url, headers, body: None }),
        Err(e) => Err(e),
    }
}

/// The request that loads a snapshot into a backend.
pub open spec fn load_request(c: Config, to: Seq<char>, snapshot: Seq<u8>) -> Result<
    AdminPostView,
    Seq<char>,
> {
    let (url, token) = endpoint(c, to);
    match token_headers(token) {
        Ok(headers) => Ok(
            AdminPostView {
                url: url + "/_admin/load-snapshot"@,
                headers: headers.push(("content-type"@, "application/json"@)),
                body: Some(snapshot),
            },
        ),
        Err(e) => Err(e),
    }
}

/// What follows from the answer to the request for a snapshot: the snapshot is
/// loaded as it is, or the answer was an error.
pub open spec fn after_snapshot(
    c: Config,
    from: Seq<char>,
    to: Seq<char>,
    status: u16,
    status_text: Seq<char>,
    snapshot: Seq<u8>,
) -> Result<AdminPostView, Seq<char>> {
    if 200 <= status < 300 {
        load_request(c, to, snapshot)
    } else {
        Err("snapshot "@ + endpoint(c, from).0 + "/_admin/snapshot"@ + " -> "@ + status_text)
    }
}

/// Goes on with bringing a backend back in step: loads the snapshot that its
/// peer gave.
pub fn continue_resync(
    c: &Config,
    from: &str,
    to: &str,
    status: u16,
    status_text: &str,
    snapshot: Vec<u8>,
) -> (r: Result<AdminPost, String>)
    ensures
        r is Ok <==> after_snapshot(*c, from@, to@, status, status_text@, snapshot@) is Ok,
        r matches Ok(p) ==> p@ == after_snapshot(
            *c,
            from@,
            to@,
            status,
            status_text@,
            snapshot@,
        )->Ok_0,
        r matches Err(e) ==> e@ == after_snapshot(
            *c,
            from@,
            to@,
            status,
            status_text@,
            snapshot@,
        )->Err_0,
{
    if !(200 <= status && status < 300) {
        let (base, _token) = backend_endpoint(c, from);
        let mut e = "snapshot ".to_owned();
        e.append(base.as_str());
        e.append("/_admin/snapshot");
        e.append(" -> ");
        e.append(status_text);
        return Err(e);
    }
    let (base, token) = backend_endpoint(c, to);
    let mut url = base;
    url.append("/_admin/load-snapshot");
    match write_token_headers(&token) {
        Ok(named) => {
            let mut headers = named;
            let ghost before = headers@;
            headers.push(("content-type".to_owned(), "application/json".to_owned()));
            assert(alerting::header_pairs(headers@) =~= alerting::header_pairs(before).push(
                ("content-type"@, "application/json"@),
            ));
            Ok(AdminPost { url, headers, body: Some(snapshot) })
        },
        Err(e) => Err(e),
    }
}

/// The message for a backend that refused a snapshot.
pub open spec fn load_refused(
    c: Config,
    to: Seq<char>,
    status_text: Seq<char>,
    body: Seq<char>,
) -> Seq<char> {
    "load-snapshot "@ + endpoint(c, to).0 + "/_admin/load-snapshot"@ + " -> "@ + status_text
        + " "@ + body
}

/// The store once a backend is back in step: it is live.
pub open spec fn back_in_step(s: db::StoreView, to: Seq<char>, now: int) -> db::StoreView {
    db::observed(s, db::observed_backend(to, 0i64, ""@, "live"@, now))
}

/// What follows from the answer to the request that loads a snapshot, and the
/// store then.
pub open spec fn after_load(
    s: db::StoreView,
    c: Config,
    to: Seq<char>,
    status: u16,
    status_text: Seq<char>,
    body: Seq<char>,
    now: int,
) -> (db::StoreView, Result<(), Seq<char>>) {
    if 200 <= status < 300 {
        (back_in_step(s, to, now), Ok(()))
    } else {
        (s, Err(load_refused(c, to, status_text, body)))
    }
}

pub open spec fn result_view(r: Result<(), String>) -> Result<(), Seq<char>> {
    match r {
        Ok(_) => Ok(()),
        Err(e) => Err(e@),
    }
}

/// Ends bringing a backend back in step: where it took the snapshot it is live
/// again, else nothing changes.
pub fn finish_resync(
    store: &mut Store,
    c: &Config,
    to: &str,
    status: u16,
    status_text: &str,
    body: &str,
    now: i64,
) -> (r: Result<(), String>)
    requires
        old(store)@.wf(),
    ensures
        final(store)@.wf(),
        r is Ok <==> 200 <= status < 300,
        r is Ok ==> final(store)@ == back_in_step(old(store)@, to@, now as int),
        r is Err ==> final(store)@ == old(store)@,
        r matches Err(e) ==> e@ == load_refused(*c, to@, status_text@, body@),
        (final(store)@, result_view(r)) == after_load(
            old(store)@,
            *c,
            to@,
            status,
            status_text@,
            body@,
            now as int,
        ),
{
    if 200 <= status && status < 300 {
        db::upsert_backend_state(store, to, 0, "", "live", now);
        return Ok(());
    }
    let (base, _token) = backend_endpoint(c, to);
    let mut e = "load-snapshot ".to_owned();
    e.append(base.as_str());
    e.append("/_admin/load-snapshot");
    e.append(" -> ");
    e.append(status_text);
    e.append(" ");
    e.append(body);
    Err(e)
}

// ---------------------------------------------------------------------------
// What the workers promise

/// A write that reached the shadow leaves the queue and every other write
/// stays.
pub proof fn replayed_write_leaves_alone(
    s: db::StoreView,
    max_attempts: u32,
    i: int,
    attempts: u32,
    status: u16,
    now: int,
)
    requires
        s.wf(),
        0 <= i < s.write_queue.len(),
        200 <= status < 300,
    ensures
        after_attempt(
            s,
            max_attempts,
            s.write_queue[i].id,
            attempts,
            SendOutcomeView::Status(status),
            now,
        ) == ((db::StoreView { write_queue: s.write_queue.remove(i), ..s }), AfterReplay::Done),
{
    let ids = db::queue_ids(s.write_queue);
    assert(ids[i] == s.write_queue[i].id);
    db::index_of_id(ids, s.last_queue_id, i);
}

/// A write is tried at most as often as configured: after a failed attempt it
/// has left the queue, or it has attempts left.
pub proof fn attempts_are_bounded(
    s: db::StoreView,
    max_attempts: u32,
    i: int,
    err: Seq<char>,
    now: int,
)
    requires
        s.wf(),
        0 <= i < s.write_queue.len(),
        0 <= s.write_queue[i].attempts < u32::MAX,
        s.last_failed_id < i64::MAX,
    ensures
        ({
            let row = s.write_queue[i];
            let (after, next) = after_failure(
                s,
                max_attempts,
                row.id,
                row.attempts as u32,
                err,
                now,
            );
            &&& row.attempts + 1 >= max_attempts ==> next == AfterReplay::GivenUp
                && after.write_queue == s.write_queue.remove(i)
                && after.failed_writes.last().original_queue_id == row.id
            &&& row.attempts + 1 < max_attempts ==> after.write_queue.len() == s.write_queue.len()
                && after.write_queue[i].id == row.id && after.write_queue[i].attempts
                == row.attempts + 1 && after.write_queue[i].attempts < max_attempts
        }),
{
    let ids = db::queue_ids(s.write_queue);
    assert(ids[i] == s.write_queue[i].id);
    db::index_of_id(ids, s.last_queue_id, i);
}

/// Giving a write up degrades the shadow.
pub proof fn exhausted_attempts_degrade_the_shadow(
    s: db::StoreView,
    max_attempts: u32,
    id: int,
    attempts: u32,
    err: Seq<char>,
    now: int,
)
    requires
        s.wf(),
        attempts + 1 >= max_attempts,
    ensures
        db::degraded(after_failure(s, max_attempts, id, attempts, err, now).0, "shadow"@),
{
    let kept = give_up(s, id, now);
    laws::observed_backend_reads_back(kept, degraded_shadow(now));
}

/// However often the backends are looked at, a degraded shadow stays degraded.
pub proof fn looking_keeps_the_shadow_degraded(
    s: db::StoreView,
    primary: Option<VersionSeen>,
    shadow: Option<VersionSeen>,
    now: int,
)
    requires
        s.wf(),
        db::degraded(s, "shadow"@),
    ensures
        ({
            let first = looked_at(s, "primary"@, primary, now).0;
            db::degraded(looked_at(first, "shadow"@, shadow, now).0, "shadow"@)
        }),
{
    let first = looked_at(s, "primary"@, primary, now).0;
    names_of_backends_differ();
    if primary is Some {
        let b = db::observed_backend(
            "primary"@,
            primary->0.process_uptime_seconds,
            primary->0.git_sha@,
            state_when_seen(s, "primary"@),
            now,
        );
        laws::other_backends_are_kept(s, b, "shadow"@);
    }
    if shadow is Some {
        laws::observed_backend_reads_back(
            first,
            db::observed_backend(
                "shadow"@,
                shadow->0.process_uptime_seconds,
                shadow->0.git_sha@,
                "degraded"@,
                now,
            ),
        );
    }
}

proof fn names_of_backends_differ()
    ensures
        "primary"@ != "shadow"@,
{
    reveal_strlit("primary");
    reveal_strlit("shadow");
    assert("primary"@.len() == 7 && "shadow"@.len() == 6);
}

/// A backend that took its peer's snapshot is not degraded any more.
pub proof fn resync_ends_degradation(s: db::StoreView, to: Seq<char>, now: int)
    requires
        s.wf(),
    ensures
        !db::degraded(back_in_step(s, to, now), to),
{
    laws::observed_backend_reads_back(s, db::observed_backend(to, 0i64, ""@, "live"@, now));
    reveal_strlit("live");
    reveal_strlit("degraded");
    assert("live"@.len() == 4 && "degraded"@.len() == 8);
}

/// The snapshot is loaded as it was given: the request that loads it carries
/// the same bytes.
pub proof fn snapshots_are_forwarded_verbatim(
    c: Config,
    from: Seq<char>,
    to: Seq<char>,
    status: u16,
    status_text: Seq<char>,
    snapshot: Seq<u8>,
)
    ensures
        after_snapshot(c, from, to, status, status_text, snapshot) matches Ok(p) ==> p.body
            == Some(snapshot) && 200 <= status < 300,
{
}

/// How long a write waits: a second after the first failed attempt, then five,
/// fifteen, sixty, and three minutes after every later one.
pub proof fn waiting_times_are_given(attempts: int)
    requires
        attempts >= 1,
    ensures
        backoff(attempts) == (if attempts <= 4 {
            seq![1_000int, 5_000, 15_000, 60_000][attempts - 1]
        } else {
            180_000
        }),
{
}

/// A write leaves the queue as done exactly where the shadow answered with a
/// success; any other answer, and none at all, has it tried again or given up.
pub proof fn only_successes_are_done(
    s: db::StoreView,
    max_attempts: u32,
    id: int,
    attempts: u32,
    o: SendOutcomeView,
    now: int,
)
    requires
        attempts < u32::MAX,
    ensures
        ({
            let next = after_attempt(s, max_attempts, id, attempts, o, now).1;
            let success = o matches SendOutcomeView::Status(status) && 200 <= status <= 299;
            &&& next is Done <==> success
            &&& next is GivenUp <==> !success && attempts + 1 >= max_attempts
            &&& next is Retry <==> !success && attempts + 1 < max_attempts
            &&& next matches AfterReplay::Retry { attempts: n, backoff_ms } ==> n == attempts + 1
                && backoff_ms == backoff(attempts + 1)
        }),
{
}

/// A write that is to be tried again stays queued: one more attempt is counted,
/// what went wrong is kept, it is due once the waiting time has passed, and every
/// other write stays as it was.
pub proof fn retried_writes_wait_their_turn(
    s: db::StoreView,
    max_attempts: u32,
    i: int,
    k: int,
    attempts: u32,
    o: SendOutcomeView,
    now: int,
)
    requires
        s.wf(),
        0 <= i < s.write_queue.len(),
        attempts < u32::MAX,
        attempts + 1 < max_attempts,
        !(o matches SendOutcomeView::Status(status) && 200 <= status <= 299),
    ensures
        ({
            let (after, next) = after_attempt(
                s,
                max_attempts,
                s.write_queue[i].id,
                attempts,
                o,
                now,
            );
            let (row, was) = (after.write_queue[i], s.write_queue[i]);
            &&& after.write_queue.len() == s.write_queue.len()
            &&& row.id == was.id
            &&& row.method == was.method
            &&& row.path == was.path
            &&& row.body == was.body
            &&& row.content_type == was.content_type
            &&& row.enqueued_at_ns == was.enqueued_at_ns
            &&& row.attempts == was.attempts + 1
            &&& row.next_attempt_at_ns == now + backoff(attempts + 1) * 1_000_000
            &&& o matches SendOutcomeView::Status(status) ==> row.last_error == Some(
                "HTTP "@ + text::decimal(status as nat),
            )
            &&& o matches SendOutcomeView::Transport(e) ==> row.last_error == Some(
                "transport: "@ + e,
            )
            &&& 0 <= k < s.write_queue.len() && k != i ==> after.write_queue[k]
                == s.write_queue[k]
            &&& after == (db::StoreView { write_queue: after.write_queue, ..s })
        }),
{
    let id = s.write_queue[i].id;
    let err = attempt_error(o)->0;
    let next = now + backoff(attempts + 1) * 1_000_000;
    laws::failed_attempts_are_written_down(s, id, err, next, i);
    if 0 <= k < s.write_queue.len() && k != i {
        let ids = db::queue_ids(s.write_queue);
        assert(ids[i] == id && ids[k] == s.write_queue[k].id);
        laws::failed_attempts_are_written_down(s, id, err, next, k);
    }
}

/// A write whose attempts are used up is not lost: it moves to the failed writes,
/// and the shadow is written down as degraded, whatever was known of it.
pub proof fn exhausted_writes_are_kept(
    s: db::StoreView,
    max_attempts: u32,
    i: int,
    attempts: u32,
    o: SendOutcomeView,
    now: int,
)
    requires
        s.wf(),
        0 <= i < s.write_queue.len(),
        s.last_failed_id < i64::MAX,
        attempts < u32::MAX,
        attempts + 1 >= max_attempts,
        !(o matches SendOutcomeView::Status(status) && 200 <= status <= 299),
    ensures
        ({
            let was = s.write_queue[i];
            let (after, next) = after_attempt(s, max_attempts, was.id, attempts, o, now);
            let kept = after.failed_writes.last();
            &&& after.write_queue == s.write_queue.remove(i)
            &&& after.failed_writes.drop_last() == s.failed_writes
            &&& after.failed_writes.len() == s.failed_writes.len() + 1
            &&& kept.original_queue_id == was.id
            &&& kept.failed_at_ns == now
            &&& kept.method == was.method
            &&& kept.path == was.path
            &&& kept.body == was.body
            &&& kept.content_type == was.content_type
            &&& kept.attempts == was.attempts
            &&& kept.last_error == was.last_error
            &&& db::backend_row(after, "shadow"@) matches Some(row) && row.state == "degraded"@
                && row.last_observed_uptime_seconds == Some(-1i64) && row.last_observed_git_sha
                == Some(""@)
            &&& db::backend_row(after, "primary"@) == db::backend_row(s, "primary"@)
            &&& after.diffs == s.diffs
        }),
{
    let was = s.write_queue[i];
    let ids = db::queue_ids(s.write_queue);
    assert(ids[i] == was.id);
    db::index_of_id(ids, s.last_queue_id, i);
    laws::given_up_writes_move(s, i, now);
    let given = db::given_up(s, was.id, now);
    names_of_backends_differ();
    laws::observed_backend_reads_back(given, degraded_shadow(now));
    let names = db::backend_names(s.backend_state);
    let after = db::observed(given, degraded_shadow(now));
    let more = db::backend_names(after.backend_state);
    if names.contains("shadow"@) {
        assert(names[names.index_of("shadow"@)] == "shadow"@);
        assert(more =~= names);
    } else {
        assert(more =~= names.push("shadow"@));
    }
    if names.contains("primary"@) {
        let k = names.index_of("primary"@);
        assert(names[k] == "primary"@ && more[k] == "primary"@);
        db::index_of_name(names, k);
        if !names.contains("shadow"@) {
            if more.index_of("primary"@) != k {
                let j = more.index_of("primary"@);
                assert(more[j] == "primary"@);
                assert(names[j] == "primary"@);
            }
        }
    } else if more.contains("primary"@) {
        let k = more.index_of("primary"@);
        assert(more[k] == "primary"@);
        assert(names[k] == "primary"@);
    }
}

/// What the replay worker does next: nothing where no write is due; else the
/// oldest due write is sent to the shadow as it was queued and stays queued
/// meanwhile, or it is given up where its method is none.
pub proof fn due_writes_are_sent_whole(s: db::StoreView, shadow_url: Seq<char>, now: int, i: int)
    requires
        s.wf(),
        0 <= i < s.write_queue.len(),
        s.write_queue[i].next_attempt_at_ns <= now,
        forall|k: int|
            0 <= k < i ==> (#[trigger] s.write_queue[k]).next_attempt_at_ns > now,
        0 <= s.write_queue[i].attempts <= u32::MAX,
    ensures
        ({
            let w = s.write_queue[i];
            let (after, step) = next_step(s, shadow_url, now);
            &&& is_method(utf8::encode_utf8(w.method)) ==> after == s && (
            step matches ReplayStepView::Send(sent) && sent.id == w.id && sent.attempts
                == w.attempts && sent.method == w.method && sent.url == shadow_url + w.path
                && sent.content_type == w.content_type && (sent.body is Some <==> w.body.len() > 0)
                && (sent.body matches Some(body) ==> body == w.body))
            &&& !is_method(utf8::encode_utf8(w.method)) ==> step is Dropped && step->id == w.id && (
            s.last_failed_id < i64::MAX ==> after.write_queue == s.write_queue.remove(i)
                && after.failed_writes.len() == s.failed_writes.len() + 1
                && after.failed_writes.last().original_queue_id == w.id)
        }),
{
    first_due_write_is_next(s.write_queue, now, i);
    let ids = db::queue_ids(s.write_queue);
    assert(ids[i] == s.write_queue[i].id);
    db::index_of_id(ids, s.last_queue_id, i);
    laws::given_up_writes_move(s, i, now);
}

proof fn first_due_write_is_next(queue: Seq<db::QueueRowView>, now: int, i: int)
    requires
        0 <= i < queue.len(),
        queue[i].next_attempt_at_ns <= now,
        forall|k: int| 0 <= k < i ==> (#[trigger] queue[k]).next_attempt_at_ns > now,
    ensures
        db::next_ready(queue, now) == Some(queue[i]),
    decreases i,
{
    if i > 0 {
        let rest = queue.drop_first();
        assert(queue[0].next_attempt_at_ns > now);
        assert forall|k: int| 0 <= k < i - 1 implies (#[trigger] rest[k]).next_attempt_at_ns
            > now by {
            assert(rest[k] == queue[k + 1]);
        }
        first_due_write_is_next(rest, now, i - 1);
    }
}

/// Where no write is due the worker waits, and nothing changes.
pub proof fn nothing_due_is_nothing_done(s: db::StoreView, shadow_url: Seq<char>, now: int)
    requires
        forall|k: int|
            0 <= k < s.write_queue.len() ==> (#[trigger] s.write_queue[k]).next_attempt_at_ns
                > now,
    ensures
        next_step(s, shadow_url, now) == (s, ReplayStepView::Idle),
{
    laws::a_due_write_is_handed_out(s.write_queue, now);
}

/// A backend counts as restarted exactly where it was seen before and has been
/// up for less time than it had then.
pub proof fn shorter_uptimes_are_restarts(
    s: db::StoreView,
    backend: Seq<char>,
    v: VersionSeen,
    now: int,
)
    ensures
        ({
            let restarted = looked_at(s, backend, Some(v), now).1;
            &&& db::backend_row(s, backend) is None ==> !restarted
            &&& db::backend_row(s, backend) matches Some(row)
                ==> match row.last_observed_uptime_seconds {
                Some(before) => restarted <==> v.process_uptime_seconds < before,
                None => !restarted,
            }
        }),
{
}

/// A backend that answers is written down as it answered, and as live; only a
/// shadow that was degraded stays so. What is known of the other backend, and
/// everything else, stays.
pub proof fn answers_are_written_down(
    s: db::StoreView,
    backend: Seq<char>,
    v: VersionSeen,
    now: int,
    other: Seq<char>,
)
    requires
        s.wf(),
    ensures
        ({
            let after = looked_at(s, backend, Some(v), now).0;
            let stays = backend == "shadow"@ && (db::backend_row(s, backend) matches Some(was)
                && was.state == "degraded"@);
            &&& db::backend_row(after, backend) matches Some(row)
                && row.last_observed_uptime_seconds == Some(v.process_uptime_seconds)
                && row.last_observed_git_sha == Some(v.git_sha@) && row.state == (if stays {
                "degraded"@
            } else {
                "live"@
            })
            &&& other != backend ==> db::backend_row(after, other) == db::backend_row(s, other)
            &&& after == (db::StoreView { backend_state: after.backend_state, ..s })
        }),
{
    laws::sightings_are_written_down(
        s,
        backend,
        v.process_uptime_seconds,
        v.git_sha@,
        state_when_seen(s, backend),
        now,
        other,
    );
}

/// A backend that does not answer changes nothing and is not restarted.
pub proof fn silence_changes_nothing(s: db::StoreView, backend: Seq<char>, now: int)
    ensures
        looked_at(s, backend, None, now) == (s, false),
{
}

/// The primary is reached at its own address with its own token, and every other
/// backend at the shadow's with the shadow's.
pub proof fn backends_have_their_address(c: Config, which: Seq<char>)
    ensures
        which == "primary"@ ==> endpoint(c, which).0 == c.backend_primary_url@ && endpoint(
            c,
            which,
        ).1 == db::opt_text(c.primary_admin_token),
        which != "primary"@ ==> endpoint(c, which).0 == c.backend_shadow_url@ && endpoint(
            c,
            which,
        ).1 == db::opt_text(c.shadow_admin_token),
{
}

/// Bringing a backend back in step asks the other one for its snapshot, with that
/// one's admin token where it has one; it fails only over a token that cannot
/// stand in a header.
pub proof fn snapshots_are_asked_for(c: Config, from: Seq<char>)
    ensures
        ({
            let (url, token) = endpoint(c, from);
            let r = snapshot_request(c, from);
            &&& r is Err <==> (token matches Some(t) && !is_header_value(utf8::encode_utf8(t)))
            &&& r matches Ok(p) ==> p.url == url + "/_admin/snapshot"@ && p.body is None
            &&& r matches Ok(p) ==> (token matches Some(t) ==> p.headers == seq![
                ("x-admin-token"@, t),
            ])
            &&& r matches Ok(p) ==> (token is None ==> p.headers.len() == 0)
            &&& r matches Err(e) ==> e == "failed to parse header value"@
        }),
{
}

/// A snapshot that was given is loaded into the backend that is to be brought
/// back in step, byte for byte, with that backend's own token; one that was
/// refused is not loaded.
pub proof fn snapshots_are_loaded(
    c: Config,
    from: Seq<char>,
    to: Seq<char>,
    status: u16,
    status_text: Seq<char>,
    snapshot: Seq<u8>,
)
    ensures
        ({
            let (url, token) = endpoint(c, to);
            let r = after_snapshot(c, from, to, status, status_text, snapshot);
            let bad_token = token matches Some(t) && !is_header_value(utf8::encode_utf8(t));
            &&& r is Ok <==> 200 <= status <= 299 && !bad_token
            &&& r matches Ok(p) ==> p.url == url + "/_admin/load-snapshot"@ && p.body == Some(
                snapshot,
            )
            &&& r matches Ok(p) ==> p.headers.last() == ("content-type"@, "application/json"@)
            &&& r matches Ok(p) ==> (token matches Some(t) ==> p.headers.len() == 2
                && p.headers[0] == ("x-admin-token"@, t))
            &&& r matches Ok(p) ==> (token is None ==> p.headers.len() == 1)
            &&& !(200 <= status <= 299) ==> r == Err::<AdminPostView, Seq<char>>(
                "snapshot "@ + endpoint(c, from).0 + "/_admin/snapshot"@ + " -> "@ + status_text,
            )
            &&& 200 <= status <= 299 && bad_token ==> r == Err::<AdminPostView, Seq<char>>(
                "failed to parse header value"@,
            )
        }),
{
}

/// A backend that took its peer's snapshot is written down as live and freshly
/// started, of no known build; what is known of the other stays, and so does
/// everything else.
pub proof fn resynced_backends_start_afresh(
    s: db::StoreView,
    to: Seq<char>,
    now: int,
    other: Seq<char>,
)
    requires
        s.wf(),
    ensures
        ({
            let after = back_in_step(s, to, now);
            &&& db::backend_row(after, to) matches Some(row) && row.state == "live"@
                && row.last_observed_uptime_seconds == Some(0i64) && row.last_observed_git_sha
                == Some(""@)
            &&& other != to ==> db::backend_row(after, other) == db::backend_row(s, other)
            &&& after == (db::StoreView { backend_state: after.backend_state, ..s })
        }),
{
    laws::sightings_are_written_down(s, to, 0i64, ""@, "live"@, now, other);
}

/// Who refuses a snapshot is named, with what it answered.
pub proof fn refused_snapshots_are_explained(
    c: Config,
    to: Seq<char>,
    status_text: Seq<char>,
    body: Seq<char>,
)
    ensures
        load_refused(c, to, status_text, body) == "load-snapshot "@ + (if to == "primary"@ {
            c.backend_primary_url@
        } else {
            c.backend_shadow_url@
        }) + "/_admin/load-snapshot"@ + " -> "@ + status_text + " "@ + body,
{
}

/// Each backend is to be brought back in step exactly where it answered and was
/// restarted, whatever became of the other, and both answers are written down.
pub proof fn each_backend_is_looked_at(
    s: db::StoreView,
    primary: Option<VersionSeen>,
    shadow: Option<VersionSeen>,
    now: int,
)
    requires
        s.wf(),
    ensures
        ({
            let (after, resyncs) = polled(s, primary, shadow, now);
            let shorter = |name: Seq<char>, v: Option<VersionSeen>|
                v is Some && (db::backend_row(s, name) matches Some(row)
                    && row.last_observed_uptime_seconds matches Some(before)
                    && v->0.process_uptime_seconds < before);
            &&& resyncs.primary <==> shorter("primary"@, primary)
            &&& resyncs.shadow <==> shorter("shadow"@, shadow)
            &&& db::backend_row(after, "primary"@) == db::backend_row(
                looked_at(s, "primary"@, primary, now).0,
                "primary"@,
            )
            &&& db::backend_row(after, "shadow"@) == db::backend_row(
                looked_at(s, "shadow"@, shadow, now).0,
                "shadow"@,
            )
            &&& after == (db::StoreView { backend_state: after.backend_state, ..s })
        }),
{
    names_of_backends_differ();
    let first = looked_at(s, "primary"@, primary, now).0;
    if primary is Some {
        let v = primary->0;
        answers_are_written_down(s, "primary"@, v, now, "shadow"@);
        sightings_keep_the_store_sound(
            s,
            db::observed_backend(
                "primary"@,
                v.process_uptime_seconds,
                v.git_sha@,
                state_when_seen(s, "primary"@),
                now,
            ),
        );
    }
    assert(first.wf());
    assert(db::backend_row(first, "shadow"@) == db::backend_row(s, "shadow"@));
    if shadow is Some {
        answers_are_written_down(first, "shadow"@, shadow->0, now, "primary"@);
        answers_are_written_down(s, "shadow"@, shadow->0, now, "primary"@);
        let v = shadow->0;
        assert(state_when_seen(first, "shadow"@) == state_when_seen(s, "shadow"@));
        let b = db::observed_backend(
            "shadow"@,
            v.process_uptime_seconds,
            v.git_sha@,
            state_when_seen(s, "shadow"@),
            now,
        );
        laws::observed_backend_reads_back(first, b);
        laws::observed_backend_reads_back(s, b);
    }
}

proof fn sightings_keep_the_store_sound(s: db::StoreView, b: db::StoredBackendView)
    requires
        s.wf(),
    ensures
        db::observed(s, b).wf(),
{
    let names = db::backend_names(s.backend_state);
    let after = db::backend_names(db::observed(s, b).backend_state);
    if names.contains(b.row.backend) {
        assert(names[names.index_of(b.row.backend)] == b.row.backend);
        assert(after =~= names);
    } else {
        assert(after =~= names.push(b.row.backend));
        assert forall|i: int, j: int|
            0 <= i < after.len() && 0 <= j < after.len() && i != j implies after[i] != after[j] by {
            if i < names.len() {
                assert(names.contains(names[i]));
            }
            if j < names.len() {
                assert(names.contains(names[j]));
            }
        }
    }
}

/// A backend is back in step exactly where it answered with a success; else
/// nothing changes, and the error says what it answered.
pub proof fn only_loaded_snapshots_count(
    s: db::StoreView,
    c: Config,
    to: Seq<char>,
    status: u16,
    status_text: Seq<char>,
    body: Seq<char>,
    now: int,
)
    ensures
        ({
            let (after, r) = after_load(s, c, to, status, status_text, body, now);
            &&& r is Ok <==> 200 <= status <= 299
            &&& r is Ok ==> after == back_in_step(s, to, now)
            &&& r is Err ==> after == s
            &&& r matches Err(e) ==> e == load_refused(c, to, status_text, body)
        }),
{
}

/// A failed attempt can be acted on wherever it can be counted and, where another
/// follows, that one can be timed.
pub proof fn attempts_can_be_acted_on(
    s: db::StoreView,
    max_attempts: u32,
    id: int,
    attempts: u32,
    now: int,
)
    requires
        attempts < u32::MAX,
        now + 180_000_000_000 <= i64::MAX,
        forall|i: int|
            0 <= i < s.write_queue.len() ==> (#[trigger] s.write_queue[i]).attempts < i64::MAX,
    ensures
        retry_fits(s, max_attempts, id, attempts, now),
{
    let ids = db::queue_ids(s.write_queue);
    if ids.contains(id) {
        let i = ids.index_of(id);
        assert(ids[i] == id);
        assert(s.write_queue[i].attempts < i64::MAX);
    }
}

/// What is sent and what came of it is seen with all that it holds.
pub proof fn sendings_are_seen_whole(
    req: ReplayRequest,
    step: ReplayStep,
    post: AdminPost,
    status: u16,
    e: String,
    i: int,
)
    ensures
        req@.id == req.id && req@.attempts == req.attempts && req@.method == req.method@,
        req@.url == req.url@,
        req@.content_type is Some <==> req.content_type is Some,
        req.content_type matches Some(t) ==> req@.content_type == Some(t@),
        req@.body is Some <==> req.body is Some,
        req.body matches Some(b) ==> req@.body == Some(b@),
        step is Idle <==> step@ is Idle,
        step is Dropped <==> step@ is Dropped,
        step is Send <==> step@ is Send,
        step is Dropped ==> step@->id == step->id,
        step is Send ==> step@->Send_0 == step->Send_0@,
        SendOutcome::Status(status)@ == SendOutcomeView::Status(status),
        SendOutcome::Transport(e)@ == SendOutcomeView::Transport(e@),
        post@.url == post.url@,
        post@.body is Some <==> post.body is Some,
        post.body matches Some(b) ==> post@.body == Some(b@),
        post@.headers.len() == post.headers.len(),
        0 <= i < post.headers.len() ==> post@.headers[i] == (
            post.headers@[i].0@,
            post.headers@[i].1@,
        ),
{
}

/// There is at least a second between two looks, and else as much as configured.
pub proof fn looks_are_a_second_apart(configured: int)
    ensures
        poll_secs(configured) >= 1,
        configured >= 1 ==> poll_secs(configured) == configured,
        configured < 1 ==> poll_secs(configured) == 1,
{
}

/// A backend's version stands right behind its address.
pub proof fn versions_stand_behind_the_address(base: Seq<char>)
    ensures
        base.is_prefix_of(version_at(base)),
        version_at(base).skip(base.len() as int) == "/version"@,
{
    assert(version_at(base).skip(base.len() as int) =~= "/version"@);
}

} // verus!
