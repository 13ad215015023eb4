//! What the proxy decides about a request: what kind of request it is, what is
//! sent upstream, what the client gets back, what is owed to the shadow, and
//! what becomes of a read that was sent to both backends.
use crate::alerting;
use crate::alerting::AlertDiff;
use crate::db;
use crate::db::{Store, StoreFull};
use crate::diff;
use crate::diff::Severity;
#[allow(unused_imports)]
use crate::laws;
use crate::text;
use vstd::prelude::*;
use vstd::utf8;

verus! {

broadcast use vstd::string::group_string_axioms;

// ---------------------------------------------------------------------------
// Kinds of requests

/// What kind of request a request is.
#[derive(Copy, Clone, Debug, PartialEq, Eq, Structural)]
pub enum Class {
    Write,
    Read,
    Admin,
    Other,
}

/// The kind of a request. Requests to the admin endpoints are passed on and
/// nothing else; the four mutations are writes; every GET is a read.
pub open spec fn class_of(method: Seq<char>, path: Seq<char>) -> Class {
    if "/_admin/"@.is_prefix_of(path) {
        Class::Admin
    } else if method == "POST"@ && (path == "/users"@ || path == "/tweets"@ || path == "/follow"@) {
        Class::Write
    } else if method == "DELETE"@ && path == "/follow"@ {
        Class::Write
    } else if method == "GET"@ {
        Class::Read
    } else {
        Class::Other
    }
}

/// The kind of a request.
pub fn classify(method: &str, path: &str) -> (r: Class)
    ensures
        r == class_of(method@, path@),
{
    if text::has_prefix(path, "/_admin/") {
        return Class::Admin;
    }
    if text::same_text(method, "POST") && (text::same_text(path, "/users") || text::same_text(
        path,
        "/tweets",
    ) || text::same_text(path, "/follow")) {
        Class::Write
    } else if text::same_text(method, "DELETE") && text::same_text(path, "/follow") {
        Class::Write
    } else if text::same_text(method, "GET") {
        Class::Read
    } else {
        Class::Other
    }
}

pub open spec fn class_name(c: Class) -> Seq<char> {
    match c {
        Class::Write => "write"@,
        Class::Read => "read"@,
        Class::Admin => "admin"@,
        Class::Other => "other"@,
    }
}

/// The label under which requests of a kind are counted.
pub fn class_label(c: Class) -> (r: &'static str)
    ensures
        r@ == class_name(c),
{
    match c {
        Class::Write => "write",
        Class::Read => "read",
        Class::Admin => "admin",
        Class::Other => "other",
    }
}

// ---------------------------------------------------------------------------
// Headers

/// A header: its name in lower case, and its value.
#[derive(Clone, Debug)]
pub struct Header {
    pub name: String,
    pub value: Vec<u8>,
}

pub struct HeaderView {
    pub name: Seq<char>,
    pub value: Seq<u8>,
}

impl View for Header {
    type V = HeaderView;

    open spec fn view(&self) -> HeaderView {
        HeaderView { name: self.name@, value: self.value@ }
    }
}

pub open spec fn headers_view(headers: Seq<Header>) -> Seq<HeaderView> {
    headers.map_values(|h: Header| h@)
}

/// Whether a header concerns one connection only.
pub open spec fn hop_by_hop(name: Seq<char>) -> bool {
    name == "host"@ || name == "connection"@ || name == "keep-alive"@ || name
        == "transfer-encoding"@ || name == "te"@ || name == "trailer"@ || name == "upgrade"@
        || name == "proxy-authorization"@ || name == "proxy-authenticate"@
}

/// Whether a header concerns one connection only.
pub fn is_hop_by_hop(name: &str) -> (r: bool)
    ensures
        r == hop_by_hop(name@),
{
    text::same_text(name, "host") || text::same_text(name, "connection") || text::same_text(
        name,
        "keep-alive",
    ) || text::same_text(name, "transfer-encoding") || text::same_text(name, "te")
        || text::same_text(name, "trailer") || text::same_text(name, "upgrade")
        || text::same_text(name, "proxy-authorization") || text::same_text(
        name,
        "proxy-authenticate",
    )
}

/// Whether a header of a client's request is passed on to a backend.
pub open spec fn forwarded(name: Seq<char>) -> bool {
    !hop_by_hop(name) && (name == "accept"@ || name == "accept-encoding"@ || name
        == "accept-language"@ || name == "authorization"@ || name == "content-type"@ || name
        == "content-length"@ || name == "cookie"@ || name == "user-agent"@ || name
        == "x-admin-token"@ || "x-"@.is_prefix_of(name))
}

/// Whether a header of a client's request is passed on to a backend.
pub fn forward_header(name: &str) -> (r: bool)
    ensures
        r == forwarded(name@),
{
    if is_hop_by_hop(name) {
        return false;
    }
    text::same_text(name, "accept") || text::same_text(name, "accept-encoding")
        || text::same_text(name, "accept-language") || text::same_text(name, "authorization")
        || text::same_text(name, "content-type") || text::same_text(name, "content-length")
        || text::same_text(name, "cookie") || text::same_text(name, "user-agent")
        || text::same_text(name, "x-admin-token") || text::has_prefix(name, "x-")
}

fn copy_header(h: &Header) -> (r: Header)
    ensures
        r@ == h@,
{
    Header { name: h.name.clone(), value: db::copy_bytes(h.value.as_slice()) }
}

/// The headers of a client's request that are passed on.
pub open spec fn forwarded_headers(headers: Seq<HeaderView>) -> Seq<HeaderView> {
    headers.filter(|h: HeaderView| forwarded(h.name))
}

/// The headers of a backend's response that are passed on.
pub open spec fn end_to_end_headers(headers: Seq<HeaderView>) -> Seq<HeaderView> {
    headers.filter(|h: HeaderView| !hop_by_hop(h.name))
}

/// The headers of a client's request that are passed on, in their order.
pub fn forward_headers(headers: &Vec<Header>) -> (r: Vec<Header>)
    ensures
        headers_view(r@) == forwarded_headers(headers_view(headers@)),
{
    let ghost all = headers_view(headers@);
    let mut out: Vec<Header> = Vec::new();
    let mut i: usize = 0;
    assert(all.take(0) == Seq::<HeaderView>::empty());
    reveal(Seq::filter);
    assert(headers_view(out@) =~= forwarded_headers(all.take(0)));
    while i < headers.len()
        invariant
            i <= headers.len(),
            all == headers_view(headers@),
            headers_view(out@) == forwarded_headers(all.take(i as int)),
        decreases headers.len() - i,
    {
        reveal(Seq::filter);
        assert(all.take(i + 1).drop_last() == all.take(i as int));
        assert(all.take(i + 1).last() == headers@[i as int]@);
        if forward_header(headers[i].name.as_str()) {
            let ghost before = out@;
            out.push(copy_header(&headers[i]));
            assert(headers_view(out@) == headers_view(before).push(headers@[i as int]@));
        }
        i = i + 1;
    }
    assert(all.take(all.len() as int) == all);
    out
}

fn drop_hop_by_hop(headers: &Vec<Header>) -> (r: Vec<Header>)
    ensures
        headers_view(r@) == end_to_end_headers(headers_view(headers@)),
{
    let ghost all = headers_view(headers@);
    let mut out: Vec<Header> = Vec::new();
    let mut i: usize = 0;
    assert(all.take(0) == Seq::<HeaderView>::empty());
    reveal(Seq::filter);
    assert(headers_view(out@) =~= end_to_end_headers(all.take(0)));
    while i < headers.len()
        invariant
            i <= headers.len(),
            all == headers_view(headers@),
            headers_view(out@) == end_to_end_headers(all.take(i as int)),
        decreases headers.len() - i,
    {
        reveal(Seq::filter);
        assert(all.take(i + 1).drop_last() == all.take(i as int));
        assert(all.take(i + 1).last() == headers@[i as int]@);
        if !is_hop_by_hop(headers[i].name.as_str()) {
            let ghost before = out@;
            out.push(copy_header(&headers[i]));
            assert(headers_view(out@) == headers_view(before).push(headers@[i as int]@));
        }
        i = i + 1;
    }
    assert(all.take(all.len() as int) == all);
    out
}

/// Whether a byte of a header's value is a visible ASCII character or a tab.
pub open spec fn visible(b: u8) -> bool {
    32 <= b < 127 || b == 9
}

/// A header's value as text, where all of it is visible ASCII.
pub open spec fn value_text(value: Seq<u8>) -> Option<Seq<char>> {
    if forall|i: int| 0 <= i < value.len() ==> visible(#[trigger] value[i]) {
        Some(value.map_values(|b: u8| b as char))
    } else {
        None
    }
}

/// A header's value as text, where all of it is visible ASCII.
pub fn visible_text(value: &Vec<u8>) -> (r: Option<String>)
    ensures
        db::opt_text(r) == value_text(value@),
{
    let mut out = String::new();
    let mut i: usize = 0;
    while i < value.len()
        invariant
            i <= value.len(),
            forall|k: int| 0 <= k < i ==> visible(#[trigger] value@[k]),
            out@ == value@.take(i as int).map_values(|b: u8| b as char),
        decreases value.len() - i,
    {
        let b: u8 = value[i];
        if !((32 <= b && b < 127) || b == 9) {
            assert(!visible(value@[i as int]));
            return None;
        }
        out.push(b as char);
        i = i + 1;
        assert(out@ == value@.take(i as int).map_values(|b: u8| b as char));
    }
    assert(value@.take(value@.len() as int) == value@);
    Some(out)
}

/// The content type that a request names: the first header of that name, where
/// it is text.
pub open spec fn content_type_of(headers: Seq<HeaderView>) -> Option<Seq<char>>
    decreases headers.len(),
{
    if headers.len() == 0 {
        None
    } else if headers[0].name == "content-type"@ {
        value_text(headers[0].value)
    } else {
        content_type_of(headers.drop_first())
    }
}

/// The content type that a request names.
pub fn content_type(headers: &Vec<Header>) -> (r: Option<String>)
    ensures
        db::opt_text(r) == content_type_of(headers_view(headers@)),
{
    let ghost all = headers_view(headers@);
    let mut i: usize = 0;
    assert(all.skip(0) == all);
    while i < headers.len()
        invariant
            i <= headers.len(),
            all == headers_view(headers@),
            content_type_of(all) == content_type_of(all.skip(i as int)),
        decreases headers.len() - i,
    {
        assert(all.skip(i as int)[0] == headers@[i as int]@);
        assert(all.skip(i as int).drop_first() == all.skip(i + 1));
        if text::same_text(headers[i].name.as_str(), "content-type") {
            return visible_text(&headers[i].value);
        }
        i = i + 1;
    }
    None
}

// ---------------------------------------------------------------------------
// Requests and replies

/// A client's request.
#[derive(Clone, Debug)]
pub struct ClientRequest {
    pub method: String,
    /// The path alone.
    pub path: String,
    /// The path and the query behind it, where the request has them.
    pub path_and_query: Option<String>,
    pub headers: Vec<Header>,
    pub body: Vec<u8>,
}

pub struct RequestView {
    pub method: Seq<char>,
    pub path: Seq<char>,
    pub path_and_query: Option<Seq<char>>,
    pub headers: Seq<HeaderView>,
    pub body: Seq<u8>,
}

impl View for ClientRequest {
    type V = RequestView;

    open spec fn view(&self) -> RequestView {
        RequestView {
            method: self.method@,
            path: self.path@,
            path_and_query: db::opt_text(self.path_and_query),
            headers: headers_view(self.headers@),
            body: self.body@,
        }
    }
}

impl RequestView {
    /// What the request asks for: path and query, or the path alone.
    pub open spec fn target(self) -> Seq<char> {
        match self.path_and_query {
            Some(t) => t,
            None => self.path,
        }
    }
}

impl ClientRequest {
    /// What the request asks for: path and query, or the path alone.
    pub fn target(&self) -> (r: &str)
        ensures
            r@ == self@.target(),
    {
        match &self.path_and_query {
            Some(t) => t.as_str(),
            None => self.path.as_str(),
        }
    }
}

/// A request to a backend. A body that is empty is not sent.
#[derive(Clone, Debug)]
pub struct UpstreamRequest {
    pub method: String,
    pub url: String,
    pub headers: Vec<Header>,
    pub body: Option<Vec<u8>>,
}

pub struct UpstreamRequestView {
    pub method: Seq<char>,
    pub url: Seq<char>,
    pub headers: Seq<HeaderView>,
    pub body: Option<Seq<u8>>,
}

pub open spec fn opt_bytes(o: Option<Vec<u8>>) -> Option<Seq<u8>> {
    match o {
        Some(v) => Some(v@),
        None => None,
    }
}

impl View for UpstreamRequest {
    type V = UpstreamRequestView;

    open spec fn view(&self) -> UpstreamRequestView {
        UpstreamRequestView {
            method: self.method@,
            url: self.url@,
            headers: headers_view(self.headers@),
            body: opt_bytes(self.body),
        }
    }
}

pub open spec fn sent_body(body: Seq<u8>) -> Option<Seq<u8>> {
    if body.len() == 0 {
        None
    } else {
        Some(body)
    }
}

/// What a client's request becomes for the backend at `base`.
pub open spec fn upstream(base: Seq<char>, req: RequestView) -> UpstreamRequestView {
    UpstreamRequestView {
        method: req.method,
        url: base + req.target(),
        headers: forwarded_headers(req.headers),
        body: sent_body(req.body),
    }
}

/// What a client's request becomes for the backend at `base`.
pub fn call_upstream(base: &str, req: &ClientRequest) -> (r: UpstreamRequest)
    ensures
        r@ == upstream(base@, req@),
{
    let mut url = base.to_owned();
    url.append(req.target());
    let body = if req.body.len() == 0 {
        None
    } else {
        Some(db::copy_bytes(req.body.as_slice()))
    };
    UpstreamRequest {
        method: req.method.clone(),
        url,
        headers: forward_headers(&req.headers),
        body,
    }
}

/// A response, of a backend or to a client.
#[derive(Clone, Debug)]
pub struct UpstreamResponse {
    pub status: u16,
    pub headers: Vec<Header>,
    pub body: Vec<u8>,
}

pub struct ResponseView {
    pub status: u16,
    pub headers: Seq<HeaderView>,
    pub body: Seq<u8>,
}

impl View for UpstreamResponse {
    type V = ResponseView;

    open spec fn view(&self) -> ResponseView {
        ResponseView {
            status: self.status,
            headers: headers_view(self.headers@),
            body: self.body@,
        }
    }
}

/// A plain message as a response.
pub open spec fn message(status: u16, text: Seq<char>) -> ResponseView {
    ResponseView {
        status,
        headers: seq![
            HeaderView {
                name: "content-type"@,
                value: utf8::encode_utf8("text/plain; charset=utf-8"@),
            },
        ],
        body: utf8::encode_utf8(text),
    }
}

fn text_bytes(s: &str) -> (r: Vec<u8>)
    ensures
        r@ == utf8::encode_utf8(s@),
{
    db::copy_bytes(s.as_bytes())
}

fn write_message(status: u16, text: &str) -> (r: UpstreamResponse)
    ensures
        r@ == message(status, text@),
{
    let mut headers: Vec<Header> = Vec::new();
    headers.push(
        Header {
            name: "content-type".to_owned(),
            value: text_bytes("text/plain; charset=utf-8"),
        },
    );
    assert(headers_view(headers@) =~= message(status, text@).headers);
    UpstreamResponse { status, headers, body: text_bytes(text) }
}

/// What the client gets back: the primary's response without the headers that
/// concern one connection only, or a message where the primary failed.
pub open spec fn client_response(primary: Result<ResponseView, Seq<char>>) -> ResponseView {
    match primary {
        Ok(res) => ResponseView {
            status: res.status,
            headers: end_to_end_headers(res.headers),
            body: res.body,
        },
        Err(e) => message(502, "primary upstream: "@ + e),
    }
}

pub open spec fn primary_view(primary: Result<UpstreamResponse, String>) -> Result<
    ResponseView,
    Seq<char>,
> {
    match primary {
        Ok(res) => Ok(res@),
        Err(e) => Err(e@),
    }
}

/// What the client gets back.
pub fn reply_to_client(primary: &Result<UpstreamResponse, String>) -> (r: UpstreamResponse)
    ensures
        r@ == client_response(primary_view(*primary)),
{
    match primary {
        Ok(res) => UpstreamResponse {
            status: res.status,
            headers: drop_hop_by_hop(&res.headers),
            body: db::copy_bytes(res.body.as_slice()),
        },
        Err(e) => {
            let mut text = "primary upstream: ".to_owned();
            text.append(e.as_str());
            write_message(502, text.as_str())
        },
    }
}

/// What the client gets back whose body could not be read.
pub open spec fn bad_body() -> ResponseView {
    message(400, "request body"@)
}

/// What the client gets back whose body could not be read.
pub fn reply_to_bad_body() -> (r: UpstreamResponse)
    ensures
        r@ == message(400, "request body"@),
        r@ == bad_body(),
{
    write_message(400, "request body")
}

// ---------------------------------------------------------------------------
// What is owed to the shadow

/// What becomes of a request once the primary has answered or failed.
#[derive(Clone, Debug)]
pub struct Settled {
    /// What the client gets back.
    pub response: UpstreamResponse,
    /// For a write, the id under which it is queued for the shadow.
    pub queued: Option<Result<i64, StoreFull>>,
    /// For a read that is to be compared, the primary's status.
    pub compare_with: Option<u16>,
}

/// The store once a request is settled: a write is queued for the shadow.
pub open spec fn store_after(s: db::StoreView, now: int, req: RequestView) -> db::StoreView {
    if class_of(req.method, req.path) is Write && s.last_queue_id < i64::MAX {
        db::enqueued(
            s,
            db::new_queue_row(
                s.last_queue_id + 1,
                now,
                req.method,
                req.target(),
                req.body,
                content_type_of(req.headers),
            ),
        )
    } else {
        s
    }
}

/// The primary's status where a read is to be compared: it was sampled, and the
/// primary answered.
pub open spec fn comparison(
    req: RequestView,
    primary: Result<ResponseView, Seq<char>>,
    sampled: bool,
) -> Option<u16> {
    if class_of(req.method, req.path) is Read && sampled && primary is Ok {
        Some(primary->Ok_0.status)
    } else {
        None
    }
}

/// What becomes of a request: the store, what the client gets back, the id under
/// which it is queued, where there was one left, and the status to compare with.
pub open spec fn request_settled(
    s: db::StoreView,
    now: int,
    req: RequestView,
    primary: Result<ResponseView, Seq<char>>,
    sampled: bool,
) -> (db::StoreView, ResponseView, Option<Option<int>>, Option<u16>) {
    (
        store_after(s, now, req),
        client_response(primary),
        if class_of(req.method, req.path) is Write {
            Some(
                if s.last_queue_id < i64::MAX {
                    Some(s.last_queue_id + 1)
                } else {
                    None
                },
            )
        } else {
            None
        },
        comparison(req, primary, sampled),
    )
}

pub open spec fn queued_id(queued: Option<Result<i64, StoreFull>>) -> Option<Option<int>> {
    match queued {
        Some(Ok(id)) => Some(Some(id as int)),
        Some(Err(_)) => Some(None),
        None => None,
    }
}

/// Settles a request once the primary has answered or failed: what the client
/// gets back, and what is owed to the shadow. What is owed to the shadow does
/// not change what the client gets back.
pub fn settle_request(
    store: &mut Store,
    now: i64,
    req: &ClientRequest,
    primary: &Result<UpstreamResponse, String>,
    sampled: bool,
) -> (r: Settled)
    requires
        old(store)@.wf(),
    ensures
        final(store)@.wf(),
        final(store)@ == store_after(old(store)@, now as int, req@),
        r.response@ == client_response(primary_view(*primary)),
        r.compare_with == comparison(req@, primary_view(*primary), sampled),
        r.queued is Some <==> class_of(req.method@, req.path@) is Write,
        r.queued matches Some(Ok(id)) ==> id == old(store)@.last_queue_id + 1,
        r.queued matches Some(q) ==> (q is Ok <==> old(store)@.last_queue_id < i64::MAX),
        (final(store)@, r.response@, queued_id(r.queued), r.compare_with) == request_settled(
            old(store)@,
            now as int,
            req@,
            primary_view(*primary),
            sampled,
        ),
{
    let response = reply_to_client(primary);
    match classify(req.method.as_str(), req.path.as_str()) {
        Class::Write => {
            let content_type = content_type(&req.headers);
            let named: Option<&str> = match &content_type {
                Some(s) => Some(s.as_str()),
                None => None,
            };
            let queued = db::enqueue_write(
                store,
                req.method.as_str(),
                req.target(),
                req.body.as_slice(),
                named,
                now,
            );
            Settled { response, queued: Some(queued), compare_with: None }
        },
        Class::Read => {
            let compare_with: Option<u16> = match primary {
                Ok(res) => if sampled {
                    Some(res.status)
                } else {
                    None
                },
                Err(_) => None,
            };
            Settled { response, queued: None, compare_with }
        },
        Class::Admin | Class::Other => Settled { response, queued: None, compare_with: None },
    }
}

// ---------------------------------------------------------------------------
// Comparing a read

/// Whether reads are sent to the shadow: not while it is degraded.
pub open spec fn samples(s: db::StoreView) -> bool {
    !db::degraded(s, "shadow"@)
}

/// Whether a read is sent to the shadow: not while the shadow is degraded.
pub fn shadow_is_sampled(store: &Store) -> (r: bool)
    requires
        store@.wf(),
    ensures
        r == !db::degraded(store@, "shadow"@),
        r == samples(store@),
{
    !db::shadow_degraded_now(store)
}

/// The longest beginning of a text that takes at most a number of bytes.
pub open spec fn kept(s: Seq<char>, max: int) -> Seq<char>
    decreases s.len(),
{
    if s.len() == 0 || utf8::encode_utf8(s).len() <= max {
        s
    } else {
        kept(s.drop_last(), max)
    }
}

/// A text, cut down to a number of bytes where it is longer. A character that
/// would be cut in two is left out.
pub open spec fn shortened(s: Seq<char>, max: int) -> Seq<char> {
    if utf8::encode_utf8(s).len() <= max {
        s
    } else {
        kept(s, max) + "...[truncated]"@
    }
}

/// A text, cut down to a number of bytes where it is longer.
pub fn truncate(s: &str, max: usize) -> (r: String)
    ensures
        r@ == shortened(s@, max as int),
{
    if text::byte_len(s) <= max {
        return s.to_owned();
    }
    let ghost bytes = utf8::encode_utf8(s@);
    let mut end: usize = max;
    while !s.is_char_boundary(end)
        invariant
            bytes == utf8::encode_utf8(s@),
            end <= max < bytes.len(),
            forall|n: int| end < n <= max ==> !utf8::is_char_boundary(bytes, n),
        decreases end,
    {
        proof {
            utf8::encode_utf8_valid_utf8(s@);
        }
        end = end - 1;
    }
    let head = s.split_at(end).0;
    proof {
        last_boundary_ends_what_is_kept(s@, max as int, end as int);
        utf8::encode_utf8_decode_utf8(head@);
    }
    let mut t = head.to_owned();
    t.append("...[truncated]");
    t
}

/// A text takes as many bytes as its two parts.
proof fn bytes_of_two_parts(a: Seq<char>, b: Seq<char>)
    ensures
        utf8::encode_utf8(a + b) == utf8::encode_utf8(a) + utf8::encode_utf8(b),
    decreases a.len(),
{
    if a.len() == 0 {
        assert(a + b == b);
    } else {
        bytes_of_two_parts(a.drop_first(), b);
        assert((a + b).drop_first() == a.drop_first() + b);
    }
}

/// Every beginning of a text ends between two characters.
proof fn beginnings_end_at_boundaries(s: Seq<char>, k: int)
    requires
        0 <= k <= s.len(),
    ensures
        utf8::is_char_boundary(utf8::encode_utf8(s), utf8::encode_utf8(s.take(k)).len() as int),
    decreases s.len(),
{
    let bytes = utf8::encode_utf8(s);
    utf8::encode_utf8_valid_utf8(s);
    if k > 0 {
        utf8::encode_utf8_first_scalar(s);
        beginnings_end_at_boundaries(s.drop_first(), k - 1);
        assert(s.take(k).drop_first() == s.drop_first().take(k - 1));
        assert(utf8::pop_first_scalar(bytes) =~= utf8::encode_utf8(s.drop_first()));
        bytes_of_two_parts(s.take(k), s.skip(k));
        assert(s.take(k) + s.skip(k) == s);
    }
}

/// What is kept of a text does not change while characters that do not fit are
/// put behind it.
proof fn kept_stops_at_the_first_that_fits(s: Seq<char>, max: int, k: int, n: int)
    requires
        0 <= k <= n <= s.len(),
        utf8::encode_utf8(s.take(k)).len() <= max,
        forall|m: int| k < m <= n ==> utf8::encode_utf8(#[trigger] s.take(m)).len() > max,
    ensures
        kept(s.take(n), max) == s.take(k),
    decreases n,
{
    if k < n {
        assert(s.take(n).drop_last() == s.take(n - 1));
        kept_stops_at_the_first_that_fits(s, max, k, n - 1);
    }
}

/// The last place at or before the allowed number of bytes that lies between
/// two characters is where a text is cut.
proof fn last_boundary_ends_what_is_kept(s: Seq<char>, max: int, end: int)
    requires
        0 <= end <= max < utf8::encode_utf8(s).len(),
        utf8::is_char_boundary(utf8::encode_utf8(s), end),
        forall|n: int|
            end < n <= max ==> !utf8::is_char_boundary(utf8::encode_utf8(s), n),
    ensures
        kept(s, max) == utf8::decode_utf8(utf8::encode_utf8(s).subrange(0, end)),
        utf8::encode_utf8(kept(s, max)).len() == end,
{
    let bytes = utf8::encode_utf8(s);
    let head = utf8::decode_utf8(bytes.subrange(0, end));
    utf8::encode_utf8_valid_utf8(s);
    utf8::encode_utf8_decode_utf8(s);
    utf8::valid_utf8_split(bytes, end);
    utf8::decode_utf8_split(bytes, end);
    utf8::decode_utf8_encode_utf8(bytes.subrange(0, end));
    let k = head.len() as int;
    assert(head == s.take(k));
    assert forall|m: int| k < m <= s.len() implies utf8::encode_utf8(#[trigger] s.take(m)).len()
        > max by {
        beginnings_end_at_boundaries(s, m);
        bytes_of_two_parts(s.take(k), s.subrange(k, m));
        assert(s.take(k) + s.subrange(k, m) == s.take(m));
        bytes_of_two_parts(seq![s[k]], s.subrange(k, m).drop_first());
        assert(seq![s[k]] + s.subrange(k, m).drop_first() == s.subrange(k, m));
    }
    kept_stops_at_the_first_that_fits(s, max, k, s.len() as int);
    assert(s.take(s.len() as int) == s);
}

/// A text that is cut down keeps its beginning: no more than the allowed number
/// of bytes, and one character more would not fit.
pub proof fn shortened_text_keeps_its_beginning(s: Seq<char>, max: int)
    requires
        0 <= max < utf8::encode_utf8(s).len(),
    ensures
        shortened(s, max) == kept(s, max) + "...[truncated]"@,
        kept(s, max).is_prefix_of(s),
        kept(s, max).len() < s.len(),
        utf8::encode_utf8(kept(s, max)).len() <= max,
        utf8::encode_utf8(s.take(kept(s, max).len() as int + 1)).len() > max,
    decreases s.len(),
{
    let rest = s.drop_last();
    assert(kept(s, max) == kept(rest, max));
    if utf8::encode_utf8(rest).len() > max {
        shortened_text_keeps_its_beginning(rest, max);
        assert(rest.take(kept(s, max).len() as int + 1) == s.take(kept(s, max).len() as int + 1));
    } else {
        assert(kept(rest, max) == rest);
        assert(s.take(rest.len() as int + 1) == s);
    }
}

/// Where a text can be cut between two characters at the allowed number of
/// bytes, exactly that many are kept.
pub proof fn texts_are_cut_at_the_allowed_number_of_bytes(s: Seq<char>, max: int)
    requires
        0 <= max < utf8::encode_utf8(s).len(),
        utf8::is_char_boundary(utf8::encode_utf8(s), max),
    ensures
        utf8::encode_utf8(kept(s, max)) == utf8::encode_utf8(s).subrange(0, max),
{
    last_boundary_ends_what_is_kept(s, max, max);
    utf8::encode_utf8_valid_utf8(s);
    utf8::valid_utf8_split(utf8::encode_utf8(s), max);
    utf8::decode_utf8_encode_utf8(utf8::encode_utf8(s).subrange(0, max));
}

/// What came of comparing a read.
#[derive(Clone, Debug)]
pub enum ReadResult {
    /// The responses agree.
    Same,
    /// They differ, and the difference is recorded. Where it is critical it is
    /// claimed, and the alert is to be delivered.
    Recorded { severity: Severity, id: i64, alert: Option<AlertDiff> },
    /// They differ, and there was no id left to record it under.
    Unrecorded { severity: Severity },
}

pub enum ReadResultView {
    Same,
    Recorded { severity: Severity, id: int, alert: Option<alerting::AlertView> },
    Unrecorded { severity: Severity },
}

pub open spec fn opt_alert(o: Option<AlertDiff>) -> Option<alerting::AlertView> {
    match o {
        Some(a) => Some(a@),
        None => None,
    }
}

impl View for ReadResult {
    type V = ReadResultView;

    open spec fn view(&self) -> ReadResultView {
        match self {
            ReadResult::Same => ReadResultView::Same,
            ReadResult::Recorded { severity, id, alert } => ReadResultView::Recorded {
                severity: *severity,
                id: *id as int,
                alert: opt_alert(*alert),
            },
            ReadResult::Unrecorded { severity } => ReadResultView::Unrecorded {
                severity: *severity,
            },
        }
    }
}

/// A read that both backends answered.
pub struct ReadView {
    pub method: Seq<char>,
    pub path: Seq<char>,
    pub primary_status: u16,
    pub shadow_status: u16,
}

/// A difference as it is recorded for a read.
pub open spec fn read_diff(
    id: int,
    now: int,
    read: ReadView,
    p_text: Seq<char>,
    s_text: Seq<char>,
    o: diff::OutcomeView,
    max: int,
) -> db::StoredDiffView {
    db::new_diff(
        id,
        now,
        read.method,
        read.path,
        Some(read.primary_status),
        Some(read.shadow_status),
        Some(shortened(p_text, max)),
        Some(shortened(s_text, max)),
        o.blob,
        diff::severity_name(o.severity),
        None,
    )
}

/// The alert for a critical difference.
pub open spec fn read_alert(id: int, now: int, read: ReadView, severity: Severity) -> Option<
    alerting::AlertView,
> {
    if severity is Critical {
        Some(
            alerting::AlertView {
                diff_id: id,
                severity: diff::severity_name(severity),
                request_path: read.path,
                method: read.method,
                primary_status: Some(read.primary_status),
                shadow_status: Some(read.shadow_status),
                observed_at_ns: now,
            },
        )
    } else {
        None
    }
}

/// What comes of a comparison: a difference is recorded, and a critical one is
/// claimed for its alert.
pub open spec fn settled(
    s: db::StoreView,
    now: i64,
    read: ReadView,
    p_text: Seq<char>,
    s_text: Seq<char>,
    o: diff::OutcomeView,
    max: int,
) -> (db::StoreView, ReadResultView) {
    let id = s.last_diff_id + 1;
    let recorded = db::recorded(s, read_diff(id, now as int, read, p_text, s_text, o, max));
    if !o.diverged {
        (s, ReadResultView::Same)
    } else if s.last_diff_id == i64::MAX {
        (s, ReadResultView::Unrecorded { severity: o.severity })
    } else {
        (
            if o.severity is Critical {
                db::claimed(recorded, id, now)
            } else {
                recorded
            },
            ReadResultView::Recorded {
                severity: o.severity,
                id,
                alert: read_alert(id, now as int, read, o.severity),
            },
        )
    }
}

/// Acts on what a comparison found.
pub fn settle_outcome(
    store: &mut Store,
    now: i64,
    method: &str,
    path: &str,
    primary_status: u16,
    shadow_status: u16,
    p_text: &str,
    s_text: &str,
    outcome: &diff::DiffOutcome,
    max: usize,
) -> (r: ReadResult)
    requires
        old(store)@.wf(),
    ensures
        final(store)@.wf(),
        (final(store)@, r@) == settled(
            old(store)@,
            now,
            (ReadView { method: method@, path: path@, primary_status, shadow_status }),
            p_text@,
            s_text@,
            outcome@,
            max as int,
        ),
{
    if !outcome.diverged {
        return ReadResult::Same;
    }
    let ghost before = store@;
    let ghost read = ReadView { method: method@, path: path@, primary_status, shadow_status };
    let short_p = truncate(p_text, max);
    let short_s = truncate(s_text, max);
    match db::record_diff(
        store,
        method,
        path,
        Some(primary_status),
        Some(shadow_status),
        Some(short_p.as_str()),
        Some(short_s.as_str()),
        outcome.blob.as_str(),
        outcome.severity.as_str(),
        None,
        now,
    ) {
        Ok(id) => {
            let ghost d = read_diff(
                id as int,
                now as int,
                read,
                p_text@,
                s_text@,
                outcome@,
                max as int,
            );
            let alert: Option<AlertDiff> = match outcome.severity {
                Severity::Critical => {
                    proof {
                        laws::recorded_difference_reads_back(before, d);
                    }
                    if db::claim_for_notification(store, id, now) {
                        Some(
                            AlertDiff {
                                diff_id: id,
                                severity: outcome.severity.as_str().to_owned(),
                                request_path: path.to_owned(),
                                method: method.to_owned(),
                                primary_status: Some(primary_status),
                                shadow_status: Some(shadow_status),
                                observed_at_ns: now,
                            },
                        )
                    } else {
                        None
                    }
                },
                _ => None,
            };
            ReadResult::Recorded { severity: outcome.severity, id, alert }
        },
        Err(_) => ReadResult::Unrecorded { severity: outcome.severity },
    }
}

/// What comparing the bodies of a read finds.
pub open spec fn read_outcome(read: ReadView, p_body: Seq<u8>, s_body: Seq<u8>) -> diff::OutcomeView {
    diff::outcome(
        read.path,
        read.primary_status,
        read.shadow_status,
        text::lossy(p_body),
        text::lossy(s_body),
    )
}

/// What comes of a read that both backends answered.
pub open spec fn read_settled(
    s: db::StoreView,
    now: i64,
    read: ReadView,
    p_body: Seq<u8>,
    s_body: Seq<u8>,
    max: int,
) -> (db::StoreView, ReadResultView) {
    settled(
        s,
        now,
        read,
        text::lossy(p_body),
        text::lossy(s_body),
        read_outcome(read, p_body, s_body),
        max,
    )
}

/// Compares the responses of both backends to a read and acts on what it
/// finds.
pub fn diff_read(
    store: &mut Store,
    now: i64,
    method: &str,
    path: &str,
    primary_status: u16,
    primary_body: &[u8],
    shadow_status: u16,
    shadow_body: &[u8],
    max: usize,
) -> (r: ReadResult)
    requires
        old(store)@.wf(),
    ensures
        final(store)@.wf(),
        ({
            let read = ReadView { method: method@, path: path@, primary_status, shadow_status };
            (final(store)@, r@) == settled(
                old(store)@,
                now,
                read,
                text::lossy(primary_body@),
                text::lossy(shadow_body@),
                read_outcome(read, primary_body@, shadow_body@),
                max as int,
            )
        }),
        (final(store)@, r@) == read_settled(
            old(store)@,
            now,
            (ReadView { method: method@, path: path@, primary_status, shadow_status }),
            primary_body@,
            shadow_body@,
            max as int,
        ),
{
    let p_text = text::lossy_text(primary_body);
    let s_text = text::lossy_text(shadow_body);
    let outcome = diff::compare(
        path,
        primary_status,
        shadow_status,
        p_text.as_str(),
        s_text.as_str(),
    );
    settle_outcome(
        store,
        now,
        method,
        path,
        primary_status,
        shadow_status,
        p_text.as_str(),
        s_text.as_str(),
        &outcome,
        max,
    )
}

// ---------------------------------------------------------------------------
// What the proxy promises

/// The client sees the primary: its status, its body and none but its headers,
/// or a bad gateway where the primary failed.
pub proof fn clients_see_the_primary(primary: Result<ResponseView, Seq<char>>, i: int)
    ensures
        primary matches Ok(res) ==> client_response(primary).status == res.status
            && client_response(primary).body == res.body,
        primary matches Ok(res) ==> (0 <= i < client_response(primary).headers.len()
            ==> res.headers.contains(client_response(primary).headers[i])),
        primary is Err ==> client_response(primary).status == 502,
{
    if let Ok(res) = primary {
        if 0 <= i < client_response(primary).headers.len() {
            filtered_items_come_from_the_sequence(
                res.headers,
                |h: HeaderView| !hop_by_hop(h.name),
                i,
            );
        }
    }
}

proof fn filtered_items_come_from_the_sequence(
    s: Seq<HeaderView>,
    keep: spec_fn(HeaderView) -> bool,
    i: int,
)
    requires
        0 <= i < s.filter(keep).len(),
    ensures
        s.contains(s.filter(keep)[i]),
    decreases s.len(),
{
    reveal(Seq::filter);
    if s.len() > 0 {
        let rest = s.drop_last();
        if i < rest.filter(keep).len() {
            filtered_items_come_from_the_sequence(rest, keep, i);
            let k = rest.index_of(rest.filter(keep)[i]);
            assert(rest[k] == rest.filter(keep)[i]);
            assert(s[k] == rest[k]);
        } else {
            assert(s[s.len() - 1] == s.filter(keep)[i]);
        }
    }
}

/// Every write is owed to the shadow, whatever the primary answers, and a read
/// or an admin request never is.
pub proof fn writes_and_nothing_else_are_queued(s: db::StoreView, now: int, req: RequestView)
    requires
        s.last_queue_id < i64::MAX,
    ensures
        class_of(req.method, req.path) is Write ==> store_after(s, now, req).write_queue.len()
            == s.write_queue.len() + 1 && store_after(s, now, req).write_queue.last().method
            == req.method && store_after(s, now, req).write_queue.last().path == req.target()
            && store_after(s, now, req).write_queue.last().body == req.body,
        !(class_of(req.method, req.path) is Write) ==> store_after(s, now, req) == s,
{
}

/// Every difference is recorded, whatever the bodies and wherever they are cut,
/// and responses that agree leave no trace.
pub proof fn every_difference_is_recorded(
    s: db::StoreView,
    now: i64,
    read: ReadView,
    p_text: Seq<char>,
    s_text: Seq<char>,
    o: diff::OutcomeView,
    max: int,
)
    requires
        s.last_diff_id < i64::MAX,
    ensures
        ({
            let (after, res) = settled(s, now, read, p_text, s_text, o, max);
            let id = s.last_diff_id + 1;
            &&& o.diverged ==> {
                &&& res is Recorded
                &&& after.diffs.len() == s.diffs.len() + 1
                &&& after.diffs.last().detail == read_diff(
                    id,
                    now as int,
                    read,
                    p_text,
                    s_text,
                    o,
                    max,
                ).detail
            }
            &&& !o.diverged ==> res is Same && after == s
        }),
{
}

/// An alert is raised exactly for a critical difference that was recorded, and
/// the difference is then claimed, so that it is not announced again.
pub proof fn alerts_are_for_claimed_critical_differences(
    s: db::StoreView,
    now: i64,
    read: ReadView,
    p_text: Seq<char>,
    s_text: Seq<char>,
    o: diff::OutcomeView,
    max: int,
)
    requires
        s.wf(),
    ensures
        ({
            let (after, res) = settled(s, now, read, p_text, s_text, o, max);
            res matches ReadResultView::Recorded { severity, id, alert } ==> {
                &&& (alert is Some <==> severity is Critical)
                &&& (alert is Some ==> !db::claimable(after, id))
                &&& (alert is None ==> db::claimable(after, id))
                &&& after.diffs.len() == s.diffs.len() + 1
            }
        }),
{
    let id = s.last_diff_id + 1;
    let d = read_diff(id, now as int, read, p_text, s_text, o, max);
    if o.diverged && s.last_diff_id < i64::MAX {
        laws::recorded_difference_reads_back(s, d);
        let recorded = db::recorded(s, d);
        let ids = db::diff_ids(recorded.diffs);
        let k = ids.index_of(id);
        assert(ids[k] == id);
        if o.severity is Critical {
            let after = db::claimed(recorded, id, now);
            assert(db::diff_ids(after.diffs) == ids);
        }
    }
}

/// Cookies pass through: what the client sends reaches the backend, and what
/// the primary sets reaches the client.
pub proof fn cookies_pass_through(
    base: Seq<char>,
    req: RequestView,
    res: ResponseView,
    i: int,
    j: int,
)
    requires
        0 <= i < req.headers.len(),
        req.headers[i].name == "cookie"@,
        0 <= j < res.headers.len(),
        res.headers[j].name == "set-cookie"@,
    ensures
        upstream(base, req).headers.contains(req.headers[i]),
        client_response(Ok(res)).headers.contains(res.headers[j]),
{
    cookies_are_end_to_end();
    req.headers.lemma_filter_contains(|h: HeaderView| forwarded(h.name), i);
    res.headers.lemma_filter_contains(|h: HeaderView| !hop_by_hop(h.name), j);
}

proof fn cookies_are_end_to_end()
    ensures
        !hop_by_hop("cookie"@),
        !hop_by_hop("set-cookie"@),
{
    reveal_strlit("cookie");
    reveal_strlit("set-cookie");
    reveal_strlit("host");
    reveal_strlit("connection");
    reveal_strlit("keep-alive");
    reveal_strlit("transfer-encoding");
    reveal_strlit("te");
    reveal_strlit("trailer");
    reveal_strlit("upgrade");
    reveal_strlit("proxy-authorization");
    reveal_strlit("proxy-authenticate");
    assert("cookie"@[1] == 'o' && "set-cookie"@[0] == 's');
    assert("host"@[0] == 'h');
    assert("connection"@[0] == 'c' && "connection"@.len() == 10);
    assert("keep-alive"@[0] == 'k');
    assert("transfer-encoding"@[0] == 't');
    assert("te"@[0] == 't');
    assert("trailer"@[0] == 't');
    assert("upgrade"@[0] == 'u');
    assert("proxy-authorization"@[0] == 'p');
    assert("proxy-authenticate"@[0] == 'p');
    assert("cookie"@[0] == 'c' && "cookie"@.len() == 6);
}

/// No header that concerns one connection only is passed on, in either
/// direction.
pub proof fn connection_headers_stay_behind(
    base: Seq<char>,
    req: RequestView,
    res: ResponseView,
    h: HeaderView,
)
    requires
        hop_by_hop(h.name),
    ensures
        !upstream(base, req).headers.contains(h),
        !client_response(Ok(res)).headers.contains(h),
{
    let sent = upstream(base, req).headers;
    if sent.contains(h) {
        req.headers.lemma_filter_pred(|h: HeaderView| forwarded(h.name), sent.index_of(h));
    }
    let returned = client_response(Ok(res)).headers;
    if returned.contains(h) {
        res.headers.lemma_filter_pred(|h: HeaderView| !hop_by_hop(h.name), returned.index_of(h));
    }
}

/// The kinds of requests: the four mutations are writes, whatever is asked of
/// the admin endpoints is admin, every other GET is a read, and the rest is
/// neither.
pub proof fn requests_have_their_kind(method: Seq<char>, path: Seq<char>)
    ensures
        class_of(method, path) is Write <==> (method == "POST"@ && path == "/users"@) || (method
            == "POST"@ && path == "/tweets"@) || (method == "POST"@ && path == "/follow"@) || (
        method == "DELETE"@ && path == "/follow"@),
        class_of(method, path) is Admin <==> "/_admin/"@.is_prefix_of(path),
        class_of(method, path) is Read <==> method == "GET"@ && !"/_admin/"@.is_prefix_of(path),
{
    reveal_strlit("/_admin/");
    reveal_strlit("/users");
    reveal_strlit("/tweets");
    reveal_strlit("/follow");
    reveal_strlit("POST");
    reveal_strlit("DELETE");
    reveal_strlit("GET");
    assert("/users"@[1] == 'u' && "/tweets"@[1] == 't' && "/follow"@[1] == 'f');
    assert("POST"@[0] == 'P' && "DELETE"@[0] == 'D' && "GET"@[0] == 'G');
    assert("/_admin/"@[1] == '_');
    if "/_admin/"@.is_prefix_of(path) {
        assert(path[1] == '_');
    }
}

/// Each kind is counted under a label of its own.
pub proof fn kinds_have_their_labels(a: Class, b: Class)
    ensures
        class_name(a) == class_name(b) <==> a == b,
        a is Write <==> class_name(a) == "write"@,
        a is Read <==> class_name(a) == "read"@,
        a is Admin <==> class_name(a) == "admin"@,
        a is Other <==> class_name(a) == "other"@,
{
    reveal_strlit("write");
    reveal_strlit("read");
    reveal_strlit("admin");
    reveal_strlit("other");
    assert("write"@[0] == 'w' && "read"@[0] == 'r' && "admin"@[0] == 'a' && "other"@[0] == 'o');
}

/// Nine headers concern one connection only.
pub proof fn nine_headers_are_hop_by_hop(name: Seq<char>)
    ensures
        hop_by_hop(name) <==> seq![
            "host"@,
            "connection"@,
            "keep-alive"@,
            "transfer-encoding"@,
            "te"@,
            "trailer"@,
            "upgrade"@,
            "proxy-authorization"@,
            "proxy-authenticate"@,
        ].contains(name),
{
    let nine = seq![
        "host"@,
        "connection"@,
        "keep-alive"@,
        "transfer-encoding"@,
        "te"@,
        "trailer"@,
        "upgrade"@,
        "proxy-authorization"@,
        "proxy-authenticate"@,
    ];
    assert(nine[0] == "host"@ && nine[1] == "connection"@ && nine[2] == "keep-alive"@);
    assert(nine[3] == "transfer-encoding"@ && nine[4] == "te"@ && nine[5] == "trailer"@);
    assert(nine[6] == "upgrade"@ && nine[7] == "proxy-authorization"@ && nine[8]
        == "proxy-authenticate"@);
}

/// A backend is told what the client accepts, who it is and what it sends, and
/// every header of the client's own making, which begins with `x-`.
pub proof fn request_headers_are_chosen_by_name(name: Seq<char>)
    ensures
        forwarded(name) <==> "x-"@.is_prefix_of(name) || seq![
            "accept"@,
            "accept-encoding"@,
            "accept-language"@,
            "authorization"@,
            "content-type"@,
            "content-length"@,
            "cookie"@,
            "user-agent"@,
        ].contains(name),
{
    let chosen = seq![
        "accept"@,
        "accept-encoding"@,
        "accept-language"@,
        "authorization"@,
        "content-type"@,
        "content-length"@,
        "cookie"@,
        "user-agent"@,
    ];
    assert(chosen[0] == "accept"@ && chosen[1] == "accept-encoding"@ && chosen[2]
        == "accept-language"@);
    assert(chosen[3] == "authorization"@ && chosen[4] == "content-type"@ && chosen[5]
        == "content-length"@);
    assert(chosen[6] == "cookie"@ && chosen[7] == "user-agent"@);
    reveal_strlit("x-");
    reveal_strlit("x-admin-token");
    assert("x-"@.is_prefix_of("x-admin-token"@));
    chosen_headers_are_not_hop_by_hop(name);
}

proof fn chosen_headers_are_not_hop_by_hop(name: Seq<char>)
    ensures
        hop_by_hop(name) ==> !"x-"@.is_prefix_of(name) && name != "accept"@ && name
            != "accept-encoding"@ && name != "accept-language"@ && name != "authorization"@
            && name != "content-type"@ && name != "content-length"@ && name != "cookie"@
            && name != "user-agent"@,
{
    reveal_strlit("x-");
    reveal_strlit("accept");
    reveal_strlit("accept-encoding");
    reveal_strlit("accept-language");
    reveal_strlit("authorization");
    reveal_strlit("content-type");
    reveal_strlit("content-length");
    reveal_strlit("cookie");
    reveal_strlit("user-agent");
    reveal_strlit("host");
    reveal_strlit("connection");
    reveal_strlit("keep-alive");
    reveal_strlit("transfer-encoding");
    reveal_strlit("te");
    reveal_strlit("trailer");
    reveal_strlit("upgrade");
    reveal_strlit("proxy-authorization");
    reveal_strlit("proxy-authenticate");
    assert("x-"@[0] == 'x');
    assert("accept"@[0] == 'a' && "accept-encoding"@[0] == 'a' && "accept-language"@[0] == 'a');
    assert("authorization"@[0] == 'a' && "user-agent"@[1] == 's' && "upgrade"@[1] == 'p');
    assert("content-type"@.len() == 12 && "content-length"@.len() == 14 && "cookie"@.len() == 6);
    assert("connection"@.len() == 10 && "connection"@[0] == 'c');
    assert("host"@[0] == 'h' && "keep-alive"@[0] == 'k' && "transfer-encoding"@[0] == 't');
    assert("te"@[0] == 't' && "trailer"@[0] == 't' && "upgrade"@[0] == 'u');
    assert("proxy-authorization"@[0] == 'p' && "proxy-authenticate"@[0] == 'p');
    assert("content-type"@[0] == 'c' && "content-length"@[0] == 'c' && "cookie"@[0] == 'c');
    assert("user-agent"@[0] == 'u');
    if "x-"@.is_prefix_of(name) {
        assert(name[0] == 'x');
    }
}

/// Every request reaches a backend as the client made it: the same method, the
/// backend's address followed by exactly the path and query that were asked
/// for, and the same body where there is one.
pub proof fn requests_are_sent_as_they_came(base: Seq<char>, req: RequestView)
    ensures
        ({
            let sent = upstream(base, req);
            &&& sent.method == req.method
            &&& req.path_and_query matches Some(target) ==> sent.url == base + target
            &&& req.path_and_query is None ==> sent.url == base + req.path
            &&& sent.body is Some <==> req.body.len() > 0
            &&& sent.body matches Some(body) ==> body == req.body
        }),
{
}

/// Both backends are sent the same request, each at its own address.
pub proof fn backends_are_sent_the_same(
    primary: Seq<char>,
    shadow: Seq<char>,
    req: RequestView,
)
    ensures
        ({
            let (p, s) = (upstream(primary, req), upstream(shadow, req));
            &&& p.method == s.method
            &&& p.headers == s.headers
            &&& p.body == s.body
            &&& p.url.skip(primary.len() as int) == s.url.skip(shadow.len() as int)
            &&& primary.is_prefix_of(p.url)
            &&& shadow.is_prefix_of(s.url)
        }),
{
    let target = match req.path_and_query {
        Some(t) => t,
        None => req.path,
    };
    assert((primary + target).skip(primary.len() as int) == target);
    assert((shadow + target).skip(shadow.len() as int) == target);
}

/// A request with other headers.
pub open spec fn with_headers(req: RequestView, headers: Seq<HeaderView>) -> RequestView {
    RequestView { headers, ..req }
}

/// A request's headers are passed on one by one, in their order: each of them
/// is or is not, by its name alone, and none is added.
pub proof fn request_headers_are_passed_one_by_one(
    base: Seq<char>,
    req: RequestView,
    a: Seq<HeaderView>,
    b: Seq<HeaderView>,
    h: HeaderView,
)
    ensures
        upstream(base, with_headers(req, a + b)).headers == upstream(
            base,
            with_headers(req, a),
        ).headers + upstream(base, with_headers(req, b)).headers,
        upstream(base, with_headers(req, Seq::empty())).headers.len() == 0,
        forwarded(h.name) ==> upstream(base, with_headers(req, seq![h])).headers == seq![h],
        !forwarded(h.name) ==> upstream(base, with_headers(req, seq![h])).headers.len() == 0,
{
    let keep = |h: HeaderView| forwarded(h.name);
    Seq::filter_distributes_over_add(a, b, keep);
    reveal(Seq::filter);
    assert(seq![h].drop_last() == Seq::<HeaderView>::empty());
    assert(Seq::<HeaderView>::empty().filter(keep) =~= Seq::empty());
    assert(seq![h].filter(keep) =~= if keep(h) {
        seq![h]
    } else {
        Seq::empty()
    });
}

/// A response's headers are passed on one by one, in their order: all but those
/// that concern one connection only, and none is added.
pub proof fn response_headers_are_passed_one_by_one(
    status: u16,
    body: Seq<u8>,
    a: Seq<HeaderView>,
    b: Seq<HeaderView>,
    h: HeaderView,
)
    ensures
        ({
            let shown = |headers: Seq<HeaderView>|
                client_response(Ok(ResponseView { status, headers, body })).headers;
            &&& shown(a + b) == shown(a) + shown(b)
            &&& shown(Seq::empty()).len() == 0
            &&& !hop_by_hop(h.name) ==> shown(seq![h]) == seq![h]
            &&& hop_by_hop(h.name) ==> shown(seq![h]).len() == 0
        }),
{
    let keep = |h: HeaderView| !hop_by_hop(h.name);
    Seq::filter_distributes_over_add(a, b, keep);
    reveal(Seq::filter);
    assert(seq![h].drop_last() == Seq::<HeaderView>::empty());
    assert(Seq::<HeaderView>::empty().filter(keep) =~= Seq::empty());
    assert(seq![h].filter(keep) =~= if keep(h) {
        seq![h]
    } else {
        Seq::empty()
    });
}

/// The client gets the primary's answer whatever its status is, and a readable
/// message where there is none.
pub proof fn clients_get_an_answer(primary: Result<ResponseView, Seq<char>>)
    ensures
        ({
            let r = client_response(primary);
            &&& primary matches Ok(res) ==> r.status == res.status && r.body == res.body
            &&& primary matches Err(e) ==> {
                &&& r.status == 502
                &&& r.body == utf8::encode_utf8("primary upstream: "@ + e)
                &&& r.headers.len() == 1
                &&& r.headers[0].name == "content-type"@
                &&& r.headers[0].value == utf8::encode_utf8("text/plain; charset=utf-8"@)
            }
        }),
{
}

/// A header's value is read as text exactly where every byte is a visible ASCII
/// character or a tab, and then character by character.
pub proof fn visible_values_read_as_text(value: Seq<u8>)
    ensures
        value_text(value) is Some <==> (forall|i: int|
            0 <= i < value.len() ==> (32 <= #[trigger] value[i] <= 126 || value[i] == 9)),
        value_text(value) matches Some(t) ==> t.len() == value.len() && (forall|i: int|
            0 <= i < value.len() ==> (#[trigger] t[i]) as int == value[i] as int),
{
    if forall|i: int| 0 <= i < value.len() ==> (32 <= #[trigger] value[i] <= 126 || value[i] == 9) {
        assert forall|i: int| 0 <= i < value.len() implies visible(#[trigger] value[i]) by {}
    }
    if value_text(value) is Some {
        assert forall|i: int| 0 <= i < value.len() implies (32 <= #[trigger] value[i] <= 126
            || value[i] == 9) by {
            assert(visible(value[i]));
        }
    }
}

/// The content type of a request is the value of the first header of that name.
pub proof fn first_content_type_counts(headers: Seq<HeaderView>, i: int)
    ensures
        0 <= i < headers.len() && headers[i].name == "content-type"@ && (forall|j: int|
            0 <= j < i ==> (#[trigger] headers[j]).name != "content-type"@) ==> content_type_of(
            headers,
        ) == value_text(headers[i].value),
        (forall|j: int|
            0 <= j < headers.len() ==> (#[trigger] headers[j]).name != "content-type"@)
            ==> content_type_of(headers) is None,
    decreases headers.len(),
{
    if headers.len() > 0 {
        let rest = headers.drop_first();
        first_content_type_counts(rest, i - 1);
        assert(headers[0] == headers[0]);
        if 0 <= i < headers.len() && headers[i].name == "content-type"@ && (forall|j: int|
            0 <= j < i ==> (#[trigger] headers[j]).name != "content-type"@) {
            if i > 0 {
                assert(rest[i - 1] == headers[i]);
                assert forall|j: int| 0 <= j < i - 1 implies (#[trigger] rest[j]).name
                    != "content-type"@ by {
                    assert(rest[j] == headers[j + 1]);
                }
            }
        }
        if forall|j: int| 0 <= j < headers.len() ==> (#[trigger] headers[j]).name
            != "content-type"@ {
            assert forall|j: int| 0 <= j < rest.len() implies (#[trigger] rest[j]).name
                != "content-type"@ by {
                assert(rest[j] == headers[j + 1]);
            }
        }
    }
}

/// Every sampled read that the primary answered is compared, whatever it
/// answered, and nothing else ever is.
pub proof fn sampled_reads_are_compared(
    req: RequestView,
    primary: Result<ResponseView, Seq<char>>,
    sampled: bool,
)
    ensures
        req.method == "GET"@ && !"/_admin/"@.is_prefix_of(req.path) && sampled ==> (
        primary matches Ok(res) ==> comparison(req, primary, sampled) == Some(res.status)),
        comparison(req, primary, sampled) is Some ==> req.method == "GET"@
            && !"/_admin/"@.is_prefix_of(req.path) && sampled && primary is Ok,
{
    requests_have_their_kind(req.method, req.path);
}

/// A write is queued as the client made it, due at once and never tried, behind
/// all others; nothing else in the store changes, and nothing but a write
/// changes the store.
pub proof fn writes_are_queued_as_they_came(s: db::StoreView, now: int, req: RequestView)
    requires
        s.last_queue_id < i64::MAX,
    ensures
        ({
            let after = store_after(s, now, req);
            let write = (req.method == "POST"@ && (req.path == "/users"@ || req.path == "/tweets"@
                || req.path == "/follow"@)) || (req.method == "DELETE"@ && req.path
                == "/follow"@);
            let row = after.write_queue.last();
            &&& !write ==> after == s
            &&& write ==> {
                &&& after.write_queue.len() == s.write_queue.len() + 1
                &&& after.write_queue.drop_last() == s.write_queue
                &&& row.id == s.last_queue_id + 1
                &&& row.enqueued_at_ns == now
                &&& row.next_attempt_at_ns == now
                &&& row.attempts == 0
                &&& row.last_error is None
                &&& row.method == req.method
                &&& req.path_and_query matches Some(t) ==> row.path == t
                &&& req.path_and_query is None ==> row.path == req.path
                &&& row.body == req.body
                &&& row.content_type == content_type_of(req.headers)
                &&& after.last_queue_id == s.last_queue_id + 1
                &&& after.failed_writes == s.failed_writes
                &&& after.last_failed_id == s.last_failed_id
                &&& after.diffs == s.diffs
                &&& after.last_diff_id == s.last_diff_id
                &&& after.backend_state == s.backend_state
            }
        }),
{
    requests_have_their_kind(req.method, req.path);
    assert(store_after(s, now, req).write_queue.drop_last() =~= s.write_queue || store_after(
        s,
        now,
        req,
    ) == s);
}

/// A difference is recorded with what was asked for, both statuses, both bodies
/// cut to size, what the comparison found, and when; behind all others, and
/// nothing else in the store changes.
pub proof fn differences_are_recorded_as_found(
    s: db::StoreView,
    now: i64,
    read: ReadView,
    p_text: Seq<char>,
    s_text: Seq<char>,
    o: diff::OutcomeView,
    max: int,
)
    requires
        s.wf(),
        s.last_diff_id < i64::MAX,
        o.diverged,
    ensures
        ({
            let (after, res) = settled(s, now, read, p_text, s_text, o, max);
            let d = after.diffs.last().detail;
            &&& res matches ReadResultView::Recorded { severity, id, .. } && severity == o.severity
                && id == s.last_diff_id + 1
            &&& after.diffs.drop_last() == s.diffs
            &&& d.id == s.last_diff_id + 1
            &&& d.observed_at_ns == now
            &&& d.method == read.method
            &&& d.path == read.path
            &&& d.primary_status == Some(read.primary_status as i64)
            &&& d.shadow_status == Some(read.shadow_status as i64)
            &&& d.primary_body == Some(shortened(p_text, max))
            &&& d.shadow_body == Some(shortened(s_text, max))
            &&& d.diff_blob == o.blob
            &&& d.severity == diff::severity_name(o.severity)
            &&& d.descended_from_failed_write_id is None
            &&& after.last_diff_id == s.last_diff_id + 1
            &&& after.write_queue == s.write_queue
            &&& after.last_queue_id == s.last_queue_id
            &&& after.failed_writes == s.failed_writes
            &&& after.last_failed_id == s.last_failed_id
            &&& after.backend_state == s.backend_state
        }),
{
    let id = s.last_diff_id + 1;
    let d = read_diff(id, now as int, read, p_text, s_text, o, max);
    laws::recorded_difference_reads_back(s, d);
    let recorded = db::recorded(s, d);
    let ids = db::diff_ids(recorded.diffs);
    assert(ids.last() == id);
    if ids.index_of(id) != ids.len() - 1 {
        assert(ids[ids.index_of(id)] == id);
        assert(ids[ids.index_of(id)] == db::diff_ids(s.diffs)[ids.index_of(id)]);
    }
    assert(settled(s, now, read, p_text, s_text, o, max).0.diffs.drop_last() =~= s.diffs);
}

/// Who is alerted to a critical difference is told which one it is, and the
/// same as was recorded.
pub proof fn alerts_say_what_was_recorded(
    s: db::StoreView,
    now: i64,
    read: ReadView,
    p_text: Seq<char>,
    s_text: Seq<char>,
    o: diff::OutcomeView,
    max: int,
)
    requires
        s.last_diff_id < i64::MAX,
        o.diverged,
    ensures
        settled(s, now, read, p_text, s_text, o, max).1 matches ReadResultView::Recorded {
            alert,
            ..
        } && (alert is Some <==> o.severity == Severity::Critical) && (alert matches Some(a) ==> {
            &&& a.diff_id == s.last_diff_id + 1
            &&& a.severity == "critical"@
            &&& a.request_path == read.path
            &&& a.method == read.method
            &&& a.primary_status == Some(read.primary_status)
            &&& a.shadow_status == Some(read.shadow_status)
            &&& a.observed_at_ns == now
        }),
{
}

/// A read of which the two backends gave different statuses is recorded
/// whatever the bodies were; one to which they gave the same status and the
/// same bytes never is.
pub proof fn reads_are_judged_by_both_answers(
    s: db::StoreView,
    now: i64,
    read: ReadView,
    p_body: Seq<u8>,
    s_body: Seq<u8>,
    max: int,
)
    requires
        s.last_diff_id < i64::MAX,
    ensures
        ({
            let o = read_outcome(read, p_body, s_body);
            let (after, res) = read_settled(s, now, read, p_body, s_body, max);
            &&& (after, res) == settled(
                s,
                now,
                read,
                text::lossy(p_body),
                text::lossy(s_body),
                o,
                max,
            )
            &&& o == diff::outcome(
                read.path,
                read.primary_status,
                read.shadow_status,
                text::lossy(p_body),
                text::lossy(s_body),
            )
            &&& read.primary_status != read.shadow_status ==> res is Recorded && after.diffs.len()
                == s.diffs.len() + 1
            &&& read.primary_status == read.shadow_status && p_body == s_body ==> res is Same
                && after == s
        }),
{
    diff::like_responses_never_diverge(read.path, read.primary_status, text::lossy(p_body));
}

/// A text that fits is kept whole.
pub proof fn texts_that_fit_are_kept_whole(s: Seq<char>, max: int)
    requires
        utf8::encode_utf8(s).len() <= max,
    ensures
        shortened(s, max) == s,
{
}

/// What the client gets back does not depend on what is owed to the shadow, and
/// what is queued for the shadow does not depend on what the primary answered or
/// whether it did, nor on sampling. A write is answered for by its id, and
/// nothing else is.
pub proof fn clients_and_shadow_do_not_meet(
    s: db::StoreView,
    t: db::StoreView,
    now: int,
    req: RequestView,
    primary: Result<ResponseView, Seq<char>>,
    other: Result<ResponseView, Seq<char>>,
    sampled: bool,
)
    requires
        s.last_queue_id < i64::MAX,
    ensures
        ({
            let one = request_settled(s, now, req, primary, sampled);
            &&& one.1 == request_settled(t, now, req, primary, !sampled).1
            &&& one.1 == client_response(primary)
            &&& one.0 == request_settled(s, now, req, other, !sampled).0
            &&& one.0 == store_after(s, now, req)
            &&& one.2 == request_settled(s, now, req, other, !sampled).2
            &&& one.2 is Some <==> class_of(req.method, req.path) is Write
            &&& one.2 matches Some(id) ==> id == Some(s.last_queue_id + 1) && one.0.write_queue.len()
                == s.write_queue.len() + 1 && one.0.write_queue.last().id == s.last_queue_id + 1
            &&& one.3 == comparison(req, primary, sampled)
        }),
{
}

/// Reads are sent to the shadow exactly while it is not written down as degraded.
pub proof fn degraded_shadows_are_not_sampled(s: db::StoreView)
    ensures
        samples(s) <==> !(db::backend_row(s, "shadow"@) matches Some(row) && row.state
            == "degraded"@),
{
}

/// A request whose body cannot be read is a bad request.
pub proof fn unreadable_bodies_are_bad_requests()
    ensures
        bad_body().status == 400,
        bad_body().body == utf8::encode_utf8("request body"@),
        bad_body().headers.len() == 1,
        bad_body().headers[0].name == "content-type"@,
        bad_body().headers[0].value == utf8::encode_utf8("text/plain; charset=utf-8"@),
{
}

/// Requests, responses and headers are seen with all that they hold.
pub proof fn messages_are_seen_whole(
    h: Header,
    req: ClientRequest,
    up: UpstreamRequest,
    res: UpstreamResponse,
    i: int,
)
    ensures
        h@.name == h.name@ && h@.value == h.value@,
        req@.method == req.method@ && req@.path == req.path@ && req@.body == req.body@,
        req@.path_and_query is Some <==> req.path_and_query is Some,
        req.path_and_query matches Some(t) ==> req@.path_and_query == Some(t@),
        req@.headers.len() == req.headers.len(),
        0 <= i < req.headers.len() ==> req@.headers[i] == req.headers@[i]@,
        up@.method == up.method@ && up@.url == up.url@,
        up@.body is Some <==> up.body is Some,
        up.body matches Some(b) ==> up@.body == Some(b@),
        up@.headers.len() == up.headers.len(),
        0 <= i < up.headers.len() ==> up@.headers[i] == up.headers@[i]@,
        res@.status == res.status && res@.body == res.body@,
        res@.headers.len() == res.headers.len(),
        0 <= i < res.headers.len() ==> res@.headers[i] == res.headers@[i]@,
        primary_view(Ok(res)) == Ok::<ResponseView, Seq<char>>(res@),
{
}

/// What came of a read is seen with all that it says.
pub proof fn results_are_seen_whole(r: ReadResult)
    ensures
        r is Same <==> r@ is Same,
        r is Unrecorded <==> r@ is Unrecorded,
        r is Recorded <==> r@ is Recorded,
        r is Unrecorded ==> r@->Unrecorded_severity == r->Unrecorded_severity,
        r is Recorded ==> r@->Recorded_severity == r->Recorded_severity && r@->id == r->id,
        r is Recorded ==> (r@->alert is Some <==> r->alert is Some),
        r is Recorded && r->alert is Some ==> r@->alert->0 == r->alert->0@,
{
}

} // verus!
