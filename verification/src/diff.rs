//! The comparator: decides whether two responses diverge and how much it
//! matters.
//!
//! Bodies are compared as JSON documents where both are documents: object
//! members in any order, array items in order. Other bodies are compared as
//! they stand.
use crate::json;
use crate::json::Json;
use crate::text;
use std::cmp::Ordering;
use vstd::prelude::*;

verus! {

broadcast use vstd::string::group_string_axioms;

/// How much a divergence matters, from the least to the most.
#[derive(Clone, Copy, Debug, PartialEq, Eq, Ord, Structural)]
pub enum Severity {
    Noise,
    Low,
    Medium,
    High,
    Critical,
}

/// The name of a severity in records, filters and metrics.
pub open spec fn severity_name(s: Severity) -> Seq<char> {
    match s {
        Severity::Critical => "critical"@,
        Severity::High => "high"@,
        Severity::Medium => "medium"@,
        Severity::Low => "low"@,
        Severity::Noise => "noise"@,
    }
}

/// The place of a severity in the order.
pub open spec fn rank(s: Severity) -> int {
    match s {
        Severity::Critical => 5,
        Severity::High => 4,
        Severity::Medium => 3,
        Severity::Low => 2,
        Severity::Noise => 1,
    }
}

impl Severity {
    pub fn as_str(&self) -> (r: &'static str)
        ensures
            r@ == severity_name(*self),
    {
        match self {
            Severity::Critical => "critical",
            Severity::High => "high",
            Severity::Medium => "medium",
            Severity::Low => "low",
            Severity::Noise => "noise",
        }
    }

    fn weight(&self) -> (r: u8)
        ensures
            r == rank(*self),
    {
        match self {
            Severity::Critical => 5,
            Severity::High => 4,
            Severity::Medium => 3,
            Severity::Low => 2,
            Severity::Noise => 1,
        }
    }
}

impl PartialOrd for Severity {
    fn partial_cmp(&self, other: &Self) -> (r: Option<Ordering>) {
        let a: u8 = self.weight();
        let b: u8 = other.weight();
        if a < b {
            Some(Ordering::Less)
        } else if a > b {
            Some(Ordering::Greater)
        } else {
            Some(Ordering::Equal)
        }
    }
}

impl vstd::std_specs::cmp::PartialOrdSpecImpl for Severity {
    open spec fn obeys_partial_cmp_spec() -> bool {
        true
    }

    open spec fn partial_cmp_spec(&self, other: &Severity) -> Option<Ordering> {
        if rank(*self) < rank(*other) {
            Some(Ordering::Less)
        } else if rank(*self) > rank(*other) {
            Some(Ordering::Greater)
        } else {
            Some(Ordering::Equal)
        }
    }
}

/// What the comparator found.
#[derive(Clone, Debug, PartialEq, Eq)]
pub struct DiffOutcome {
    pub diverged: bool,
    pub severity: Severity,
    /// A short JSON description of the difference; empty where there is none.
    pub blob: String,
}

pub struct OutcomeView {
    pub diverged: bool,
    pub severity: Severity,
    pub blob: Seq<char>,
}

impl View for DiffOutcome {
    type V = OutcomeView;

    open spec fn view(&self) -> OutcomeView {
        OutcomeView { diverged: self.diverged, severity: self.severity, blob: self.blob@ }
    }
}

// ---------------------------------------------------------------------------
// How much a divergence matters

/// Divergence on what users read matters most; version and health pages differ
/// between implementations as a matter of course.
pub open spec fn path_severity(path: Seq<char>) -> Severity {
    if "/timeline"@.is_prefix_of(path) || "/u/"@.is_prefix_of(path) {
        Severity::High
    } else if path == "/version"@ || path == "/healthz"@ {
        Severity::Noise
    } else {
        Severity::Medium
    }
}

pub open spec fn more_severe(a: Severity, b: Severity) -> Severity {
    if rank(b) >= rank(a) {
        b
    } else {
        a
    }
}

/// A server error on either side is critical; a different class of status is
/// at least high; otherwise the path decides.
pub open spec fn status_severity(path: Seq<char>, p: u16, s: u16) -> Severity {
    if p >= 500 || s >= 500 {
        Severity::Critical
    } else if p / 100 != s / 100 {
        more_severe(path_severity(path), Severity::High)
    } else {
        path_severity(path)
    }
}

pub fn severity_for_path(path: &str) -> (r: Severity)
    ensures
        r == path_severity(path@),
{
    if text::has_prefix(path, "/timeline") || text::has_prefix(path, "/u/") {
        return Severity::High;
    }
    if text::same_text(path, "/version") || text::same_text(path, "/healthz") {
        return Severity::Noise;
    }
    Severity::Medium
}

pub fn severity_for_status_diff(path: &str, p: u16, s: u16) -> (r: Severity)
    ensures
        r == status_severity(path@, p, s),
{
    if p >= 500 || s >= 500 {
        return Severity::Critical;
    }
    let by_path = severity_for_path(path);
    if p / 100 != s / 100 && by_path < Severity::High {
        return Severity::High;
    }
    by_path
}

// ---------------------------------------------------------------------------
// Comparison

/// A document without the members of a version page that differ between two
/// implementations, or from one moment to the next.
pub open spec fn masked(t: json::Tree) -> json::Tree {
    match t {
        json::Tree::Object(m) => json::Tree::Object(
            m.remove("image_digest"@).remove("git_sha"@).remove("process_uptime_seconds"@).remove(
                "captured_at_unix_nanos"@,
            ),
        ),
        other => other,
    }
}

pub fn mask_version_fields(v: &mut Json)
    requires
        old(v).wf(),
    ensures
        final(v).wf(),
        final(v).tree() == masked(old(v).tree()),
{
    json::remove_member(v, "image_digest");
    json::remove_member(v, "git_sha");
    json::remove_member(v, "process_uptime_seconds");
    json::remove_member(v, "captured_at_unix_nanos");
}

pub open spec fn no_difference() -> OutcomeView {
    OutcomeView { diverged: false, severity: Severity::Noise, blob: Seq::empty() }
}

pub open spec fn difference(severity: Severity, blob: Seq<char>) -> OutcomeView {
    OutcomeView { diverged: true, severity, blob }
}

/// The blob for two different statuses.
pub open spec fn status_blob(p: u16, s: u16) -> Seq<char> {
    "{\"kind\":\"status\",\"primary\":"@ + text::decimal(p as nat) + ",\"shadow\":"@
        + text::decimal(s as nat) + "}"@
}

/// The document that describes two different documents.
pub open spec fn json_blob(p: json::Tree, s: json::Tree) -> json::Tree {
    json::Tree::Object(
        map!["kind"@ => json::Tree::Text("json"@), "primary"@ => p, "shadow"@ => s],
    )
}

/// The blob for two different texts: their lengths in bytes.
pub open spec fn text_blob(p: Seq<char>, s: Seq<char>) -> Seq<char> {
    "{\"kind\":\"text\",\"primary_len\":"@ + text::decimal(vstd::utf8::encode_utf8(p).len())
        + ",\"shadow_len\":"@ + text::decimal(vstd::utf8::encode_utf8(s).len()) + "}"@
}

/// The parts of two documents that count on a path.
pub open spec fn compared_part(path: Seq<char>, t: json::Tree) -> json::Tree {
    if path == "/version"@ {
        masked(t)
    } else {
        t
    }
}

/// What comparing two documents finds.
pub open spec fn document_outcome(path: Seq<char>, p: json::Tree, s: json::Tree) -> OutcomeView {
    let p = compared_part(path, p);
    let s = compared_part(path, s);
    if json::equal_trees(p, s) {
        no_difference()
    } else {
        difference(path_severity(path), json::compact(json_blob(p, s)))
    }
}

/// What comparing two texts finds.
pub open spec fn text_outcome(path: Seq<char>, p: Seq<char>, s: Seq<char>) -> OutcomeView {
    if p == s {
        no_difference()
    } else {
        difference(path_severity(path), text_blob(p, s))
    }
}

/// What comparing two bodies finds, given the document, if any, that each is.
pub open spec fn body_outcome(
    path: Seq<char>,
    p_doc: Option<json::Tree>,
    s_doc: Option<json::Tree>,
    p: Seq<char>,
    s: Seq<char>,
) -> OutcomeView {
    match (p_doc, s_doc) {
        (Some(pd), Some(sd)) => document_outcome(path, pd, sd),
        _ => text_outcome(path, p, s),
    }
}

/// What comparing two responses finds.
pub open spec fn outcome(
    path: Seq<char>,
    p_status: u16,
    s_status: u16,
    p: Seq<char>,
    s: Seq<char>,
) -> OutcomeView {
    if p_status != s_status {
        difference(status_severity(path, p_status, s_status), status_blob(p_status, s_status))
    } else {
        body_outcome(path, json::parsed(p), json::parsed(s), p, s)
    }
}

fn same() -> (r: DiffOutcome)
    ensures
        r@ == no_difference(),
{
    DiffOutcome { diverged: false, severity: Severity::Noise, blob: String::new() }
}

fn describe_documents(p: Json, s: Json) -> (r: Json)
    ensures
        r.tree() == json_blob(p.tree(), s.tree()),
{
    let ghost pt = p.tree();
    let ghost st = s.tree();
    let mut entries: Vec<(String, Json)> = Vec::new();
    entries.push(("kind".to_owned(), Json::text("json")));
    entries.push(("primary".to_owned(), p));
    entries.push(("shadow".to_owned(), s));
    proof {
        let ps = json::pairs(entries@);
        reveal_with_fuel(json::members, 4);
        assert(ps == seq![("kind"@, json::Tree::Text("json"@)), ("primary"@, pt), ("shadow"@, st)]);
        assert(ps.drop_last() == seq![("kind"@, json::Tree::Text("json"@)), ("primary"@, pt)]);
        assert(ps.drop_last().drop_last() == seq![("kind"@, json::Tree::Text("json"@))]);
        assert(ps.drop_last().drop_last().drop_last() == Seq::<(Seq<char>, json::Tree)>::empty());
    }
    Json::Object(entries)
}

/// Compares two documents found at `path`.
pub fn compare_documents(path: &str, p: Json, s: Json) -> (r: DiffOutcome)
    requires
        p.wf(),
        s.wf(),
    ensures
        r@ == document_outcome(path@, p.tree(), s.tree()),
        r.diverged <==> r.blob@.len() > 0,
{
    let mut p = p;
    let mut s = s;
    if text::same_text(path, "/version") {
        mask_version_fields(&mut p);
        mask_version_fields(&mut s);
    }
    if json::json_equal(&p, &s) {
        return same();
    }
    let blob = json::write_compact(describe_documents(p, s));
    DiffOutcome { diverged: true, severity: severity_for_path(path), blob }
}

/// Compares two texts found at `path`.
pub fn compare_texts(path: &str, p: &str, s: &str) -> (r: DiffOutcome)
    ensures
        r@ == text_outcome(path@, p@, s@),
        r.diverged <==> r.blob@.len() > 0,
{
    if text::same_text(p, s) {
        return same();
    }
    let mut blob = String::new();
    blob.append("{\"kind\":\"text\",\"primary_len\":");
    text::push_u64(&mut blob, text::byte_len(p) as u64);
    blob.append(",\"shadow_len\":");
    text::push_u64(&mut blob, text::byte_len(s) as u64);
    blob.append("}");
    assert(blob@ == text_blob(p@, s@));
    proof {
        reveal_strlit("}");
    }
    DiffOutcome { diverged: true, severity: severity_for_path(path), blob }
}

/// Compares two bodies of equal status, given the document, if any, that each
/// is.
pub fn compare_bodies(
    path: &str,
    p_doc: Option<Json>,
    s_doc: Option<Json>,
    primary_body: &str,
    shadow_body: &str,
) -> (r: DiffOutcome)
    requires
        p_doc matches Some(p) ==> p.wf(),
        s_doc matches Some(s) ==> s.wf(),
    ensures
        r@ == body_outcome(
            path@,
            (match p_doc {
                Some(p) => Some(p.tree()),
                None => None,
            }),
            (match s_doc {
                Some(s) => Some(s.tree()),
                None => None,
            }),
            primary_body@,
            shadow_body@,
        ),
        r.diverged <==> r.blob@.len() > 0,
{
    match (p_doc, s_doc) {
        (Some(p), Some(s)) => compare_documents(path, p, s),
        _ => compare_texts(path, primary_body, shadow_body),
    }
}

/// Compares two responses to a request for `path`. A difference is described,
/// and nothing else is.
pub fn compare(
    path: &str,
    primary_status: u16,
    shadow_status: u16,
    primary_body: &str,
    shadow_body: &str,
) -> (r: DiffOutcome)
    ensures
        r@ == outcome(path@, primary_status, shadow_status, primary_body@, shadow_body@),
        r.diverged <==> r.blob@.len() > 0,
{
    if primary_status != shadow_status {
        let mut blob = String::new();
        blob.append("{\"kind\":\"status\",\"primary\":");
        text::push_u64(&mut blob, primary_status as u64);
        blob.append(",\"shadow\":");
        text::push_u64(&mut blob, shadow_status as u64);
        blob.append("}");
        assert(blob@ == status_blob(primary_status, shadow_status));
        proof {
            reveal_strlit("}");
        }
        return DiffOutcome {
            diverged: true,
            severity: severity_for_status_diff(path, primary_status, shadow_status),
            blob,
        };
    }
    compare_bodies(
        path,
        json::parse(primary_body),
        json::parse(shadow_body),
        primary_body,
        shadow_body,
    )
}

// ---------------------------------------------------------------------------
// Laws

/// Two responses that are alike never diverge, whatever the path.
pub proof fn like_responses_never_diverge(path: Seq<char>, status: u16, body: Seq<char>)
    ensures
        outcome(path, status, status, body, body) == no_difference(),
{
    match json::parsed(body) {
        Some(t) => {
            json::equality_is_reflexive(compared_part(path, t));
        },
        None => {},
    }
}

/// Whether two responses diverge, and how much it matters, does not depend on
/// which one is called primary.
pub proof fn divergence_is_symmetric(
    path: Seq<char>,
    p_status: u16,
    s_status: u16,
    p: Seq<char>,
    s: Seq<char>,
)
    ensures
        ({
            let there = outcome(path, p_status, s_status, p, s);
            let back = outcome(path, s_status, p_status, s, p);
            there.diverged == back.diverged && there.severity == back.severity
        }),
{
    match (json::parsed(p), json::parsed(s)) {
        (Some(pt), Some(st)) => {
            json::equality_is_symmetric(compared_part(path, pt), compared_part(path, st));
        },
        _ => {},
    }
}

/// Responses with different statuses always diverge, and a server error on
/// either side of such a difference is critical.
pub proof fn different_statuses_diverge(
    path: Seq<char>,
    p_status: u16,
    s_status: u16,
    p: Seq<char>,
    s: Seq<char>,
)
    requires
        p_status != s_status,
    ensures
        outcome(path, p_status, s_status, p, s).diverged,
        p_status >= 500 || s_status >= 500 ==> outcome(path, p_status, s_status, p, s).severity
            == Severity::Critical,
{
}

/// Only a difference in status that has a server error on one side is
/// critical.
pub proof fn only_server_errors_are_critical(
    path: Seq<char>,
    p_status: u16,
    s_status: u16,
    p: Seq<char>,
    s: Seq<char>,
)
    requires
        outcome(path, p_status, s_status, p, s).severity == Severity::Critical,
    ensures
        p_status != s_status,
        p_status >= 500 || s_status >= 500,
{
}

/// Version pages that differ in nothing but the members that tell
/// implementations apart do not diverge.
pub proof fn masked_members_never_diverge(p: json::Tree, s: json::Tree)
    requires
        masked(p) == masked(s),
    ensures
        document_outcome("/version"@, p, s) == no_difference(),
{
    json::equality_is_reflexive(masked(p));
}

/// A document pair that differs is reported as diverging, with the severity of
/// its path; one that does not differ is reported as nothing.
pub proof fn documents_diverge_exactly_when_they_differ(
    path: Seq<char>,
    p: json::Tree,
    s: json::Tree,
)
    ensures
        document_outcome(path, p, s).diverged == !json::equal_trees(
            compared_part(path, p),
            compared_part(path, s),
        ),
        !document_outcome(path, p, s).diverged ==> document_outcome(path, p, s) == no_difference(),
        document_outcome(path, p, s).diverged ==> document_outcome(path, p, s).severity
            == path_severity(path),
{
}

/// The five severities have five names.
pub proof fn severities_are_named(a: Severity, b: Severity)
    ensures
        severity_name(a) == severity_name(b) <==> a == b,
        a == Severity::Critical <==> severity_name(a) == "critical"@,
        a == Severity::High <==> severity_name(a) == "high"@,
        a == Severity::Medium <==> severity_name(a) == "medium"@,
        a == Severity::Low <==> severity_name(a) == "low"@,
        a == Severity::Noise <==> severity_name(a) == "noise"@,
{
    reveal_strlit("critical");
    reveal_strlit("high");
    reveal_strlit("medium");
    reveal_strlit("low");
    reveal_strlit("noise");
    assert("critical"@[0] == 'c' && "high"@[0] == 'h' && "medium"@[0] == 'm');
    assert("low"@[0] == 'l' && "noise"@[0] == 'n');
}

/// The severities from the least to the most severe.
pub proof fn severities_are_ordered()
    ensures
        rank(Severity::Noise) < rank(Severity::Low) < rank(Severity::Medium) < rank(
            Severity::High,
        ) < rank(Severity::Critical),
{
}

/// How much a difference in what is found at a path matters: timelines and
/// profiles more than the rest, the version and the health check less.
pub proof fn paths_are_graded(path: Seq<char>)
    ensures
        path_severity(path) == Severity::High <==> "/timeline"@.is_prefix_of(path)
            || "/u/"@.is_prefix_of(path),
        path_severity(path) == Severity::Noise <==> path == "/version"@ || path == "/healthz"@,
        path_severity(path) != Severity::High && path_severity(path) != Severity::Noise
            ==> path_severity(path) == Severity::Medium,
{
    reveal_strlit("/timeline");
    reveal_strlit("/u/");
    reveal_strlit("/version");
    reveal_strlit("/healthz");
    assert("/timeline"@[1] == 't' && "/u/"@[1] == 'u');
    assert("/version"@[1] == 'v' && "/healthz"@[1] == 'h');
    if "/timeline"@.is_prefix_of(path) {
        assert(path[1] == 't');
    }
    if "/u/"@.is_prefix_of(path) {
        assert(path[1] == 'u');
    }
}

/// How much a difference in status matters: most with a server error on either
/// side, at least high between a success, a redirection and a client error, and
/// else as much as the path.
pub proof fn statuses_are_graded(path: Seq<char>, p: u16, s: u16, p_body: Seq<char>, s_body: Seq<char>)
    requires
        p != s,
    ensures
        ({
            let o = outcome(path, p, s, p_body, s_body);
            &&& o.diverged
            &&& o.severity == Severity::Critical <==> p >= 500 || s >= 500
            &&& p < 500 && s < 500 && p / 100 != s / 100 ==> o.severity == Severity::High
            &&& p < 500 && s < 500 && p / 100 == s / 100 ==> o.severity == path_severity(path)
        }),
{
}

/// A difference in status is described by both statuses, the primary's first,
/// and by nothing of the bodies.
pub proof fn status_differences_name_both(
    path: Seq<char>,
    p: u16,
    s: u16,
    p_body: Seq<char>,
    s_body: Seq<char>,
)
    requires
        p != s,
    ensures
        outcome(path, p, s, p_body, s_body).blob == "{\"kind\":\"status\",\"primary\":"@
            + text::decimal(p as nat) + ",\"shadow\":"@ + text::decimal(s as nat) + "}"@,
{
}

/// What the version document says of one build is left out of the comparison:
/// the four members, at the top, and nothing else.
pub proof fn four_members_are_masked(m: Map<Seq<char>, json::Tree>, k: Seq<char>)
    ensures
        masked(json::Tree::Object(m)) is Object,
        ({
            let rest = masked(json::Tree::Object(m))->Object_0;
            let left_out = seq![
                "image_digest"@,
                "git_sha"@,
                "process_uptime_seconds"@,
                "captured_at_unix_nanos"@,
            ];
            &&& rest.contains_key(k) <==> m.contains_key(k) && !left_out.contains(k)
            &&& rest.contains_key(k) ==> rest[k] == m[k]
        }),
{
    let left_out = seq![
        "image_digest"@,
        "git_sha"@,
        "process_uptime_seconds"@,
        "captured_at_unix_nanos"@,
    ];
    assert(left_out[0] == "image_digest"@ && left_out[1] == "git_sha"@);
    assert(left_out[2] == "process_uptime_seconds"@ && left_out[3]
        == "captured_at_unix_nanos"@);
}

/// Only an object has members to mask.
pub proof fn other_documents_are_not_masked(t: json::Tree)
    requires
        !(t is Object),
    ensures
        masked(t) == t,
{
}

/// Two bodies of equal status that are both documents diverge exactly where
/// the documents differ; anywhere but at the version endpoint all of them
/// counts. Documents without doubles differ wherever they are not the same.
pub proof fn documents_are_compared_in_full(
    path: Seq<char>,
    status: u16,
    p: Seq<char>,
    s: Seq<char>,
)
    requires
        json::parsed(p) is Some,
        json::parsed(s) is Some,
    ensures
        ({
            let o = outcome(path, status, status, p, s);
            let (pd, sd) = (json::parsed(p)->0, json::parsed(s)->0);
            &&& path != "/version"@ ==> (o.diverged <==> !json::equal_trees(pd, sd))
            &&& path == "/version"@ ==> (o.diverged <==> !json::equal_trees(
                masked(pd),
                masked(sd),
            ))
            &&& path != "/version"@ && json::without_doubles(pd) ==> (o.diverged <==> pd != sd)
            &&& o.diverged ==> o.severity == path_severity(path)
            &&& !o.diverged ==> o.severity == Severity::Noise && o.blob.len() == 0
        }),
{
    let (pd, sd) = (json::parsed(p)->0, json::parsed(s)->0);
    if json::without_doubles(pd) {
        if json::equal_trees(pd, sd) {
            json::equal_documents_are_the_same(pd, sd);
        }
        if pd == sd {
            json::equality_is_reflexive(pd);
        }
    }
}

/// A difference between documents is described by a document that holds what
/// was compared of both, each under its backend's name.
pub proof fn document_differences_hold_both(
    path: Seq<char>,
    status: u16,
    p: Seq<char>,
    s: Seq<char>,
    described: Map<Seq<char>, json::Tree>,
)
    requires
        json::parsed(p) is Some,
        json::parsed(s) is Some,
        outcome(path, status, status, p, s).diverged,
        forall|k: Seq<char>| #[trigger]
            described.contains_key(k) <==> k == "kind"@ || k == "primary"@ || k == "shadow"@,
        described["kind"@] == json::Tree::Text("json"@),
        path != "/version"@ ==> described["primary"@] == json::parsed(p)->0
            && described["shadow"@] == json::parsed(s)->0,
        path == "/version"@ ==> described["primary"@] == masked(json::parsed(p)->0)
            && described["shadow"@] == masked(json::parsed(s)->0),
    ensures
        outcome(path, status, status, p, s).blob == json::compact(json::Tree::Object(described)),
{
    reveal_strlit("kind");
    reveal_strlit("primary");
    reveal_strlit("shadow");
    assert("kind"@.len() == 4 && "primary"@.len() == 7 && "shadow"@.len() == 6);
    let made = map![
        "kind"@ => json::Tree::Text("json"@),
        "primary"@ => compared_part(path, json::parsed(p)->0),
        "shadow"@ => compared_part(path, json::parsed(s)->0),
    ];
    assert forall|k: Seq<char>| #[trigger] described.contains_key(k) <==> made.contains_key(k) by {}
    assert(described.dom() =~= made.dom()) by {
        assert forall|k: Seq<char>| described.dom().contains(k) == made.dom().contains(k) by {
            assert(described.contains_key(k) <==> made.contains_key(k));
        }
    }
    assert(described =~= made);
}

/// Two bodies of equal status, one of which is not a document, diverge exactly
/// where their texts differ, and the difference names both lengths in bytes,
/// the primary's first.
pub proof fn texts_are_compared_character_by_character(
    path: Seq<char>,
    status: u16,
    p: Seq<char>,
    s: Seq<char>,
)
    requires
        json::parsed(p) is None || json::parsed(s) is None,
    ensures
        ({
            let o = outcome(path, status, status, p, s);
            &&& o.diverged <==> p != s
            &&& o.diverged ==> o.severity == path_severity(path) && o.blob
                == "{\"kind\":\"text\",\"primary_len\":"@ + text::decimal(
                vstd::utf8::encode_utf8(p).len(),
            ) + ",\"shadow_len\":"@ + text::decimal(vstd::utf8::encode_utf8(s).len()) + "}"@
            &&& !o.diverged ==> o.severity == Severity::Noise && o.blob.len() == 0
        }),
{
}

/// A severity is smaller than another exactly where it is less severe.
pub proof fn severities_compare_by_rank(a: Severity, b: Severity)
    ensures
        ({
            let o = vstd::std_specs::cmp::PartialOrdSpec::partial_cmp_spec(&a, &b);
            &&& o == Some(Ordering::Less) <==> rank(a) < rank(b)
            &&& o == Some(Ordering::Greater) <==> rank(a) > rank(b)
            &&& o == Some(Ordering::Equal) <==> a == b
        }),
{
}

/// An outcome is seen with all that it says.
pub proof fn outcomes_are_seen_whole(o: DiffOutcome)
    ensures
        o@.diverged == o.diverged,
        o@.severity == o.severity,
        o@.blob == o.blob@,
{
}

} // verus!
