//! Alerts on critical differences.
//!
//! A `Notifier` says what to deliver for a difference: a line in the log, a
//! JSON document for a webhook, or a comment on a GitHub pull request. A
//! `NotifierSet` holds the notifiers that are configured; the log is always
//! among them.
use crate::db;
use crate::json;
use crate::json::Json;
use crate::text;
use vstd::prelude::*;

verus! {

broadcast use vstd::string::group_string_axioms;

/// What a notifier is told of a difference.
#[derive(Clone, Debug)]
pub struct AlertDiff {
    pub diff_id: i64,
    pub severity: String,
    pub request_path: String,
    pub method: String,
    pub primary_status: Option<u16>,
    pub shadow_status: Option<u16>,
    /// When the difference was observed, in nanoseconds since the Unix epoch.
    pub observed_at_ns: i64,
}

pub struct AlertView {
    pub diff_id: int,
    pub severity: Seq<char>,
    pub request_path: Seq<char>,
    pub method: Seq<char>,
    pub primary_status: Option<u16>,
    pub shadow_status: Option<u16>,
    pub observed_at_ns: int,
}

impl View for AlertDiff {
    type V = AlertView;

    open spec fn view(&self) -> AlertView {
        AlertView {
            diff_id: self.diff_id as int,
            severity: self.severity@,
            request_path: self.request_path@,
            method: self.method@,
            primary_status: self.primary_status,
            shadow_status: self.shadow_status,
            observed_at_ns: self.observed_at_ns as int,
        }
    }
}

// ---------------------------------------------------------------------------
// What is delivered

/// What a notifier wants delivered.
#[derive(Clone, Debug)]
pub enum Delivery {
    /// A line in the log.
    Log,
    /// A POST request.
    Post(PostRequest),
}

/// A POST request.
#[derive(Clone, Debug)]
pub struct PostRequest {
    pub url: String,
    pub bearer_token: Option<String>,
    pub headers: Vec<(String, String)>,
    pub body: String,
}

pub enum DeliveryView {
    Log,
    Post(PostView),
}

pub struct PostView {
    pub url: Seq<char>,
    pub bearer_token: Option<Seq<char>>,
    pub headers: Seq<(Seq<char>, Seq<char>)>,
    pub body: Seq<char>,
}

pub open spec fn header_pairs(headers: Seq<(String, String)>) -> Seq<(Seq<char>, Seq<char>)> {
    headers.map_values(|h: (String, String)| (h.0@, h.1@))
}

impl View for PostRequest {
    type V = PostView;

    open spec fn view(&self) -> PostView {
        PostView {
            url: self.url@,
            bearer_token: db::opt_text(self.bearer_token),
            headers: header_pairs(self.headers@),
            body: self.body@,
        }
    }
}

impl View for Delivery {
    type V = DeliveryView;

    open spec fn view(&self) -> DeliveryView {
        match self {
            Delivery::Log => DeliveryView::Log,
            Delivery::Post(p) => DeliveryView::Post(p@),
        }
    }
}

/// What became of a delivery that reached a server: `Ok` for a status from 200
/// to 299, else a message with the start of the server's answer.
pub open spec fn verdict(
    who: Seq<char>,
    status: u16,
    status_text: Seq<char>,
    body: Seq<char>,
) -> Result<(), Seq<char>> {
    if 200 <= status < 300 {
        Ok(())
    } else {
        Err(who + " returned "@ + status_text + ": "@ + text::first_chars(body, 200))
    }
}

fn judge_status(who: &str, status: u16, status_text: &str, body: &str) -> (r: Result<(), String>)
    ensures
        r is Ok <==> verdict(who@, status, status_text@, body@) is Ok,
        r matches Err(m) ==> m@ == verdict(who@, status, status_text@, body@)->Err_0,
{
    if 200 <= status && status < 300 {
        return Ok(());
    }
    let mut m = who.to_owned();
    m.append(" returned ");
    m.append(status_text);
    m.append(": ");
    m.append(text::take_chars(body, 200).as_str());
    Err(m)
}

/// A way to tell somebody of a difference.
pub trait Notifier {
    /// The notifier's name.
    spec fn called(&self) -> Seq<char>;

    /// What it wants delivered for a difference.
    spec fn delivers(&self, diff: AlertView) -> DeliveryView;

    /// What it makes of a server's answer.
    spec fn accepts(&self, status: u16, status_text: Seq<char>, body: Seq<char>) -> Result<
        (),
        Seq<char>,
    >;

    fn name(&self) -> (r: &'static str)
        ensures
            r@ == self.called(),
    ;

    fn delivery(&self, diff: &AlertDiff) -> (r: Delivery)
        ensures
            r@ == self.delivers(diff@),
    ;

    fn judge(&self, status: u16, status_text: &str, body: &str) -> (r: Result<(), String>)
        ensures
            r is Ok <==> self.accepts(status, status_text@, body@) is Ok,
            r matches Err(m) ==> m@ == self.accepts(status, status_text@, body@)->Err_0,
    ;
}

// ---------------------------------------------------------------------------
// The log

/// Writes a line to the log. It is always configured.
#[derive(Clone, Copy, Debug)]
pub struct LogNotifier;

impl Notifier for LogNotifier {
    open spec fn called(&self) -> Seq<char> {
        "log"@
    }

    open spec fn delivers(&self, diff: AlertView) -> DeliveryView {
        DeliveryView::Log
    }

    open spec fn accepts(&self, status: u16, status_text: Seq<char>, body: Seq<char>) -> Result<
        (),
        Seq<char>,
    > {
        Ok(())
    }

    fn name(&self) -> (r: &'static str) {
        "log"
    }

    fn delivery(&self, diff: &AlertDiff) -> (r: Delivery) {
        Delivery::Log
    }

    fn judge(&self, status: u16, status_text: &str, body: &str) -> (r: Result<(), String>) {
        Ok(())
    }
}

// ---------------------------------------------------------------------------
// The webhook

pub open spec fn status_json(status: Option<u16>) -> Seq<char> {
    match status {
        Some(s) => text::decimal(s as nat),
        None => "null"@,
    }
}

fn push_status_json(out: &mut String, status: Option<u16>)
    ensures
        final(out)@ == old(out)@ + status_json(status),
{
    match status {
        Some(s) => text::push_u64(out, s as u64),
        None => out.append("null"),
    }
}

/// A difference as a JSON document, given its three texts as JSON strings.
pub open spec fn alert_json(
    d: AlertView,
    severity: Seq<char>,
    request_path: Seq<char>,
    method: Seq<char>,
) -> Seq<char> {
    "{\"diff_id\":"@ + text::signed_decimal(d.diff_id) + ",\"severity\":"@ + severity
        + ",\"request_path\":"@ + request_path + ",\"method\":"@ + method
        + ",\"primary_status\":"@ + status_json(d.primary_status) + ",\"shadow_status\":"@
        + status_json(d.shadow_status) + ",\"observed_at_ns\":"@ + text::signed_decimal(
        d.observed_at_ns,
    ) + "}"@
}

/// A text as a JSON string.
pub open spec fn quoted(s: Seq<char>) -> Seq<char> {
    json::compact(json::Tree::Text(s))
}

fn quote(s: &str) -> (r: String)
    ensures
        r@ == quoted(s@),
{
    json::write_compact(Json::text(s))
}

/// A difference as a JSON document.
pub open spec fn alert_payload(d: AlertView) -> Seq<char> {
    alert_json(d, quoted(d.severity), quoted(d.request_path), quoted(d.method))
}

/// A difference as a JSON document, given its three texts as JSON strings.
pub fn write_alert(diff: &AlertDiff, severity: &str, request_path: &str, method: &str) -> (r:
    String)
    ensures
        r@ == alert_json(diff@, severity@, request_path@, method@),
{
    let mut s = "{\"diff_id\":".to_owned();
    text::push_i64(&mut s, diff.diff_id);
    s.append(",\"severity\":");
    s.append(severity);
    s.append(",\"request_path\":");
    s.append(request_path);
    s.append(",\"method\":");
    s.append(method);
    s.append(",\"primary_status\":");
    push_status_json(&mut s, diff.primary_status);
    s.append(",\"shadow_status\":");
    push_status_json(&mut s, diff.shadow_status);
    s.append(",\"observed_at_ns\":");
    text::push_i64(&mut s, diff.observed_at_ns);
    s.append("}");
    s
}

/// A difference as a JSON document.
pub fn alert_body(diff: &AlertDiff) -> (r: String)
    ensures
        r@ == alert_payload(diff@),
{
    let severity = quote(diff.severity.as_str());
    let request_path = quote(diff.request_path.as_str());
    let method = quote(diff.method.as_str());
    write_alert(diff, severity.as_str(), request_path.as_str(), method.as_str())
}

/// Posts a difference to a webhook as a JSON document.
#[derive(Clone, Debug)]
pub struct WebhookNotifier {
    pub url: String,
}

impl WebhookNotifier {
    pub fn new(url: String) -> (r: WebhookNotifier)
        ensures
            r.url == url,
    {
        WebhookNotifier { url }
    }
}

impl Notifier for WebhookNotifier {
    open spec fn called(&self) -> Seq<char> {
        "webhook"@
    }

    open spec fn delivers(&self, diff: AlertView) -> DeliveryView {
        DeliveryView::Post(
            PostView {
                url: self.url@,
                bearer_token: None,
                headers: seq![("content-type"@, "application/json"@)],
                body: alert_payload(diff),
            },
        )
    }

    open spec fn accepts(&self, status: u16, status_text: Seq<char>, body: Seq<char>) -> Result<
        (),
        Seq<char>,
    > {
        verdict("webhook"@, status, status_text, body)
    }

    fn name(&self) -> (r: &'static str) {
        "webhook"
    }

    fn delivery(&self, diff: &AlertDiff) -> (r: Delivery) {
        let mut headers: Vec<(String, String)> = Vec::new();
        headers.push(("content-type".to_owned(), "application/json".to_owned()));
        assert(header_pairs(headers@) =~= seq![("content-type"@, "application/json"@)]);
        Delivery::Post(
            PostRequest {
                url: self.url.clone(),
                bearer_token: None,
                headers,
                body: alert_body(diff),
            },
        )
    }

    fn judge(&self, status: u16, status_text: &str, body: &str) -> (r: Result<(), String>) {
        judge_status("webhook", status, status_text, body)
    }
}

// ---------------------------------------------------------------------------
// The pull request

/// Comments on a GitHub pull request. `repo` is "owner/name".
#[derive(Clone, Debug)]
pub struct GitHubPRCommentNotifier {
    pub repo: String,
    pub pr_number: u64,
    pub gh_token: String,
}

/// Where comments on a pull request are posted.
pub open spec fn comments_url(repo: Seq<char>, pr: nat) -> Seq<char> {
    "https://api.github.com/repos/"@ + repo + "/issues/"@ + text::decimal(pr) + "/comments"@
}

/// An optional status as it is shown in a comment.
pub open spec fn status_shown(status: Option<u16>) -> Seq<char> {
    match status {
        Some(s) => "Some("@ + text::decimal(s as nat) + ")"@,
        None => "None"@,
    }
}

fn show_status(status: Option<u16>) -> (r: String)
    ensures
        r@ == status_shown(status),
{
    match status {
        Some(s) => {
            let mut r = "Some(".to_owned();
            text::push_u64(&mut r, s as u64);
            r.append(")");
            r
        },
        None => "None".to_owned(),
    }
}

/// The comment for a difference.
pub open spec fn comment(d: AlertView) -> Seq<char> {
    "**Critical diff observed** (id `"@ + text::signed_decimal(d.diff_id)
        + "`)\n\n- severity: `"@ + d.severity + "`\n- method: `"@ + d.method + "`\n- path: `"@
        + d.request_path + "`\n- primary_status: `"@ + status_shown(d.primary_status)
        + "`\n- shadow_status: `"@ + status_shown(d.shadow_status) + "`\n- observed_at_ns: `"@
        + text::signed_decimal(d.observed_at_ns)
        + "`\n\n_Posted automatically by the diffsplitter (Stream 2 Phase 3 alerting)._"@
}

impl GitHubPRCommentNotifier {
    pub fn new(repo: String, pr_number: u64, gh_token: String) -> (r: GitHubPRCommentNotifier)
        ensures
            r.repo == repo,
            r.pr_number == pr_number,
            r.gh_token == gh_token,
    {
        GitHubPRCommentNotifier { repo, pr_number, gh_token }
    }

    /// Where comments on the pull request are posted.
    pub fn comment_url(&self) -> (r: String)
        ensures
            r@ == comments_url(self.repo@, self.pr_number as nat),
    {
        let mut s = "https://api.github.com/repos/".to_owned();
        s.append(self.repo.as_str());
        s.append("/issues/");
        text::push_u64(&mut s, self.pr_number);
        s.append("/comments");
        s
    }

    /// The comment for a difference.
    pub fn body_markdown(diff: &AlertDiff) -> (r: String)
        ensures
            r@ == comment(diff@),
    {
        let mut s = "**Critical diff observed** (id `".to_owned();
        text::push_i64(&mut s, diff.diff_id);
        s.append("`)\n\n- severity: `");
        s.append(diff.severity.as_str());
        s.append("`\n- method: `");
        s.append(diff.method.as_str());
        s.append("`\n- path: `");
        s.append(diff.request_path.as_str());
        s.append("`\n- primary_status: `");
        s.append(show_status(diff.primary_status).as_str());
        s.append("`\n- shadow_status: `");
        s.append(show_status(diff.shadow_status).as_str());
        s.append("`\n- observed_at_ns: `");
        text::push_i64(&mut s, diff.observed_at_ns);
        s.append("`\n\n_Posted automatically by the diffsplitter (Stream 2 Phase 3 alerting)._");
        s
    }
}

/// The headers of a comment.
pub open spec fn comment_headers() -> Seq<(Seq<char>, Seq<char>)> {
    seq![
        ("user-agent"@, "diffsplitter-alerting/1"@),
        ("accept"@, "application/vnd.github+json"@),
        ("x-github-api-version"@, "2022-11-28"@),
        ("content-type"@, "application/json"@),
    ]
}

fn write_comment_headers() -> (headers: Vec<(String, String)>)
    ensures
        header_pairs(headers@) == comment_headers(),
{
    let mut headers: Vec<(String, String)> = Vec::new();
    headers.push(("user-agent".to_owned(), "diffsplitter-alerting/1".to_owned()));
    headers.push(("accept".to_owned(), "application/vnd.github+json".to_owned()));
    headers.push(("x-github-api-version".to_owned(), "2022-11-28".to_owned()));
    headers.push(("content-type".to_owned(), "application/json".to_owned()));
    assert(header_pairs(headers@) =~= comment_headers());
    headers
}

/// The document that is posted, given the comment as a JSON string.
pub open spec fn comment_json(comment: Seq<char>) -> Seq<char> {
    "{\"body\":"@ + comment + "}"@
}

/// The document that is posted, given the comment as a JSON string.
pub fn write_comment(comment: &str) -> (r: String)
    ensures
        r@ == comment_json(comment@),
{
    let mut s = "{\"body\":".to_owned();
    s.append(comment);
    s.append("}");
    s
}

/// The document that is posted for a difference.
pub open spec fn comment_payload(d: AlertView) -> Seq<char> {
    comment_json(quoted(comment(d)))
}

impl Notifier for GitHubPRCommentNotifier {
    open spec fn called(&self) -> Seq<char> {
        "github_pr_comment"@
    }

    open spec fn delivers(&self, diff: AlertView) -> DeliveryView {
        DeliveryView::Post(
            PostView {
                url: comments_url(self.repo@, self.pr_number as nat),
                bearer_token: Some(self.gh_token@),
                headers: comment_headers(),
                body: comment_payload(diff),
            },
        )
    }

    open spec fn accepts(&self, status: u16, status_text: Seq<char>, body: Seq<char>) -> Result<
        (),
        Seq<char>,
    > {
        verdict("github api"@, status, status_text, body)
    }

    fn name(&self) -> (r: &'static str) {
        "github_pr_comment"
    }

    fn delivery(&self, diff: &AlertDiff) -> (r: Delivery) {
        let comment = quote(GitHubPRCommentNotifier::body_markdown(diff).as_str());
        Delivery::Post(
            PostRequest {
                url: self.comment_url(),
                bearer_token: Some(self.gh_token.clone()),
                headers: write_comment_headers(),
                body: write_comment(comment.as_str()),
            },
        )
    }

    fn judge(&self, status: u16, status_text: &str, body: &str) -> (r: Result<(), String>) {
        judge_status("github api", status, status_text, body)
    }
}

// ---------------------------------------------------------------------------
// The set of notifiers

/// One of the notifiers.
#[derive(Clone, Debug)]
pub enum Channel {
    Log(LogNotifier),
    Webhook(WebhookNotifier),
    GitHub(GitHubPRCommentNotifier),
}

impl Notifier for Channel {
    open spec fn called(&self) -> Seq<char> {
        match self {
            Channel::Log(n) => n.called(),
            Channel::Webhook(n) => n.called(),
            Channel::GitHub(n) => n.called(),
        }
    }

    open spec fn delivers(&self, diff: AlertView) -> DeliveryView {
        match self {
            Channel::Log(n) => n.delivers(diff),
            Channel::Webhook(n) => n.delivers(diff),
            Channel::GitHub(n) => n.delivers(diff),
        }
    }

    open spec fn accepts(&self, status: u16, status_text: Seq<char>, body: Seq<char>) -> Result<
        (),
        Seq<char>,
    > {
        match self {
            Channel::Log(n) => n.accepts(status, status_text, body),
            Channel::Webhook(n) => n.accepts(status, status_text, body),
            Channel::GitHub(n) => n.accepts(status, status_text, body),
        }
    }

    fn name(&self) -> (r: &'static str) {
        match self {
            Channel::Log(n) => n.name(),
            Channel::Webhook(n) => n.name(),
            Channel::GitHub(n) => n.name(),
        }
    }

    fn delivery(&self, diff: &AlertDiff) -> (r: Delivery) {
        match self {
            Channel::Log(n) => n.delivery(diff),
            Channel::Webhook(n) => n.delivery(diff),
            Channel::GitHub(n) => n.delivery(diff),
        }
    }

    fn judge(&self, status: u16, status_text: &str, body: &str) -> (r: Result<(), String>) {
        match self {
            Channel::Log(n) => n.judge(status, status_text, body),
            Channel::Webhook(n) => n.judge(status, status_text, body),
            Channel::GitHub(n) => n.judge(status, status_text, body),
        }
    }
}

/// The notifiers that are configured.
#[derive(Clone, Debug)]
pub struct NotifierSet {
    pub notifiers: Vec<Channel>,
}

/// The settings that turn notifiers on.
#[derive(Clone, Debug)]
pub struct AlertSettings {
    pub webhook_url: Option<String>,
    pub gh_repo: Option<String>,
    pub gh_pr: Option<String>,
    pub gh_token: Option<String>,
}

/// Whether a setting is there and not empty.
pub open spec fn given(o: Option<String>) -> bool {
    o is Some && o->0@.len() > 0
}

/// The number of a pull request, where the setting is a number that fits.
pub open spec fn pr_number(s: Seq<char>) -> Option<int> {
    match text::unsigned_value(s) {
        Some(n) => if n <= u64::MAX {
            Some(n)
        } else {
            None
        },
        None => None,
    }
}

/// Whether the settings turn the pull request notifier on: all three are
/// given, and the number is one.
pub open spec fn github_on(v: AlertSettings) -> bool {
    given(v.gh_repo) && given(v.gh_pr) && given(v.gh_token) && pr_number(v.gh_pr->0@) is Some
}

/// Whether a set of notifiers is what the settings ask for: the log first, then
/// the webhook where it is on, then the pull request where it is on.
pub open spec fn configured(set: Seq<Channel>, v: AlertSettings) -> bool {
    let webhooks: int = if given(v.webhook_url) {
        1
    } else {
        0
    };
    let comments: int = if github_on(v) {
        1
    } else {
        0
    };
    &&& set.len() == 1 + webhooks + comments
    &&& set[0] is Log
    &&& given(v.webhook_url) ==> set[1] is Webhook && set[1]->Webhook_0.url@ == v.webhook_url->0@
    &&& github_on(v) ==> {
        let n = set[1 + webhooks];
        &&& n is GitHub
        &&& n->GitHub_0.repo@ == v.gh_repo->0@
        &&& n->GitHub_0.pr_number == pr_number(v.gh_pr->0@)->0
        &&& n->GitHub_0.gh_token@ == v.gh_token->0@
    }
}

fn github_notifier(v: &AlertSettings) -> (r: Option<GitHubPRCommentNotifier>)
    ensures
        r is Some <==> github_on(*v),
        r matches Some(n) ==> n.repo@ == v.gh_repo->0@ && n.pr_number == pr_number(
            v.gh_pr->0@,
        )->0 && n.gh_token@ == v.gh_token->0@,
{
    match (&v.gh_repo, &v.gh_pr, &v.gh_token) {
        (Some(repo), Some(pr), Some(token)) => {
            if repo.as_str().is_empty() || pr.as_str().is_empty() || token.as_str().is_empty() {
                return None;
            }
            match text::parse_unsigned(pr.as_str(), u64::MAX) {
                Some(n) => Some(GitHubPRCommentNotifier::new(repo.clone(), n, token.clone())),
                None => None,
            }
        },
        _ => None,
    }
}

/// What a set of notifiers wants delivered for a difference.
pub open spec fn all_deliveries(set: Seq<Channel>, diff: AlertView) -> Seq<DeliveryView> {
    set.map_values(|n: Channel| n.delivers(diff))
}

pub open spec fn deliveries_view(ds: Seq<Delivery>) -> Seq<DeliveryView> {
    ds.map_values(|d: Delivery| d@)
}

impl NotifierSet {
    /// The notifiers that the settings ask for.
    pub fn from_settings(v: &AlertSettings) -> (r: NotifierSet)
        ensures
            configured(r.notifiers@, *v),
    {
        let mut notifiers: Vec<Channel> = Vec::new();
        notifiers.push(Channel::Log(LogNotifier));
        match &v.webhook_url {
            Some(url) => {
                if !url.as_str().is_empty() {
                    notifiers.push(Channel::Webhook(WebhookNotifier::new(url.clone())));
                }
            },
            None => {},
        }
        match github_notifier(v) {
            Some(n) => {
                notifiers.push(Channel::GitHub(n));
            },
            None => {},
        }
        NotifierSet { notifiers }
    }

    /// What every notifier wants delivered for a difference.
    pub fn deliveries(&self, diff: &AlertDiff) -> (r: Vec<Delivery>)
        ensures
            deliveries_view(r@) == all_deliveries(self.notifiers@, diff@),
    {
        let mut out: Vec<Delivery> = Vec::new();
        let mut i: usize = 0;
        while i < self.notifiers.len()
            invariant
                i <= self.notifiers.len(),
                out.len() == i,
                forall|k: int|
                    0 <= k < i ==> (#[trigger] out@[k])@ == self.notifiers@[k].delivers(diff@),
            decreases self.notifiers.len() - i,
        {
            out.push(self.notifiers[i].delivery(diff));
            i = i + 1;
        }
        assert(deliveries_view(out@) =~= all_deliveries(self.notifiers@, diff@));
        out
    }
}

/// However the settings are, somebody is told: the log is always configured.
pub proof fn log_is_always_configured(set: Seq<Channel>, v: AlertSettings, diff: AlertView)
    requires
        configured(set, v),
    ensures
        set.len() >= 1,
        all_deliveries(set, diff)[0] == DeliveryView::Log,
{
}

/// A delivery was accepted exactly where it was answered with a success; any
/// other answer is an error that names who gave it and what it was.
pub proof fn only_successes_are_accepted(
    webhook: WebhookNotifier,
    github: GitHubPRCommentNotifier,
    status: u16,
    status_text: Seq<char>,
    body: Seq<char>,
)
    ensures
        ({
            let said = if body.len() <= 200 {
                body
            } else {
                body.take(200)
            };
            let w = webhook.accepts(status, status_text, body);
            let g = github.accepts(status, status_text, body);
            &&& w is Ok <==> 200 <= status <= 299
            &&& g is Ok <==> 200 <= status <= 299
            &&& w matches Err(e) ==> e == "webhook"@ + " returned "@ + status_text + ": "@ + said
            &&& g matches Err(e) ==> e == "github api"@ + " returned "@ + status_text + ": "@ + said
        }),
{
}

/// The webhook is sent the difference as a JSON document, at the configured
/// address and with no token.
pub proof fn webhooks_are_sent_the_difference(n: WebhookNotifier, d: AlertView)
    ensures
        n.delivers(d) matches DeliveryView::Post(p) && p.url == n.url@ && p.bearer_token is None
            && p.headers == seq![("content-type"@, "application/json"@)] && p.body
            == alert_payload(d),
{
}

/// The pull request is sent a comment on the difference, under the configured
/// number of the configured repository, with the configured token.
pub proof fn pull_requests_are_sent_a_comment(n: GitHubPRCommentNotifier, d: AlertView)
    ensures
        n.delivers(d) matches DeliveryView::Post(p) && p.url == "https://api.github.com/repos/"@
            + n.repo@ + "/issues/"@ + text::decimal(n.pr_number as nat) + "/comments"@
            && p.bearer_token == Some(n.gh_token@) && p.body == "{\"body\":"@ + json::compact(
            json::Tree::Text(comment(d)),
        ) + "}"@ && p.headers.contains(("content-type"@, "application/json"@)) && p.headers.contains(
            ("accept"@, "application/vnd.github+json"@),
        ) && p.headers.contains(("user-agent"@, "diffsplitter-alerting/1"@)) && p.headers.contains(
            ("x-github-api-version"@, "2022-11-28"@),
        ) && p.headers.len() == 4,
{
    let h = comment_headers();
    assert(h[0] == ("user-agent"@, "diffsplitter-alerting/1"@));
    assert(h[1] == ("accept"@, "application/vnd.github+json"@));
    assert(h[2] == ("x-github-api-version"@, "2022-11-28"@));
    assert(h[3] == ("content-type"@, "application/json"@));
}

/// A member of a JSON document: its name and its value.
pub open spec fn member(name: Seq<char>, value: Seq<char>) -> Seq<char> {
    "\""@ + name + "\":"@ + value
}

/// Members of a JSON document, one behind the other.
pub open spec fn object(members: Seq<(Seq<char>, Seq<char>)>) -> Seq<char> {
    "{"@ + listed(members) + "}"@
}

pub open spec fn listed(members: Seq<(Seq<char>, Seq<char>)>) -> Seq<char>
    decreases members.len(),
{
    if members.len() == 0 {
        Seq::empty()
    } else if members.len() == 1 {
        member(members[0].0, members[0].1)
    } else {
        listed(members.drop_last()) + ","@ + member(members.last().0, members.last().1)
    }
}

/// The document that is sent to the webhook has seven members: which difference
/// it is, how severe, what was asked for and how, both statuses, and when; a
/// status that is missing is null.
#[verifier::spinoff_prover]
#[verifier::rlimit(40)]
pub proof fn webhook_document_has_seven_members(d: AlertView)
    ensures
        ({
            let text = |s: Seq<char>| json::compact(json::Tree::Text(s));
            let status = |s: Option<u16>|
                match s {
                    Some(n) => text::decimal(n as nat),
                    None => "null"@,
                };
            alert_payload(d) == object(
                seq![
                    ("diff_id"@, text::signed_decimal(d.diff_id)),
                    ("severity"@, text(d.severity)),
                    ("request_path"@, text(d.request_path)),
                    ("method"@, text(d.method)),
                    ("primary_status"@, status(d.primary_status)),
                    ("shadow_status"@, status(d.shadow_status)),
                    ("observed_at_ns"@, text::signed_decimal(d.observed_at_ns)),
                ],
            )
        }),
{
    let v0 = text::signed_decimal(d.diff_id);
    let v1 = quoted(d.severity);
    let v2 = quoted(d.request_path);
    let v3 = quoted(d.method);
    let v4 = status_json(d.primary_status);
    let v5 = status_json(d.shadow_status);
    let v6 = text::signed_decimal(d.observed_at_ns);
    let m1 = seq![("diff_id"@, v0)];
    let m2 = m1.push(("severity"@, v1));
    let m3 = m2.push(("request_path"@, v2));
    let m4 = m3.push(("method"@, v3));
    let m5 = m4.push(("primary_status"@, v4));
    let m6 = m5.push(("shadow_status"@, v5));
    let m7 = m6.push(("observed_at_ns"@, v6));
    assert(m7 =~= seq![
        ("diff_id"@, v0),
        ("severity"@, v1),
        ("request_path"@, v2),
        ("method"@, v3),
        ("primary_status"@, v4),
        ("shadow_status"@, v5),
        ("observed_at_ns"@, v6),
    ]);
    members_are_put_behind(m1, "severity"@, v1);
    members_are_put_behind(m2, "request_path"@, v2);
    members_are_put_behind(m3, "method"@, v3);
    members_are_put_behind(m4, "primary_status"@, v4);
    members_are_put_behind(m5, "shadow_status"@, v5);
    members_are_put_behind(m6, "observed_at_ns"@, v6);
    member_names_are_quoted();
    let open = "{"@;
    assert("{\"diff_id\":"@ + v0 =~= open + listed(m1));
    put_member_behind(open, listed(m1), ",\"severity\":"@, "severity"@, v1);
    put_member_behind(open, listed(m2), ",\"request_path\":"@, "request_path"@, v2);
    put_member_behind(open, listed(m3), ",\"method\":"@, "method"@, v3);
    put_member_behind(open, listed(m4), ",\"primary_status\":"@, "primary_status"@, v4);
    put_member_behind(open, listed(m5), ",\"shadow_status\":"@, "shadow_status"@, v5);
    put_member_behind(open, listed(m6), ",\"observed_at_ns\":"@, "observed_at_ns"@, v6);
}

proof fn put_member_behind(
    open: Seq<char>,
    before: Seq<char>,
    tag: Seq<char>,
    name: Seq<char>,
    value: Seq<char>,
)
    requires
        tag == ","@ + ("\""@ + name + "\":"@),
    ensures
        open + before + tag + value == open + (before + ","@ + member(name, value)),
{
    assert(open + before + tag + value =~= open + (before + ","@ + member(name, value)));
}

proof fn members_are_put_behind(
    members: Seq<(Seq<char>, Seq<char>)>,
    name: Seq<char>,
    value: Seq<char>,
)
    requires
        members.len() > 0,
    ensures
        listed(members.push((name, value))) == listed(members) + ","@ + member(name, value),
{
    assert(members.push((name, value)).drop_last() =~= members);
}

proof fn member_names_are_quoted()
    ensures
        "{\"diff_id\":"@ == "{"@ + ("\""@ + "diff_id"@ + "\":"@),
        ",\"severity\":"@ == ","@ + ("\""@ + "severity"@ + "\":"@),
        ",\"request_path\":"@ == ","@ + ("\""@ + "request_path"@ + "\":"@),
        ",\"method\":"@ == ","@ + ("\""@ + "method"@ + "\":"@),
        ",\"primary_status\":"@ == ","@ + ("\""@ + "primary_status"@ + "\":"@),
        ",\"shadow_status\":"@ == ","@ + ("\""@ + "shadow_status"@ + "\":"@),
        ",\"observed_at_ns\":"@ == ","@ + ("\""@ + "observed_at_ns"@ + "\":"@),
{
    reveal_strlit("{\"diff_id\":");
    reveal_strlit(",\"severity\":");
    reveal_strlit(",\"request_path\":");
    reveal_strlit(",\"method\":");
    reveal_strlit(",\"primary_status\":");
    reveal_strlit(",\"shadow_status\":");
    reveal_strlit(",\"observed_at_ns\":");
    reveal_strlit("{");
    reveal_strlit(",");
    reveal_strlit("\"");
    reveal_strlit("\":");
    reveal_strlit("diff_id");
    reveal_strlit("severity");
    reveal_strlit("request_path");
    reveal_strlit("method");
    reveal_strlit("primary_status");
    reveal_strlit("shadow_status");
    reveal_strlit("observed_at_ns");
    assert("{\"diff_id\":"@ =~= "{"@ + ("\""@ + "diff_id"@ + "\":"@));
    assert(",\"severity\":"@ =~= ","@ + ("\""@ + "severity"@ + "\":"@));
    assert(",\"request_path\":"@ =~= ","@ + ("\""@ + "request_path"@ + "\":"@));
    assert(",\"method\":"@ =~= ","@ + ("\""@ + "method"@ + "\":"@));
    assert(",\"primary_status\":"@ =~= ","@ + ("\""@ + "primary_status"@ + "\":"@));
    assert(",\"shadow_status\":"@ =~= ","@ + ("\""@ + "shadow_status"@ + "\":"@));
    assert(",\"observed_at_ns\":"@ =~= ","@ + ("\""@ + "observed_at_ns"@ + "\":"@));
}

/// A line of the comment: what it says, in a list, as code.
pub open spec fn item(name: Seq<char>, value: Seq<char>) -> Seq<char> {
    "\n- "@ + name + ": `"@ + value + "`"@
}

/// The comment says which difference it is about, and lists how severe it is,
/// what was asked for and how, both statuses, and when.
#[verifier::spinoff_prover]
#[verifier::rlimit(40)]
pub proof fn comments_list_the_difference(d: AlertView)
    ensures
        ({
            let status = |s: Option<u16>|
                match s {
                    Some(n) => "Some("@ + text::decimal(n as nat) + ")"@,
                    None => "None"@,
                };
            comment(d) == "**Critical diff observed** (id `"@ + text::signed_decimal(d.diff_id)
                + "`)\n"@ + item("severity"@, d.severity) + item("method"@, d.method) + item(
                "path"@,
                d.request_path,
            ) + item("primary_status"@, status(d.primary_status)) + item(
                "shadow_status"@,
                status(d.shadow_status),
            ) + item("observed_at_ns"@, text::signed_decimal(d.observed_at_ns))
                + "\n\n_Posted automatically by the diffsplitter (Stream 2 Phase 3 alerting)._"@
        }),
{
    comment_marks_split();
    let c0 = "**Critical diff observed** (id `"@ + text::signed_decimal(d.diff_id);
    let v1 = d.severity;
    let v2 = d.method;
    let v3 = d.request_path;
    let v4 = status_shown(d.primary_status);
    let v5 = status_shown(d.shadow_status);
    let v6 = text::signed_decimal(d.observed_at_ns);
    let end = "`"@;
    let c1 = c0 + "`)\n"@;
    assert(c0 + "`)\n\n- severity: `"@ + v1 + end =~= c1 + item("severity"@, v1));
    put_item_behind(c0 + "`)\n\n- severity: `"@ + v1, "`\n- method: `"@, "method"@, v2);
    let c2 = c1 + item("severity"@, v1);
    put_item_behind(c0 + "`)\n\n- severity: `"@ + v1 + "`\n- method: `"@ + v2, "`\n- path: `"@, "path"@, v3);
    let c3 = c2 + item("method"@, v2);
    let l3 = c0 + "`)\n\n- severity: `"@ + v1 + "`\n- method: `"@ + v2 + "`\n- path: `"@ + v3;
    put_item_behind(l3, "`\n- primary_status: `"@, "primary_status"@, v4);
    let l4 = l3 + "`\n- primary_status: `"@ + v4;
    put_item_behind(l4, "`\n- shadow_status: `"@, "shadow_status"@, v5);
    let l5 = l4 + "`\n- shadow_status: `"@ + v5;
    put_item_behind(l5, "`\n- observed_at_ns: `"@, "observed_at_ns"@, v6);
    let l6 = l5 + "`\n- observed_at_ns: `"@ + v6;
    let last = "\n\n_Posted automatically by the diffsplitter (Stream 2 Phase 3 alerting)._"@;
    assert(l6 + (end + last) =~= l6 + end + last);
}

proof fn put_item_behind(before: Seq<char>, mark: Seq<char>, name: Seq<char>, value: Seq<char>)
    requires
        mark == "`"@ + ("\n- "@ + name + ": `"@),
    ensures
        before + mark + value + "`"@ == before + "`"@ + item(name, value),
{
    assert(before + mark + value + "`"@ =~= before + "`"@ + item(name, value));
}

proof fn comment_marks_split()
    ensures
        "`)\n\n- severity: `"@ == "`)\n"@ + ("\n- "@ + "severity"@ + ": `"@),
        "`\n- method: `"@ == "`"@ + ("\n- "@ + "method"@ + ": `"@),
        "`\n- path: `"@ == "`"@ + ("\n- "@ + "path"@ + ": `"@),
        "`\n- primary_status: `"@ == "`"@ + ("\n- "@ + "primary_status"@ + ": `"@),
        "`\n- shadow_status: `"@ == "`"@ + ("\n- "@ + "shadow_status"@ + ": `"@),
        "`\n- observed_at_ns: `"@ == "`"@ + ("\n- "@ + "observed_at_ns"@ + ": `"@),
        "`\n\n_Posted automatically by the diffsplitter (Stream 2 Phase 3 alerting)._"@ == "`"@
            + "\n\n_Posted automatically by the diffsplitter (Stream 2 Phase 3 alerting)._"@,
{
    reveal_strlit("`)\n\n- severity: `");
    reveal_strlit("`)\n");
    reveal_strlit("\n- ");
    reveal_strlit(": `");
    reveal_strlit("`");
    reveal_strlit("severity");
    reveal_strlit("method");
    reveal_strlit("path");
    reveal_strlit("primary_status");
    reveal_strlit("shadow_status");
    reveal_strlit("observed_at_ns");
    reveal_strlit("`\n- method: `");
    reveal_strlit("`\n- path: `");
    reveal_strlit("`\n- primary_status: `");
    reveal_strlit("`\n- shadow_status: `");
    reveal_strlit("`\n- observed_at_ns: `");
    reveal_strlit("`\n\n_Posted automatically by the diffsplitter (Stream 2 Phase 3 alerting)._");
    reveal_strlit("\n\n_Posted automatically by the diffsplitter (Stream 2 Phase 3 alerting)._");
    assert("`)\n\n- severity: `"@ =~= "`)\n"@ + ("\n- "@ + "severity"@ + ": `"@));
    assert("`\n- method: `"@ =~= "`"@ + ("\n- "@ + "method"@ + ": `"@));
    assert("`\n- path: `"@ =~= "`"@ + ("\n- "@ + "path"@ + ": `"@));
    assert("`\n- primary_status: `"@ =~= "`"@ + ("\n- "@ + "primary_status"@ + ": `"@));
    assert("`\n- shadow_status: `"@ =~= "`"@ + ("\n- "@ + "shadow_status"@ + ": `"@));
    assert("`\n- observed_at_ns: `"@ =~= "`"@ + ("\n- "@ + "observed_at_ns"@ + ": `"@));
    assert("`\n\n_Posted automatically by the diffsplitter (Stream 2 Phase 3 alerting)._"@ =~= "`"@
        + "\n\n_Posted automatically by the diffsplitter (Stream 2 Phase 3 alerting)._"@);
}

/// The settings turn notifiers on: the log always, the webhook where an address is
/// given, the pull request where a repository, a number and a token are. An empty
/// setting is none, and what is not a number is no number.
pub proof fn settings_turn_notifiers_on(set: Seq<Channel>, v: AlertSettings)
    requires
        configured(set, v),
    ensures
        ({
            let full = |o: Option<String>| o is Some && o->0@.len() > 0;
            let webhook = full(v.webhook_url);
            let github = full(v.gh_repo) && full(v.gh_pr) && full(v.gh_token) && (
            text::unsigned_value(v.gh_pr->0@) matches Some(n) && n <= u64::MAX);
            &&& set[0] is Log
            &&& set.len() == 1 + (if webhook {
                1int
            } else {
                0int
            }) + (if github {
                1int
            } else {
                0int
            })
            &&& webhook ==> set[1] is Webhook && set[1]->Webhook_0.url@ == v.webhook_url->0@
            &&& github ==> set.last() is GitHub && set.last()->GitHub_0.repo@ == v.gh_repo->0@
                && set.last()->GitHub_0.gh_token@ == v.gh_token->0@ && Some(
                set.last()->GitHub_0.pr_number as int,
            ) == text::unsigned_value(v.gh_pr->0@)
        }),
{
}

/// Every notifier that is on is given every difference, in their order, and a
/// channel delivers what its notifier does.
pub proof fn every_notifier_is_told(
    set: Seq<Channel>,
    d: AlertView,
    i: int,
    status: u16,
    status_text: Seq<char>,
    body: Seq<char>,
)
    requires
        0 <= i < set.len(),
    ensures
        all_deliveries(set, d).len() == set.len(),
        all_deliveries(set, d)[i] == set[i].delivers(d),
        set[i] is Log ==> set[i].delivers(d) is Log && set[i].called() == "log"@,
        set[i] matches Channel::Webhook(n) ==> set[i].delivers(d) == n.delivers(d)
            && set[i].called() == "webhook"@ && set[i].accepts(status, status_text, body)
            == n.accepts(status, status_text, body),
        set[i] matches Channel::GitHub(n) ==> set[i].delivers(d) == n.delivers(d)
            && set[i].called() == "github_pr_comment"@ && set[i].accepts(
            status,
            status_text,
            body,
        ) == n.accepts(status, status_text, body),
{
}

/// An alert, and what is delivered, is seen with all that it says.
pub proof fn deliveries_are_seen_whole(a: AlertDiff, p: PostRequest, i: int)
    ensures
        a@.diff_id == a.diff_id && a@.severity == a.severity@ && a@.request_path == a.request_path@
            && a@.method == a.method@ && a@.primary_status == a.primary_status && a@.shadow_status
            == a.shadow_status && a@.observed_at_ns == a.observed_at_ns,
        p@.url == p.url@ && p@.body == p.body@ && p@.bearer_token == db::opt_text(p.bearer_token),
        p@.headers.len() == p.headers.len(),
        0 <= i < p.headers.len() ==> p@.headers[i] == (p.headers@[i].0@, p.headers@[i].1@),
        Delivery::Post(p)@ == DeliveryView::Post(p@),
        Delivery::Log@ is Log,
{
}

} // verus!
