//! What every page of the proxy begins and ends with.
use crate::text;
use vstd::prelude::*;

verus! {

broadcast use vstd::string::group_string_axioms;

/// The top of a page, up to the start of its body.
pub open spec fn page_top(title: Seq<char>, style: Seq<char>) -> Seq<char> {
    "<!doctype html><html lang=\"en\"><head><meta charset=\"utf-8\">"@
        + "<meta name=\"viewport\" content=\"width=device-width,initial-scale=1\">"@ + "<title>"@
        + text::escaped(title) + " · diffsplitter</title>"@ + "<style>"@ + style
        + "</style></head><body>"@
}

/// The top of a page, up to the start of its body.
pub fn page_header(title: &str, style: &str) -> (s: String)
    ensures
        s@ == page_top(title@, style@),
{
    let mut s = "<!doctype html><html lang=\"en\"><head><meta charset=\"utf-8\">".to_owned();
    s.append("<meta name=\"viewport\" content=\"width=device-width,initial-scale=1\">");
    s.append("<title>");
    s.append(text::html_escape(title).as_str());
    s.append(" · diffsplitter</title>");
    s.append("<style>");
    s.append(style);
    s.append("</style></head><body>");
    s
}

/// The end of a page.
pub open spec fn page_end() -> Seq<char> {
    "</body></html>"@
}

/// Ends a page.
pub fn push_footer(s: &mut String)
    ensures
        final(s)@ == old(s)@ + page_end(),
{
    s.append("</body></html>");
}

/// A page or another document that answers a request.
#[derive(Clone, Debug)]
pub struct Reply {
    pub status: u16,
    pub content_type: String,
    pub body: String,
}

pub struct ReplyView {
    pub status: u16,
    pub content_type: Seq<char>,
    pub body: Seq<char>,
}

impl View for Reply {
    type V = ReplyView;

    open spec fn view(&self) -> ReplyView {
        ReplyView { status: self.status, content_type: self.content_type@, body: self.body@ }
    }
}

/// A page that is there.
pub open spec fn html_reply(body: Seq<char>) -> ReplyView {
    ReplyView { status: 200, content_type: "text/html; charset=utf-8"@, body }
}

/// A JSON document that is there.
pub open spec fn json_reply(body: Seq<char>) -> ReplyView {
    ReplyView { status: 200, content_type: "application/json"@, body }
}

/// A plain message with a status.
pub open spec fn text_reply(status: u16, body: Seq<char>) -> ReplyView {
    ReplyView { status, content_type: "text/plain; charset=utf-8"@, body }
}

impl Reply {
    pub fn html(body: String) -> (r: Reply)
        ensures
            r@ == html_reply(body@),
    {
        Reply { status: 200, content_type: "text/html; charset=utf-8".to_owned(), body }
    }

    pub fn json(body: String) -> (r: Reply)
        ensures
            r@ == json_reply(body@),
    {
        Reply { status: 200, content_type: "application/json".to_owned(), body }
    }

    pub fn text(status: u16, body: String) -> (r: Reply)
        ensures
            r@ == text_reply(status, body@),
    {
        Reply { status, content_type: "text/plain; charset=utf-8".to_owned(), body }
    }
}

/// A page is an HTML document that shows its title, escaped, and is dressed in its
/// style; a reply is seen with all that it holds.
pub proof fn pages_are_documents(title: Seq<char>, style: Seq<char>, r: Reply)
    ensures
        "<!doctype html>"@.is_prefix_of(page_top(title, style)),
        text::holds(
            page_top(title, style),
            "<title>"@ + text::escaped(title) + " · diffsplitter</title>"@,
        ),
        text::holds(
            page_top(title, style),
            "<style>"@ + style + "</style></head><body>"@,
        ),
        page_end() == "</body></html>"@,
        r@.status == r.status && r@.content_type == r.content_type@ && r@.body == r.body@,
{
    let a = "<!doctype html><html lang=\"en\"><head><meta charset=\"utf-8\">"@
        + "<meta name=\"viewport\" content=\"width=device-width,initial-scale=1\">"@;
    let named = "<title>"@ + text::escaped(title) + " · diffsplitter</title>"@;
    let dressed = "<style>"@ + style + "</style></head><body>"@;
    assert(a + "<title>"@ + text::escaped(title) + " · diffsplitter</title>"@ =~= a + named);
    assert(a + named + "<style>"@ + style + "</style></head><body>"@ =~= a + named + dressed);
    assert(page_top(title, style) == a + named + dressed);
    text::texts_hold_themselves(named);
    text::texts_hold_themselves(dressed);
    text::longer_texts_hold_more(a, named, named);
    text::longer_texts_hold_more(a + named, dressed, named);
    text::longer_texts_hold_more(a + named, dressed, dressed);
    reveal_strlit("<!doctype html><html lang=\"en\"><head><meta charset=\"utf-8\">");
    reveal_strlit("<!doctype html>");
    assert("<!doctype html>"@.is_prefix_of(
        "<!doctype html><html lang=\"en\"><head><meta charset=\"utf-8\">"@,
    ));
}

/// Replies carry the type of what they hold.
pub proof fn replies_carry_their_type(status: u16, body: Seq<char>)
    ensures
        html_reply(body).status == 200 && html_reply(body).content_type
            == "text/html; charset=utf-8"@ && html_reply(body).body == body,
        json_reply(body).status == 200 && json_reply(body).content_type == "application/json"@
            && json_reply(body).body == body,
        text_reply(status, body).status == status && text_reply(status, body).content_type
            == "text/plain; charset=utf-8"@ && text_reply(status, body).body == body,
{
}

} // verus!
