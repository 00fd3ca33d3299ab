//! Turning what handlers return into responses.
use vstd::prelude::*;
use crate::router::ExtractError;

verus! {

/// A response: status code, `Content-Type` (if any), further headers (name,
/// value) and body.
pub struct Reply {
    pub status: u16,
    pub content_type: Option<String>,
    pub headers: Vec<(String, String)>,
    pub body: String,
}

/// A response as plain values: status, content type, further headers, body.
pub type ReplyView = (u16, Option<Seq<char>>, Seq<(Seq<char>, Seq<char>)>, Seq<char>);

/// The texts of a list of header pairs.
pub open spec fn headers_view(h: Seq<(String, String)>) -> Seq<(Seq<char>, Seq<char>)> {
    Seq::new(h.len(), |i: int| (h[i].0@, h[i].1@))
}

impl View for Reply {
    type V = ReplyView;

    open spec fn view(&self) -> ReplyView {
        (
            self.status,
            match self.content_type {
                Some(t) => Some(t@),
                None => None,
            },
            headers_view(self.headers@),
            self.body@,
        )
    }
}

/// An HTML document, rendered.
pub struct Html(pub String);

/// `text/plain`
pub open spec fn text_plain() -> Seq<char> {
    seq!['t', 'e', 'x', 't', '/', 'p', 'l', 'a', 'i', 'n']
}

/// `text/html`
pub open spec fn text_html() -> Seq<char> {
    seq!['t', 'e', 'x', 't', '/', 'h', 't', 'm', 'l']
}

/// `Failed to read body: `
pub open spec fn read_failed() -> Seq<char> {
    seq![
        'F', 'a', 'i', 'l', 'e', 'd', ' ', 't', 'o', ' ', 'r', 'e', 'a', 'd', ' ', 'b', 'o', 'd', 'y',
        ':', ' ',
    ]
}

/// `JSON deserialize error: `
pub open spec fn json_failed() -> Seq<char> {
    seq![
        'J', 'S', 'O', 'N', ' ', 'd', 'e', 's', 'e', 'r', 'i', 'a', 'l', 'i', 'z', 'e', ' ', 'e', 'r',
        'r', 'o', 'r', ':', ' ',
    ]
}

/// `Form deserialize error: `
pub open spec fn form_failed() -> Seq<char> {
    seq![
        'F', 'o', 'r', 'm', ' ', 'd', 'e', 's', 'e', 'r', 'i', 'a', 'l', 'i', 'z', 'e', ' ', 'e', 'r',
        'r', 'o', 'r', ':', ' ',
    ]
}

/// A value a handler can answer with.
pub trait IntoResponse: Sized {
    /// The response the value stands for.
    spec fn reply_of(&self) -> ReplyView;

    /// The response the value stands for.
    fn into_response(self) -> (r: Reply)
        ensures
            r@ == self.reply_of(),
    ;
}

fn text_of(s: &str) -> (r: String)
    ensures
        r@ == s@,
{
    s.to_owned()
}

fn plain() -> (r: String)
    ensures
        r@ == text_plain(),
{
    let s = "text/plain";
    proof {
        reveal_strlit("text/plain");
    }
    assert(s@ =~= text_plain());
    text_of(s)
}

fn html_type() -> (r: String)
    ensures
        r@ == text_html(),
{
    let s = "text/html";
    proof {
        reveal_strlit("text/html");
    }
    assert(s@ =~= text_html());
    text_of(s)
}

impl IntoResponse for () {
    /// `200 OK` with an empty body and no content type.
    open spec fn reply_of(&self) -> ReplyView {
        (200, None, Seq::empty(), Seq::empty())
    }

    fn into_response(self) -> (r: Reply) {
        Reply { status: 200, content_type: None, headers: Vec::new(), body: String::new() }
    }
}

impl IntoResponse for String {
    /// `200 OK`, plain text.
    open spec fn reply_of(&self) -> ReplyView {
        (200, Some(text_plain()), Seq::empty(), self@)
    }

    fn into_response(self) -> (r: Reply) {
        Reply { status: 200, content_type: Some(plain()), headers: Vec::new(), body: self }
    }
}

impl IntoResponse for &'static str {
    /// `200 OK`, plain text.
    open spec fn reply_of(&self) -> ReplyView {
        (200, Some(text_plain()), Seq::empty(), self@)
    }

    fn into_response(self) -> (r: Reply) {
        Reply { status: 200, content_type: Some(plain()), headers: Vec::new(), body: text_of(self) }
    }
}

impl IntoResponse for Html {
    /// `200 OK`, HTML.
    open spec fn reply_of(&self) -> ReplyView {
        (200, Some(text_html()), Seq::empty(), self.0@)
    }

    fn into_response(self) -> (r: Reply) {
        Reply { status: 200, content_type: Some(html_type()), headers: Vec::new(), body: self.0 }
    }
}

impl IntoResponse for Reply {
    /// The response itself.
    open spec fn reply_of(&self) -> ReplyView {
        self@
    }

    fn into_response(self) -> (r: Reply) {
        self
    }
}

impl<T: IntoResponse, E: IntoResponse> IntoResponse for Result<T, E> {
    /// The response of the value or of the error.
    open spec fn reply_of(&self) -> ReplyView {
        match self {
            Ok(v) => v.reply_of(),
            Err(e) => e.reply_of(),
        }
    }

    fn into_response(self) -> (r: Reply) {
        match self {
            Ok(v) => v.into_response(),
            Err(e) => e.into_response(),
        }
    }
}

impl IntoResponse for (u16, String) {
    /// The given status, plain text.
    open spec fn reply_of(&self) -> ReplyView {
        (self.0, Some(text_plain()), Seq::empty(), self.1@)
    }

    fn into_response(self) -> (r: Reply) {
        Reply { status: self.0, content_type: Some(plain()), headers: Vec::new(), body: self.1 }
    }
}

impl IntoResponse for (u16, &'static str) {
    /// The given status, plain text.
    open spec fn reply_of(&self) -> ReplyView {
        (self.0, Some(text_plain()), Seq::empty(), self.1@)
    }

    fn into_response(self) -> (r: Reply) {
        Reply { status: self.0, content_type: Some(plain()), headers: Vec::new(), body: text_of(self.1) }
    }
}

/// The message of an extraction error.
pub open spec fn extract_message(e: ExtractError) -> Seq<char> {
    match e {
        ExtractError::JsonSync(m) => read_failed() + m@,
        ExtractError::JsonDeserialize(m) => json_failed() + m@,
        ExtractError::FormSync(m) => read_failed() + m@,
        ExtractError::FormDeserialize(m) => form_failed() + m@,
    }
}

fn concat(a: &str, b: &str) -> (r: String)
    ensures
        r@ == a@ + b@,
{
    let mut v = crate::text::chars_of(a);
    crate::text::extend_chars(&mut v, &crate::text::chars_of(b));
    crate::text::string_of(&v)
}

impl IntoResponse for ExtractError {
    /// `400 Bad Request`, plain text, saying what failed.
    open spec fn reply_of(&self) -> ReplyView {
        (400, Some(text_plain()), Seq::empty(), extract_message(*self))
    }

    fn into_response(self) -> (r: Reply) {
        let body = match self {
            ExtractError::JsonSync(e) => {
                let p = "Failed to read body: ";
                proof {
                    reveal_strlit("Failed to read body: ");
                }
                assert(p@ =~= read_failed());
                concat(p, e.as_str())
            },
            ExtractError::JsonDeserialize(e) => {
                let p = "JSON deserialize error: ";
                proof {
                    reveal_strlit("JSON deserialize error: ");
                }
                assert(p@ =~= json_failed());
                concat(p, e.as_str())
            },
            ExtractError::FormSync(e) => {
                let p = "Failed to read body: ";
                proof {
                    reveal_strlit("Failed to read body: ");
                }
                assert(p@ =~= read_failed());
                concat(p, e.as_str())
            },
            ExtractError::FormDeserialize(e) => {
                let p = "Form deserialize error: ";
                proof {
                    reveal_strlit("Form deserialize error: ");
                }
                assert(p@ =~= form_failed());
                concat(p, e.as_str())
            },
        };
        Reply { status: 400, content_type: Some(plain()), headers: Vec::new(), body }
    }
}

/// The answer to a request that no route serves: `404 Not Found`.
pub fn not_found() -> (r: Reply)
    ensures
        r@ == (404u16, None::<Seq<char>>, Seq::<(Seq<char>, Seq<char>)>::empty(), "404 Not Found"@),
{
    let r = Reply { status: 404, content_type: None, headers: Vec::new(), body: text_of("404 Not Found") };
    assert(r@.2 =~= Seq::<(Seq<char>, Seq<char>)>::empty());
    r
}

} // verus!
