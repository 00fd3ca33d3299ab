//! Serving files from a directory: which request paths may be served, and
//! the content type a file is served with.
use vstd::prelude::*;
use crate::response::Reply;
use crate::text::{chars_of, contains, occurs_in, slice_chars, string_of};

verus! {

/// The content type `mime_guess` gives a file path, by its extension
/// (`application/octet-stream` when it knows none).
pub uninterp spec fn guessed_mime(path: Seq<char>) -> Seq<char>;

/// The content type of a file, guessed from its path
/// (`mime_guess::from_path`, then `first_or_octet_stream`).
#[verifier::external_body]
fn guess_mime(path: &str) -> (r: String)
    ensures
        r@ == guessed_mime(path@),
{
    let m = mime_guess::from_path(path).first_or_octet_stream();
    let s: &str = m.as_ref();
    s.to_string()
}

/// What a request for a static file asks for.
pub enum StaticTarget {
    /// The path tries to leave the directory (it holds `..`): `403 Forbidden`.
    Forbidden,
    /// The file at this path relative to the directory.
    File(String),
}

/// `s` without its leading `/` characters.
pub open spec fn strip_slashes(s: Seq<char>) -> Seq<char>
    decreases s.len(),
{
    if s.len() > 0 && s[0] == '/' {
        strip_slashes(s.drop_first())
    } else {
        s
    }
}

/// The file a request path names: refused when it holds `..`, else the path
/// without its leading slashes.
pub open spec fn static_file(path: Seq<char>) -> Option<Seq<char>> {
    if occurs_in(path, seq!['.', '.']) {
        None
    } else {
        Some(strip_slashes(path))
    }
}

proof fn lemma_strip_slashes(s: Seq<char>, i: int)
    requires
        0 <= i <= s.len(),
        forall|k: int| 0 <= k < i ==> s[k] == '/',
    ensures
        strip_slashes(s) == strip_slashes(s.subrange(i, s.len() as int)),
    decreases i,
{
    if i > 0 {
        lemma_strip_slashes(s.drop_first(), i - 1);
        assert(s.drop_first().subrange(i - 1, s.drop_first().len() as int) =~= s.subrange(i, s.len() as int));
    } else {
        assert(s.subrange(0, s.len() as int) =~= s);
    }
}

/// The file a request for a static file asks for.
pub fn static_target(path: &str) -> (r: StaticTarget)
    ensures
        match r {
            StaticTarget::Forbidden => static_file(path@) is None,
            StaticTarget::File(f) => static_file(path@) == Some(f@),
        },
{
    let p = chars_of(path);
    if contains(&p, &['.', '.']) {
        return StaticTarget::Forbidden;
    }
    let mut i: usize = 0;
    while i < p.len() && p[i] == '/'
        invariant
            i <= p@.len(),
            forall|k: int| 0 <= k < i ==> p@[k] == '/',
        decreases p@.len() - i,
    {
        i = i + 1;
    }
    proof {
        lemma_strip_slashes(p@, i as int);
    }
    let rest = slice_chars(&p, i, p.len());
    assert(strip_slashes(rest@) == rest@);
    StaticTarget::File(string_of(&rest))
}

/// The content type a file is served with, guessed from its path.
pub fn static_content_type(file_path: &str) -> (r: String)
    ensures
        r@ == guessed_mime(file_path@),
{
    guess_mime(file_path)
}

/// The answer to a request for a path that leaves the directory: `403 Forbidden`.
pub fn forbidden_reply() -> (r: Reply)
    ensures
        r@ == (403u16, None::<Seq<char>>, Seq::<(Seq<char>, Seq<char>)>::empty(), "Forbidden"@),
{
    let r = Reply { status: 403, content_type: None, headers: Vec::new(), body: "Forbidden".to_owned() };
    assert(r@.2 =~= Seq::<(Seq<char>, Seq<char>)>::empty());
    r
}

/// The answer to a request for a file that is not there: `404 Not Found`.
pub fn missing_file_reply() -> (r: Reply)
    ensures
        r@ == (404u16, None::<Seq<char>>, Seq::<(Seq<char>, Seq<char>)>::empty(), "Not Found"@),
{
    let r = Reply { status: 404, content_type: None, headers: Vec::new(), body: "Not Found".to_owned() };
    assert(r@.2 =~= Seq::<(Seq<char>, Seq<char>)>::empty());
    r
}

} // verus!
