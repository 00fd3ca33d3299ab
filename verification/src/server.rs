//! Cross-origin resource sharing: which origin a response allows.
use vstd::prelude::*;
use crate::response::{headers_view, Reply};
use crate::text::{chars_eq, chars_of, has_prefix, starts_with};

verus! {

/// The origin a response allows, if any: a local development origin
/// (`http://localhost...` or `http://127.0.0.1...`) or exactly the configured
/// domain. An origin that is literally `null` is never allowed.
pub open spec fn allowed_origin(origin: Option<Seq<char>>, allowed: Option<Seq<char>>) -> Option<Seq<char>> {
    let chosen = match origin {
        Some(o) => if has_prefix(o, "http://localhost"@) || has_prefix(o, "http://127.0.0.1"@) {
            o
        } else {
            match allowed {
                Some(a) => if o == a {
                    o
                } else {
                    "null"@
                },
                None => "null"@,
            }
        },
        None => "null"@,
    };
    if chosen == "null"@ {
        None
    } else {
        Some(chosen)
    }
}

/// Local development origins are always allowed and echoed back: any origin
/// that starts with `http://localhost` or `http://127.0.0.1` (with a port, a
/// path or nothing after it), whatever domain is configured.
pub proof fn lemma_local_origins_allowed(rest: Seq<char>, allowed: Option<Seq<char>>)
    ensures
        allowed_origin(Some("http://localhost"@ + rest), allowed) == Some("http://localhost"@ + rest),
        allowed_origin(Some("http://127.0.0.1"@ + rest), allowed) == Some("http://127.0.0.1"@ + rest),
{
    reveal_strlit("http://localhost");
    reveal_strlit("http://127.0.0.1");
    reveal_strlit("null");
    let a = "http://localhost"@ + rest;
    let b = "http://127.0.0.1"@ + rest;
    assert(a.subrange(0, "http://localhost"@.len() as int) =~= "http://localhost"@);
    assert(b.subrange(0, "http://127.0.0.1"@.len() as int) =~= "http://127.0.0.1"@);
    assert(a[0] == 'h' && b[0] == 'h' && "null"@[0] == 'n');
}

/// The configured domain is allowed and echoed back (unless it is the text
/// `null`), and any other origin that is not a local one is refused.
pub proof fn lemma_configured_origin(origin: Seq<char>, domain: Seq<char>)
    ensures
        domain != "null"@ ==> allowed_origin(Some(domain), Some(domain)) == Some(domain),
        !has_prefix(origin, "http://localhost"@) && !has_prefix(origin, "http://127.0.0.1"@) && origin
            != domain ==> allowed_origin(Some(origin), Some(domain)) is None,
        !has_prefix(origin, "http://localhost"@) && !has_prefix(origin, "http://127.0.0.1"@) ==> allowed_origin(
            Some(origin),
            None,
        ) is None,
        allowed_origin(None, Some(domain)) is None,
{
}

/// The CORS headers a response carries for a request from `origin`: none, or
/// `Access-Control-Allow-Origin` with that origin and the allowed methods,
/// headers and credentials.
pub open spec fn cors_header_list(origin: Option<Seq<char>>, allowed: Option<Seq<char>>) -> Seq<(Seq<char>, Seq<char>)> {
    match allowed_origin(origin, allowed) {
        Some(o) => seq![
            ("access-control-allow-origin"@, o),
            ("access-control-allow-methods"@, "GET, POST, OPTIONS"@),
            ("access-control-allow-headers"@, "Content-Type, Authorization"@),
            ("access-control-allow-credentials"@, "true"@),
        ],
        None => seq![],
    }
}

/// The text of an optional string.
pub open spec fn opt_text(o: Option<&str>) -> Option<Seq<char>> {
    match o {
        Some(s) => Some(s@),
        None => None,
    }
}

/// The text of an optional string.
pub open spec fn opt_string(o: Option<String>) -> Option<Seq<char>> {
    match o {
        Some(s) => Some(s@),
        None => None,
    }
}

/// The origin a response to a request from `origin` allows, if any.
pub fn cors_allow_origin(origin: Option<&str>, allowed_domain: &Option<String>) -> (r: Option<String>)
    ensures
        match r {
            Some(o) => allowed_origin(opt_text(origin), opt_string(*allowed_domain))
                == Some(o@),
            None => allowed_origin(opt_text(origin), opt_string(*allowed_domain)) is None,
        },
{
    let org = match origin {
        Some(o) => o,
        None => return None,
    };
    let oc = chars_of(org);
    let local = starts_with(&oc, &chars_of("http://localhost")) || starts_with(
        &oc,
        &chars_of("http://127.0.0.1"),
    );
    let chosen = if local {
        true
    } else {
        match allowed_domain {
            Some(a) => chars_eq(&oc, &chars_of(a.as_str())),
            None => false,
        }
    };
    if !chosen || chars_eq(&oc, &chars_of("null")) {
        return None;
    }
    Some(org.to_owned())
}

fn pair(a: &str, b: &str) -> (r: (String, String))
    ensures
        r.0@ == a@,
        r.1@ == b@,
{
    (a.to_owned(), b.to_owned())
}

/// The CORS headers (name, value) a response to a request from `origin` carries.
pub fn cors_headers(origin: Option<&str>, allowed_domain: &Option<String>) -> (r: Vec<(String, String)>)
    ensures
        r@.len() == cors_header_list(opt_text(origin), opt_string(*allowed_domain)).len(),
        forall|i: int|
            0 <= i < r@.len() ==> (#[trigger] r@[i].0@, r@[i].1@) == cors_header_list(
                opt_text(origin),
                opt_string(*allowed_domain),
            )[i],
{
    let mut r: Vec<(String, String)> = Vec::new();
    match cors_allow_origin(origin, allowed_domain) {
        Some(o) => {
            r.push(pair("access-control-allow-origin", o.as_str()));
            r.push(pair("access-control-allow-methods", "GET, POST, OPTIONS"));
            r.push(pair("access-control-allow-headers", "Content-Type, Authorization"));
            r.push(pair("access-control-allow-credentials", "true"));
        },
        None => {},
    }
    r
}

/// The answer to a CORS preflight (`OPTIONS`) request from `origin`:
/// `204 No Content`, empty, with the CORS headers for that origin.
pub fn preflight_reply(origin: Option<&str>, allowed_domain: &Option<String>) -> (r: Reply)
    ensures
        r@ == (
            204u16,
            None::<Seq<char>>,
            cors_header_list(opt_text(origin), opt_string(*allowed_domain)),
            Seq::<char>::empty(),
        ),
{
    let r = Reply { status: 204, content_type: None, headers: Vec::new(), body: String::new() };
    assert(headers_view(r.headers@) =~= Seq::<(Seq<char>, Seq<char>)>::empty());
    with_cors(r, origin, allowed_domain)
}

/// `c` with an ASCII capital made small; header names compare so.
pub open spec fn lower_char(c: char) -> char {
    if 'A' <= c && c <= 'Z' {
        ((c as u32) + 32) as char
    } else {
        c
    }
}

/// `s` with its ASCII capitals made small.
pub open spec fn lower(s: Seq<char>) -> Seq<char> {
    Seq::new(s.len(), |i: int| lower_char(s[i]))
}

/// `n` names one of the CORS headers, whatever the case of its letters.
pub open spec fn is_cors_name(n: Seq<char>) -> bool {
    let l = lower(n);
    ||| l == "access-control-allow-origin"@
    ||| l == "access-control-allow-methods"@
    ||| l == "access-control-allow-headers"@
    ||| l == "access-control-allow-credentials"@
}

/// The headers that do not name a CORS header, in order.
pub open spec fn without_cors(hs: Seq<(Seq<char>, Seq<char>)>) -> Seq<(Seq<char>, Seq<char>)>
    decreases hs.len(),
{
    if hs.len() == 0 {
        seq![]
    } else if is_cors_name(hs.last().0) {
        without_cors(hs.drop_last())
    } else {
        without_cors(hs.drop_last()).push(hs.last())
    }
}

fn lower_c(c: char) -> (r: char)
    ensures
        r == lower_char(c),
{
    if 'A' <= c && c <= 'Z' {
        ((c as u8) + 32) as char
    } else {
        c
    }
}

fn names_cors(n: &str) -> (b: bool)
    ensures
        b == is_cors_name(n@),
{
    let cs = chars_of(n);
    let mut l: Vec<char> = Vec::new();
    let mut i: usize = 0;
    while i < cs.len()
        invariant
            i <= cs@.len(),
            cs@ == n@,
            l@ =~= lower(cs@).take(i as int),
        decreases cs@.len() - i,
    {
        l.push(lower_c(cs[i]));
        i = i + 1;
    }
    assert(lower(cs@).take(cs@.len() as int) =~= lower(n@));
    chars_eq(&l, &chars_of("access-control-allow-origin")) || chars_eq(
        &l,
        &chars_of("access-control-allow-methods"),
    ) || chars_eq(&l, &chars_of("access-control-allow-headers")) || chars_eq(
        &l,
        &chars_of("access-control-allow-credentials"),
    )
}

/// `reply` with the CORS headers for a request from `origin` set: when the
/// origin is allowed, any headers of those names are dropped and the CORS
/// headers follow the reply's other headers; otherwise the reply is unchanged.
pub fn with_cors(reply: Reply, origin: Option<&str>, allowed_domain: &Option<String>) -> (r: Reply)
    ensures
        r@ == (
            reply@.0,
            reply@.1,
            if cors_header_list(opt_text(origin), opt_string(*allowed_domain)).len() == 0 {
                reply@.2
            } else {
                without_cors(reply@.2) + cors_header_list(opt_text(origin), opt_string(*allowed_domain))
            },
            reply@.3,
        ),
{
    let extra = cors_headers(origin, allowed_domain);
    let ghost list = cors_header_list(opt_text(origin), opt_string(*allowed_domain));
    if extra.len() == 0 {
        return reply;
    }
    let Reply { status, content_type, headers, body } = reply;
    let ghost hv = headers_view(headers@);
    let mut kept: Vec<(String, String)> = Vec::new();
    let mut j: usize = 0;
    while j < headers.len()
        invariant
            j <= headers@.len(),
            hv == headers_view(headers@),
            headers_view(kept@) =~= without_cors(hv.take(j as int)),
        decreases headers@.len() - j,
    {
        assert(hv.take(j + 1).drop_last() =~= hv.take(j as int));
        assert(hv.take(j + 1).last() == (headers@[j as int].0@, headers@[j as int].1@));
        if !names_cors(headers[j].0.as_str()) {
            let ghost before = kept@;
            kept.push((headers[j].0.clone(), headers[j].1.clone()));
            assert(headers_view(kept@) =~= headers_view(before).push(
                (headers@[j as int].0@, headers@[j as int].1@),
            ));
        }
        j = j + 1;
    }
    assert(hv.take(headers@.len() as int) =~= hv);
    let mut r = Reply { status, content_type, headers: kept, body };
    let ghost start = headers_view(r.headers@);
    let mut i: usize = 0;
    while i < extra.len()
        invariant
            i <= extra@.len(),
            extra@.len() == list.len(),
            forall|k: int| 0 <= k < extra@.len() ==> (#[trigger] extra@[k].0@, extra@[k].1@) == list[k],
            headers_view(r.headers@) =~= start + list.take(i as int),
            r.status == status,
            r.content_type == content_type,
            r.body == body,
        decreases extra@.len() - i,
    {
        let ghost before = r.headers@;
        r.headers.push((extra[i].0.clone(), extra[i].1.clone()));
        assert((extra@[i as int].0@, extra@[i as int].1@) == list[i as int]);
        assert(headers_view(r.headers@) =~= headers_view(before).push(list[i as int]));
        assert(list.take(i + 1) =~= list.take(i as int).push(list[i as int]));
        i = i + 1;
    }
    assert(list.take(list.len() as int) =~= list);
    r
}

} // verus!
