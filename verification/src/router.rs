//! Request routing: exact routes keyed by path and method, prefix mounts
//! tried longest first, and the reading of cookies from a `Cookie` header.
use vstd::prelude::*;
use crate::text::{
    chars_eq, chars_of, find_char, first_index_of, has_prefix, is_space, lemma_first_index_of,
    lemma_first_index_of_not_before,
    lemma_first_index_of_bound, slice_chars, starts_with, string_of, trim, trim_end, trim_start,
    trimmed,
};
use vstd::utf8::encode_utf8;
use vstd::string::StringSliceAdditionalSpecFns;

verus! {

/// The HTTP methods a route can be registered for or a request can carry.
#[derive(Clone, Copy, PartialEq, Eq, Structural, Debug)]
pub enum Method {
    Get,
    Post,
    Put,
    Delete,
    Patch,
    Head,
    Options,
    Other,
}

/// A handler registered for one path and one method.
pub struct Route<H> {
    pub path: Vec<char>,
    pub method: Method,
    pub handler: H,
}

/// A handler that serves every path starting with `prefix`.
pub struct Mount<H> {
    pub prefix: Vec<char>,
    pub byte_len: usize,
    pub handler: H,
}

/// The error a handler meets when it reads a request body it cannot use.
pub enum ExtractError {
    JsonSync(String),
    JsonDeserialize(String),
    FormSync(String),
    FormDeserialize(String),
}

/// Length in bytes of the UTF-8 encoding of `s`.
pub open spec fn byte_len(s: Seq<char>) -> nat {
    encode_utf8(s).len()
}

/// The handler of the first route registered for `path` and `m`.
pub open spec fn lookup<H>(rs: Seq<Route<H>>, path: Seq<char>, m: Method) -> Option<H>
    decreases rs.len(),
{
    if rs.len() == 0 {
        None
    } else if rs[0].path@ == path && rs[0].method == m {
        Some(rs[0].handler)
    } else {
        lookup(rs.drop_first(), path, m)
    }
}

/// The handler of the first mount whose prefix starts `path`.
pub open spec fn prefix_lookup<H>(ms: Seq<Mount<H>>, path: Seq<char>) -> Option<H>
    decreases ms.len(),
{
    if ms.len() == 0 {
        None
    } else if has_prefix(path, ms[0].prefix@) {
        Some(ms[0].handler)
    } else {
        prefix_lookup(ms.drop_first(), path)
    }
}

/// Mounts are kept longest prefix first (by byte length); each records its byte length.
pub open spec fn mounts_ordered<H>(ms: Seq<Mount<H>>) -> bool {
    &&& forall|i: int| 0 <= i < ms.len() ==> #[trigger] ms[i].byte_len == byte_len(ms[i].prefix@) as usize
    &&& forall|i: int, j: int| 0 <= i < j < ms.len() ==> #[trigger] ms[i].byte_len >= #[trigger] ms[j].byte_len
}

/// The prefix a mount is stored under: one trailing `/` is dropped unless the
/// prefix is that `/` alone.
pub open spec fn clean_prefix(p: Seq<char>) -> Seq<char> {
    if p.len() > 1 && p.last() == '/' {
        p.drop_last()
    } else {
        p
    }
}

/// The mounts after one more is added: it goes behind every mount whose
/// prefix is at least as long, in front of every shorter one.
pub open spec fn mounted<H>(old_ms: Seq<Mount<H>>, new_ms: Seq<Mount<H>>, m: Mount<H>) -> bool {
    exists|k: int|
        0 <= k <= old_ms.len() && new_ms == old_ms.take(k).push(m) + old_ms.skip(k) && (forall|i: int|
            0 <= i < k ==> #[trigger] old_ms[i].byte_len >= m.byte_len) && (forall|i: int|
            k <= i < old_ms.len() ==> #[trigger] old_ms[i].byte_len < m.byte_len)
}

/// Routes requests to handlers of type `H` and carries the shared state `S`.
pub struct Router<S, H> {
    routes: Vec<Route<H>>,
    mounts: Vec<Mount<H>>,
    state: S,
}

impl<S, H> Router<S, H> {
    #[verifier::type_invariant]
    spec fn mounts_sorted(self) -> bool {
        mounts_ordered(self.mounts@)
    }

    /// The exact routes, in registration order.
    pub closed spec fn routes(self) -> Seq<Route<H>> {
        self.routes@
    }

    /// The prefix mounts, in the order they are tried.
    pub closed spec fn mounts(self) -> Seq<Mount<H>> {
        self.mounts@
    }

    /// The shared state.
    pub closed spec fn shared(self) -> S {
        self.state
    }

    /// The handler that serves a request: the route registered for its path and
    /// method, else the first mount whose prefix starts the path, else none.
    pub open spec fn dispatch(self, m: Method, path: Seq<char>) -> Option<H> {
        match lookup(self.routes(), path, m) {
            Some(h) => Some(h),
            None => prefix_lookup(self.mounts(), path),
        }
    }

    /// A router with no routes and no mounts.
    pub fn new(state: S) -> (r: Self)
        ensures
            r.routes().len() == 0,
            r.mounts().len() == 0,
            r.shared() == state,
            mounts_ordered(r.mounts()),
    {
        Router { routes: Vec::new(), mounts: Vec::new(), state }
    }

    /// The shared state.
    pub fn state(&self) -> (s: &S)
        ensures
            *s == self.shared(),
    {
        &self.state
    }

    /// Registers `handler` for `GET path`, replacing an earlier one.
    pub fn get(self, path: &str, handler: H) -> (r: Self)
        ensures
            forall|p: Seq<char>, m: Method|
                #[trigger] lookup(r.routes(), p, m) == if p == path@ && m == Method::Get {
                    Some(handler)
                } else {
                    lookup(self.routes(), p, m)
                },
            r.mounts() == self.mounts(),
            r.shared() == self.shared(),
            r.dispatch(Method::Get, path@) == Some(handler),
            mounts_ordered(r.mounts()),
    {
        self.route(path, Method::Get, handler)
    }

    /// Registers `handler` for `POST path`, replacing an earlier one.
    pub fn post(self, path: &str, handler: H) -> (r: Self)
        ensures
            forall|p: Seq<char>, m: Method|
                #[trigger] lookup(r.routes(), p, m) == if p == path@ && m == Method::Post {
                    Some(handler)
                } else {
                    lookup(self.routes(), p, m)
                },
            r.mounts() == self.mounts(),
            r.shared() == self.shared(),
            r.dispatch(Method::Post, path@) == Some(handler),
            mounts_ordered(r.mounts()),
    {
        self.route(path, Method::Post, handler)
    }

    /// Registers `handler` for `method path`, replacing an earlier one.
    pub fn route(self, path: &str, method: Method, handler: H) -> (r: Self)
        ensures
            forall|p: Seq<char>, m: Method|
                #[trigger] lookup(r.routes(), p, m) == if p == path@ && m == method {
                    Some(handler)
                } else {
                    lookup(self.routes(), p, m)
                },
            r.mounts() == self.mounts(),
            r.shared() == self.shared(),
            r.dispatch(method, path@) == Some(handler),
            mounts_ordered(r.mounts()),
    {
        proof {
            use_type_invariant(&self);
        }
        let key = chars_of(path);
        let Router { mut routes, mounts, state } = self;
        let ghost old_routes = routes@;
        let mut i: usize = 0;
        while i < routes.len() && !(chars_eq(&routes[i].path, &key) && routes[i].method == method)
            invariant
                i <= routes@.len(),
                routes@ == old_routes,
                forall|j: int|
                    0 <= j < i ==> !(#[trigger] routes@[j].path@ == key@ && routes@[j].method
                        == method),
            decreases routes@.len() - i,
        {
            i = i + 1;
        }
        if i < routes.len() {
            let old = routes.remove(i);
            routes.insert(i, Route { path: old.path, method, handler });
            proof {
                lemma_lookup_replace(old_routes, routes@, i as int, key@, method, handler);
            }
        } else {
            routes.push(Route { path: key, method, handler });
            proof {
                lemma_lookup_push(old_routes, routes@, path@, method, handler);
            }
        }
        let r = Router { routes, mounts, state };
        assert(lookup(r.routes(), path@, method) == Some(handler));
        r
    }

    /// Serves every path starting with `prefix` by `handler`; a trailing `/`
    /// is dropped from prefixes longer than one byte. Mounts are tried longest
    /// prefix first, and among prefixes of one length in the order of mounting.
    pub fn mount(self, prefix: &str, handler: H) -> (r: Self)
        ensures
            exists|m: Mount<H>|
                m.prefix@ == clean_prefix(prefix@) && m.handler == handler && m.byte_len == byte_len(
                    m.prefix@,
                ) as usize && mounted(self.mounts(), r.mounts(), m),
            r.routes() == self.routes(),
            r.shared() == self.shared(),
            mounts_ordered(r.mounts()),
    {
        proof {
            use_type_invariant(&self);
        }
        let chars = chars_of(prefix);
        let cleaned = if chars.len() > 1 && chars[chars.len() - 1] == '/' {
            slice_chars(&chars, 0, chars.len() - 1)
        } else {
            chars
        };
        assert(cleaned@ == clean_prefix(prefix@));
        let text = string_of(&cleaned);
        let ts = text.as_str();
        assert(ts@ == cleaned@);
        let len = ts.len();
        assert(ts.spec_bytes() == encode_utf8(ts@));
        assert(len == ts.spec_bytes().len() as usize);
        assert(len == byte_len(cleaned@) as usize);
        let ghost old_mounts = self.mounts();
        let Router { routes, mut mounts, state } = self;
        assert(mounts@ == old_mounts);
        let mut k: usize = 0;
        while k < mounts.len() && mounts[k].byte_len >= len
            invariant
                k <= mounts@.len(),
                mounts@ == old_mounts,
                forall|i: int| 0 <= i < k ==> #[trigger] mounts@[i].byte_len >= len,
            decreases mounts@.len() - k,
        {
            k = k + 1;
        }
        let m = Mount { prefix: cleaned, byte_len: len, handler };
        let ghost gm = m;
        mounts.insert(k, m);
        proof {
            assert(mounts@ =~= old_mounts.take(k as int).push(gm) + old_mounts.skip(k as int));
            assert forall|i: int| k <= i < old_mounts.len() implies #[trigger] old_mounts[i].byte_len
                < gm.byte_len by {
                if k < old_mounts.len() {
                    assert(old_mounts[k as int].byte_len < len);
                    if i > k {
                        assert(old_mounts[k as int].byte_len >= old_mounts[i].byte_len);
                    }
                }
            }
            assert(mounted(old_mounts, mounts@, gm));
            assert(gm.prefix@ == clean_prefix(prefix@) && gm.handler == handler && gm.byte_len == byte_len(gm.prefix@) as usize);
            assert forall|i: int, j: int| 0 <= i < j < mounts@.len() implies #[trigger] mounts@[i].byte_len
                >= #[trigger] mounts@[j].byte_len by {
                if j < k {
                } else if j == k {
                } else if i < k {
                    assert(mounts@[j] == old_mounts[j - 1]);
                    assert(old_mounts[i].byte_len >= old_mounts[j - 1].byte_len);
                } else if i == k {
                    assert(mounts@[j] == old_mounts[j - 1]);
                } else {
                    assert(mounts@[j] == old_mounts[j - 1]);
                    assert(mounts@[i] == old_mounts[i - 1]);
                }
            }
            assert forall|i: int| 0 <= i < mounts@.len() implies #[trigger] mounts@[i].byte_len == byte_len(
                mounts@[i].prefix@,
            ) as usize by {
                if i < k {
                } else if i == k {
                } else {
                    assert(mounts@[i] == old_mounts[i - 1]);
                }
            }
        }
        let r = Router { routes, mounts, state };
        assert(gm.prefix@ == clean_prefix(prefix@) && gm.handler == handler && gm.byte_len == byte_len(gm.prefix@) as usize && mounted(old_mounts, r.mounts(), gm));
        r
    }

    /// The handler that serves a request with method `method` for `path`, or
    /// none when nothing matches (the request is then answered `404 Not Found`).
    pub fn handle(&self, method: Method, path: &str) -> (r: Option<&H>)
        ensures
            match r {
                Some(h) => self.dispatch(method, path@) == Some(*h),
                None => self.dispatch(method, path@) is None,
            },
    {
        let key = chars_of(path);
        assert(self.routes@.skip(0) =~= self.routes@);
        assert(self.mounts@.skip(0) =~= self.mounts@);
        let mut i: usize = 0;
        while i < self.routes.len()
            invariant
                i <= self.routes@.len(),
                key@ == path@,
                lookup(self.routes@, key@, method) == lookup(self.routes@.skip(i as int), key@, method),
            decreases self.routes@.len() - i,
        {
            let r = &self.routes[i];
            proof {
                assert(self.routes@.skip(i as int).drop_first() =~= self.routes@.skip(i + 1));
            }
            assert(self.routes@.skip(i as int)[0] == self.routes@[i as int]);
            if chars_eq(&r.path, &key) && r.method == method {
                assert(lookup(self.routes@.skip(i as int), key@, method) == Some(r.handler));
                assert(key@ == path@);
                assert(self.routes() == self.routes@);
                assert(self.dispatch(method, path@) == Some(r.handler));
                return Some(&r.handler);
            }
            i = i + 1;
        }
        let mut j: usize = 0;
        while j < self.mounts.len()
            invariant
                j <= self.mounts@.len(),
                key@ == path@,
                lookup(self.routes@, key@, method) is None,
                prefix_lookup(self.mounts@, key@) == prefix_lookup(self.mounts@.skip(j as int), key@),
            decreases self.mounts@.len() - j,
        {
            let m = &self.mounts[j];
            proof {
                assert(self.mounts@.skip(j as int).drop_first() =~= self.mounts@.skip(j + 1));
            }
            assert(self.mounts@.skip(j as int)[0] == self.mounts@[j as int]);
            if starts_with(&key, &m.prefix) {
                assert(prefix_lookup(self.mounts@.skip(j as int), key@) == Some(m.handler));
                assert(self.dispatch(method, path@) == Some(m.handler));
                return Some(&m.handler);
            }
            j = j + 1;
        }
        None
    }
}

/// Index of the first mount whose prefix starts `path`, or the number of mounts.
pub open spec fn first_mount_for<H>(ms: Seq<Mount<H>>, path: Seq<char>) -> int
    decreases ms.len(),
{
    if ms.len() == 0 {
        0
    } else if has_prefix(path, ms[0].prefix@) {
        0
    } else {
        1 + first_mount_for(ms.drop_first(), path)
    }
}

proof fn lemma_first_mount<H>(ms: Seq<Mount<H>>, path: Seq<char>)
    ensures
        0 <= first_mount_for(ms, path) <= ms.len(),
        first_mount_for(ms, path) < ms.len() ==> has_prefix(path, ms[first_mount_for(ms, path)].prefix@)
            && prefix_lookup(ms, path) == Some(ms[first_mount_for(ms, path)].handler),
        first_mount_for(ms, path) == ms.len() ==> prefix_lookup(ms, path) is None,
        forall|k: int| 0 <= k < first_mount_for(ms, path) ==> !has_prefix(path, #[trigger] ms[k].prefix@),
    decreases ms.len(),
{
    if ms.len() > 0 && !has_prefix(path, ms[0].prefix@) {
        lemma_first_mount(ms.drop_first(), path);
        assert forall|k: int| 0 <= k < first_mount_for(ms, path) implies !has_prefix(path, #[trigger] ms[k].prefix@) by {
            if k > 0 {
                assert(ms[k] == ms.drop_first()[k - 1]);
            }
        }
    }
}

/// Longest prefix wins: when no exact route serves a request and some mount's
/// prefix starts its path, the mount that serves it has, among all mounts whose
/// prefix starts the path, a prefix of the greatest byte length, and among those
/// of that length the one mounted first.
pub proof fn lemma_longest_mount_serves<S, H>(r: Router<S, H>, m: Method, path: Seq<char>)
    requires
        mounts_ordered(r.mounts()),
        lookup(r.routes(), path, m) is None,
        exists|k: int| 0 <= k < r.mounts().len() && has_prefix(path, #[trigger] r.mounts()[k].prefix@),
    ensures
        exists|i: int|
            0 <= i < r.mounts().len() && has_prefix(path, #[trigger] r.mounts()[i].prefix@) && r.dispatch(m, path)
                == Some(r.mounts()[i].handler) && (forall|k: int|
                0 <= k < r.mounts().len() && has_prefix(path, #[trigger] r.mounts()[k].prefix@) ==> r.mounts()[i].byte_len
                    >= r.mounts()[k].byte_len && (r.mounts()[i].byte_len == r.mounts()[k].byte_len ==> i
                    <= k)),
{
    let ms = r.mounts();
    lemma_first_mount(ms, path);
    let i = first_mount_for(ms, path);
    let w = choose|k: int| 0 <= k < ms.len() && has_prefix(path, #[trigger] ms[k].prefix@);
    assert(i <= w);
    assert forall|k: int|
        0 <= k < ms.len() && has_prefix(path, #[trigger] ms[k].prefix@) implies ms[i].byte_len
        >= ms[k].byte_len && (ms[i].byte_len == ms[k].byte_len ==> i <= k) by {
        if k < i {
        } else if k > i {
            assert(ms[i].byte_len >= ms[k].byte_len);
        }
    }
    assert(has_prefix(path, ms[i].prefix@));
}

/// The value of cookie `name` in a `Cookie` header: the header is split at each
/// `;`, each part is trimmed of whitespace, and the first part that starts with
/// `name=` gives the rest of that part.
pub open spec fn cookie_in(header: Seq<char>, name: Seq<char>) -> Option<Seq<char>>
    decreases header.len(),
{
    let j = first_index_of(header, ';');
    let part = trim(header.take(j));
    proof {
        lemma_first_index_of_bound(header, ';');
    }
    if has_prefix(part, name.push('=')) {
        Some(part.skip(name.len() + 1int))
    } else if j < header.len() {
        cookie_in(header.skip(j + 1), name)
    } else {
        None
    }
}

/// A cookie sent alone is read back: in the header `name=value`, cookie
/// `name` has the value `value`, for a name that does not start with
/// whitespace and a value that does not end with it, neither holding `;`.
pub proof fn lemma_cookie_read_back(name: Seq<char>, value: Seq<char>)
    requires
        name.len() > 0,
        !is_space(name[0]),
        value.len() > 0 ==> !is_space(value.last()),
        forall|k: int| 0 <= k < name.len() ==> name[k] != ';',
        forall|k: int| 0 <= k < value.len() ==> value[k] != ';',
    ensures
        cookie_in(name + seq!['='] + value, name) == Some(value),
{
    let header = name + seq!['='] + value;
    let n = header.len() as int;
    assert forall|m: int| 0 <= m < n implies header[m] != ';' by {
        if m > name.len() {
            assert(header[m] == value[m - name.len() - 1]);
        }
    }
    lemma_first_index_of(header, ';', n);
    assert(header.take(n) =~= header);
    assert(trim_start(header) == header);
    if value.len() > 0 {
        assert(header.last() == value.last());
    }
    assert(trim_end(header) == header);
    assert(header.subrange(0, name.push('=').len() as int) =~= name.push('='));
    assert(header.skip(name.len() + 1int) =~= value);
}

/// Cookies before the one asked for are passed over: when none of the parts
/// of `earlier` is cookie `name`, the header `earlier;rest` gives what `rest`
/// gives.
pub proof fn lemma_cookie_skips_earlier(earlier: Seq<char>, rest: Seq<char>, name: Seq<char>)
    requires
        cookie_in(earlier, name) is None,
    ensures
        cookie_in(earlier + seq![';'] + rest, name) == cookie_in(rest, name),
    decreases earlier.len(),
{
    let h = earlier + seq![';'] + rest;
    lemma_first_index_of_bound(earlier, ';');
    let j = first_index_of(earlier, ';');
    assert forall|m: int| 0 <= m < j implies h[m] != ';' by {
        assert(h[m] == earlier[m]);
        if earlier[m] == ';' {
            lemma_first_index_of_not_before(earlier, ';', m);
        }
    }
    assert(h[j] == ';');
    lemma_first_index_of(h, ';', j);
    assert(h.take(j) =~= earlier.take(j));
    if j < earlier.len() {
        assert(h.skip(j + 1) =~= earlier.skip(j + 1) + seq![';'] + rest);
        lemma_cookie_skips_earlier(earlier.skip(j + 1), rest, name);
    } else {
        assert(h.skip(j + 1) =~= rest);
    }
}

/// A cookie is found wherever it stands in the header: after any cookies that
/// are not the one asked for, the part `; name=value` gives the value, for a
/// name that does not start with whitespace and a value that does not end
/// with it, neither holding `;`.
pub proof fn lemma_cookie_found_after_others(earlier: Seq<char>, name: Seq<char>, value: Seq<char>)
    requires
        cookie_in(earlier, name) is None,
        name.len() > 0,
        !is_space(name[0]),
        value.len() > 0 ==> !is_space(value.last()),
        forall|k: int| 0 <= k < name.len() ==> name[k] != ';',
        forall|k: int| 0 <= k < value.len() ==> value[k] != ';',
    ensures
        cookie_in(earlier + seq![';', ' '] + name + seq!['='] + value, name) == Some(value),
{
    let alone = name + seq!['='] + value;
    let spaced = seq![' '] + alone;
    assert(earlier + seq![';', ' '] + name + seq!['='] + value =~= earlier + seq![';'] + spaced);
    lemma_cookie_skips_earlier(earlier, spaced, name);
    lemma_cookie_read_back(name, value);
    let n = spaced.len() as int;
    assert forall|m: int| 0 <= m < n implies spaced[m] != ';' by {
        if m > name.len() + 1 {
            assert(spaced[m] == value[m - name.len() - 2]);
        } else if m > 0 && m <= name.len() {
            assert(spaced[m] == name[m - 1]);
        }
    }
    lemma_first_index_of(spaced, ';', n);
    assert(spaced.take(n) =~= spaced);
    assert(is_space(spaced[0]));
    assert(spaced.drop_first() =~= alone);
    assert(trim_start(alone) == alone);
    assert(trim_start(spaced) == alone);
    let m = alone.len() as int;
    assert forall|k: int| 0 <= k < m implies alone[k] != ';' by {
        assert(alone[k] == spaced[k + 1]);
    }
    lemma_first_index_of(alone, ';', m);
    assert(alone.take(m) =~= alone);
}

/// The value of cookie `name` in the `Cookie` header `header`, if it has one.
pub fn cookie_value(header: &str, name: &str) -> (r: Option<String>)
    ensures
        match r {
            Some(v) => cookie_in(header@, name@) == Some(v@),
            None => cookie_in(header@, name@) is None,
        },
{
    let h = chars_of(header);
    let nm = chars_of(name);
    let mut key = slice_chars(&nm, 0, nm.len());
    key.push('=');
    let mut st: usize = 0;
    assert(h@.subrange(0, h@.len() as int) =~= h@);
    loop
        invariant
            st <= h@.len(),
            h@ == header@,
            nm@ == name@,
            key@ == name@.push('='),
            cookie_in(h@, nm@) == cookie_in(h@.subrange(st as int, h@.len() as int), nm@),
        decreases h@.len() - st,
    {
        let j = find_char(&h, ';', st);
        let ghost rest = h@.subrange(st as int, h@.len() as int);
        let piece = slice_chars(&h, st, j);
        assert(piece@ =~= rest.take(j - st));
        let part = trimmed(&piece);
        if starts_with(&part, &key) {
            let v = slice_chars(&part, key.len(), part.len());
            assert(v@ =~= part@.skip(nm@.len() + 1int));
            return Some(string_of(&v));
        }
        if j < h.len() {
            assert(rest.skip(j - st + 1) =~= h@.subrange(j + 1, h@.len() as int));
            st = j + 1;
        } else {
            return None;
        }
    }
}

proof fn lemma_lookup_push<H>(rs: Seq<Route<H>>, ns: Seq<Route<H>>, path: Seq<char>, m: Method, h: H)
    requires
        forall|j: int| 0 <= j < rs.len() ==> !(#[trigger] rs[j].path@ == path && rs[j].method == m),
        ns.len() == rs.len() + 1,
        forall|j: int| 0 <= j < rs.len() ==> #[trigger] ns[j] == rs[j],
        ns[rs.len() as int].path@ == path,
        ns[rs.len() as int].method == m,
        ns[rs.len() as int].handler == h,
    ensures
        forall|p: Seq<char>, q: Method|
            #[trigger] lookup(ns, p, q) == if p == path && q == m {
                Some(h)
            } else {
                lookup(rs, p, q)
            },
    decreases rs.len(),
{
    assert forall|p: Seq<char>, q: Method| #[trigger] lookup(ns, p, q) == if p == path && q == m {
        Some(h)
    } else {
        lookup(rs, p, q)
    } by {
        if rs.len() > 0 {
            lemma_lookup_push(rs.drop_first(), ns.drop_first(), path, m, h);
            assert(lookup(ns.drop_first(), p, q) == if p == path && q == m {
                Some(h)
            } else {
                lookup(rs.drop_first(), p, q)
            });
        }
    }
}

proof fn lemma_lookup_replace<H>(rs: Seq<Route<H>>, ns: Seq<Route<H>>, i: int, path: Seq<char>, m: Method, h: H)
    requires
        0 <= i < rs.len(),
        forall|j: int| 0 <= j < i ==> !(#[trigger] rs[j].path@ == path && rs[j].method == m),
        rs[i].path@ == path,
        rs[i].method == m,
        ns.len() == rs.len(),
        forall|j: int| 0 <= j < rs.len() && j != i ==> #[trigger] ns[j] == rs[j],
        ns[i].path@ == path,
        ns[i].method == m,
        ns[i].handler == h,
    ensures
        forall|p: Seq<char>, q: Method|
            #[trigger] lookup(ns, p, q) == if p == path && q == m {
                Some(h)
            } else {
                lookup(rs, p, q)
            },
    decreases i,
{
    assert forall|p: Seq<char>, q: Method| #[trigger] lookup(ns, p, q) == if p == path && q == m {
        Some(h)
    } else {
        lookup(rs, p, q)
    } by {
        if i > 0 {
            lemma_lookup_replace(rs.drop_first(), ns.drop_first(), i - 1, path, m, h);
            assert(lookup(ns.drop_first(), p, q) == if p == path && q == m {
                Some(h)
            } else {
                lookup(rs.drop_first(), p, q)
            });
        } else {
            assert(ns.drop_first() =~= rs.drop_first());
        }
    }
}

} // verus!
