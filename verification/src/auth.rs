//! Session tokens signed with FN-DSA (degree 512).
//!
//! A token is `B64(payload) "." B64(signature)`, where the payload is the
//! UTF-8 JSON text of the claims and the signature is over the payload.
use vstd::prelude::*;
use vstd::utf8::encode_utf8;
use fn_dsa::{KeyPairGenerator, SigningKey, VerifyingKey};
use crate::claims::{claims_json, claims_to_json, Claims};
use crate::encoding::{
    base64_alphabet, base64_decode, base64_decoded, base64_encode, base64_text,
    lemma_base64_alphabet, lemma_base64_no_dot, lemma_base64_round_trip,
};
use crate::router::{cookie_in, cookie_value, lemma_cookie_read_back};
use crate::view::{html_escape, lemma_plain_text_unescaped};
use crate::text::{
    chars_of, extend_chars, find_char, first_index_of, lemma_first_index_of, slice_chars, string_of,
};

verus! {

/// Earliest instant `chrono` represents, in seconds since the Unix epoch.
pub const MIN_TIMESTAMP: i64 = -8334601315200;

/// Latest instant `chrono` represents, in whole seconds since the Unix epoch
/// (the last second of the year 262142).
pub const MAX_TIMESTAMP: i64 = 8210266876799;

/// Longest token lifetime, in minutes, that `chrono::Duration::minutes` accepts.
pub const MAX_TOKEN_MINUTES: i64 = 153722867280912;

/// The name of the session cookie.
pub const AUTH_COOKIE: &'static str = "vanguard_auth";

/// The name of the cookie that carries the sign-in form's CSRF token.
pub const CSRF_COOKIE: &'static str = "vanguard_csrf";

/// Length of an FN-DSA-512 signing key.
pub const SIGN_KEY_LEN: usize = 1345;

/// Length of an FN-DSA-512 verifying key.
pub const VRFY_KEY_LEN: usize = 897;

/// Length of an FN-DSA-512 signature.
pub const SIGNATURE_LEN: usize = 666;

/// `vrfy_key` is the verifying key that belongs to `sign_key` (as FN-DSA key
/// pair generation makes them).
pub uninterp spec fn fn_dsa_key_pair(sign_key: Seq<u8>, vrfy_key: Seq<u8>) -> bool;

/// `sign_key` decodes as an FN-DSA signing key of a standard degree.
pub uninterp spec fn fn_dsa_signing_key_valid(sign_key: Seq<u8>) -> bool;

/// `vrfy_key` decodes as an FN-DSA verifying key of a standard degree.
pub uninterp spec fn fn_dsa_verifying_key_valid(vrfy_key: Seq<u8>) -> bool;

/// `sig` is a valid FN-DSA signature of the raw message `msg` (empty domain
/// context) under the verifying key `vrfy_key`; false when the key does not decode.
pub uninterp spec fn fn_dsa_signature_valid(vrfy_key: Seq<u8>, msg: Seq<u8>, sig: Seq<u8>) -> bool;

/// What became of a request to sign a message.
pub enum SignOutcome {
    /// The key decoded and signing succeeded: the signature.
    Signed(Vec<u8>),
    /// The key decoded but signing reported failure: the signature buffer as
    /// signing left it.
    Unsigned(Vec<u8>),
    /// The key does not decode.
    KeyRejected,
}

/// Generates an FN-DSA-512 key pair (`KeyPairGeneratorStandard::keygen` with
/// the operating system's random source); the keys are random, and the
/// contract states only their lengths, that they decode, and that they belong
/// together.
#[verifier::external_body]
fn generate_key_pair() -> (r: (Vec<u8>, Vec<u8>))
    ensures
        r.0@.len() == SIGN_KEY_LEN,
        r.1@.len() == VRFY_KEY_LEN,
        fn_dsa_signing_key_valid(r.0@),
        fn_dsa_verifying_key_valid(r.1@),
        fn_dsa_key_pair(r.0@, r.1@),
{
    let mut kg = fn_dsa::KeyPairGeneratorStandard::default();
    let mut sign_key = vec![0u8; fn_dsa::sign_key_size(fn_dsa::FN_DSA_LOGN_512)];
    let mut vrfy_key = vec![0u8; fn_dsa::vrfy_key_size(fn_dsa::FN_DSA_LOGN_512)];
    kg.keygen(fn_dsa::FN_DSA_LOGN_512, &mut rand::rngs::OsRng, &mut sign_key, &mut vrfy_key);
    (sign_key, vrfy_key)
}

/// Signs `msg` with the encoded signing key (`SigningKeyStandard::decode`, then
/// `sign` with the operating system's random source, the empty domain context
/// and the raw message, into a buffer of the signature size of the key's
/// degree). The signature is random; the contract states that the key is
/// rejected exactly when it does not decode, that signing fails only for a key
/// that is not a generated private key (as `sign` documents), that the buffer
/// handed back for a key of the FN-DSA-512 length has the FN-DSA-512 signature
/// length, and that a signature made verifies under the verifying key that
/// belongs to the signing key. What a failed signing leaves in the buffer is
/// not stated.
#[verifier::external_body]
fn sign_message(sign_key: &[u8], msg: &[u8]) -> (r: SignOutcome)
    ensures
        (r is KeyRejected) == !fn_dsa_signing_key_valid(sign_key@),
        (exists|vk: Seq<u8>| fn_dsa_key_pair(sign_key@, vk)) ==> r is Signed,
        r matches SignOutcome::Signed(sig) ==> forall|vk: Seq<u8>|
            fn_dsa_key_pair(sign_key@, vk) ==> fn_dsa_signature_valid(vk, msg@, sig@),
        r matches SignOutcome::Signed(sig) ==> (sign_key@.len() == SIGN_KEY_LEN ==> sig@.len() == SIGNATURE_LEN),
        r matches SignOutcome::Unsigned(sig) ==> (sign_key@.len() == SIGN_KEY_LEN ==> sig@.len() == SIGNATURE_LEN),
{
    match fn_dsa::SigningKeyStandard::decode(sign_key) {
        None => SignOutcome::KeyRejected,
        Some(mut sk) => {
            let mut sig = vec![0u8; fn_dsa::signature_size(sk.get_logn())];
            match sk.sign(&mut rand::rngs::OsRng, &fn_dsa::DOMAIN_NONE, &fn_dsa::HASH_ID_RAW, msg, &mut sig) {
                Some(()) => SignOutcome::Signed(sig),
                None => SignOutcome::Unsigned(sig),
            }
        },
    }
}

/// Checks an FN-DSA signature of the raw message `msg` (empty domain context)
/// under the encoded verifying key (`VerifyingKeyStandard::decode`, then
/// `verify`); a key that does not decode verifies nothing.
#[verifier::external_body]
fn verify_signature(vrfy_key: &[u8], msg: &[u8], sig: &[u8]) -> (r: bool)
    ensures
        r == fn_dsa_signature_valid(vrfy_key@, msg@, sig@),
        !fn_dsa_verifying_key_valid(vrfy_key@) ==> !r,
{
    match fn_dsa::VerifyingKeyStandard::decode(vrfy_key) {
        Some(vk) => vk.verify(sig, &fn_dsa::DOMAIN_NONE, &fn_dsa::HASH_ID_RAW, msg),
        None => false,
    }
}

/// The current time in whole seconds since the Unix epoch (`chrono::Utc::now`,
/// then `timestamp`). It depends on the clock; the contract states only that it
/// is not before the epoch (`Utc::now` panics then) and that `chrono` can
/// represent it.
#[verifier::external_body]
fn unix_now() -> (t: i64)
    ensures
        0 <= t <= MAX_TIMESTAMP,
{
    chrono::Utc::now().timestamp()
}

/// The `SameSite` attribute of a cookie.
#[derive(Clone, Copy, PartialEq, Eq, Structural, Debug)]
pub enum SameSitePolicy {
    /// `SameSite=Strict`
    Strict,
    /// `SameSite=Lax`
    Lax,
    /// `SameSite=None`
    Unrestricted,
}

/// How a `SameSite` policy is written in a `Set-Cookie` value.
pub open spec fn same_site_text(p: SameSitePolicy) -> Seq<char> {
    match p {
        SameSitePolicy::Strict => "Strict"@,
        SameSitePolicy::Lax => "Lax"@,
        SameSitePolicy::Unrestricted => "None"@,
    }
}

/// The `Set-Cookie` value of a cookie with the given name, value, path and
/// attributes: `name=value`, then `; HttpOnly` if it is HTTP-only, its
/// `SameSite` policy, `; Secure` if it is secure, and its path.
pub open spec fn cookie_text(
    name: Seq<char>,
    value: Seq<char>,
    path: Seq<char>,
    http_only: bool,
    same_site: SameSitePolicy,
    secure: bool,
) -> Seq<char> {
    name + "="@ + value + (if http_only {
        "; HttpOnly"@
    } else {
        Seq::empty()
    }) + "; SameSite="@ + same_site_text(same_site) + (if secure {
        "; Secure"@
    } else {
        Seq::empty()
    }) + "; Path="@ + path
}

/// The `Set-Cookie` value of the framework's cookies: HTTP-only,
/// `SameSite=Lax`, for path `/`, secure when asked.
pub open spec fn set_cookie_text(name: Seq<char>, value: Seq<char>, secure: bool) -> Seq<char> {
    cookie_text(name, value, "/"@, true, SameSitePolicy::Lax, secure)
}

/// Formats a cookie as a `Set-Cookie` value (`cookie::Cookie::build` with the
/// given path, `http_only`, `same_site` and `secure`, then `to_string`, which
/// writes the name and value unencoded, then `HttpOnly` when set, `SameSite`,
/// `Secure` when set, and `Path`).
#[verifier::external_body]
fn set_cookie(
    name: &str,
    value: String,
    path: &str,
    http_only: bool,
    same_site: SameSitePolicy,
    secure: bool,
) -> (r: String)
    ensures
        r@ == cookie_text(name@, value@, path@, http_only, same_site, secure),
{
    let policy = match same_site {
        SameSitePolicy::Strict => cookie::SameSite::Strict,
        SameSitePolicy::Lax => cookie::SameSite::Lax,
        SameSitePolicy::Unrestricted => cookie::SameSite::None,
    };
    cookie::Cookie::build((name.to_string(), value)).path(path.to_string()).http_only(http_only)
        .same_site(policy).secure(secure).to_string()
}

/// The `Set-Cookie` value of one of the framework's cookies.
fn framework_cookie(name: &str, value: String, secure: bool) -> (r: String)
    ensures
        r@ == set_cookie_text(name@, value@, secure),
{
    set_cookie(name, value, "/", true, SameSitePolicy::Lax, secure)
}

/// `vanguard_csrf`, the name of the cookie that carries the sign-in form's CSRF token.
pub open spec fn csrf_cookie_name() -> Seq<char> {
    seq!['v', 'a', 'n', 'g', 'u', 'a', 'r', 'd', '_', 'c', 's', 'r', 'f']
}

/// A lowercase hexadecimal digit.
pub open spec fn is_lower_hex(c: char) -> bool {
    ('0' <= c && c <= '9') || ('a' <= c && c <= 'f')
}

/// The shape of a CSRF token: 32 lowercase hexadecimal digits.
pub open spec fn csrf_token_shape(t: Seq<char>) -> bool {
    t.len() == 32 && forall|i: int| 0 <= i < t.len() ==> is_lower_hex(#[trigger] t[i])
}

/// 128 random bits (`rand::random::<u128>`, from the thread-local generator),
/// written as 32 lowercase hexadecimal digits. The bits are random; the
/// contract states only the shape of the text.
#[verifier::external_body]
fn random_hex_token() -> (r: String)
    ensures
        csrf_token_shape(r@),
{
    format!("{:032x}", rand::random::<u128>())
}

/// `vanguard_auth`, the name of the session cookie.
pub open spec fn auth_cookie_name() -> Seq<char> {
    seq!['v', 'a', 'n', 'g', 'u', 'a', 'r', 'd', '_', 'a', 'u', 't', 'h']
}

/// The UTF-8 bytes of the JSON text of the claims.
pub open spec fn claims_payload(sub: Seq<char>, exp: i64, iat: i64) -> Seq<u8> {
    encode_utf8(claims_json(sub, exp, iat))
}

/// The text of a token with the given payload and signature.
pub open spec fn token_text(payload: Seq<u8>, sig: Seq<u8>) -> Seq<char> {
    base64_text(payload) + seq!['.'] + base64_text(sig)
}

/// `token` carries the given claims, signed by `sign_key`: its signature
/// verifies under any verifying key that belongs to `sign_key`.
pub open spec fn issued(sign_key: Seq<u8>, token: Seq<char>, sub: Seq<char>, exp: i64, iat: i64) -> bool {
    exists|sig: Seq<u8>|
        token == token_text(claims_payload(sub, exp, iat), sig) && (sign_key.len() == SIGN_KEY_LEN
            ==> sig.len() == SIGNATURE_LEN) && (forall|vk: Seq<u8>|
            fn_dsa_key_pair(sign_key, vk) ==> fn_dsa_signature_valid(
                vk,
                claims_payload(sub, exp, iat),
                sig,
            ))
}

/// The payload a token carries, if it is signed under `vrfy_key`: the token
/// must be two base64 parts joined by one `.`, the second a signature of the
/// bytes of the first under `vrfy_key`.
pub open spec fn signed_payload(vrfy_key: Seq<u8>, token: Seq<char>) -> Option<Seq<u8>> {
    let j = first_index_of(token, '.');
    let rest = token.skip(j + 1);
    if j >= token.len() || first_index_of(rest, '.') < rest.len() {
        None
    } else {
        match (base64_decoded(token.take(j)), base64_decoded(rest)) {
            (Some(payload), Some(sig)) => if fn_dsa_signature_valid(vrfy_key, payload, sig) {
                Some(payload)
            } else {
                None
            },
            _ => None,
        }
    }
}

/// The claims, if they have not expired at `now` (`exp > now`).
pub open spec fn unexpired_spec(c: Claims, now: i64) -> Option<Claims> {
    if c.exp > now {
        Some(c)
    } else {
        None
    }
}

/// The claims, if they have not expired at the time `now` of the clock.
pub fn unexpired_at(claims: Claims, now: i64) -> (r: Option<Claims>)
    ensures
        r == unexpired_spec(claims, now),
{
    if claims.exp > now {
        Some(claims)
    } else {
        None
    }
}

/// The current time of the clock, in whole seconds since the Unix epoch.
pub fn clock_now() -> (t: i64)
    ensures
        0 <= t <= MAX_TIMESTAMP,
{
    unix_now()
}

/// The claims, if they have not expired now.
pub fn unexpired(claims: Claims) -> (r: Option<Claims>)
    ensures
        exists|now: i64| 0 <= now <= MAX_TIMESTAMP && r == unexpired_spec(claims, now),
        exists|now: i64| call_ensures(clock_now, (), now) && r == unexpired_spec(claims, now),
{
    let now = clock_now();
    let ghost c = claims;
    let r = unexpired_at(claims, now);
    assert(call_ensures(clock_now, (), now));
    assert(0 <= now <= MAX_TIMESTAMP && r == unexpired_spec(c, now));
    r
}

/// The expiry check reads only the expiry: claims that have expired at `now`
/// (`exp <= now`) are refused and the others are kept unchanged, whatever
/// their subject and issue time; and a later time never revives what an
/// earlier time refused.
pub proof fn lemma_expiry_check(c: Claims, d: Claims, now: i64, later: i64)
    ensures
        c.exp <= now ==> unexpired_spec(c, now) is None,
        c.exp > now ==> unexpired_spec(c, now) == Some(c),
        c.exp == d.exp ==> (unexpired_spec(c, now) is Some <==> unexpired_spec(d, now) is Some),
        now <= later && unexpired_spec(c, now) is None ==> unexpired_spec(c, later) is None,
{
}

/// The session token in a `Cookie` header: the value of its session cookie,
/// if it has one.
pub fn session_token(header: &str) -> (r: Option<String>)
    ensures
        match r {
            Some(t) => cookie_in(header@, auth_cookie_name()) == Some(t@),
            None => cookie_in(header@, auth_cookie_name()) is None,
        },
{
    let name = AUTH_COOKIE;
    proof {
        reveal_strlit("vanguard_auth");
    }
    assert(name@ == auth_cookie_name());
    cookie_value(header, name)
}

/// Issues and checks session tokens with one FN-DSA key pair.
pub struct AuthManager {
    sign_key: Vec<u8>,
    vrfy_key: Vec<u8>,
}

impl AuthManager {
    /// The encoded signing key.
    pub closed spec fn sign_key(self) -> Seq<u8> {
        self.sign_key@
    }

    /// The encoded verifying key.
    pub closed spec fn vrfy_key(self) -> Seq<u8> {
        self.vrfy_key@
    }

    /// A manager with a freshly generated key pair.
    pub fn generate() -> (m: Self)
        ensures
            m.sign_key().len() == SIGN_KEY_LEN,
            m.vrfy_key().len() == VRFY_KEY_LEN,
            fn_dsa_signing_key_valid(m.sign_key()),
            fn_dsa_verifying_key_valid(m.vrfy_key()),
            fn_dsa_key_pair(m.sign_key(), m.vrfy_key()),
    {
        let (sign_key, vrfy_key) = generate_key_pair();
        AuthManager { sign_key, vrfy_key }
    }

    /// A manager with the keys stored as the signing key followed by the
    /// verifying key, if `bytes` has exactly the length of the two.
    pub fn from_key_bytes(bytes: &[u8]) -> (r: Option<Self>)
        ensures
            r is Some <==> bytes@.len() == SIGN_KEY_LEN + VRFY_KEY_LEN,
            r matches Some(m) ==> m.sign_key() == bytes@.take(SIGN_KEY_LEN as int) && m.vrfy_key()
                == bytes@.skip(SIGN_KEY_LEN as int),
    {
        if bytes.len() != SIGN_KEY_LEN + VRFY_KEY_LEN {
            return None;
        }
        let sign_key = slice_bytes(bytes, 0, SIGN_KEY_LEN);
        let vrfy_key = slice_bytes(bytes, SIGN_KEY_LEN, bytes.len());
        assert(bytes@.subrange(0, SIGN_KEY_LEN as int) =~= bytes@.take(SIGN_KEY_LEN as int));
        assert(bytes@.subrange(SIGN_KEY_LEN as int, bytes@.len() as int) =~= bytes@.skip(
            SIGN_KEY_LEN as int,
        ));
        Some(AuthManager { sign_key, vrfy_key })
    }

    /// The keys as stored: the signing key followed by the verifying key.
    pub fn key_bytes(&self) -> (r: Vec<u8>)
        ensures
            r@ == self.sign_key() + self.vrfy_key(),
    {
        let mut r = slice_bytes(&self.sign_key, 0, self.sign_key.len());
        let mut i: usize = 0;
        while i < self.vrfy_key.len()
            invariant
                i <= self.vrfy_key@.len(),
                r@ == self.sign_key@ + self.vrfy_key@.subrange(0, i as int),
            decreases self.vrfy_key@.len() - i,
        {
            r.push(self.vrfy_key[i]);
            assert(self.vrfy_key@.subrange(0, i as int).push(self.vrfy_key@[i as int])
                =~= self.vrfy_key@.subrange(0, i + 1));
            i = i + 1;
        }
        assert(self.vrfy_key@.subrange(0, self.vrfy_key@.len() as int) =~= self.vrfy_key@);
        r
    }

    /// A token for `subject` issued at `now` (seconds since the Unix epoch)
    /// and expiring `duration_mins` minutes later.
    pub fn create_token_at(&self, subject: &str, duration_mins: i64, now: i64) -> (r: Result<String, String>)
        requires
            MIN_TIMESTAMP <= now <= MAX_TIMESTAMP,
            -MAX_TOKEN_MINUTES <= duration_mins <= MAX_TOKEN_MINUTES,
            MIN_TIMESTAMP <= now + 60 * duration_mins <= MAX_TIMESTAMP,
        ensures
            created(self.sign_key(), subject@, duration_mins, now, r),
    {
        let exp = now + 60 * duration_mins;
        let claims = Claims { sub: subject.to_owned(), exp, iat: now };
        let payload = claims_to_json(&claims);
        let bytes = payload.as_str().as_bytes();
        let sig = match sign_message(&self.sign_key, bytes) {
            SignOutcome::Signed(sig) => sig,
            SignOutcome::Unsigned(sig) => sig,
            SignOutcome::KeyRejected => return Err(key_error_text()),
        };
        let head = base64_encode(bytes);
        let tail = base64_encode(&sig);
        let mut out = chars_of(head.as_str());
        out.push('.');
        extend_chars(&mut out, &chars_of(tail.as_str()));
        let token = string_of(&out);
        assert(token@ == token_text(claims_payload(subject@, exp, now), sig@));
        Ok(token)
    }

    /// A token for `subject` issued now and expiring `duration_mins` minutes
    /// later; refused when `chrono` cannot represent that expiry.
    pub fn create_token(&self, subject: &str, duration_mins: i64) -> (r: Result<String, String>)
        requires
            -MAX_TOKEN_MINUTES <= duration_mins <= MAX_TOKEN_MINUTES,
        ensures
            exists|now: i64| created_now(self.sign_key(), subject@, duration_mins, now, r),
            exists|now: i64|
                call_ensures(clock_now, (), now) && created_now(self.sign_key(), subject@, duration_mins, now, r),
    {
        let now = clock_now();
        let exp = now as i128 + 60 * duration_mins as i128;
        if exp < MIN_TIMESTAMP as i128 || exp > MAX_TIMESTAMP as i128 {
            let r = Err(expiry_error_text());
            assert(call_ensures(clock_now, (), now));
            assert(created_now(self.sign_key(), subject@, duration_mins, now, r));
            return r;
        }
        let r = self.create_token_at(subject, duration_mins, now);
        assert(call_ensures(clock_now, (), now));
        assert(created_now(self.sign_key(), subject@, duration_mins, now, r));
        r
    }

    /// A new token for the subject of `claims`, expiring `duration_mins`
    /// minutes from now.
    pub fn refresh_token(&self, claims: &Claims, duration_mins: i64) -> (r: Result<String, String>)
        requires
            -MAX_TOKEN_MINUTES <= duration_mins <= MAX_TOKEN_MINUTES,
        ensures
            exists|now: i64| created_now(self.sign_key(), claims.sub@, duration_mins, now, r),
            exists|now: i64|
                call_ensures(clock_now, (), now) && created_now(self.sign_key(), claims.sub@, duration_mins, now, r),
    {
        self.create_token(claims.sub.as_str(), duration_mins)
    }

    /// The payload `token` carries, if its signature verifies under this
    /// manager's verifying key; nothing when that key does not decode.
    pub fn verified_payload(&self, token: &str) -> (r: Option<Vec<u8>>)
        ensures
            match r {
                Some(p) => signed_payload(self.vrfy_key(), token@) == Some(p@),
                None => signed_payload(self.vrfy_key(), token@) is None,
            },
            !fn_dsa_verifying_key_valid(self.vrfy_key()) ==> r is None,
    {
        let chars = chars_of(token);
        let n = chars.len();
        assert(chars@.subrange(0, n as int) =~= chars@);
        let j = find_char(&chars, '.', 0);
        if j >= n {
            return None;
        }
        let k = find_char(&chars, '.', j + 1);
        assert(chars@.subrange(j + 1, n as int) =~= token@.skip(j + 1));
        if k < n {
            return None;
        }
        let head = string_of(&slice_chars(&chars, 0, j));
        let tail = string_of(&slice_chars(&chars, j + 1, n));
        assert(head@ =~= token@.take(j as int));
        assert(tail@ =~= token@.skip(j + 1));
        let payload = match base64_decode(head.as_str()) {
            Some(b) => b,
            None => return None,
        };
        let sig = match base64_decode(tail.as_str()) {
            Some(b) => b,
            None => return None,
        };
        proof {
            lemma_base64_decoded(payload@, head@);
            lemma_base64_decoded(sig@, tail@);
        }
        if !verify_signature(&self.vrfy_key, &payload, &sig) {
            return None;
        }
        Some(payload)
    }

    /// A fresh random token for the sign-in form and its CSRF cookie.
    pub fn generate_csrf_token(&self) -> (r: String)
        ensures
            csrf_token_shape(r@),
    {
        random_hex_token()
    }

    /// The `Set-Cookie` value that stores the sign-in form's CSRF token.
    pub fn csrf_cookie(&self, token: &str, secure: bool) -> (r: String)
        ensures
            r@ == set_cookie_text(csrf_cookie_name(), token@, secure),
    {
        let name = CSRF_COOKIE;
        proof {
            reveal_strlit("vanguard_csrf");
        }
        assert(name@ == csrf_cookie_name());
        framework_cookie(name, token.to_owned(), secure)
    }

    /// The `Set-Cookie` value that stores `token` as the session cookie.
    pub fn auth_cookie(&self, token: String, secure: bool) -> (r: String)
        ensures
            r@ == set_cookie_text(auth_cookie_name(), token@, secure),
    {
        let name = AUTH_COOKIE;
        proof {
            reveal_strlit("vanguard_auth");
        }
        assert(name@ == auth_cookie_name());
        framework_cookie(name, token, secure)
    }
}

/// `r` is what issuing a token at the time `now` of the clock gives: `now`
/// is not before the Unix epoch and `chrono` can represent it; if it can also
/// represent the expiry, `r` is as `created` says, else the expiry error.
pub open spec fn created_now(sign_key: Seq<u8>, subject: Seq<char>, duration_mins: i64, now: i64, r: Result<String, String>) -> bool {
    &&& 0 <= now <= MAX_TIMESTAMP
    &&& if MIN_TIMESTAMP <= now + 60 * duration_mins <= MAX_TIMESTAMP {
        created(sign_key, subject, duration_mins, now, r)
    } else {
        r matches Err(e) && e@ == expiry_error()
    }
}

/// `r` is what issuing a token for `subject` at `now`, valid for
/// `duration_mins` minutes, with `sign_key` gives: a token carrying those
/// claims exactly when the key decodes (its signature verifies under the key's
/// verifying key, and has the FN-DSA-512 length for a key of that length), and
/// the key error when it does not.
pub open spec fn created(sign_key: Seq<u8>, subject: Seq<char>, duration_mins: i64, now: i64, r: Result<String, String>) -> bool {
    &&& (r is Ok <==> fn_dsa_signing_key_valid(sign_key))
    &&& match r {
        Ok(t) => issued(sign_key, t@, subject, (now + 60 * duration_mins) as i64, now),
        Err(e) => e@ == key_error(),
    }
}

proof fn lemma_base64_decoded(b: Seq<u8>, t: Seq<char>)
    requires
        base64_text(b) == t,
    ensures
        base64_decoded(t) == Some(b),
{
    lemma_base64_round_trip(b);
}

/// An issued token is accepted with the claims it was issued with: if
/// `token` was issued by a signing key and `vrfy_key` belongs to that key, its
/// signature verifies and the payload it carries is exactly the UTF-8 JSON
/// text of those claims.
pub proof fn lemma_issued_token_verifies(
    sign_key: Seq<u8>,
    vrfy_key: Seq<u8>,
    token: Seq<char>,
    sub: Seq<char>,
    exp: i64,
    iat: i64,
)
    requires
        fn_dsa_key_pair(sign_key, vrfy_key),
        issued(sign_key, token, sub, exp, iat),
    ensures
        signed_payload(vrfy_key, token) == Some(claims_payload(sub, exp, iat)),
{
    let payload = claims_payload(sub, exp, iat);
    let sig = choose|sig: Seq<u8>|
        token == token_text(payload, sig) && (forall|vk: Seq<u8>|
            fn_dsa_key_pair(sign_key, vk) ==> fn_dsa_signature_valid(vk, payload, sig));
    let tp = base64_text(payload);
    let ts = base64_text(sig);
    lemma_base64_no_dot(payload);
    lemma_base64_no_dot(sig);
    let j = tp.len() as int;
    assert(token[j] == '.');
    assert forall|m: int| 0 <= m < j implies token[m] != '.' by {
        assert(token[m] == tp[m]);
    }
    lemma_first_index_of(token, '.', j);
    assert(token.take(j) =~= tp);
    assert(token.skip(j + 1) =~= ts);
    lemma_first_index_of(ts, '.', ts.len() as int);
    lemma_base64_round_trip(payload);
    lemma_base64_round_trip(sig);
}

/// A CSRF token makes the round trip the sign-in check relies on: written
/// into the sign-in form it needs no escaping, so the form sends it back as
/// it is, and the CSRF cookie that carries it, sent back alone, reads back
/// as the same token.
pub proof fn lemma_csrf_token_round_trip(token: Seq<char>)
    requires
        csrf_token_shape(token),
    ensures
        html_escape(token) == token,
        cookie_in(csrf_cookie_name() + seq!['='] + token, csrf_cookie_name()) == Some(token),
{
    assert forall|i: int| 0 <= i < token.len() implies {
        let c = #[trigger] token[i];
        c != '&' && c != '<' && c != '>' && c != '"'
    } by {
        assert(is_lower_hex(token[i]));
    }
    lemma_plain_text_unescaped(token);
    assert forall|k: int| 0 <= k < token.len() implies token[k] != ';' by {
        assert(is_lower_hex(token[k]));
    }
    assert(is_lower_hex(token[token.len() - 1]));
    lemma_cookie_read_back(csrf_cookie_name(), token);
}

/// Keys saved with `key_bytes` load back with `from_key_bytes`: the bytes
/// stored for a signing key and a verifying key of the standard lengths have
/// the length `from_key_bytes` accepts, and it splits them into the same two
/// keys.
pub proof fn lemma_key_bytes_round_trip(sign_key: Seq<u8>, vrfy_key: Seq<u8>)
    requires
        sign_key.len() == SIGN_KEY_LEN,
        vrfy_key.len() == VRFY_KEY_LEN,
    ensures
        (sign_key + vrfy_key).len() == SIGN_KEY_LEN + VRFY_KEY_LEN,
        (sign_key + vrfy_key).take(SIGN_KEY_LEN as int) == sign_key,
        (sign_key + vrfy_key).skip(SIGN_KEY_LEN as int) == vrfy_key,
{
    assert((sign_key + vrfy_key).take(SIGN_KEY_LEN as int) =~= sign_key);
    assert((sign_key + vrfy_key).skip(SIGN_KEY_LEN as int) =~= vrfy_key);
}

/// What sign-in stores, the next request reads back: a browser that sends
/// back the session cookie it was given (`Cookie: vanguard_auth=<token>`), for
/// a token issued to `sub` by a signing key that `vrfy_key` belongs to, has
/// that token found in its header, and the token carries, verified, the JSON
/// text of the user's claims.
pub proof fn lemma_session_cookie_read_back(
    sign_key: Seq<u8>,
    vrfy_key: Seq<u8>,
    token: Seq<char>,
    sub: Seq<char>,
    exp: i64,
    iat: i64,
)
    requires
        fn_dsa_key_pair(sign_key, vrfy_key),
        issued(sign_key, token, sub, exp, iat),
    ensures
        cookie_in(auth_cookie_name() + seq!['='] + token, auth_cookie_name()) == Some(token),
        signed_payload(vrfy_key, token) == Some(claims_payload(sub, exp, iat)),
{
    lemma_issued_token_verifies(sign_key, vrfy_key, token, sub, exp, iat);
    let payload = claims_payload(sub, exp, iat);
    let sig = choose|sig: Seq<u8>|
        token == token_text(payload, sig) && (forall|vk: Seq<u8>|
            fn_dsa_key_pair(sign_key, vk) ==> fn_dsa_signature_valid(vk, payload, sig));
    let tp = base64_text(payload);
    let ts = base64_text(sig);
    lemma_base64_alphabet(payload);
    lemma_base64_alphabet(sig);
    assert forall|k: int| 0 <= k < token.len() implies token[k] != ';' by {
        if k < tp.len() {
            assert(base64_alphabet(tp[k]));
        } else if k > tp.len() {
            assert(token[k] == ts[k - tp.len() - 1]);
            assert(base64_alphabet(ts[k - tp.len() - 1]));
        }
    }
    if ts.len() > 0 {
        assert(token.last() == ts.last());
        assert(base64_alphabet(ts[ts.len() - 1]));
    } else {
        assert(token.last() == '.');
    }
    lemma_cookie_read_back(auth_cookie_name(), token);
}

/// `token expiry is out of range`
pub open spec fn expiry_error() -> Seq<char> {
    seq![
        't', 'o', 'k', 'e', 'n', ' ', 'e', 'x', 'p', 'i', 'r', 'y', ' ', 'i', 's', ' ', 'o', 'u', 't',
        ' ', 'o', 'f', ' ', 'r', 'a', 'n', 'g', 'e',
    ]
}

fn key_error_text() -> (s: String)
    ensures
        s@ == key_error(),
{
    let s = "Failed to decode signing key";
    proof {
        reveal_strlit("Failed to decode signing key");
    }
    assert(s@ =~= key_error());
    s.to_owned()
}

fn expiry_error_text() -> (s: String)
    ensures
        s@ == expiry_error(),
{
    let s = "token expiry is out of range";
    proof {
        reveal_strlit("token expiry is out of range");
    }
    assert(s@ =~= expiry_error());
    s.to_owned()
}

/// `Failed to decode signing key`
pub open spec fn key_error() -> Seq<char> {
    seq![
        'F', 'a', 'i', 'l', 'e', 'd', ' ', 't', 'o', ' ', 'd', 'e', 'c', 'o', 'd', 'e', ' ', 's', 'i',
        'g', 'n', 'i', 'n', 'g', ' ', 'k', 'e', 'y',
    ]
}

/// The bytes `s[a..b]`.
fn slice_bytes(s: &[u8], a: usize, b: usize) -> (r: Vec<u8>)
    requires
        a <= b <= s@.len(),
    ensures
        r@ == s@.subrange(a as int, b as int),
{
    let mut r: Vec<u8> = Vec::new();
    let mut i: usize = a;
    while i < b
        invariant
            a <= i <= b <= s@.len(),
            r@ == s@.subrange(a as int, i as int),
        decreases b - i,
    {
        r.push(s[i]);
        assert(s@.subrange(a as int, i as int).push(s@[i as int]) =~= s@.subrange(a as int, i + 1));
        i = i + 1;
    }
    r
}

} // verus!
