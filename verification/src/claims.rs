//! The claims a token carries, and their JSON text: `{"sub":...,"exp":...,"iat":...}`
//! with the subject as a JSON string and the two times as decimal integers.
use vstd::prelude::*;
use crate::text::{chars_of, extend_chars, string_of};

verus! {

/// What a session token asserts: its subject, when it expires and when it was
/// issued (seconds since the Unix epoch).
#[derive(Clone, Debug)]
pub struct Claims {
    pub sub: String,
    pub exp: i64,
    pub iat: i64,
}

/// `{"sub":"`
pub open spec fn json_head() -> Seq<char> {
    seq!['{', '"', 's', 'u', 'b', '"', ':', '"']
}

/// `","exp":`
pub open spec fn json_mid() -> Seq<char> {
    seq!['"', ',', '"', 'e', 'x', 'p', '"', ':']
}

/// `,"iat":`
pub open spec fn json_tail() -> Seq<char> {
    seq![',', '"', 'i', 'a', 't', '"', ':']
}

/// The lowercase hexadecimal digit for `v` (below 16).
pub open spec fn hex_digit(v: int) -> char {
    if v < 10 {
        (48 + v) as char
    } else {
        (87 + v) as char
    }
}

/// How a character appears inside a JSON string: `"` and `\` and the control
/// characters are escaped (`\b`, `\t`, `\n`, `\f`, `\r`, else `\u00xx`);
/// every other character stands for itself.
pub open spec fn escaped_char(c: char) -> Seq<char> {
    if c == '"' {
        seq!['\\', '"']
    } else if c == '\\' {
        seq!['\\', '\\']
    } else if c == '\u{8}' {
        seq!['\\', 'b']
    } else if c == '\t' {
        seq!['\\', 't']
    } else if c == '\n' {
        seq!['\\', 'n']
    } else if c == '\u{c}' {
        seq!['\\', 'f']
    } else if c == '\r' {
        seq!['\\', 'r']
    } else if (c as int) < 32 {
        seq!['\\', 'u', '0', '0', hex_digit(c as int / 16), hex_digit(c as int % 16)]
    } else {
        seq![c]
    }
}

/// The body of the JSON string for `s`, without its quotes.
pub open spec fn json_escape(s: Seq<char>) -> Seq<char>
    decreases s.len(),
{
    if s.len() == 0 {
        seq![]
    } else {
        escaped_char(s[0]) + json_escape(s.drop_first())
    }
}

/// The decimal digits of `n`.
pub open spec fn digits(n: nat) -> Seq<char>
    decreases n,
{
    if n < 10 {
        seq![(48 + n) as char]
    } else {
        digits(n / 10).push((48 + n % 10) as char)
    }
}

/// The decimal text of `n`, with a leading `-` when it is negative.
pub open spec fn decimal(n: int) -> Seq<char> {
    if n < 0 {
        seq!['-'] + digits((-n) as nat)
    } else {
        digits(n as nat)
    }
}

/// The JSON text of claims with subject `sub`, expiry `exp` and issue time `iat`.
pub open spec fn claims_json(sub: Seq<char>, exp: i64, iat: i64) -> Seq<char> {
    json_head() + json_escape(sub) + json_mid() + decimal(exp as int) + json_tail() + decimal(
        iat as int,
    ) + seq!['}']
}

/// A character that can be part of a decimal integer's text.
spec fn is_num_char(c: char) -> bool {
    c == '-' || ('0' <= c && c <= '9')
}

/// Start of the run of number characters that ends at `end`.
spec fn num_start(s: Seq<char>, end: int) -> int
    decreases end,
{
    if end <= 0 {
        0
    } else if is_num_char(s[end - 1]) {
        num_start(s, end - 1)
    } else {
        end
    }
}

/// The value of a string of decimal digits.
spec fn digits_value(d: Seq<char>) -> int
    decreases d.len(),
{
    if d.len() == 0 {
        0
    } else {
        digits_value(d.drop_last()) * 10 + (d.last() as int - 48)
    }
}

/// All characters of `d` are decimal digits.
spec fn all_digits(d: Seq<char>) -> bool {
    forall|i: int| 0 <= i < d.len() ==> '0' <= #[trigger] d[i] && d[i] <= '9'
}

/// The `i64` written by `d` (an optional `-` and 1 to 19 digits), if it fits.
spec fn number_value(d: Seq<char>) -> Option<i64> {
    let v = if d.len() > 0 && d[0] == '-' {
        -digits_value(d.drop_first())
    } else {
        digits_value(d)
    };
    let body = if d.len() > 0 && d[0] == '-' {
        d.drop_first()
    } else {
        d
    };
    if 1 <= body.len() <= 19 && all_digits(body) && i64::MIN <= v <= i64::MAX {
        Some(v as i64)
    } else {
        None
    }
}

/// The value of a two-digit hexadecimal escape character.
spec fn hex_value(c: char) -> int {
    if '0' <= c && c <= '9' {
        c as int - 48
    } else if 'a' <= c && c <= 'f' {
        c as int - 87
    } else if 'A' <= c && c <= 'F' {
        c as int - 55
    } else {
        0
    }
}

/// The character a two-character escape `\c` stands for.
spec fn short_unescape(c: char) -> char {
    if c == 'b' {
        '\u{8}'
    } else if c == 't' {
        '\t'
    } else if c == 'n' {
        '\n'
    } else if c == 'f' {
        '\u{c}'
    } else if c == 'r' {
        '\r'
    } else {
        c
    }
}

/// Reads back the body of a JSON string: `\uXXXX` escapes (of which the last
/// two digits count) and `\c` escapes are replaced by what they stand for.
spec fn json_unescape(e: Seq<char>) -> Seq<char>
    decreases e.len(),
{
    if e.len() == 0 {
        seq![]
    } else if e[0] == '\\' && e.len() >= 2 {
        if e[1] == 'u' && e.len() >= 6 {
            seq![(hex_value(e[4]) * 16 + hex_value(e[5])) as char] + json_unescape(e.skip(6))
        } else {
            seq![short_unescape(e[1])] + json_unescape(e.skip(2))
        }
    } else {
        seq![e[0]] + json_unescape(e.skip(1))
    }
}

/// The claims that the encoder's text `s` holds: the parts between the fixed
/// labels are read back, and `s` is accepted exactly when it is the JSON text
/// of what was read. It serves to show that the text determines the claims.
spec fn claims_parse(s: Seq<char>) -> Option<(Seq<char>, i64, i64)> {
    let n = s.len() as int;
    if n < 1 || s[n - 1] != '}' {
        None
    } else {
        let s2 = num_start(s, n - 1);
        if s2 < 7 || s.subrange(s2 - 7, s2) != json_tail() {
            None
        } else {
            let e1 = s2 - 7;
            let s1 = num_start(s, e1);
            if s1 < 16 || s.subrange(s1 - 8, s1) != json_mid() || s.subrange(0, 8) != json_head() {
                None
            } else {
                match (number_value(s.subrange(s1, e1)), number_value(s.subrange(s2, n - 1))) {
                    (Some(exp), Some(iat)) => {
                        let sub = json_unescape(s.subrange(8, s1 - 8));
                        if claims_json(sub, exp, iat) == s {
                            Some((sub, exp, iat))
                        } else {
                            None
                        }
                    },
                    _ => None,
                }
            }
        }
    }
}


/// `10` to the power `k`.
spec fn pow10(k: nat) -> int
    decreases k,
{
    if k == 0 {
        1
    } else {
        10 * pow10((k - 1) as nat)
    }
}

proof fn lemma_digits(n: nat, k: nat)
    requires
        k >= 1,
        n < pow10(k),
    ensures
        1 <= digits(n).len() <= k,
        all_digits(digits(n)),
        digits_value(digits(n)) == n,
    decreases n,
{
    if n < 10 {
        assert(digits(n).drop_last() =~= Seq::<char>::empty());
        assert(((48 + n) as char) as int == 48 + n);
        assert(digits_value(digits(n)) == digits_value(Seq::<char>::empty()) * 10 + (digits(n).last() as int - 48));
    } else {
        assert(k >= 2) by {
            if k == 1 {
                assert(pow10(1) == 10) by {
                    reveal_with_fuel(pow10, 2);
                }
            }
        }
        assert(n / 10 < pow10((k - 1) as nat));
        lemma_digits(n / 10, (k - 1) as nat);
        let d = digits(n);
        assert(d.drop_last() =~= digits(n / 10));
        assert(d.last() == (48 + n % 10) as char);
        assert(((48 + n % 10) as char) as int == 48 + n % 10);
        assert(digits_value(d) == digits_value(digits(n / 10)) * 10 + n % 10);
        assert forall|i: int| 0 <= i < d.len() implies '0' <= #[trigger] d[i] && d[i] <= '9' by {
            if i < d.len() - 1 {
                assert(d[i] == digits(n / 10)[i]);
            }
        }
    }
}

proof fn lemma_pow10_19()
    ensures
        pow10(19) == 10000000000000000000,
{
    reveal_with_fuel(pow10, 20);
}

/// The decimal text of an `i64` reads back as that number.
proof fn lemma_decimal_round_trip(n: i64)
    ensures
        number_value(decimal(n as int)) == Some(n),
        decimal(n as int).len() >= 1,
        forall|i: int| 0 <= i < decimal(n as int).len() ==> is_num_char(#[trigger] decimal(n as int)[i]),
{
    lemma_pow10_19();
    let d = decimal(n as int);
    if n < 0 {
        let m = (-n) as nat;
        lemma_digits(m, 19);
        assert(d.drop_first() =~= digits(m));
        assert forall|i: int| 0 <= i < d.len() implies is_num_char(#[trigger] d[i]) by {
            if i > 0 {
                assert(d[i] == digits(m)[i - 1]);
            }
        }
    } else {
        lemma_digits(n as nat, 19);
        assert(d[0] != '-');
    }
}

proof fn lemma_num_start(s: Seq<char>, end: int, k: int)
    requires
        0 <= k <= end <= s.len(),
        forall|i: int| end - k <= i < end ==> is_num_char(#[trigger] s[i]),
        end - k == 0 || !is_num_char(s[end - k - 1]),
    ensures
        num_start(s, end) == end - k,
    decreases k,
{
    if k > 0 {
        lemma_num_start(s, end - 1, k - 1);
    }
}

proof fn lemma_unescape_char(c: char, t: Seq<char>)
    ensures
        json_unescape(escaped_char(c) + t) == seq![c] + json_unescape(t),
{
    let e = escaped_char(c) + t;
    let k = escaped_char(c).len() as int;
    assert(e.skip(k) =~= t);
    if c != '"' && c != '\\' && c != '\u{8}' && c != '\t' && c != '\n' && c != '\u{c}' && c != '\r'
        && (c as int) < 32 {
        let v = c as int;
        assert(hex_value(hex_digit(v / 16)) == v / 16);
        assert(hex_value(hex_digit(v % 16)) == v % 16);
        assert((v / 16 * 16 + v % 16) as char == c);
    }
}

/// Reading back the escaped body of a JSON string gives the string.
proof fn lemma_unescape_escape(s: Seq<char>)
    ensures
        json_unescape(json_escape(s)) == s,
    decreases s.len(),
{
    if s.len() > 0 {
        lemma_unescape_escape(s.drop_first());
        lemma_unescape_char(s[0], json_escape(s.drop_first()));
        assert(seq![s[0]] + s.drop_first() =~= s);
    }
}

/// The JSON text of claims reads back as those claims.
#[verifier::rlimit(80)]
proof fn lemma_claims_round_trip(sub: Seq<char>, exp: i64, iat: i64)
    ensures
        claims_parse(claims_json(sub, exp, iat)) == Some((sub, exp, iat)),
{
    let s = claims_json(sub, exp, iat);
    let esc = json_escape(sub);
    let dx = decimal(exp as int);
    let di = decimal(iat as int);
    lemma_decimal_round_trip(exp);
    lemma_decimal_round_trip(iat);
    lemma_unescape_escape(sub);
    let a = esc.len() as int;
    let b = dx.len() as int;
    let c = di.len() as int;
    let n = s.len() as int;
    assert(n == 8 + a + 8 + b + 7 + c + 1);
    assert(s[n - 1] == '}');
    let p_iat = 8 + a + 8 + b + 7;
    let p_exp = 8 + a + 8;
    assert(s.subrange(p_iat, n - 1) =~= di);
    assert(s.subrange(p_exp, p_exp + b) =~= dx);
    assert(s.subrange(p_iat - 7, p_iat) =~= json_tail());
    assert(s.subrange(p_exp - 8, p_exp) =~= json_mid());
    assert(s.subrange(0, 8) =~= json_head());
    assert(s.subrange(8, 8 + a) =~= esc);
    assert forall|i: int| p_iat <= i < n - 1 implies is_num_char(#[trigger] s[i]) by {
        assert(s[i] == di[i - p_iat]);
    }
    assert(s[p_iat - 1] == ':');
    lemma_num_start(s, n - 1, c);
    assert forall|i: int| p_exp <= i < p_exp + b implies is_num_char(#[trigger] s[i]) by {
        assert(s[i] == dx[i - p_exp]);
    }
    assert(s[p_exp - 1] == ':');
    lemma_num_start(s, p_exp + b, b);
}

/// Claims are told apart by their JSON text.
pub proof fn lemma_claims_json_injective(a: (Seq<char>, i64, i64), b: (Seq<char>, i64, i64))
    requires
        claims_json(a.0, a.1, a.2) == claims_json(b.0, b.1, b.2),
    ensures
        a == b,
{
    lemma_claims_round_trip(a.0, a.1, a.2);
    lemma_claims_round_trip(b.0, b.1, b.2);
}


proof fn lemma_pow10_mono(i: nat, j: nat)
    requires
        i <= j,
    ensures
        1 <= pow10(i) <= pow10(j),
    decreases j,
{
    if j > 0 {
        if i < j {
            lemma_pow10_mono(i, (j - 1) as nat);
        } else {
            lemma_pow10_mono((j - 1) as nat, (j - 1) as nat);
        }
    }
}

fn hex_char(v: u8) -> (c: char)
    requires
        v < 16,
    ensures
        c == hex_digit(v as int),
{
    if v < 10 {
        (48 + v) as char
    } else {
        (87 + v) as char
    }
}

fn push_escaped(out: &mut Vec<char>, c: char)
    ensures
        final(out)@ == old(out)@ + escaped_char(c),
{
    let ghost before = out@;
    if c == '"' {
        out.push('\\');
        out.push('"');
    } else if c == '\\' {
        out.push('\\');
        out.push('\\');
    } else if c == '\u{8}' {
        out.push('\\');
        out.push('b');
    } else if c == '\t' {
        out.push('\\');
        out.push('t');
    } else if c == '\n' {
        out.push('\\');
        out.push('n');
    } else if c == '\u{c}' {
        out.push('\\');
        out.push('f');
    } else if c == '\r' {
        out.push('\\');
        out.push('r');
    } else if (c as u32) < 32 {
        let v = c as u32 as u8;
        out.push('\\');
        out.push('u');
        out.push('0');
        out.push('0');
        out.push(hex_char(v / 16));
        out.push(hex_char(v % 16));
    } else {
        out.push(c);
    }
    assert(out@ =~= before + escaped_char(c));
}

pub(crate) fn push_json_escaped(out: &mut Vec<char>, s: &[char])
    ensures
        final(out)@ == old(out)@ + json_escape(s@),
{
    let mut i: usize = 0;
    assert(s@.skip(0) =~= s@);
    while i < s.len()
        invariant
            i <= s@.len(),
            old(out)@ + json_escape(s@) == out@ + json_escape(s@.skip(i as int)),
        decreases s@.len() - i,
    {
        let ghost rest = s@.skip(i as int);
        assert(rest.drop_first() =~= s@.skip(i + 1));
        assert(json_escape(rest) == escaped_char(s@[i as int]) + json_escape(s@.skip(i + 1)));
        push_escaped(out, s[i]);
        i = i + 1;
    }
    assert(s@.skip(s@.len() as int) =~= Seq::<char>::empty());
}

fn push_digits(out: &mut Vec<char>, n: u64)
    ensures
        final(out)@ == old(out)@ + digits(n as nat),
    decreases n,
{
    if n >= 10 {
        push_digits(out, n / 10);
    }
    let ghost mid = out@;
    out.push((48 + (n % 10) as u8) as char);
    proof {
        if n < 10 {
            assert(out@ =~= old(out)@ + digits(n as nat));
        } else {
            assert(out@ =~= old(out)@ + digits(n as nat));
        }
    }
}

pub(crate) fn push_decimal(out: &mut Vec<char>, n: i64)
    ensures
        final(out)@ == old(out)@ + decimal(n as int),
{
    if n < 0 {
        out.push('-');
        let m: u64 = (0i128 - n as i128) as u64;
        let ghost mid = out@;
        push_digits(out, m);
        assert(out@ =~= old(out)@ + decimal(n as int));
    } else {
        push_digits(out, n as u64);
    }
}

/// The JSON text of the given claims.
pub fn claims_to_json(c: &Claims) -> (r: String)
    ensures
        r@ == claims_json(c.sub@, c.exp, c.iat),
{
    let sub = chars_of(c.sub.as_str());
    let mut out: Vec<char> = Vec::new();
    extend_chars(&mut out, &['{', '"', 's', 'u', 'b', '"', ':', '"']);
    push_json_escaped(&mut out, &sub);
    extend_chars(&mut out, &['"', ',', '"', 'e', 'x', 'p', '"', ':']);
    push_decimal(&mut out, c.exp);
    extend_chars(&mut out, &[',', '"', 'i', 'a', 't', '"', ':']);
    push_decimal(&mut out, c.iat);
    out.push('}');
    assert(out@ =~= claims_json(c.sub@, c.exp, c.iat));
    string_of(&out)
}


} // verus!
