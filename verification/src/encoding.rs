//! Standard base64 (RFC 4648 alphabet, `=` padding), as tokens carry their
//! payload and signature, and the facts about it that token checking needs.
use vstd::prelude::*;
use base64::Engine;

verus! {

/// The base64 digit for a 6-bit value: `A`-`Z`, `a`-`z`, `0`-`9`, `+`, `/`.
pub open spec fn b64_char(v: int) -> char {
    if v < 26 {
        (65 + v) as char
    } else if v < 52 {
        (71 + v) as char
    } else if v < 62 {
        (v - 4) as char
    } else if v == 62 {
        '+'
    } else {
        '/'
    }
}

/// The standard base64 text of `b`: each group of three bytes gives four
/// digits; a last group of one or two bytes gives two or three digits and is
/// padded with `=` to four.
pub open spec fn base64_text(b: Seq<u8>) -> Seq<char>
    decreases b.len(),
{
    if b.len() == 0 {
        seq![]
    } else if b.len() == 1 {
        seq![b64_char(b[0] as int / 4), b64_char((b[0] as int % 4) * 16), '=', '=']
    } else if b.len() == 2 {
        seq![
            b64_char(b[0] as int / 4),
            b64_char((b[0] as int % 4) * 16 + b[1] as int / 16),
            b64_char((b[1] as int % 16) * 4),
            '=',
        ]
    } else {
        seq![
            b64_char(b[0] as int / 4),
            b64_char((b[0] as int % 4) * 16 + b[1] as int / 16),
            b64_char((b[1] as int % 16) * 4 + b[2] as int / 64),
            b64_char(b[2] as int % 64),
        ] + base64_text(b.skip(3))
    }
}

/// The bytes whose base64 text is `t`, if there are any.
pub open spec fn base64_decoded(t: Seq<char>) -> Option<Seq<u8>> {
    if exists|b: Seq<u8>| base64_text(b) == t {
        Some(choose|b: Seq<u8>| base64_text(b) == t)
    } else {
        None
    }
}

/// Encodes bytes as standard base64 text (`base64::engine::general_purpose::STANDARD`).
#[verifier::external_body]
pub(crate) fn base64_encode(bytes: &[u8]) -> (r: String)
    ensures
        r@ == base64_text(bytes@),
{
    base64::engine::general_purpose::STANDARD.encode(bytes)
}

/// Decodes standard base64 text (`base64::engine::general_purpose::STANDARD`, which
/// requires canonical padding and zero trailing bits, so it accepts exactly the
/// texts its encoder produces and gives back the bytes they encode).
#[verifier::external_body]
pub(crate) fn base64_decode(text: &str) -> (r: Option<Vec<u8>>)
    ensures
        match r {
            Some(b) => base64_text(b@) == text@,
            None => forall|b: Seq<u8>| base64_text(b) != text@,
        },
{
    match base64::engine::general_purpose::STANDARD.decode(text) {
        Ok(b) => Some(b),
        Err(_) => None,
    }
}

/// A character of base64 text: a letter, a digit, `+`, `/`, or the padding `=`.
pub open spec fn base64_alphabet(c: char) -> bool {
    ||| ('A' <= c && c <= 'Z')
    ||| ('a' <= c && c <= 'z')
    ||| ('0' <= c && c <= '9')
    ||| c == '+'
    ||| c == '/'
    ||| c == '='
}

proof fn lemma_b64_char(a: int, b: int)
    requires
        0 <= a < 64,
        0 <= b < 64,
    ensures
        b64_char(a) == b64_char(b) ==> a == b,
        b64_char(a) != '.',
        b64_char(a) != '=',
        base64_alphabet(b64_char(a)),
{
}

/// Base64 text is four characters for every started group of three bytes.
pub proof fn lemma_base64_len(b: Seq<u8>)
    ensures
        base64_text(b).len() == 4 * ((b.len() + 2) / 3),
    decreases b.len(),
{
    if b.len() >= 3 {
        lemma_base64_len(b.skip(3));
    }
}

/// Base64 text holds only characters of its alphabet.
pub proof fn lemma_base64_alphabet(b: Seq<u8>)
    ensures
        forall|i: int| 0 <= i < base64_text(b).len() ==> base64_alphabet(#[trigger] base64_text(b)[i]),
    decreases b.len(),
{
    if b.len() > 0 {
        lemma_b64_char(b[0] as int / 4, 0);
        if b.len() == 1 {
            lemma_b64_char((b[0] as int % 4) * 16, 0);
        } else {
            lemma_b64_char((b[0] as int % 4) * 16 + b[1] as int / 16, 0);
            if b.len() == 2 {
                lemma_b64_char((b[1] as int % 16) * 4, 0);
            } else {
                lemma_b64_char((b[1] as int % 16) * 4 + b[2] as int / 64, 0);
                lemma_b64_char(b[2] as int % 64, 0);
                lemma_base64_alphabet(b.skip(3));
                let t = base64_text(b);
                let head = seq![
                    b64_char(b[0] as int / 4),
                    b64_char((b[0] as int % 4) * 16 + b[1] as int / 16),
                    b64_char((b[1] as int % 16) * 4 + b[2] as int / 64),
                    b64_char(b[2] as int % 64),
                ];
                assert forall|i: int| 0 <= i < t.len() implies base64_alphabet(#[trigger] t[i]) by {
                    if i >= 4 {
                        assert(t[i] == base64_text(b.skip(3))[i - 4]);
                    } else {
                        assert(t[i] == head[i]);
                    }
                }
            }
        }
    }
}

/// Base64 text never holds a `.`.
pub proof fn lemma_base64_no_dot(b: Seq<u8>)
    ensures
        forall|i: int| 0 <= i < base64_text(b).len() ==> base64_text(b)[i] != '.',
{
    lemma_base64_alphabet(b);
    assert forall|i: int| 0 <= i < base64_text(b).len() implies base64_text(b)[i] != '.' by {
        assert(base64_alphabet(base64_text(b)[i]));
    }
}

/// Distinct byte sequences have distinct base64 texts.
pub proof fn lemma_base64_injective(a: Seq<u8>, b: Seq<u8>)
    requires
        base64_text(a) == base64_text(b),
    ensures
        a == b,
    decreases a.len(),
{
    lemma_base64_len(a);
    lemma_base64_len(b);
    let t = base64_text(a);
    if a.len() == 0 || b.len() == 0 {
        assert(a.len() == 0 && b.len() == 0);
        assert(a =~= b);
    } else {
        let a0 = a[0] as int;
        let b0 = b[0] as int;
        lemma_b64_char(a0 / 4, b0 / 4);
        if a.len() == 1 {
            if b.len() >= 2 {
                lemma_b64_char(b0 % 4 * 16 + b[1] as int / 16, 0);
                lemma_b64_char((b[1] as int % 16) * 4, 0);
                if b.len() >= 3 {
                    lemma_b64_char((b[1] as int % 16) * 4 + b[2] as int / 64, 0);
                }
                assert(false);
            }
            lemma_b64_char((a0 % 4) * 16, (b0 % 4) * 16);
            assert(a =~= b);
        } else if a.len() == 2 {
            lemma_b64_char(a0 % 4 * 16 + a[1] as int / 16, 0);
            lemma_b64_char((a[1] as int % 16) * 4, 0);
            if b.len() != 2 {
                if b.len() >= 3 {
                    lemma_b64_char(b[2] as int % 64, 0);
                }
                assert(false);
            }
            let a1 = a[1] as int;
            let b1 = b[1] as int;
            lemma_b64_char(a0 % 4 * 16 + a1 / 16, b0 % 4 * 16 + b1 / 16);
            lemma_b64_char((a1 % 16) * 4, (b1 % 16) * 4);
            assert(a =~= b);
        } else {
            let a1 = a[1] as int;
            let a2 = a[2] as int;
            lemma_b64_char(a0 % 4 * 16 + a1 / 16, 0);
            lemma_b64_char((a1 % 16) * 4 + a2 / 64, 0);
            lemma_b64_char(a2 % 64, 0);
            if b.len() < 3 {
                if b.len() == 2 {
                    assert(t[3] == '=');
                } else {
                    assert(t[2] == '=');
                }
                assert(false);
            }
            let b1 = b[1] as int;
            let b2 = b[2] as int;
            lemma_b64_char(a0 % 4 * 16 + a1 / 16, b0 % 4 * 16 + b1 / 16);
            lemma_b64_char((a1 % 16) * 4 + a2 / 64, (b1 % 16) * 4 + b2 / 64);
            lemma_b64_char(a2 % 64, b2 % 64);
            assert(base64_text(a.skip(3)) =~= t.skip(4));
            assert(base64_text(b.skip(3)) =~= t.skip(4));
            lemma_base64_injective(a.skip(3), b.skip(3));
            let ta = base64_text(a);
            let tb = base64_text(b);
            assert(ta[0] == tb[0] && ta[1] == tb[1] && ta[2] == tb[2] && ta[3] == tb[3]);
            assert(ta[0] == b64_char(a0 / 4) && tb[0] == b64_char(b0 / 4));
            assert(ta[1] == b64_char(a0 % 4 * 16 + a1 / 16) && tb[1] == b64_char(b0 % 4 * 16 + b1 / 16));
            assert(ta[2] == b64_char((a1 % 16) * 4 + a2 / 64) && tb[2] == b64_char((b1 % 16) * 4 + b2 / 64));
            assert(ta[3] == b64_char(a2 % 64) && tb[3] == b64_char(b2 % 64));
            assert(a[0] == b[0] && a[1] == b[1] && a[2] == b[2]);
            assert(a =~= b) by {
                assert forall|i: int| 0 <= i < a.len() implies a[i] == b[i] by {
                    if i >= 3 {
                        assert(a[i] == a.skip(3)[i - 3]);
                        assert(b[i] == b.skip(3)[i - 3]);
                    }
                }
            }
        }
    }
}

/// Decoding the base64 text of some bytes gives those bytes back.
pub proof fn lemma_base64_round_trip(b: Seq<u8>)
    ensures
        base64_decoded(base64_text(b)) == Some(b),
{
    let c = choose|x: Seq<u8>| base64_text(x) == base64_text(b);
    lemma_base64_injective(c, b);
}

} // verus!
