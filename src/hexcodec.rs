use vstd::prelude::*;

verus! {

pub open spec fn is_hex_digit(c: char) -> bool {
    ('0' <= c && c <= '9') || ('a' <= c && c <= 'f') || ('A' <= c && c <= 'F')
}

/// The value of a hex digit.
pub open spec fn digit_value(c: char) -> nat {
    if '0' <= c && c <= '9' {
        (c as nat - '0' as nat) as nat
    } else if 'a' <= c && c <= 'f' {
        (c as nat - 'a' as nat + 10) as nat
    } else {
        (c as nat - 'A' as nat + 10) as nat
    }
}

/// The lower-case hex digit for a value below 16.
pub open spec fn digit_char(v: nat) -> char {
    if v < 10 {
        ((v + '0' as nat) as u32) as char
    } else {
        ((v - 10 + 'a' as nat) as u32) as char
    }
}

/// `s` is an even number of hex digits.
pub open spec fn is_hex(s: Seq<char>) -> bool {
    s.len() % 2 == 0 && forall|i: int| 0 <= i < s.len() ==> is_hex_digit(#[trigger] s[i])
}

/// The bytes that a string of hex digits spells, two digits a byte, high first.
pub open spec fn hex_bytes(s: Seq<char>) -> Seq<u8> {
    Seq::new(
        s.len() / 2,
        |i: int| (digit_value(s[2 * i]) * 16 + digit_value(s[2 * i + 1])) as u8,
    )
}

/// Two lower-case hex digits for each byte, high first.
pub open spec fn hex_text(b: Seq<u8>) -> Seq<char> {
    Seq::new(
        2 * b.len(),
        |i: int|
            if i % 2 == 0 {
                digit_char((b[i / 2] / 16) as nat)
            } else {
                digit_char((b[i / 2] % 16) as nat)
            },
    )
}

proof fn lemma_digit_round_trip(v: nat)
    requires
        v < 16,
    ensures
        is_hex_digit(digit_char(v)),
        digit_value(digit_char(v)) == v,
{
}

/// Reading back the hex text of some bytes gives the same bytes.
pub proof fn lemma_hex_round_trip(b: Seq<u8>)
    ensures
        is_hex(hex_text(b)),
        hex_bytes(hex_text(b)) == b,
{
    let t = hex_text(b);
    assert forall|i: int| 0 <= i < t.len() implies is_hex_digit(#[trigger] t[i]) by {
        if i % 2 == 0 {
            lemma_digit_round_trip((b[i / 2] / 16) as nat);
        } else {
            lemma_digit_round_trip((b[i / 2] % 16) as nat);
        }
    }
    assert forall|k: int| 0 <= k < b.len() implies #[trigger] hex_bytes(t)[k] == b[k] by {
        let x = b[k];
        lemma_digit_round_trip((x / 16) as nat);
        lemma_digit_round_trip((x % 16) as nat);
        assert(t[2 * k] == digit_char((x / 16) as nat));
        assert((2 * k + 1) / 2 == k);
        assert(t[2 * k + 1] == digit_char((x % 16) as nat));
        assert((x / 16) as nat * 16 + (x % 16) as nat == x as nat) by (nonlinear_arith);
    }
    assert(hex_bytes(t) =~= b);
}

/// Relies on hex::decode: an even number of hex digits (either case) gives the
/// bytes they spell; anything else is an error.
#[verifier::external_body]
pub(crate) fn hex_decode(s: &str) -> (r: Option<Vec<u8>>)
    ensures
        r is Some <==> is_hex(s@),
        r is Some ==> r->0@ == hex_bytes(s@),
{
    hex::decode(s).ok()
}

/// Relies on hex::encode: two lower-case hex digits for each byte.
#[verifier::external_body]
pub(crate) fn hex_encode(b: &[u8]) -> (r: String)
    ensures
        r@ == hex_text(b@),
{
    hex::encode(b)
}

} // verus!
