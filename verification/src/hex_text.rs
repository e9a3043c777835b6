//! Lower-case hexadecimal text, as the `hex` crate writes and reads it.

use vstd::prelude::*;

use crate::text::{is_unicode_whitespace, trim_chars, trim_end_chars, trim_start_chars};

verus! {

/// `c` is one of `0-9`, `a-f`, `A-F`.
pub open spec fn is_hex_digit(c: char) -> bool {
    ||| '0' <= c <= '9'
    ||| 'a' <= c <= 'f'
    ||| 'A' <= c <= 'F'
}

/// The value of the hex digit `c`.
pub open spec fn hex_digit_value(c: char) -> int {
    if '0' <= c <= '9' {
        c as int - 48
    } else if 'a' <= c <= 'f' {
        c as int - 87
    } else {
        c as int - 55
    }
}

/// Bytes denoted by hex text: defined when the text has an even number of
/// characters, all hex digits (either case); each pair gives one byte, high
/// nibble first.
pub open spec fn hex_decode_chars(s: Seq<char>) -> Option<Seq<u8>> {
    if s.len() % 2 == 0 && (forall|i: int| 0 <= i < s.len() ==> is_hex_digit(#[trigger] s[i])) {
        Some(
            Seq::new(
                (s.len() / 2) as nat,
                |k: int| (16 * hex_digit_value(s[2 * k]) + hex_digit_value(s[2 * k + 1])) as u8,
            ),
        )
    } else {
        None
    }
}

/// Lower-case hex digit for a nibble `0 <= n < 16`.
pub open spec fn lower_hex_digit(n: int) -> char {
    if n < 10 {
        (48 + n) as char
    } else {
        (87 + n) as char
    }
}

/// Lower-case hex text of `b`: two digits per byte, high nibble first.
pub open spec fn hex_encode_bytes(b: Seq<u8>) -> Seq<char> {
    Seq::new(
        2 * b.len(),
        |i: int|
            if i % 2 == 0 {
                lower_hex_digit(b[i / 2] as int / 16)
            } else {
                lower_hex_digit(b[i / 2] as int % 16)
            },
    )
}

/// Declares `hex::FromHexError` so that the decoding wrapper can hand it back.
#[verifier::external_type_specification]
#[verifier::external_body]
pub struct ExFromHexError(hex::FromHexError);

/// `hex::encode`: the lower-case hex text of `data`, two digits per byte.
#[verifier::external_body]
pub(crate) fn hex_encode(data: &[u8]) -> (s: String)
    ensures
        s@ == hex_encode_bytes(data@),
{
    hex::encode(data)
}

/// `hex::decode` on the UTF-8 bytes of `s`: `Ok` exactly when `s` has an even
/// number of characters, all hex digits, and then the decoded bytes. (A
/// non-ASCII character gives a byte no digit matches, so the byte-level rule
/// of the crate and this character-level statement agree.)
#[verifier::external_body]
pub(crate) fn hex_decode(s: &str) -> (r: Result<Vec<u8>, hex::FromHexError>)
    ensures
        r is Ok <==> hex_decode_chars(s@) is Some,
        r matches Ok(v) ==> hex_decode_chars(s@) == Some(v@),
{
    hex::decode(s)
}

proof fn lemma_lower_hex_digit(n: int)
    requires
        0 <= n < 16,
    ensures
        is_hex_digit(lower_hex_digit(n)),
        hex_digit_value(lower_hex_digit(n)) == n,
        !is_unicode_whitespace(lower_hex_digit(n)),
{
}

/// Decoding the lower-case hex text of any byte string gives the bytes back.
pub proof fn lemma_hex_round_trip(b: Seq<u8>)
    ensures
        hex_decode_chars(hex_encode_bytes(b)) == Some(b),
{
    let e = hex_encode_bytes(b);
    assert forall|i: int| 0 <= i < e.len() implies is_hex_digit(#[trigger] e[i]) by {
        if i % 2 == 0 {
            lemma_lower_hex_digit(b[i / 2] as int / 16);
        } else {
            lemma_lower_hex_digit(b[i / 2] as int % 16);
        }
    }
    let d = hex_decode_chars(e).unwrap();
    assert forall|k: int| 0 <= k < b.len() implies d[k] == b[k] by {
        assert((2 * k) / 2 == k);
        assert((2 * k + 1) / 2 == k);
        lemma_lower_hex_digit(b[k] as int / 16);
        lemma_lower_hex_digit(b[k] as int % 16);
    }
    assert(d =~= b);
}

/// Hex text has no surrounding whitespace, so trimming leaves it unchanged.
pub proof fn lemma_hex_text_trimmed(b: Seq<u8>)
    ensures
        trim_chars(hex_encode_bytes(b)) == hex_encode_bytes(b),
{
    let e = hex_encode_bytes(b);
    if e.len() > 0 {
        lemma_lower_hex_digit(b[0] as int / 16);
        let last = e.len() - 1;
        assert(last % 2 == 1);
        lemma_lower_hex_digit(b[last / 2] as int % 16);
    }
    assert(trim_start_chars(e) == e);
    assert(trim_end_chars(e) == e);
}

} // verus!
