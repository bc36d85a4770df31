//! Percent-encoding of reply anchors (`percent-encoding` with `NON_ALPHANUMERIC`), stated over
//! the UTF-8 bytes of a string, with the law that decoding undoes encoding.
use vstd::prelude::*;
use vstd::utf8::{decode_utf8, encode_utf8, valid_utf8};

verus! {

/// An ASCII letter or digit, the only bytes that `NON_ALPHANUMERIC` leaves as they are.
pub open spec fn is_alnum_byte(b: u8) -> bool {
    (48 <= b <= 57) || (65 <= b <= 90) || (97 <= b <= 122)
}

/// The upper-case hexadecimal digit of `d < 16`.
pub open spec fn hex_upper(d: int) -> char {
    if d < 10 {
        (48 + d) as char
    } else {
        (55 + d) as char
    }
}

/// One byte encoded: itself when alphanumeric, else `%XY`.
pub open spec fn pct_byte(b: u8) -> Seq<char> {
    if is_alnum_byte(b) {
        seq![b as char]
    } else {
        seq!['%', hex_upper(b as int / 16), hex_upper(b as int % 16)]
    }
}

pub open spec fn pct_encode_bytes(bs: Seq<u8>) -> Seq<char>
    decreases bs.len(),
{
    if bs.len() == 0 {
        Seq::empty()
    } else {
        pct_byte(bs[0]) + pct_encode_bytes(bs.drop_first())
    }
}

/// `utf8_percent_encode(s, NON_ALPHANUMERIC)`: every byte of the UTF-8 form of `s` that is not
/// an ASCII letter or digit written as `%XY`.
pub open spec fn pct_encoded(s: Seq<char>) -> Seq<char> {
    pct_encode_bytes(encode_utf8(s))
}

/// The value of a hexadecimal digit byte (`char::to_digit(16)`).
pub open spec fn hex_val(b: u8) -> Option<int> {
    if 48 <= b <= 57 {
        Some(b - 48)
    } else if 65 <= b <= 70 {
        Some(b - 55)
    } else if 97 <= b <= 102 {
        Some(b - 87)
    } else {
        None
    }
}

/// `percent_decode`: every `%` followed by two hexadecimal digits becomes the byte they spell;
/// every other byte stays.
pub open spec fn pct_decode_bytes(bs: Seq<u8>) -> Seq<u8>
    decreases bs.len(),
{
    if bs.len() == 0 {
        Seq::empty()
    } else if bs[0] == 37 && bs.len() >= 3 && hex_val(bs[1]) is Some && hex_val(bs[2]) is Some {
        seq![(hex_val(bs[1])->0 * 16 + hex_val(bs[2])->0) as u8] + pct_decode_bytes(bs.skip(3))
    } else {
        seq![bs[0]] + pct_decode_bytes(bs.drop_first())
    }
}

/// `percent_decode_str(s).decode_utf8()`: the decoded bytes as text, when they are UTF-8.
pub open spec fn pct_decoded(s: Seq<char>) -> Option<Seq<char>> {
    let bs = pct_decode_bytes(encode_utf8(s));
    if valid_utf8(bs) {
        Some(decode_utf8(bs))
    } else {
        None
    }
}

/// `utf8_percent_encode(s, NON_ALPHANUMERIC)`, collected into a string.
#[verifier::external_body]
pub(crate) fn pct_encode(s: &str) -> (r: String)
    ensures
        r@ == pct_encoded(s@),
{
    percent_encoding::utf8_percent_encode(s, percent_encoding::NON_ALPHANUMERIC).to_string()
}

/// `percent_decode_str(s).decode_utf8()`; the error carries the `Utf8Error` message, which is not
/// stated.
#[verifier::external_body]
pub(crate) fn pct_decode(s: &str) -> (r: Result<String, String>)
    ensures
        r is Ok <==> pct_decoded(s@) is Some,
        r matches Ok(t) ==> pct_decoded(s@) == Some(t@),
{
    match percent_encoding::percent_decode_str(s).decode_utf8() {
        Ok(t) => Ok(t.into_owned()),
        Err(e) => Err(e.to_string()),
    }
}

// ---------------------------------------------------------------------------
// Decoding undoes encoding
// ---------------------------------------------------------------------------

/// Encoded text is ASCII, so its UTF-8 bytes are its characters.
pub open spec fn ascii_bytes(t: Seq<char>) -> Seq<u8> {
    t.map_values(|c: char| c as u8)
}

proof fn lemma_hex_upper(d: int)
    requires
        0 <= d < 16,
    ensures
        (hex_upper(d) as u32) < 128,
        hex_val(hex_upper(d) as u8) == Some(d),
        hex_upper(d) != '%',
        hex_upper(d) != '?',
{
    if d < 10 {
        assert(hex_upper(d) as u32 == 48 + d);
    } else {
        assert(hex_upper(d) as u32 == 55 + d);
    }
}

proof fn lemma_pct_byte(b: u8)
    ensures
        vstd::utf8::is_ascii_chars(pct_byte(b)),
        forall|i: int| 0 <= i < pct_byte(b).len() ==> (#[trigger] pct_byte(b)[i]) != '?',
{
    if !is_alnum_byte(b) {
        lemma_hex_upper(b as int / 16);
        lemma_hex_upper(b as int % 16);
    }
}

proof fn lemma_decode_prefix(p: Seq<char>, b: u8, rest: Seq<u8>)
    requires
        p == pct_byte(b),
    ensures
        pct_decode_bytes(ascii_bytes(p) + rest) == seq![b] + pct_decode_bytes(rest),
{
    lemma_pct_byte(b);
    let a = ascii_bytes(p) + rest;
    if is_alnum_byte(b) {
        assert((b as char) as u32 == b);
        assert(a[0] == b);
        assert(a.drop_first() =~= rest);
    } else {
        let h = b as int / 16;
        let l = b as int % 16;
        lemma_hex_upper(h);
        lemma_hex_upper(l);
        assert(a[0] == 37);
        assert(a[1] == hex_upper(h) as u8);
        assert(a[2] == hex_upper(l) as u8);
        assert(a.skip(3) =~= rest);
        assert((h * 16 + l) as u8 == b);
    }
}

proof fn lemma_encode_bytes(bs: Seq<u8>)
    ensures
        vstd::utf8::is_ascii_chars(pct_encode_bytes(bs)),
        pct_decode_bytes(ascii_bytes(pct_encode_bytes(bs))) == bs,
        forall|i: int| 0 <= i < pct_encode_bytes(bs).len() ==> (#[trigger] pct_encode_bytes(bs)[i]) != '?',
    decreases bs.len(),
{
    if bs.len() == 0 {
        assert(ascii_bytes(pct_encode_bytes(bs)) =~= Seq::<u8>::empty());
    } else {
        let p = pct_byte(bs[0]);
        let r = pct_encode_bytes(bs.drop_first());
        lemma_encode_bytes(bs.drop_first());
        lemma_pct_byte(bs[0]);
        assert(ascii_bytes(p + r) =~= ascii_bytes(p) + ascii_bytes(r));
        lemma_decode_prefix(p, bs[0], ascii_bytes(r));
        assert(seq![bs[0]] + bs.drop_first() =~= bs);
        assert forall|i: int| 0 <= i < (p + r).len() implies (#[trigger] (p + r)[i]) != '?' by {
            if i < p.len() {
                assert((p + r)[i] == p[i]);
            } else {
                assert((p + r)[i] == r[i - p.len()]);
            }
        }
    }
}

proof fn lemma_ascii_encode(t: Seq<char>)
    requires
        vstd::utf8::is_ascii_chars(t),
    ensures
        encode_utf8(t) == ascii_bytes(t),
{
    vstd::utf8::is_ascii_chars_encode_utf8(t);
    assert(encode_utf8(t) =~= ascii_bytes(t));
}

/// Decoding an encoded text gives the text back.
pub proof fn lemma_pct_roundtrip(s: Seq<char>)
    ensures
        pct_decoded(pct_encoded(s)) == Some(s),
{
    let bs = encode_utf8(s);
    lemma_encode_bytes(bs);
    lemma_ascii_encode(pct_encode_bytes(bs));
    vstd::utf8::encode_utf8_valid_utf8(s);
    vstd::utf8::encode_utf8_decode_utf8(s);
}

/// Encoded text holds no `?` (every character is a letter, a digit or part of `%XY`).
pub proof fn lemma_pct_no_question(s: Seq<char>)
    ensures
        forall|i: int| 0 <= i < pct_encoded(s).len() ==> (#[trigger] pct_encoded(s)[i]) != '?',
{
    lemma_encode_bytes(encode_utf8(s));
}

} // verus!
