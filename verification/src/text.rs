//! ASCII byte classification and the bridge between byte buffers and text.
//!
//! PNG type codes are four ASCII bytes whose letter case carries meaning, and
//! chunk payloads are turned back into text when a hidden message is read, so
//! the whole crate reasons about bytes and characters together.  This module
//! holds the byte predicates, the conversion between ASCII bytes and the
//! characters they denote, and the one trusted entry point into UTF-8
//! decoding.

use vstd::prelude::*;

verus! {

use vstd::utf8::{
    decode_utf8, encode_utf8, encode_utf8_decode_utf8, encode_utf8_valid_utf8, is_ascii_chars,
    is_ascii_chars_encode_utf8, valid_utf8,
};

/// True of bytes in the ASCII range.
pub open spec fn is_ascii_byte(b: u8) -> bool {
    b <= 127
}

/// True of ASCII lowercase letters; bit 5 of such a byte is set.
pub open spec fn is_lowercase_byte(b: u8) -> bool {
    97 <= b && b <= 122
}

/// True of ASCII uppercase letters.
pub open spec fn is_uppercase_byte(b: u8) -> bool {
    65 <= b && b <= 90
}

/// True of ASCII letters.
pub open spec fn is_alphabetic_byte(b: u8) -> bool {
    is_uppercase_byte(b) || is_lowercase_byte(b)
}

/// True when every byte of the sequence is ASCII.
pub open spec fn all_ascii_bytes(s: Seq<u8>) -> bool {
    forall|i: int| 0 <= i < s.len() ==> is_ascii_byte(#[trigger] s[i])
}

/// The characters denoted by a sequence of ASCII bytes.
pub open spec fn ascii_chars_of(s: Seq<u8>) -> Seq<char> {
    Seq::new(s.len(), |i: int| s[i] as char)
}

/// An ASCII byte and an ASCII character agree under one cast exactly when
/// they agree under the other.
pub proof fn lemma_ascii_char_eq(b: u8, c: char)
    requires
        is_ascii_byte(b),
        c <= '\u{7f}',
    ensures
        (b as char == c) <==> (b == c as u8),
{
}

/// ASCII bytes are valid UTF-8 and decode to the characters they denote.
pub proof fn lemma_ascii_bytes_decode(s: Seq<u8>)
    requires
        all_ascii_bytes(s),
    ensures
        valid_utf8(s),
        decode_utf8(s) == ascii_chars_of(s),
        is_ascii_chars(ascii_chars_of(s)),
        encode_utf8(ascii_chars_of(s)) == s,
{
    let chars = ascii_chars_of(s);
    assert forall|i: int| 0 <= i < chars.len() implies '\0' <= #[trigger] chars[i]
        <= '\u{7f}' by {
        assert(s[i] <= 127);
        assert(chars[i] == s[i] as char);
    }
    assert(is_ascii_chars(chars));
    is_ascii_chars_encode_utf8(chars);
    assert forall|i: int| 0 <= i < chars.len() implies #[trigger] encode_utf8(chars)[i]
        == s[i] by {
        assert(chars[i] as u8 == (s[i] as char) as u8);
    }
    assert(encode_utf8(chars) =~= s);
    encode_utf8_valid_utf8(chars);
    encode_utf8_decode_utf8(chars);
}

/// The decimal digits of a non-negative integer, as ASCII bytes.
pub open spec fn spec_dec_digits(n: int) -> Seq<u8>
    recommends
        n >= 0,
    decreases n,
{
    if n < 0 {
        seq![48u8]
    } else if n < 10 {
        seq![(48 + n) as u8]
    } else {
        spec_dec_digits(n / 10).push((48 + n % 10) as u8)
    }
}

/// Decimal digits are ASCII.
pub proof fn lemma_dec_digits_ascii(n: int)
    ensures
        all_ascii_bytes(spec_dec_digits(n)),
    decreases n,
{
    if n >= 10 {
        lemma_dec_digits_ascii(n / 10);
        assert forall|i: int| 0 <= i < spec_dec_digits(n).len() implies is_ascii_byte(
            #[trigger] spec_dec_digits(n)[i],
        ) by {
            if i < spec_dec_digits(n / 10).len() {
                assert(spec_dec_digits(n)[i] == spec_dec_digits(n / 10)[i]);
            }
        }
    }
}

/// Appends the decimal rendering of `n` to `out`.
pub fn push_dec(out: &mut Vec<u8>, n: u32)
    ensures
        final(out)@ == old(out)@ + spec_dec_digits(n as int),
    decreases n,
{
    if n >= 10 {
        push_dec(out, n / 10);
    }
    out.push(48 + (n % 10) as u8);
    proof {
        assert(final(out)@ =~= old(out)@ + spec_dec_digits(n as int));
    }
}

/// Relies on `String::from_utf8` from std: it succeeds exactly on valid UTF-8
/// input and returns the decoded text.
#[verifier::external_body]
pub fn bytes_to_string(bytes: Vec<u8>) -> (r: Option<String>)
    ensures
        r is Some <==> valid_utf8(bytes@),
        r is Some ==> r->0@ == decode_utf8(bytes@),
{
    match String::from_utf8(bytes) {
        Ok(s) => Some(s),
        Err(_) => None,
    }
}

} // verus!
