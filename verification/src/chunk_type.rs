//! The four-byte PNG chunk type code.
//!
//! A chunk type is four bytes, each an ASCII letter in spec-conforming
//! files.  The letter case of each byte is a property bit: byte 0 decides
//! critical against ancillary, byte 1 public against private, byte 2 is the
//! reserved bit (uppercase in files conforming to the current PNG spec), and
//! byte 3 decides whether an editor may copy the chunk without understanding
//! it.  Two constructors deliberately differ in strictness: raw bytes only
//! need to be ASCII, so spec-invalid codes stay representable, while text
//! parsing enforces full validity.

use vstd::prelude::*;

verus! {

use crate::text::{
    all_ascii_bytes, ascii_chars_of, is_alphabetic_byte, is_ascii_byte, is_lowercase_byte,
    is_uppercase_byte, lemma_ascii_bytes_decode,
};
use vstd::string::{StringExecFns, StrSliceExecFns};
use vstd::utf8::is_ascii_chars;

/// Why a chunk type code was rejected.
#[derive(Debug)]
pub enum ChunkTypeError {
    /// A raw input byte is outside the ASCII range.
    NonAsciiChar { value: u8 },
    /// The input text holds a character outside the ASCII range.
    NonAsciiStr { value: String },
    /// The input text is not exactly four characters long.
    WrongLength,
    /// A character of the input text is not an ASCII letter.
    NonAlpha,
    /// The reserved bit is set: the third character is lowercase.
    InvalidReservedBit,
}

/// A PNG chunk type code: four ASCII bytes.
#[derive(Debug, Clone, PartialEq, Eq)]
pub struct ChunkType {
    data: [u8; 4],
}

/// True of ASCII uppercase letters read as characters.
pub open spec fn is_uppercase_char(c: char) -> bool {
    'A' <= c && c <= 'Z'
}

/// True of ASCII letters read as characters.
pub open spec fn is_alphabetic_char(c: char) -> bool {
    ('A' <= c && c <= 'Z') || ('a' <= c && c <= 'z')
}

/// The texts that the strict constructor accepts: four ASCII letters with
/// the third one uppercase (the reserved bit unset).
pub open spec fn valid_type_text(t: Seq<char>) -> bool {
    &&& t.len() == 4
    &&& (forall|i: int| 0 <= i < t.len() ==> is_alphabetic_char(#[trigger] t[i]))
    &&& is_uppercase_char(t[2])
}

/// Which error the strict text constructor reports for a rejected text,
/// mirroring the order in which it checks: length, ASCII-ness, letters,
/// then the reserved bit.
pub open spec fn spec_from_text_err(t: Seq<char>, e: ChunkTypeError) -> bool {
    match e {
        ChunkTypeError::WrongLength => t.len() != 4,
        ChunkTypeError::NonAsciiStr { value } => t.len() == 4 && !is_ascii_chars(t) && value@
            == t,
        ChunkTypeError::NonAlpha => is_ascii_chars(t) && t.len() == 4 && !(forall|i: int|
            0 <= i < 4 ==> is_alphabetic_char(#[trigger] t[i])),
        ChunkTypeError::InvalidReservedBit => t.len() == 4 && (forall|i: int|
            0 <= i < 4 ==> is_alphabetic_char(#[trigger] t[i])) && !is_uppercase_char(t[2]),
        _ => false,
    }
}

/// For an ASCII character, the letter-case classes agree with the classes
/// of the byte it denotes.
proof fn lemma_ascii_char_byte(c: char)
    requires
        c <= '\u{7f}',
    ensures
        is_alphabetic_char(c) <==> is_alphabetic_byte(c as u8),
        is_uppercase_char(c) <==> is_uppercase_byte(c as u8),
        ('a' <= c && c <= 'z') <==> is_lowercase_byte(c as u8),
{
}

/// A valid type text is made of ASCII characters.
proof fn lemma_valid_type_text_ascii(t: Seq<char>)
    requires
        valid_type_text(t),
    ensures
        is_ascii_chars(t),
{
    assert forall|i: int| 0 <= i < t.len() implies '\0' <= #[trigger] t[i] <= '\u{7f}' by {
        assert(is_alphabetic_char(t[i]));
    }
}

/// True when bit 5 of the byte is set in the sense of the PNG spec, that
/// is, when the byte is an ASCII lowercase letter.
pub fn is_5th_bit_set(value: u8) -> (r: bool)
    ensures
        r == is_lowercase_byte(value),
{
    97 <= value && value <= 122
}

impl View for ChunkType {
    type V = Seq<u8>;

    closed spec fn view(&self) -> Seq<u8> {
        self.data@
    }
}

impl ChunkType {
    /// All four bytes are ASCII; both constructors establish this.
    pub open spec fn wf(&self) -> bool {
        self@.len() == 4 && all_ascii_bytes(self@)
    }

    /// Builds a type code from raw bytes.  Only ASCII-ness is checked, so
    /// codes that are invalid under the current PNG spec (for example with
    /// the reserved bit set) remain constructible and report their
    /// properties faithfully.
    pub fn from_bytes(bytes: [u8; 4]) -> (r: Result<ChunkType, ChunkTypeError>)
        ensures
            r is Ok <==> all_ascii_bytes(bytes@),
            r is Ok ==> r->Ok_0@ == bytes@ && r->Ok_0.wf(),
            r is Err ==> r->Err_0 == (ChunkTypeError::NonAsciiChar {
                value: if !is_ascii_byte(bytes@[0]) {
                    bytes@[0]
                } else if !is_ascii_byte(bytes@[1]) {
                    bytes@[1]
                } else if !is_ascii_byte(bytes@[2]) {
                    bytes@[2]
                } else {
                    bytes@[3]
                },
            }),
    {
        let mut i: usize = 0;
        while i < 4
            invariant
                i <= 4,
                forall|j: int| 0 <= j < i ==> is_ascii_byte(#[trigger] bytes@[j]),
            decreases 4 - i,
        {
            if bytes[i] > 127 {
                return Err(ChunkTypeError::NonAsciiChar { value: bytes[i] });
            }
            i += 1;
        }
        Ok(ChunkType { data: bytes })
    }

    /// Parses a type code from text, enforcing full validity: exactly four
    /// ASCII letters, with the reserved bit unset.
    pub fn from_text(s: &str) -> (r: Result<ChunkType, ChunkTypeError>)
        ensures
            r is Ok <==> valid_type_text(s@),
            r is Ok ==> r->Ok_0@ == Seq::new(4, |i: int| s@[i] as u8) && r->Ok_0.wf()
                && ascii_chars_of(r->Ok_0@) == s@,
            r is Err ==> spec_from_text_err(s@, r->Err_0),
    {
        if s.unicode_len() != 4 {
            return Err(ChunkTypeError::WrongLength);
        }
        if !s.is_ascii() {
            proof {
                if valid_type_text(s@) {
                    lemma_valid_type_text_ascii(s@);
                }
            }
            return Err(ChunkTypeError::NonAsciiStr { value: String::from_str(s) });
        }
        let b0 = s.get_ascii(0);
        let b1 = s.get_ascii(1);
        let b2 = s.get_ascii(2);
        let b3 = s.get_ascii(3);
        proof {
            lemma_ascii_char_byte(s@[0]);
            lemma_ascii_char_byte(s@[1]);
            lemma_ascii_char_byte(s@[2]);
            lemma_ascii_char_byte(s@[3]);
        }
        if !(65 <= b0 && b0 <= 90 || 97 <= b0 && b0 <= 122) {
            return Err(ChunkTypeError::NonAlpha);
        }
        if !(65 <= b1 && b1 <= 90 || 97 <= b1 && b1 <= 122) {
            return Err(ChunkTypeError::NonAlpha);
        }
        if !(65 <= b2 && b2 <= 90 || 97 <= b2 && b2 <= 122) {
            return Err(ChunkTypeError::NonAlpha);
        }
        if !(65 <= b3 && b3 <= 90 || 97 <= b3 && b3 <= 122) {
            return Err(ChunkTypeError::NonAlpha);
        }
        if 97 <= b2 && b2 <= 122 {
            return Err(ChunkTypeError::InvalidReservedBit);
        }
        let ct = ChunkType { data: [b0, b1, b2, b3] };
        proof {
            assert(ct@ =~= Seq::new(4, |i: int| s@[i] as u8));
            assert forall|i: int| 0 <= i < 4 implies is_ascii_byte(#[trigger] ct@[i]) by {
                assert(ct@[i] == s@[i] as u8);
                assert(s@[i] <= '\u{7f}');
            }
            assert forall|i: int| 0 <= i < 4 implies ascii_chars_of(ct@)[i] == s@[i] by {
                assert(ct@[i] == s@[i] as u8);
                assert(s@[i] <= '\u{7f}');
            }
            assert(ascii_chars_of(ct@) =~= s@);
        }
        Ok(ct)
    }

    /// The raw bytes of this type code.
    pub fn bytes(&self) -> (r: [u8; 4])
        ensures
            r@ == self@,
    {
        self.data
    }

    /// True when the code conforms to the current PNG spec, that is, when
    /// the reserved bit is unset.
    pub fn is_valid(&self) -> (r: bool)
        ensures
            r == !is_lowercase_byte(self@[2]),
    {
        self.is_reserved_bit_valid()
    }

    /// Critical against ancillary: bit 5 of byte 0, unset means critical.
    pub fn is_critical(&self) -> (r: bool)
        ensures
            r == !is_lowercase_byte(self@[0]),
    {
        !is_5th_bit_set(self.data[0])
    }

    /// Public against private: bit 5 of byte 1, unset means public.
    pub fn is_public(&self) -> (r: bool)
        ensures
            r == !is_lowercase_byte(self@[1]),
    {
        !is_5th_bit_set(self.data[1])
    }

    /// The reserved bit: bit 5 of byte 2, which must be unset in files
    /// conforming to the current PNG spec.
    pub fn is_reserved_bit_valid(&self) -> (r: bool)
        ensures
            r == !is_lowercase_byte(self@[2]),
    {
        !is_5th_bit_set(self.data[2])
    }

    /// Safe to copy: bit 5 of byte 3, set means an editor that does not
    /// understand the chunk may still copy it.
    pub fn is_safe_to_copy(&self) -> (r: bool)
        ensures
            r == is_lowercase_byte(self@[3]),
    {
        is_5th_bit_set(self.data[3])
    }

    /// The four bytes read as ASCII text.
    pub fn to_text(&self) -> (r: String)
        requires
            self.wf(),
        ensures
            r@ == ascii_chars_of(self@),
    {
        let mut bytes: Vec<u8> = Vec::new();
        bytes.push(self.data[0]);
        bytes.push(self.data[1]);
        bytes.push(self.data[2]);
        bytes.push(self.data[3]);
        proof {
            assert(bytes@ =~= self@);
            lemma_ascii_bytes_decode(self@);
        }
        match crate::text::bytes_to_string(bytes) {
            Some(s) => s,
            None => unreached(),
        }
    }
}

} // verus!
