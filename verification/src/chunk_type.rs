//! The four-byte type code of a chunk.

use std::str::FromStr;
use vstd::prelude::*;
use vstd::std_specs::cmp::PartialEqSpecImpl;
use vstd::std_specs::convert::TryFromSpecImpl;
use vstd::utf8::{decode_utf8, encode_utf8, is_ascii_chars, is_ascii_chars_encode_utf8, valid_utf8};
use crate::text::{lemma_ascii_bytes_decode, string_from_utf8_lossy, utf8_lossy};

verus! {

/// Why a string is not a chunk type code.
#[derive(Debug, PartialEq, Eq, Structural, Clone, Copy)]
pub enum ChunkTypeError {
    /// The string does not have exactly four characters.
    IncorrectLength,
    /// The string has four characters, and one of them is not an ASCII letter.
    NotAlphabetic,
}

/// A chunk type code: four bytes, of which bit 5 of each carries a property of the chunk.
///
/// A code read from raw bytes may hold any byte; a code parsed from text holds ASCII
/// letters only.
#[derive(Debug, Clone, Copy)]
pub struct ChunkType {
    bytes: [u8; 4],
}

/// Bit 5 of a byte, which in an ASCII letter tells lower case from upper case.
pub const PROPERTY_BIT: u8 = 0x20;

/// `A-Z` or `a-z`.
pub open spec fn is_ascii_letter(c: char) -> bool {
    ('A' <= c && c <= 'Z') || ('a' <= c && c <= 'z')
}

/// Every character is an ASCII letter.
pub open spec fn all_ascii_letters(text: Seq<char>) -> bool {
    forall|i: int| 0 <= i < text.len() ==> is_ascii_letter(#[trigger] text[i])
}

/// The type code that a text spells, or why it spells none: four characters are asked
/// for first, then that all four are ASCII letters.
pub open spec fn parse_chunk_type(text: Seq<char>) -> Result<Seq<u8>, ChunkTypeError> {
    if text.len() != 4 {
        Err(ChunkTypeError::IncorrectLength)
    } else if !all_ascii_letters(text) {
        Err(ChunkTypeError::NotAlphabetic)
    } else {
        Ok(Seq::new(4, |i: int| text[i] as u8))
    }
}

/// Whether the property bit of `byte` is clear.
pub open spec fn property_bit_clear(byte: u8) -> bool {
    byte & PROPERTY_BIT == 0
}

impl View for ChunkType {
    type V = Seq<u8>;

    /// The four bytes of the code, in order.
    open spec fn view(&self) -> Seq<u8> {
        self.spec_bytes()@
    }
}

impl PartialEq for ChunkType {
    /// Two codes are equal when their bytes are.
    fn eq(&self, other: &ChunkType) -> (same: bool) {
        let same = self.bytes[0] == other.bytes[0] && self.bytes[1] == other.bytes[1]
            && self.bytes[2] == other.bytes[2] && self.bytes[3] == other.bytes[3];
        proof {
            if same {
                assert(self@ =~= other@);
            }
        }
        same
    }
}

impl Eq for ChunkType {}

/// What `==` means on codes: the same four bytes.
impl PartialEqSpecImpl for ChunkType {
    open spec fn obeys_eq_spec() -> bool {
        true
    }

    open spec fn eq_spec(&self, other: &ChunkType) -> bool {
        self@ == other@
    }
}

impl TryFrom<[u8; 4]> for ChunkType {
    type Error = ChunkTypeError;

    /// Takes four raw bytes as a type code. Any four bytes are accepted.
    fn try_from(bytes: [u8; 4]) -> (code: Result<ChunkType, ChunkTypeError>)
        ensures
            code is Ok,
            code->Ok_0@ == bytes@,
    {
        Ok(ChunkType { bytes })
    }
}

/// The conversion as a function: the code that holds exactly the bytes given.
impl TryFromSpecImpl<[u8; 4]> for ChunkType {
    open spec fn obeys_try_from_spec() -> bool {
        true
    }

    closed spec fn try_from_spec(bytes: [u8; 4]) -> Result<ChunkType, ChunkTypeError> {
        Ok(ChunkType { bytes })
    }
}

/// Whether a character is an ASCII letter.
fn is_letter(c: char) -> (letter: bool)
    ensures
        letter == is_ascii_letter(c),
{
    ('A' <= c && c <= 'Z') || ('a' <= c && c <= 'z')
}

impl FromStr for ChunkType {
    type Err = ChunkTypeError;

    /// Parses a type code from text: exactly four characters, each an ASCII letter.
    fn from_str(s: &str) -> (code: Result<ChunkType, ChunkTypeError>)
        ensures
            match code {
                Ok(t) => parse_chunk_type(s@) == Ok::<Seq<u8>, ChunkTypeError>(t@) && t@
                    == encode_utf8(s@),
                Err(e) => parse_chunk_type(s@) == Err::<Seq<u8>, ChunkTypeError>(e),
            },
    {
        if s.unicode_len() != 4 {
            return Err(ChunkTypeError::IncorrectLength);
        }
        let c0 = s.get_char(0);
        let c1 = s.get_char(1);
        let c2 = s.get_char(2);
        let c3 = s.get_char(3);
        if !(is_letter(c0) && is_letter(c1) && is_letter(c2) && is_letter(c3)) {
            return Err(ChunkTypeError::NotAlphabetic);
        }
        let code = ChunkType { bytes: [c0 as u8, c1 as u8, c2 as u8, c3 as u8] };
        proof {
            assert(all_ascii_letters(s@));
            assert(is_ascii_chars(s@));
            is_ascii_chars_encode_utf8(s@);
            assert(code@ =~= encode_utf8(s@));
            assert(code@ =~= Seq::new(4, |i: int| s@[i] as u8));
        }
        Ok(code)
    }
}

impl ChunkType {
    /// The stored bytes.
    pub closed spec fn spec_bytes(&self) -> [u8; 4] {
        self.bytes
    }

    /// The four bytes of the code.
    #[verifier::when_used_as_spec(spec_bytes)]
    pub fn bytes(&self) -> (bytes: [u8; 4])
        ensures
            bytes == self.spec_bytes(),
            bytes@ == self@,
    {
        self.bytes
    }

    /// A code is valid when its reserved bit is.
    pub fn is_valid(&self) -> (valid: bool)
        ensures
            valid == property_bit_clear(self@[2]),
    {
        self.is_reserved_bit_valid()
    }

    /// Critical (not ancillary): the property bit of the first byte is clear.
    pub fn is_critical(&self) -> (critical: bool)
        ensures
            critical == property_bit_clear(self@[0]),
    {
        self.bytes[0] & PROPERTY_BIT == 0
    }

    /// Public (not private): the property bit of the second byte is clear.
    pub fn is_public(&self) -> (public: bool)
        ensures
            public == property_bit_clear(self@[1]),
    {
        self.bytes[1] & PROPERTY_BIT == 0
    }

    /// The reserved bit, the property bit of the third byte, is clear as it must be.
    pub fn is_reserved_bit_valid(&self) -> (valid: bool)
        ensures
            valid == property_bit_clear(self@[2]),
    {
        self.bytes[2] & PROPERTY_BIT == 0
    }

    /// Safe to copy: the property bit of the fourth byte is set.
    pub fn is_safe_to_copy(&self) -> (safe: bool)
        ensures
            safe == !property_bit_clear(self@[3]),
    {
        self.bytes[3] & PROPERTY_BIT != 0
    }

    /// The code as text, by a lossy UTF-8 decoding of its bytes. A code of ASCII bytes
    /// reads as those four characters.
    pub fn to_string(&self) -> (text: String)
        ensures
            text@ == utf8_lossy(self@),
            valid_utf8(self@) ==> text@ == decode_utf8(self@),
            (forall|i: int| 0 <= i < 4 ==> self@[i] < 0x80) ==> text@ == Seq::new(
                4,
                |i: int| self@[i] as char,
            ),
    {
        proof {
            if forall|i: int| 0 <= i < 4 ==> self@[i] < 0x80 {
                lemma_ascii_bytes_decode(self@);
            }
        }
        string_from_utf8_lossy(self.bytes.as_slice())
    }
}

/// In a letter the property bit is the case: clear in upper case, set in lower case.
/// So a code parsed from text is critical, public, valid or unsafe to copy where its
/// first, second, third or fourth letter is a capital.
pub proof fn lemma_property_bit_is_case(c: char)
    requires
        is_ascii_letter(c),
    ensures
        property_bit_clear(c as u8) <==> 'A' <= c && c <= 'Z',
{
    let byte = c as u8;
    assert(0x41 <= byte <= 0x5a ==> byte & 0x20 == 0) by (bit_vector);
    assert(0x61 <= byte <= 0x7a ==> byte & 0x20 != 0) by (bit_vector);
}

} // verus!
