//! The 4-byte tag that names a chunk's category.
//!
//! Each of the four bytes carries one property bit in its ASCII case:
//! critical (byte 0 uppercase), public (byte 1 uppercase), reserved-bit
//! conformance (byte 2 uppercase) and safe-to-copy (byte 3 lowercase).
use vstd::prelude::*;

use crate::error::FormatError;

verus! {

/// True for an ASCII uppercase letter.
pub open spec fn spec_is_upper(b: u8) -> bool {
    65 <= b <= 90
}

/// True for an ASCII lowercase letter.
pub open spec fn spec_is_lower(b: u8) -> bool {
    97 <= b <= 122
}

/// True for a character that is an ASCII letter.
pub open spec fn spec_char_is_alpha(c: char) -> bool {
    spec_is_upper((c as u32) as u8) && c as u32 <= 90 || spec_is_lower((c as u32) as u8) && c
        as u32 <= 122
}

/// The validity rule this format checks on a tag's bytes: the public
/// byte (byte 1) is lowercase and the reserved-bit byte (byte 2) is
/// uppercase.
pub open spec fn spec_is_valid(t: Seq<u8>) -> bool {
    spec_is_lower(t[1]) && spec_is_upper(t[2])
}

/// Validity is pure and order-independent: it reads nothing but the
/// ASCII case of the tag's own bytes, so two tags whose bytes agree in
/// case are equally valid, whatever else they or any chunk hold.
pub proof fn lemma_is_valid_depends_on_case_alone(a: Seq<u8>, b: Seq<u8>)
    requires
        spec_is_lower(a[1]) == spec_is_lower(b[1]),
        spec_is_upper(a[2]) == spec_is_upper(b[2]),
    ensures
        spec_is_valid(a) == spec_is_valid(b),
{
}

/// True when `t` is acceptable text for a chunk type: exactly 4
/// characters, all ASCII alphabetic.
pub open spec fn spec_text_ok(t: Seq<char>) -> bool {
    t.len() == 4 && forall|i: int| 0 <= i < 4 ==> spec_char_is_alpha(#[trigger] t[i])
}

/// The bytes of a 4-character ASCII text.
pub open spec fn spec_text_bytes(t: Seq<char>) -> Seq<u8> {
    Seq::new(4, |i: int| (t[i] as u32) as u8)
}

/// A validated 4-byte chunk tag. Compared and copied by value; the byte
/// order and case are significant and preserved exactly.
#[derive(Debug, Copy, Clone)]
pub struct ChunkType {
    pub bytes: [u8; 4],
}

impl View for ChunkType {
    type V = Seq<u8>;

    open spec fn view(&self) -> Seq<u8> {
        self.bytes@
    }
}

impl PartialEq for ChunkType {
    fn eq(&self, other: &ChunkType) -> (r: bool) {
        self.bytes[0] == other.bytes[0] && self.bytes[1] == other.bytes[1] && self.bytes[2]
            == other.bytes[2] && self.bytes[3] == other.bytes[3]
    }
}

impl Eq for ChunkType {

}

impl vstd::std_specs::cmp::PartialEqSpecImpl for ChunkType {
    open spec fn obeys_eq_spec() -> bool {
        true
    }

    open spec fn eq_spec(&self, other: &ChunkType) -> bool {
        self@ =~= other@
    }
}

impl ChunkType {
    /// Wraps any 4 bytes as a chunk type. Infallible: binary parsing may
    /// produce non-alphabetic bytes, and validity is a separate query.
    pub fn new(val: [u8; 4]) -> (r: ChunkType)
        ensures
            r@ == val@,
    {
        ChunkType { bytes: val }
    }

    /// The raw 4 bytes of the tag.
    pub fn bytes(&self) -> (r: [u8; 4])
        ensures
            r@ == self@,
    {
        self.bytes
    }

    /// Reads a chunk type from text: exactly 4 characters, all ASCII
    /// alphabetic, case preserved.
    pub fn from_str(s: &str) -> (r: Result<ChunkType, FormatError>)
        ensures
            match r {
                Ok(t) => spec_text_ok(s@) && t@ == spec_text_bytes(s@),
                Err(FormatError::InvalidLength) => s@.len() != 4,
                Err(FormatError::InvalidCharacter) => s@.len() == 4 && !spec_text_ok(s@),
                Err(_) => false,
            },
    {
        if s.unicode_len() != 4 {
            return Err(FormatError::InvalidLength);
        }
        let c0 = s.get_char(0);
        let c1 = s.get_char(1);
        let c2 = s.get_char(2);
        let c3 = s.get_char(3);
        if !(char_is_alpha(c0) && char_is_alpha(c1) && char_is_alpha(c2) && char_is_alpha(c3)) {
            return Err(FormatError::InvalidCharacter);
        }
        let b = [char_byte(c0), char_byte(c1), char_byte(c2), char_byte(c3)];
        proof {
            assert(b@ =~= spec_text_bytes(s@));
        }
        Ok(ChunkType { bytes: b })
    }

    /// True when the tag conforms to the ancillary rule this format
    /// checks: private (byte 1 lowercase) with a valid reserved bit
    /// (byte 2 uppercase). Depends on the byte case of this tag alone.
    pub fn is_valid(&self) -> (r: bool)
        ensures
            r == spec_is_valid(self@),
    {
        let b = self.bytes[1];
        97 <= b && b <= 122 && self.is_reserved_bit_valid()
    }

    /// Renders the tag back to text, reproducing the 4 bytes exactly,
    /// mixed case included. The bytes must form valid UTF-8 text.
    pub fn to_text(&self) -> (r: String)
        requires
            vstd::utf8::valid_utf8(self@),
        ensures
            r@ == vstd::utf8::decode_utf8(self@),
            vstd::utf8::encode_utf8(r@) == self@,
    {
        let mut v: Vec<u8> = Vec::new();
        v.push(self.bytes[0]);
        v.push(self.bytes[1]);
        v.push(self.bytes[2]);
        v.push(self.bytes[3]);
        proof {
            assert(v@ =~= self@);
            vstd::utf8::decode_utf8_encode_utf8(self@);
        }
        match crate::text::bytes_to_text(&v) {
            Some(s) => s,
            None => vstd::pervasive::unreached(),
        }
    }

    /// True when byte 0 is uppercase: the chunk is critical.
    pub fn is_critical(&self) -> (r: bool)
        ensures
            r == spec_is_upper(self@[0]),
    {
        let b = self.bytes[0];
        65 <= b && b <= 90
    }

    /// True when byte 1 is uppercase: the chunk is public.
    pub fn is_public(&self) -> (r: bool)
        ensures
            r == spec_is_upper(self@[1]),
    {
        let b = self.bytes[1];
        65 <= b && b <= 90
    }

    /// True when byte 2 is uppercase: the reserved bit conforms.
    pub fn is_reserved_bit_valid(&self) -> (r: bool)
        ensures
            r == spec_is_upper(self@[2]),
    {
        let b = self.bytes[2];
        65 <= b && b <= 90
    }

    /// True when byte 3 is lowercase: the chunk is safe to copy.
    pub fn is_safe_to_copy(&self) -> (r: bool)
        ensures
            r == spec_is_lower(self@[3]),
    {
        let b = self.bytes[3];
        97 <= b && b <= 122
    }
}

/// True when the tag's 4 bytes are exactly the UTF-8 bytes of `t`, that
/// is, when the tag renders to the text `t`.
pub fn type_matches_text(ct: &ChunkType, t: &str) -> (r: bool)
    ensures
        r == (ct@ == vstd::utf8::encode_utf8(t@)),
{
    let tb = t.as_bytes();
    if tb.len() != 4 {
        return false;
    }
    let r = ct.bytes[0] == *vstd::slice::slice_index_get(tb, 0) && ct.bytes[1]
        == *vstd::slice::slice_index_get(tb, 1) && ct.bytes[2] == *vstd::slice::slice_index_get(
        tb,
        2,
    ) && ct.bytes[3] == *vstd::slice::slice_index_get(tb, 3);
    proof {
        if r {
            assert(ct@ =~= tb@);
        }
    }
    r
}

/// True when `c` is an ASCII letter.
fn char_is_alpha(c: char) -> (r: bool)
    ensures
        r == spec_char_is_alpha(c),
{
    let u = c as u32;
    (65 <= u && u <= 90) || (97 <= u && u <= 122)
}

/// The byte of an ASCII character.
fn char_byte(c: char) -> (r: u8)
    requires
        (c as u32) < 128,
    ensures
        r == ((c as u32) as u8),
{
    c as u32 as u8
}

} // verus!
