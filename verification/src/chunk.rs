//! A single record of the container: a 4-byte big-endian length, a 4-byte
//! type tag, the payload, and a 4-byte big-endian CRC-32 checksum over
//! (type bytes followed by payload bytes).
use vstd::prelude::*;

use crate::chunk_type::ChunkType;
use crate::crc32::{crc32_checksum, crc32_of};
use crate::error::FormatError;
use crate::text::{bytes_to_text, spec_decimal, u32_to_text};
use crate::wire::{
    lemma_be32_value_of_bytes, push_be32, push_bytes, read_be32, spec_be32_bytes, spec_be32_value,
};
use vstd::slice::{slice_subrange, slice_to_vec};
use vstd::string::StringExecFns;
use vstd::utf8::{decode_utf8, valid_utf8};

verus! {

/// The mathematical content of a chunk: the stored length field, the 4
/// type bytes, the payload bytes and the stored checksum.
#[verifier::ext_equal]
pub ghost struct ChunkModel {
    pub length: u32,
    pub ctype: Seq<u8>,
    pub data: Seq<u8>,
    pub crc: u32,
}

impl ChunkModel {
    /// Well-formed: the tag has 4 bytes, the length field equals the
    /// payload length, and the checksum is the CRC-32 of (type bytes
    /// followed by payload bytes).
    pub open spec fn wf(self) -> bool {
        &&& self.ctype.len() == 4
        &&& self.length == self.data.len()
        &&& self.crc == crc32_of(self.ctype + self.data)
    }
}

/// The wire encoding of a chunk: big-endian length, type bytes, payload,
/// big-endian checksum.
pub open spec fn spec_chunk_bytes(m: ChunkModel) -> Seq<u8> {
    spec_be32_bytes(m.length) + m.ctype + m.data + spec_be32_bytes(m.crc)
}

/// Reads one chunk from the front of `b`, leaving any remainder for the
/// caller: the declared length names how many payload bytes follow the
/// type, and the stored checksum must equal the recomputed one. On
/// success the second component is how many bytes the chunk took.
pub open spec fn spec_parse_chunk_at(b: Seq<u8>) -> Result<(ChunkModel, int), FormatError> {
    if b.len() < 4 {
        Err(FormatError::Truncated)
    } else {
        let len = spec_be32_value(b.subrange(0, 4)) as int;
        if b.len() < 12 + len {
            Err(FormatError::Truncated)
        } else {
            let ctype = b.subrange(4, 8);
            let data = b.subrange(8, 8 + len);
            let stored = spec_be32_value(b.subrange(8 + len, 12 + len));
            if stored != crc32_of(ctype + data) {
                Err(FormatError::ChecksumMismatch)
            } else {
                Ok(
                    (
                        ChunkModel {
                            length: spec_be32_value(b.subrange(0, 4)),
                            ctype: ctype,
                            data: data,
                            crc: stored,
                        },
                        12 + len,
                    ),
                )
            }
        }
    }
}

/// Reads a chunk that must take up all of `b`: a buffer that ends before
/// a declared field does, or that does not end with the checksum field,
/// is reported as truncated before the checksum is compared.
pub open spec fn spec_parse_chunk(b: Seq<u8>) -> Result<ChunkModel, FormatError> {
    if b.len() < 4 {
        Err(FormatError::Truncated)
    } else {
        let len = spec_be32_value(b.subrange(0, 4)) as int;
        if b.len() != 12 + len {
            Err(FormatError::Truncated)
        } else {
            match spec_parse_chunk_at(b) {
                Ok((m, n)) => Ok(m),
                Err(e) => Err(e),
            }
        }
    }
}

/// One length-prefixed, type-tagged, checksum-verified record. Immutable
/// after construction; the checksum is computed at construction or
/// re-verified at parse time, never merely copied.
#[derive(Debug)]
pub struct Chunk {
    pub data_length: u32,
    pub chunk_type: ChunkType,
    pub chunk_data: Vec<u8>,
    pub crc: u32,
}

impl View for Chunk {
    type V = ChunkModel;

    open spec fn view(&self) -> ChunkModel {
        ChunkModel {
            length: self.data_length,
            ctype: self.chunk_type@,
            data: self.chunk_data@,
            crc: self.crc,
        }
    }
}

impl PartialEq for Chunk {
    fn eq(&self, other: &Chunk) -> (r: bool) {
        if !(self.data_length == other.data_length && self.chunk_type == other.chunk_type
            && self.crc == other.crc && self.chunk_data.len() == other.chunk_data.len()) {
            return false;
        }
        let n = self.chunk_data.len();
        let mut i: usize = 0;
        while i < n
            invariant
                i <= n,
                n == self.chunk_data@.len(),
                n == other.chunk_data@.len(),
                forall|j: int| 0 <= j < i ==> self.chunk_data@[j] == other.chunk_data@[j],
            decreases n - i,
        {
            if self.chunk_data[i] != other.chunk_data[i] {
                return false;
            }
            i = i + 1;
        }
        proof {
            assert(self.chunk_data@ =~= other.chunk_data@);
        }
        true
    }
}

impl Eq for Chunk {

}

impl vstd::std_specs::cmp::PartialEqSpecImpl for Chunk {
    open spec fn obeys_eq_spec() -> bool {
        true
    }

    open spec fn eq_spec(&self, other: &Chunk) -> bool {
        self@ =~= other@
    }
}

impl Chunk {
    /// Well-formed: see [`ChunkModel::wf`].
    pub open spec fn wf(self) -> bool {
        self@.wf()
    }

    /// Builds a chunk from a tag and a payload, computing the length and
    /// the checksum. The payload length must fit the 32-bit length field.
    pub fn new(chunk_type: ChunkType, data: Vec<u8>) -> (r: Chunk)
        requires
            data@.len() <= u32::MAX,
        ensures
            r@ == (ChunkModel {
                length: data@.len() as u32,
                ctype: chunk_type@,
                data: data@,
                crc: crc32_of(chunk_type@ + data@),
            }),
            r.wf(),
    {
        let mut buf: Vec<u8> = Vec::new();
        let tb = chunk_type.bytes();
        push_bytes(&mut buf, tb.as_slice());
        push_bytes(&mut buf, data.as_slice());
        proof {
            assert(buf@ =~= chunk_type@ + data@);
        }
        let calculated = crc32_checksum(buf.as_slice());
        Chunk { data_length: data.len() as u32, chunk_type, chunk_data: data, crc: calculated }
    }

    /// The stored length field, always the payload length.
    pub fn length(&self) -> (r: u32)
        ensures
            r == self@.length,
    {
        self.data_length
    }

    /// The chunk's 4-byte tag.
    pub fn chunk_type(&self) -> (r: ChunkType)
        ensures
            r@ == self@.ctype,
    {
        self.chunk_type
    }

    /// The payload bytes.
    pub fn data(&self) -> (r: &[u8])
        ensures
            r@ == self@.data,
    {
        self.chunk_data.as_slice()
    }

    /// The stored checksum.
    pub fn crc(&self) -> (r: u32)
        ensures
            r == self@.crc,
    {
        self.crc
    }

    /// Decodes the payload as text; a payload that is not valid UTF-8 is
    /// the one source of `InvalidEncoding`.
    pub fn data_as_string(&self) -> (r: Result<String, FormatError>)
        ensures
            match r {
                Ok(s) => valid_utf8(self@.data) && s@ == decode_utf8(self@.data),
                Err(FormatError::InvalidEncoding) => !valid_utf8(self@.data),
                Err(_) => false,
            },
    {
        match bytes_to_text(&self.chunk_data) {
            Some(s) => Ok(s),
            None => Err(FormatError::InvalidEncoding),
        }
    }

    /// Renders the chunk's fields as one line of text. The tag and the
    /// payload must render to text themselves.
    pub fn to_text(&self) -> (r: String)
        requires
            valid_utf8(self@.ctype),
            valid_utf8(self@.data),
        ensures
            r@ == "chunk length is "@ + spec_decimal(self@.length as int) + " and chunk_type "@
                + decode_utf8(self@.ctype) + " and chunk data "@ + decode_utf8(self@.data)
                + " and chuck crc is "@ + spec_decimal(self@.crc as int) + " "@,
    {
        let mut out = String::from_str("chunk length is ");
        let length_text = u32_to_text(self.data_length);
        out.append(length_text.as_str());
        out.append(" and chunk_type ");
        let type_text = self.chunk_type.to_text();
        out.append(type_text.as_str());
        out.append(" and chunk data ");
        let data_text = match bytes_to_text(&self.chunk_data) {
            Some(s) => s,
            None => vstd::pervasive::unreached(),
        };
        out.append(data_text.as_str());
        out.append(" and chuck crc is ");
        let crc_text = u32_to_text(self.crc);
        out.append(crc_text.as_str());
        out.append(" ");
        out
    }

    /// The chunk's deterministic wire encoding.
    pub fn as_bytes(&self) -> (r: Vec<u8>)
        ensures
            r@ == spec_chunk_bytes(self@),
    {
        let mut out: Vec<u8> = Vec::new();
        push_be32(&mut out, self.data_length);
        let tb = self.chunk_type.bytes();
        push_bytes(&mut out, tb.as_slice());
        push_bytes(&mut out, self.chunk_data.as_slice());
        push_be32(&mut out, self.crc);
        proof {
            assert(out@ =~= spec_chunk_bytes(self@));
        }
        out
    }

    /// Reads a chunk from a buffer that must hold exactly that chunk.
    /// An out-of-range field never faults: it is reported as `Truncated`.
    pub fn parse(bytes: &[u8]) -> (r: Result<Chunk, FormatError>)
        ensures
            match r {
                Ok(c) => c.wf() && spec_parse_chunk(bytes@) == Ok::<ChunkModel, FormatError>(c@),
                Err(e) => spec_parse_chunk(bytes@) == Err::<ChunkModel, FormatError>(e),
            },
    {
        let n = bytes.len();
        if n < 4 {
            return Err(FormatError::Truncated);
        }
        let length = read_be32(bytes, 0);
        if n < 12 || n - 12 != length as usize {
            return Err(FormatError::Truncated);
        }
        let len = length as usize;
        let t0 = *vstd::slice::slice_index_get(bytes, 4);
        let t1 = *vstd::slice::slice_index_get(bytes, 5);
        let t2 = *vstd::slice::slice_index_get(bytes, 6);
        let t3 = *vstd::slice::slice_index_get(bytes, 7);
        let chunk_type = ChunkType::new([t0, t1, t2, t3]);
        let data = slice_to_vec(slice_subrange(bytes, 8, 8 + len));
        let stored = read_be32(bytes, 8 + len);
        let computed = crc32_checksum(slice_subrange(bytes, 4, 8 + len));
        proof {
            assert(bytes@.subrange(4, 8 + len as int) =~= bytes@.subrange(4, 8) + bytes@.subrange(
                8,
                8 + len as int,
            ));
        }
        if computed != stored {
            return Err(FormatError::ChecksumMismatch);
        }
        let c = Chunk { data_length: length, chunk_type, chunk_data: data, crc: stored };
        proof {
            assert(c@.ctype =~= bytes@.subrange(4, 8));
            assert(spec_parse_chunk(bytes@) == Ok::<ChunkModel, FormatError>(c@));
        }
        Ok(c)
    }
}

/// Reads the chunk that starts at `off`, returning it with the offset
/// just past it.
pub fn parse_chunk_prefix(bytes: &[u8], off: usize) -> (r: Result<(Chunk, usize), FormatError>)
    requires
        off <= bytes@.len(),
    ensures
        match r {
            Ok(p) => p.0.wf() && off < p.1 <= bytes@.len() && spec_parse_chunk_at(
                bytes@.skip(off as int),
            ) == Ok::<(ChunkModel, int), FormatError>((p.0@, p.1 - off)),
            Err(e) => spec_parse_chunk_at(bytes@.skip(off as int)) == Err::<
                (ChunkModel, int),
                FormatError,
            >(e),
        },
{
    let ghost t = bytes@.skip(off as int);
    let n = bytes.len();
    let avail = n - off;
    if avail < 4 {
        return Err(FormatError::Truncated);
    }
    let length = read_be32(bytes, off);
    proof {
        assert(t.subrange(0, 4) =~= bytes@.subrange(off as int, off as int + 4));
    }
    if avail < 12 || avail - 12 < length as usize {
        return Err(FormatError::Truncated);
    }
    let len = length as usize;
    let t0 = *vstd::slice::slice_index_get(bytes, off + 4);
    let t1 = *vstd::slice::slice_index_get(bytes, off + 5);
    let t2 = *vstd::slice::slice_index_get(bytes, off + 6);
    let t3 = *vstd::slice::slice_index_get(bytes, off + 7);
    let chunk_type = ChunkType::new([t0, t1, t2, t3]);
    let data = slice_to_vec(slice_subrange(bytes, off + 8, off + 8 + len));
    let stored = read_be32(bytes, off + 8 + len);
    let computed = crc32_checksum(slice_subrange(bytes, off + 4, off + 8 + len));
    proof {
        assert(t.subrange(4, 8) =~= bytes@.subrange(off as int + 4, off as int + 8));
        assert(t.subrange(8, 8 + len as int) =~= bytes@.subrange(
            off as int + 8,
            off as int + 8 + len as int,
        ));
        assert(t.subrange(8 + len as int, 12 + len as int) =~= bytes@.subrange(
            off as int + 8 + len as int,
            off as int + 12 + len as int,
        ));
        assert(bytes@.subrange(off as int + 4, off as int + 8 + len as int) =~= t.subrange(4, 8)
            + t.subrange(8, 8 + len as int));
    }
    if computed != stored {
        return Err(FormatError::ChecksumMismatch);
    }
    let c = Chunk { data_length: length, chunk_type, chunk_data: data, crc: stored };
    let next = off + 12 + len;
    proof {
        assert(c@.ctype =~= t.subrange(4, 8));
        assert(spec_parse_chunk_at(t) == Ok::<(ChunkModel, int), FormatError>((c@, 12 + len as int)));
    }
    Ok((c, next))
}

/// A well-formed chunk's encoding, read back from the front of any
/// longer buffer, yields that chunk and takes exactly its own bytes.
pub proof fn lemma_parse_chunk_at_of_encoding(m: ChunkModel, rest: Seq<u8>)
    requires
        m.wf(),
    ensures
        spec_parse_chunk_at(spec_chunk_bytes(m) + rest) == Ok::<(ChunkModel, int), FormatError>(
            (m, spec_chunk_bytes(m).len() as int),
        ),
{
    let b = spec_chunk_bytes(m) + rest;
    let len = m.data.len() as int;
    lemma_be32_value_of_bytes(m.length);
    lemma_be32_value_of_bytes(m.crc);
    assert(b.subrange(0, 4) =~= spec_be32_bytes(m.length));
    assert(b.len() == 12 + len + rest.len());
    assert(b.subrange(4, 8) =~= m.ctype);
    assert(b.subrange(8, 8 + len) =~= m.data);
    assert(b.subrange(8 + len, 12 + len) =~= spec_be32_bytes(m.crc));
    let parsed = spec_parse_chunk_at(b)->Ok_0.0;
    assert(parsed =~= m);
}

/// Round trip: a well-formed chunk's encoding parses back to that chunk.
pub proof fn lemma_chunk_round_trip(m: ChunkModel)
    requires
        m.wf(),
    ensures
        spec_parse_chunk(spec_chunk_bytes(m)) == Ok::<ChunkModel, FormatError>(m),
{
    let b = spec_chunk_bytes(m);
    lemma_parse_chunk_at_of_encoding(m, Seq::<u8>::empty());
    assert(b + Seq::<u8>::empty() =~= b);
    lemma_be32_value_of_bytes(m.length);
    assert(b.subrange(0, 4) =~= spec_be32_bytes(m.length));
}

/// Truncation safety: every strict prefix of a well-formed chunk's
/// encoding parses to `Truncated`.
pub proof fn lemma_truncated_prefix(m: ChunkModel, k: int)
    requires
        m.wf(),
        0 <= k < spec_chunk_bytes(m).len(),
    ensures
        spec_parse_chunk(spec_chunk_bytes(m).take(k)) == Err::<ChunkModel, FormatError>(
            FormatError::Truncated,
        ),
{
    let b = spec_chunk_bytes(m);
    let p = b.take(k);
    if k >= 4 {
        lemma_be32_value_of_bytes(m.length);
        assert(p.subrange(0, 4) =~= spec_be32_bytes(m.length));
        assert(p.len() != 12 + m.data.len());
    }
}

/// Checksum sensitivity: changing one byte of the type or payload region
/// of a well-formed chunk's encoding makes the parse fail with
/// `ChecksumMismatch`, whenever the changed region's checksum differs
/// from the stored one.
pub proof fn lemma_byte_flip_detected(m: ChunkModel, i: int, v: u8)
    requires
        m.wf(),
        4 <= i < 8 + m.data.len(),
        v != spec_chunk_bytes(m)[i],
        crc32_of((m.ctype + m.data).update(i - 4, v)) != m.crc,
    ensures
        spec_parse_chunk(spec_chunk_bytes(m).update(i, v)) == Err::<ChunkModel, FormatError>(
            FormatError::ChecksumMismatch,
        ),
{
    let b = spec_chunk_bytes(m);
    let b2 = b.update(i, v);
    let len = m.data.len() as int;
    lemma_be32_value_of_bytes(m.length);
    lemma_be32_value_of_bytes(m.crc);
    assert(b2.subrange(0, 4) =~= spec_be32_bytes(m.length));
    assert(b2.len() == 12 + len);
    assert(b2.subrange(8 + len, 12 + len) =~= spec_be32_bytes(m.crc));
    assert(b2.subrange(4, 8) + b2.subrange(8, 8 + len) =~= (m.ctype + m.data).update(i - 4, v));
}

} // verus!
