//! The container: a fixed 8-byte signature followed by an ordered
//! sequence of chunks.
use vstd::prelude::*;

use crate::chunk::{
    lemma_parse_chunk_at_of_encoding, parse_chunk_prefix, spec_chunk_bytes, spec_parse_chunk_at,
    Chunk, ChunkModel,
};
use crate::chunk_type::type_matches_text;
use crate::crc32::crc32_of;
use crate::error::FormatError;
use crate::wire::{push_bytes, spec_be32_value};
use vstd::slice::slice_index_get;
use vstd::utf8::encode_utf8;

verus! {

/// The fixed 8-byte magic that identifies the container format.
pub open spec fn spec_signature() -> Seq<u8> {
    seq![137u8, 80u8, 78u8, 71u8, 13u8, 10u8, 26u8, 10u8]
}

/// The signature as a value.
pub fn signature() -> (r: [u8; 8])
    ensures
        r@ == spec_signature(),
{
    let s = [137u8, 80u8, 78u8, 71u8, 13u8, 10u8, 26u8, 10u8];
    proof {
        assert(s@ =~= spec_signature());
    }
    s
}

/// True when the chunk's tag renders to exactly the text `t`.
pub open spec fn chunk_matches(m: ChunkModel, t: Seq<char>) -> bool {
    m.ctype == encode_utf8(t)
}

/// The index of the first chunk whose tag renders to `t`, or the
/// sequence length when there is none.
pub open spec fn spec_first_match(s: Seq<ChunkModel>, t: Seq<char>) -> int
    decreases s.len(),
{
    if s.len() == 0 {
        0
    } else if chunk_matches(s[0], t) {
        0
    } else {
        1 + spec_first_match(s.drop_first(), t)
    }
}

/// What the first-match index means: it is in range, it matches when in
/// range, and nothing before it matches.
pub proof fn lemma_first_match(s: Seq<ChunkModel>, t: Seq<char>)
    ensures
        0 <= spec_first_match(s, t) <= s.len(),
        spec_first_match(s, t) < s.len() ==> chunk_matches(s[spec_first_match(s, t)], t),
        forall|j: int| 0 <= j < spec_first_match(s, t) ==> !chunk_matches(#[trigger] s[j], t),
    decreases s.len(),
{
    if s.len() != 0 && !chunk_matches(s[0], t) {
        lemma_first_match(s.drop_first(), t);
        assert forall|j: int| 0 <= j < spec_first_match(s, t) implies !chunk_matches(
            #[trigger] s[j],
            t,
        ) by {
            if j >= 1 {
                assert(s[j] == s.drop_first()[j - 1]);
            }
        }
    }
}

/// An index left of which nothing matches, and which matches when in
/// range, is the first-match index.
pub proof fn lemma_first_match_unique(s: Seq<ChunkModel>, t: Seq<char>, i: int)
    requires
        0 <= i <= s.len(),
        forall|j: int| 0 <= j < i ==> !chunk_matches(#[trigger] s[j], t),
        i < s.len() ==> chunk_matches(s[i], t),
    ensures
        spec_first_match(s, t) == i,
    decreases s.len(),
{
    if s.len() == 0 {
    } else if i == 0 {
    } else {
        assert(!chunk_matches(s[0], t));
        assert forall|j: int| 0 <= j < i - 1 implies !chunk_matches(
            #[trigger] s.drop_first()[j],
            t,
        ) by {
            assert(s.drop_first()[j] == s[j + 1]);
        }
        assert(i - 1 < s.drop_first().len() ==> chunk_matches(s.drop_first()[i - 1], t));
        lemma_first_match_unique(s.drop_first(), t, i - 1);
    }
}

/// The concatenated wire encodings of a chunk sequence.
pub open spec fn spec_chunks_bytes(s: Seq<ChunkModel>) -> Seq<u8>
    decreases s.len(),
{
    if s.len() == 0 {
        Seq::empty()
    } else {
        spec_chunk_bytes(s[0]) + spec_chunks_bytes(s.drop_first())
    }
}

/// The container's wire encoding: the signature, then every chunk's
/// encoding in sequence order.
pub open spec fn spec_png_bytes(s: Seq<ChunkModel>) -> Seq<u8> {
    spec_signature() + spec_chunks_bytes(s)
}

/// Reads chunks until the buffer is exhausted; any chunk-level failure
/// aborts the whole parse.
pub open spec fn spec_parse_chunks(b: Seq<u8>) -> Result<Seq<ChunkModel>, FormatError>
    decreases b.len(),
{
    if b.len() == 0 {
        Ok(Seq::empty())
    } else if b.len() < 4 {
        Err(FormatError::Truncated)
    } else {
        let len = spec_be32_value(b.subrange(0, 4)) as int;
        if b.len() < 12 + len {
            Err(FormatError::Truncated)
        } else {
            let ctype = b.subrange(4, 8);
            let data = b.subrange(8, 8 + len);
            let stored = spec_be32_value(b.subrange(8 + len, 12 + len));
            if stored != crc32_of(ctype + data) {
                Err(FormatError::ChecksumMismatch)
            } else {
                match spec_parse_chunks(b.skip(12 + len)) {
                    Ok(rest) => Ok(
                        seq![
                            ChunkModel {
                                length: spec_be32_value(b.subrange(0, 4)),
                                ctype: ctype,
                                data: data,
                                crc: stored,
                            },
                        ] + rest,
                    ),
                    Err(e) => Err(e),
                }
            }
        }
    }
}

/// One step of [`spec_parse_chunks`], phrased over the single-chunk
/// reader [`spec_parse_chunk_at`].
pub proof fn lemma_parse_chunks_step(b: Seq<u8>)
    requires
        b.len() > 0,
    ensures
        spec_parse_chunks(b) == (match spec_parse_chunk_at(b) {
            Ok(p) => match spec_parse_chunks(b.skip(p.1)) {
                Ok(rest) => Ok::<Seq<ChunkModel>, FormatError>(seq![p.0] + rest),
                Err(e) => Err::<Seq<ChunkModel>, FormatError>(e),
            },
            Err(e) => Err::<Seq<ChunkModel>, FormatError>(e),
        }),
{
}

/// Reads a container: the fixed signature, then chunks until no bytes
/// remain.
pub open spec fn spec_parse_png(b: Seq<u8>) -> Result<Seq<ChunkModel>, FormatError> {
    if b.len() < 8 || b.subrange(0, 8) != spec_signature() {
        Err(FormatError::BadSignature)
    } else {
        spec_parse_chunks(b.skip(8))
    }
}

/// The models of a sequence of chunks.
pub open spec fn chunk_views(s: Seq<Chunk>) -> Seq<ChunkModel> {
    Seq::new(s.len(), |i: int| s[i]@)
}

/// The container: an ordered chunk sequence behind the fixed signature.
/// Order is significant and serialization reproduces it exactly.
#[derive(Debug)]
pub struct Png {
    pub chunks: Vec<Chunk>,
}

impl View for Png {
    type V = Seq<ChunkModel>;

    open spec fn view(&self) -> Seq<ChunkModel> {
        chunk_views(self.chunks@)
    }
}

impl PartialEq for Png {
    fn eq(&self, other: &Png) -> (r: bool) {
        let n = self.chunks.len();
        if n != other.chunks.len() {
            return false;
        }
        let mut i: usize = 0;
        while i < n
            invariant
                i <= n,
                n == self.chunks@.len(),
                n == other.chunks@.len(),
                forall|j: int| 0 <= j < i ==> self@[j] == other@[j],
            decreases n - i,
        {
            let a = slice_index_get(self.chunks.as_slice(), i);
            let b = slice_index_get(other.chunks.as_slice(), i);
            if !(a.eq(b)) {
                proof {
                    assert(self@[i as int] != other@[i as int]);
                }
                return false;
            }
            i = i + 1;
        }
        proof {
            assert(self@ =~= other@);
        }
        true
    }
}

impl Eq for Png {

}

impl vstd::std_specs::cmp::PartialEqSpecImpl for Png {
    open spec fn obeys_eq_spec() -> bool {
        true
    }

    open spec fn eq_spec(&self, other: &Png) -> bool {
        self@ =~= other@
    }
}

impl Png {
    /// Well-formed: every chunk is.
    pub open spec fn wf(self) -> bool {
        forall|i: int| 0 <= i < self@.len() ==> (#[trigger] self@[i]).wf()
    }

    /// An empty container.
    pub fn new() -> (r: Png)
        ensures
            r@ == Seq::<ChunkModel>::empty(),
            r.wf(),
    {
        let p = Png { chunks: Vec::new() };
        proof {
            assert(p@ =~= Seq::<ChunkModel>::empty());
        }
        p
    }

    /// Appends a chunk at the end of the sequence, unconditionally:
    /// several chunks of one type are legal.
    pub fn append_chunk(&mut self, chunk: Chunk)
        ensures
            final(self)@ == old(self)@.push(chunk@),
            old(self).wf() && chunk.wf() ==> final(self).wf(),
    {
        self.chunks.push(chunk);
        proof {
            assert(self@ =~= old(self)@.push(chunk@));
        }
    }

    /// The first chunk, in sequence order, whose tag renders to the
    /// given text; absence is no error.
    pub fn chunk_by_type(&self, chunk_type: &str) -> (r: Option<&Chunk>)
        ensures
            match r {
                Some(c) => spec_first_match(self@, chunk_type@) < self@.len() && c@
                    == self@[spec_first_match(self@, chunk_type@)] && chunk_matches(
                    c@,
                    chunk_type@,
                ),
                None => spec_first_match(self@, chunk_type@) == self@.len(),
            },
    {
        let n = self.chunks.len();
        let mut i: usize = 0;
        while i < n
            invariant
                i <= n,
                n == self.chunks@.len(),
                forall|j: int| 0 <= j < i ==> !chunk_matches(#[trigger] self@[j], chunk_type@),
            decreases n - i,
        {
            let c = slice_index_get(self.chunks.as_slice(), i);
            if type_matches_text(&c.chunk_type, chunk_type) {
                proof {
                    lemma_first_match_unique(self@, chunk_type@, i as int);
                }
                return Some(c);
            }
            i = i + 1;
        }
        proof {
            lemma_first_match_unique(self@, chunk_type@, n as int);
        }
        None
    }

    /// Removes and returns the first chunk whose tag renders to the
    /// given text, keeping the rest in order; `ChunkNotFound` when no
    /// chunk matches.
    pub fn remove_chunk(&mut self, chunk_type: &str) -> (r: Result<Chunk, FormatError>)
        ensures
            match r {
                Ok(c) => {
                    let i = spec_first_match(old(self)@, chunk_type@);
                    &&& i < old(self)@.len()
                    &&& c@ == old(self)@[i]
                    &&& chunk_matches(c@, chunk_type@)
                    &&& final(self)@ == old(self)@.remove(i)
                    &&& (old(self).wf() ==> final(self).wf() && c.wf())
                },
                Err(FormatError::ChunkNotFound) => spec_first_match(old(self)@, chunk_type@)
                    == old(self)@.len() && final(self)@ == old(self)@,
                Err(_) => false,
            },
    {
        let n = self.chunks.len();
        let mut i: usize = 0;
        while i < n
            invariant
                i <= n,
                n == self.chunks@.len(),
                *self == *old(self),
                forall|j: int| 0 <= j < i ==> !chunk_matches(#[trigger] self@[j], chunk_type@),
            decreases n - i,
        {
            let c = slice_index_get(self.chunks.as_slice(), i);
            if type_matches_text(&c.chunk_type, chunk_type) {
                proof {
                    lemma_first_match_unique(self@, chunk_type@, i as int);
                }
                let removed = self.chunks.remove(i);
                proof {
                    assert(removed@ == old(self)@[i as int]);
                    assert(self@ =~= old(self)@.remove(i as int));
                    if old(self).wf() {
                        assert forall|k: int| 0 <= k < self@.len() implies (
                        #[trigger] self@[k]).wf() by {
                            if k < i {
                                assert(self@[k] == old(self)@[k]);
                            } else {
                                assert(self@[k] == old(self)@[k + 1]);
                            }
                        }
                    }
                }
                return Ok(removed);
            }
            i = i + 1;
        }
        proof {
            lemma_first_match_unique(self@, chunk_type@, n as int);
        }
        Err(FormatError::ChunkNotFound)
    }

    /// The container's deterministic wire encoding.
    pub fn as_bytes(&self) -> (r: Vec<u8>)
        ensures
            r@ == spec_png_bytes(self@),
    {
        let mut out: Vec<u8> = Vec::new();
        let sig = signature();
        push_bytes(&mut out, sig.as_slice());
        let n = self.chunks.len();
        let mut i: usize = 0;
        while i < n
            invariant
                i <= n,
                n == self.chunks@.len(),
                out@ == spec_signature() + spec_chunks_bytes(self@.take(i as int)),
            decreases n - i,
        {
            let c = slice_index_get(self.chunks.as_slice(), i);
            let cb = c.as_bytes();
            push_bytes(&mut out, cb.as_slice());
            proof {
                assert(self@.take(i as int + 1) =~= self@.take(i as int).push(self@[i as int]));
                lemma_chunks_bytes_push(self@.take(i as int), self@[i as int]);
                assert(out@ =~= spec_signature() + spec_chunks_bytes(self@.take(i as int + 1)));
            }
            i = i + 1;
        }
        proof {
            assert(self@.take(n as int) =~= self@);
        }
        out
    }

    /// Reads a container from bytes: the leading 8 bytes must equal the
    /// signature, then chunks are read until the buffer is exhausted.
    /// Any chunk-level failure aborts the whole parse.
    pub fn parse(bytes: &[u8]) -> (r: Result<Png, FormatError>)
        ensures
            match r {
                Ok(p) => p.wf() && spec_parse_png(bytes@) == Ok::<Seq<ChunkModel>, FormatError>(p@),
                Err(e) => spec_parse_png(bytes@) == Err::<Seq<ChunkModel>, FormatError>(e),
            },
    {
        let n = bytes.len();
        if n < 8 {
            return Err(FormatError::BadSignature);
        }
        let sig = signature();
        let sigs = sig.as_slice();
        let mut k: usize = 0;
        while k < 8
            invariant
                k <= 8,
                n == bytes@.len(),
                n >= 8,
                sigs@ == spec_signature(),
                forall|j: int| 0 <= j < k ==> bytes@[j] == spec_signature()[j],
            decreases 8 - k,
        {
            if *slice_index_get(bytes, k) != *slice_index_get(sigs, k) {
                proof {
                    assert(bytes@.subrange(0, 8)[k as int] != spec_signature()[k as int]);
                }
                return Err(FormatError::BadSignature);
            }
            k = k + 1;
        }
        proof {
            assert(bytes@.subrange(0, 8) =~= spec_signature());
        }
        let mut chunks: Vec<Chunk> = Vec::new();
        let mut off: usize = 8;
        proof {
            if spec_parse_chunks(bytes@.skip(8)) is Ok {
                let rest = spec_parse_chunks(bytes@.skip(8))->Ok_0;
                assert(chunk_views(chunks@) + rest =~= rest);
            }
        }
        while off < n
            invariant
                8 <= off <= n,
                n == bytes@.len(),
                bytes@.subrange(0, 8) == spec_signature(),
                forall|i: int| 0 <= i < chunks@.len() ==> (#[trigger] chunks@[i])@.wf(),
                spec_parse_chunks(bytes@.skip(8)) == (match spec_parse_chunks(
                    bytes@.skip(off as int),
                ) {
                    Ok(rest) => Ok::<Seq<ChunkModel>, FormatError>(chunk_views(chunks@) + rest),
                    Err(e) => Err::<Seq<ChunkModel>, FormatError>(e),
                }),
            decreases n - off,
        {
            match parse_chunk_prefix(bytes, off) {
                Ok(step) => {
                    let (c, next) = step;
                    proof {
                        lemma_parse_chunks_step(bytes@.skip(off as int));
                        assert(bytes@.skip(off as int).skip(next - off) =~= bytes@.skip(
                            next as int,
                        ));
                        if spec_parse_chunks(bytes@.skip(next as int)) is Ok {
                            let rest = spec_parse_chunks(bytes@.skip(next as int))->Ok_0;
                            assert(chunk_views(chunks@.push(c)) + rest =~= chunk_views(chunks@) + (
                            seq![c@] + rest));
                        }
                    }
                    chunks.push(c);
                    off = next;
                    proof {
                        assert forall|i: int| 0 <= i < chunks@.len() implies (#[trigger] chunks@[i])@.wf() by {
                            if i == chunks@.len() - 1 {
                                assert(chunks@[i] == c);
                            }
                        }
                    }
                },
                Err(e) => {
                    proof {
                        lemma_parse_chunks_step(bytes@.skip(off as int));
                    }
                    return Err(e);
                },
            }
        }
        let p = Png { chunks };
        proof {
            assert(bytes@.skip(off as int).len() == 0);
            assert(spec_parse_chunks(bytes@.skip(off as int)) == Ok::<Seq<ChunkModel>, FormatError>(
                Seq::empty(),
            ));
            assert(chunk_views(p.chunks@) + Seq::<ChunkModel>::empty() =~= p@);
        }
        Ok(p)
    }
}

/// One more chunk extends the concatenated encoding by that chunk's
/// bytes.
pub proof fn lemma_chunks_bytes_push(s: Seq<ChunkModel>, m: ChunkModel)
    ensures
        spec_chunks_bytes(s.push(m)) == spec_chunks_bytes(s) + spec_chunk_bytes(m),
    decreases s.len(),
{
    reveal_with_fuel(spec_chunks_bytes, 3);
    if s.len() == 0 {
        assert(s.push(m).drop_first() =~= Seq::<ChunkModel>::empty());
        assert(spec_chunks_bytes(s.push(m)) =~= spec_chunks_bytes(s) + spec_chunk_bytes(m));
    } else {
        lemma_chunks_bytes_push(s.drop_first(), m);
        assert(s.push(m).drop_first() =~= s.drop_first().push(m));
        assert(s.push(m)[0] == s[0]);
        assert((spec_chunk_bytes(s[0]) + spec_chunks_bytes(s.drop_first())) + spec_chunk_bytes(m)
            =~= spec_chunk_bytes(s[0]) + (spec_chunks_bytes(s.drop_first()) + spec_chunk_bytes(
            m,
        )));
    }
}

/// Round trip: the concatenated encodings of well-formed chunks parse
/// back to the same chunks in the same order.
#[verifier::spinoff_prover]
#[verifier::rlimit(100)]
pub proof fn lemma_chunks_round_trip(s: Seq<ChunkModel>)
    requires
        forall|i: int| 0 <= i < s.len() ==> (#[trigger] s[i]).wf(),
    ensures
        spec_parse_chunks(spec_chunks_bytes(s)) == Ok::<Seq<ChunkModel>, FormatError>(s),
    decreases s.len(),
{
    if s.len() == 0 {
        assert(s =~= Seq::<ChunkModel>::empty());
        assert(spec_chunks_bytes(s).len() == 0);
    } else {
        let m = s[0];
        let rest = spec_chunks_bytes(s.drop_first());
        let b = spec_chunk_bytes(m) + rest;
        assert(spec_chunks_bytes(s) == b);
        lemma_parse_chunk_at_of_encoding(m, rest);
        let n0 = spec_chunk_bytes(m).len() as int;
        assert(spec_parse_chunk_at(b) == Ok::<(ChunkModel, int), FormatError>((m, n0)));
        assert(b.len() > 0);
        lemma_parse_chunks_step(b);
        assert(b.skip(n0) =~= rest);
        assert forall|i: int|
            0 <= i < s.drop_first().len() implies (#[trigger] s.drop_first()[i]).wf() by {
            assert(s.drop_first()[i] == s[i + 1]);
        }
        lemma_chunks_round_trip(s.drop_first());
        assert(spec_parse_chunks(b.skip(n0)) == Ok::<Seq<ChunkModel>, FormatError>(
            s.drop_first(),
        ));
        assert(spec_parse_chunks(b) == Ok::<Seq<ChunkModel>, FormatError>(
            seq![m] + s.drop_first(),
        ));
        assert(seq![m] + s.drop_first() =~= s);
    }
}

/// Round trip: a well-formed container's encoding parses back to the
/// same chunk sequence in the same order.
pub proof fn lemma_png_round_trip(s: Seq<ChunkModel>)
    requires
        forall|i: int| 0 <= i < s.len() ==> (#[trigger] s[i]).wf(),
    ensures
        spec_parse_png(spec_png_bytes(s)) == Ok::<Seq<ChunkModel>, FormatError>(s),
{
    let b = spec_png_bytes(s);
    assert(b.subrange(0, 8) =~= spec_signature());
    assert(b.skip(8) =~= spec_chunks_bytes(s));
    lemma_chunks_round_trip(s);
}

/// Append then remove-by-type are inverse on the first occurrence: with
/// no chunk of the type present, removing the type right after appending
/// a chunk of it gives back that chunk and the untouched sequence.
pub proof fn lemma_append_then_remove(s: Seq<ChunkModel>, m: ChunkModel, t: Seq<char>)
    requires
        forall|j: int| 0 <= j < s.len() ==> !chunk_matches(#[trigger] s[j], t),
        chunk_matches(m, t),
    ensures
        spec_first_match(s.push(m), t) == s.len(),
        s.push(m)[spec_first_match(s.push(m), t)] == m,
        s.push(m).remove(spec_first_match(s.push(m), t)) == s,
{
    assert forall|j: int| 0 <= j < s.len() implies !chunk_matches(#[trigger] s.push(m)[j], t) by {
        assert(s.push(m)[j] == s[j]);
    }
    lemma_first_match_unique(s.push(m), t, s.len() as int);
    assert(s.push(m).remove(s.len() as int) =~= s);
}

} // verus!
