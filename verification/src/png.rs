//! The container: a fixed signature followed by chunks, back to back.

use vstd::prelude::*;
use vstd::slice::slice_subrange;
use vstd::std_specs::convert::TryFromSpecImpl;
use vstd::string::StringExecFns;
use vstd::utf8::{decode_utf8, encode_utf8, valid_utf8};
use crate::chunk::{decode_chunk, Chunk, ChunkError, ChunkView, FRAME_LEN};
use crate::png_laws::{
    after, lemma_after_push, lemma_decode_chunks_cons, lemma_empty, lemma_encode_chunks_push,
    lemma_first_match_step, lemma_png_decode_encode, lemma_png_encode_decode, lemma_skip_skip,
};
use crate::text::{decimal, push_bytes, push_decimal, render_bytes, utf8_lossy};

verus! {

/// The eight bytes that every container starts with.
pub const STANDARD_HEADER: [u8; 8] = [137, 80, 78, 71, 13, 10, 26, 10];

/// Why bytes are not a container, or why a container has no chunk to give.
#[derive(Debug, PartialEq, Eq, Structural, Clone, Copy)]
pub enum PngError {
    /// The first eight bytes are not the signature.
    InvalidSignature,
    /// What follows the signature is not a run of chunks, or fewer than eight bytes
    /// were given.
    Chunk(ChunkError),
    /// No chunk has the type asked for.
    ChunkNotFound,
}

/// The signature as a sequence.
pub open spec fn signature() -> Seq<u8> {
    STANDARD_HEADER@
}

/// Every chunk is well formed.
pub open spec fn all_wf(chunks: Seq<ChunkView>) -> bool {
    forall|i: int| 0 <= i < chunks.len() ==> (#[trigger] chunks[i]).wf()
}

/// The records of `chunks`, one after the other.
pub open spec fn encode_chunks(chunks: Seq<ChunkView>) -> Seq<u8>
    decreases chunks.len(),
{
    if chunks.len() == 0 {
        Seq::empty()
    } else {
        chunks.first().encode() + encode_chunks(chunks.drop_first())
    }
}

/// The container on the wire: the signature, then the records.
pub open spec fn encode_png(chunks: Seq<ChunkView>) -> Seq<u8> {
    signature() + encode_chunks(chunks)
}

/// The chunks that `bytes` consist of, or the error of the first record that is none.
pub open spec fn decode_chunks(bytes: Seq<u8>) -> Result<Seq<ChunkView>, ChunkError>
    decreases bytes.len(),
{
    if bytes.len() == 0 {
        Ok(Seq::empty())
    } else {
        match decode_chunk(bytes) {
            Err(e) => Err(e),
            Ok(first) => match decode_chunks(bytes.skip(FRAME_LEN + first.data.len())) {
                Err(e) => Err(e),
                Ok(rest) => Ok(seq![first] + rest),
            },
        }
    }
}

/// The chunks of the container that `bytes` are, or why they are none.
pub open spec fn decode_png(bytes: Seq<u8>) -> Result<Seq<ChunkView>, PngError> {
    if bytes.len() < 8 {
        Err(PngError::Chunk(ChunkError::InvalidLength(8)))
    } else if bytes.subrange(0, 8) != signature() {
        Err(PngError::InvalidSignature)
    } else {
        match decode_chunks(bytes.skip(8)) {
            Err(e) => Err(PngError::Chunk(e)),
            Ok(chunks) => Ok(chunks),
        }
    }
}

/// A type code matches a text when its bytes are the text's UTF-8 encoding: for a code
/// of four ASCII characters, when the text is those four characters.
pub open spec fn type_matches(code: Seq<u8>, text: Seq<char>) -> bool {
    code == encode_utf8(text)
}

/// The index of the first chunk whose type code matches `text`, or the number of
/// chunks if there is none.
pub open spec fn first_match(chunks: Seq<ChunkView>, text: Seq<char>) -> int
    decreases chunks.len(),
{
    if chunks.len() == 0 {
        0
    } else if type_matches(chunks.first().chunk_type, text) {
        0
    } else {
        1 + first_match(chunks.drop_first(), text)
    }
}

/// A chunk in a listing: `(length, type, payload, checksum)`, with the payload as text
/// where it is valid UTF-8 and as a list of bytes where it is not.
pub open spec fn render_entry(chunk: ChunkView) -> Seq<char> {
    "("@ + decimal(chunk.length() as nat) + ", "@ + utf8_lossy(chunk.chunk_type) + ", "@ + (if valid_utf8(
        chunk.data,
    ) {
        decode_utf8(chunk.data)
    } else {
        render_bytes(chunk.data)
    }) + ", "@ + decimal(chunk.crc() as nat) + ")"@
}

/// The entries of a listing: one indented line for each chunk, in order.
pub open spec fn render_entries(chunks: Seq<ChunkView>) -> Seq<char>
    decreases chunks.len(),
{
    if chunks.len() == 0 {
        Seq::empty()
    } else {
        render_entries(chunks.drop_last()) + "  "@ + render_entry(chunks.last()) + "\n"@
    }
}

/// The listing of a container.
pub open spec fn render_png(chunks: Seq<ChunkView>) -> Seq<char> {
    "Png {\n"@ + render_entries(chunks) + "}"@
}

/// A container: its chunks, in the order in which they stand on the wire.
#[derive(Debug)]
pub struct Png {
    chunks: Vec<Chunk>,
}

impl View for Png {
    type V = Seq<ChunkView>;

    closed spec fn view(&self) -> Seq<ChunkView> {
        self.chunks@.map_values(|chunk: Chunk| chunk@)
    }
}

fn has_signature(bytes: &[u8]) -> (yes: bool)
    requires
        bytes@.len() >= 8,
    ensures
        yes == (bytes@.subrange(0, 8) == signature()),
{
    let mut i: usize = 0;
    while i < 8
        invariant
            i <= 8,
            bytes@.len() >= 8,
            forall|j: int| 0 <= j < i ==> bytes@[j] == signature()[j],
        decreases 8 - i,
    {
        if bytes[i] != STANDARD_HEADER[i] {
            assert(bytes@.subrange(0, 8)[i as int] != signature()[i as int]);
            return false;
        }
        i += 1;
    }
    assert(bytes@.subrange(0, 8) =~= signature());
    true
}

fn type_is(chunk: &Chunk, text: &[u8]) -> (yes: bool)
    ensures
        yes == (chunk@.chunk_type == text@),
{
    let code = chunk.chunk_type().bytes();
    let yes = text.len() == 4 && text[0] == code[0] && text[1] == code[1] && text[2] == code[2]
        && text[3] == code[3];
    proof {
        if yes {
            assert(chunk@.chunk_type =~= text@);
        }
    }
    yes
}

fn push_entry(out: &mut String, chunk: &Chunk)
    ensures
        final(out)@ == old(out)@ + render_entry(chunk@),
{
    out.append("(");
    push_decimal(out, chunk.length() as u64);
    out.append(", ");
    out.append(chunk.chunk_type().to_string().as_str());
    out.append(", ");
    match chunk.data_as_string() {
        Ok(payload) => {
            out.append(payload.as_str());
        },
        Err(_) => {
            push_bytes(out, chunk.data());
        },
    }
    out.append(", ");
    push_decimal(out, chunk.crc() as u64);
    out.append(")");
    assert(out@ =~= old(out)@ + render_entry(chunk@));
}

impl Png {
    /// A container of the given chunks, in their order.
    pub fn from_chunks(chunks: Vec<Chunk>) -> (png: Png)
        ensures
            png@ == chunks@.map_values(|chunk: Chunk| chunk@),
    {
        Png { chunks }
    }

    /// Adds a chunk after all others.
    pub fn append_chunk(&mut self, chunk: Chunk)
        ensures
            final(self)@ == old(self)@.push(chunk@),
    {
        self.chunks.push(chunk);
        assert(self@ =~= old(self)@.push(chunk@));
    }

    /// The chunks, in order.
    pub fn chunks(&self) -> (chunks: &[Chunk])
        ensures
            chunks@.map_values(|chunk: Chunk| chunk@) == self@,
    {
        self.chunks.as_slice()
    }

    /// The first chunk whose type code matches `chunk_type`, if there is one.
    pub fn chunk_by_type(&self, chunk_type: &str) -> (found: Option<&Chunk>)
        ensures
            match found {
                Some(chunk) => first_match(self@, chunk_type@) < self@.len() && chunk@
                    == self@[first_match(self@, chunk_type@)],
                None => first_match(self@, chunk_type@) == self@.len(),
            },
    {
        let text = chunk_type.as_bytes();
        let mut i: usize = 0;
        assert(self@.skip(0) =~= self@);
        while i < self.chunks.len()
            invariant
                i <= self.chunks@.len(),
                text@ == encode_utf8(chunk_type@),
                first_match(self@, chunk_type@) == i + first_match(self@.skip(i as int), chunk_type@),
            decreases self.chunks@.len() - i,
        {
            let chunk = &self.chunks[i];
            proof {
                lemma_first_match_step(self@, chunk_type@, i as int);
            }
            if type_is(chunk, text) {
                return Some(chunk);
            }
            i += 1;
        }
        None
    }

    /// Takes out the first chunk whose type code matches `chunk_type` and returns it;
    /// the chunks after it move up, in their order. With no such chunk the container is
    /// left as it is and the error is `ChunkNotFound`.
    pub fn remove_first_chunk(&mut self, chunk_type: &str) -> (removed: Result<Chunk, PngError>)
        ensures
            match removed {
                Ok(chunk) => {
                    &&& first_match(old(self)@, chunk_type@) < old(self)@.len()
                    &&& chunk@ == old(self)@[first_match(old(self)@, chunk_type@)]
                    &&& final(self)@ == old(self)@.remove(first_match(old(self)@, chunk_type@))
                },
                Err(e) => {
                    &&& e == PngError::ChunkNotFound
                    &&& first_match(old(self)@, chunk_type@) == old(self)@.len()
                    &&& final(self)@ == old(self)@
                },
            },
    {
        let text = chunk_type.as_bytes();
        let mut i: usize = 0;
        assert(self@.skip(0) =~= self@);
        while i < self.chunks.len()
            invariant
                *self == *old(self),
                i <= self.chunks@.len(),
                text@ == encode_utf8(chunk_type@),
                first_match(self@, chunk_type@) == i + first_match(self@.skip(i as int), chunk_type@),
            decreases self.chunks@.len() - i,
        {
            proof {
                lemma_first_match_step(self@, chunk_type@, i as int);
            }
            if type_is(&self.chunks[i], text) {
                let chunk = self.chunks.remove(i);
                assert(self@ =~= old(self)@.remove(i as int));
                return Ok(chunk);
            }
            i += 1;
        }
        Err(PngError::ChunkNotFound)
    }

    /// The listing of the container: a line for each chunk, in order, between `Png {`
    /// and `}`.
    pub fn to_string(&self) -> (text: String)
        ensures
            text@ == render_png(self@),
    {
        let mut text = String::new();
        text.append("Png {\n");
        let mut i: usize = 0;
        assert(self@.take(0) =~= Seq::<ChunkView>::empty());
        while i < self.chunks.len()
            invariant
                i <= self.chunks@.len(),
                text@ == "Png {\n"@ + render_entries(self@.take(i as int)),
            decreases self.chunks@.len() - i,
        {
            text.append("  ");
            push_entry(&mut text, &self.chunks[i]);
            text.append("\n");
            proof {
                let now = self@.take(i + 1);
                assert(now.drop_last() =~= self@.take(i as int));
                assert(now.last() == self@[i as int]);
                assert(text@ =~= "Png {\n"@ + render_entries(now));
            }
            i += 1;
        }
        assert(self@.take(i as int) =~= self@);
        text.append("}");
        text
    }

    /// The container on the wire: the signature, then every chunk's record, in order.
    /// These bytes decode to this container again.
    pub fn as_bytes(&self) -> (bytes: Vec<u8>)
        ensures
            bytes@ == encode_png(self@),
            decode_png(bytes@) == Ok::<Seq<ChunkView>, PngError>(self@),
    {
        let mut bytes: Vec<u8> = Vec::new();
        bytes.extend_from_slice(STANDARD_HEADER.as_slice());
        assert(bytes@ =~= signature());
        let mut i: usize = 0;
        while i < self.chunks.len()
            invariant
                i <= self.chunks@.len(),
                bytes@ == signature() + encode_chunks(self@.take(i as int)),
                all_wf(self@.take(i as int)),
            decreases self.chunks@.len() - i,
        {
            let chunk = &self.chunks[i];
            let record = chunk.as_bytes();
            bytes.extend_from_slice(record.as_slice());
            proof {
                use_type_invariant(chunk);
                chunk.lemma_consistent();
                lemma_encode_chunks_push(self@.take(i as int), self@[i as int]);
                assert(self@.take(i + 1) =~= self@.take(i as int).push(self@[i as int]));
                assert(bytes@ =~= signature() + encode_chunks(self@.take(i + 1)));
            }
            i += 1;
        }
        proof {
            assert(self@.take(i as int) =~= self@);
            lemma_png_decode_encode(self@);
        }
        bytes
    }
}

impl<'a> TryFrom<&'a [u8]> for Png {
    type Error = PngError;

    /// Reads a container: the signature, then chunks until the bytes end.
    ///
    /// Fewer than eight bytes are an `InvalidLength`, eight other bytes at the start an
    /// `InvalidSignature`, and anything after the signature that is no chunk fails with
    /// that chunk's error.
    fn try_from(bytes: &'a [u8]) -> (decoded: Result<Png, PngError>)
        ensures
            match decoded {
                Ok(png) => decode_png(bytes@) == Ok::<Seq<ChunkView>, PngError>(png@) && all_wf(
                    png@,
                ) && encode_png(png@) == bytes@,
                Err(e) => decode_png(bytes@) == Err::<Seq<ChunkView>, PngError>(e),
            },
    {
        if bytes.len() < 8 {
            return Err(PngError::Chunk(ChunkError::InvalidLength(8)));
        }
        if !has_signature(bytes) {
            return Err(PngError::InvalidSignature);
        }
        let mut chunks: Vec<Chunk> = Vec::new();
        let mut cursor: usize = 8;
        assert(bytes@.skip(8) =~= bytes@.skip(cursor as int));
        while cursor < bytes.len()
            invariant
                8 <= cursor <= bytes@.len(),
                bytes@.subrange(0, 8) == signature(),
                decode_chunks(bytes@.skip(8)) == after(
                    chunks@.map_values(|chunk: Chunk| chunk@),
                    decode_chunks(bytes@.skip(cursor as int)),
                ),
            decreases bytes@.len() - cursor,
        {
            let rest = slice_subrange(bytes, cursor, bytes.len());
            assert(rest@ =~= bytes@.skip(cursor as int));
            match Chunk::try_from(rest) {
                Err(e) => {
                    assert(decode_chunks(rest@) == Err::<Seq<ChunkView>, ChunkError>(e));
                    return Err(PngError::Chunk(e));
                },
                Ok(chunk) => {
                    let ghost before = chunks@.map_values(|chunk: Chunk| chunk@);
                    let ghost used = FRAME_LEN + chunk@.data.len();
                    proof {
                        lemma_skip_skip(bytes@, cursor as int, used);
                        lemma_decode_chunks_cons(rest@, chunk@, decode_chunks(rest@.skip(used)));
                        lemma_after_push(before, chunk@, decode_chunks(rest@.skip(used)));
                    }
                    cursor = cursor + 12 + chunk.length() as usize;
                    chunks.push(chunk);
                    assert(chunks@.map_values(|chunk: Chunk| chunk@) =~= before.push(chunk@));
                },
            }
        }
        proof {
            let all = chunks@.map_values(|chunk: Chunk| chunk@);
            lemma_empty(all, bytes@.skip(cursor as int));
            assert(all + Seq::<ChunkView>::empty() =~= all);
            lemma_png_encode_decode(bytes@);
        }
        Ok(Png { chunks })
    }
}

/// The conversion is specified by the `ensures` of `try_from`, over views: no
/// specification function can name the `Vec` that a container holds.
impl<'a> TryFromSpecImpl<&'a [u8]> for Png {
    open spec fn obeys_try_from_spec() -> bool {
        false
    }

    open spec fn try_from_spec(bytes: &'a [u8]) -> Result<Png, PngError> {
        arbitrary()
    }
}

} // verus!
