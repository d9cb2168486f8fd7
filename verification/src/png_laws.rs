//! What holds of the container's functions together: decoding and encoding undo each
//! other, and the first match is the first.

use vstd::prelude::*;
use vstd::utf8::{encode_utf8, is_ascii_chars, is_ascii_chars_encode_utf8};
use crate::chunk::{
    decode_chunk, lemma_decode_encode, lemma_encode_decode, ChunkError, ChunkView, FRAME_LEN,
};
use crate::chunk_type::parse_chunk_type;
use crate::png::{
    all_wf, decode_chunks, decode_png, encode_chunks, encode_png, first_match, signature,
    type_matches, PngError,
};

verus! {

/// Well-formed chunks decode from their own records.
pub proof fn lemma_chunks_decode_encode(chunks: Seq<ChunkView>)
    requires
        all_wf(chunks),
    ensures
        decode_chunks(encode_chunks(chunks)) == Ok::<Seq<ChunkView>, ChunkError>(chunks),
    decreases chunks.len(),
{
    if chunks.len() == 0 {
        lemma_empty(chunks, encode_chunks(chunks));
    } else {
        lemma_all_wf_rest(chunks);
        lemma_chunks_decode_encode(chunks.drop_first());
        lemma_encode_chunks_first(chunks);
        lemma_decode_record_and_rest(
            chunks.first(),
            encode_chunks(chunks.drop_first()),
            chunks.drop_first(),
        );
        lemma_first_and_rest(chunks);
    }
}

/// Bytes that decode to chunks are exactly the records of those chunks, and the chunks
/// are well formed.
pub proof fn lemma_chunks_encode_decode(bytes: Seq<u8>)
    requires
        decode_chunks(bytes) is Ok,
    ensures
        all_wf(decode_chunks(bytes)->Ok_0),
        encode_chunks(decode_chunks(bytes)->Ok_0) == bytes,
    decreases bytes.len(),
{
    if bytes.len() == 0 {
        lemma_empty(decode_chunks(bytes)->Ok_0, bytes);
    } else {
        lemma_decode_chunks_step(bytes);
        let first = decode_chunk(bytes)->Ok_0;
        let used = FRAME_LEN + first.data.len();
        let tail = decode_chunks(bytes.skip(used))->Ok_0;
        lemma_encode_decode(bytes);
        lemma_chunks_encode_decode(bytes.skip(used));
        lemma_encode_chunks_cons(first, tail);
        lemma_all_wf_cons(first, tail);
        lemma_split_join(bytes, used);
    }
}

/// A container of well-formed chunks decodes from its own bytes.
pub proof fn lemma_png_decode_encode(chunks: Seq<ChunkView>)
    requires
        all_wf(chunks),
    ensures
        decode_png(encode_png(chunks)) == Ok::<Seq<ChunkView>, PngError>(chunks),
{
    lemma_chunks_decode_encode(chunks);
    lemma_skip_prefix(signature(), encode_chunks(chunks));
}

/// Bytes that decode to a container are exactly what that container encodes to.
pub proof fn lemma_png_encode_decode(bytes: Seq<u8>)
    requires
        decode_png(bytes) is Ok,
    ensures
        all_wf(decode_png(bytes)->Ok_0),
        encode_png(decode_png(bytes)->Ok_0) == bytes,
{
    lemma_chunks_encode_decode(bytes.skip(8));
    lemma_split_join(bytes, 8);
}

/// Decoding, encoding, decoding again and encoding again gives what the first
/// encoding gave.
pub proof fn lemma_reencode_idempotent(bytes: Seq<u8>)
    requires
        decode_png(bytes) is Ok,
    ensures
        decode_png(encode_png(decode_png(bytes)->Ok_0)) is Ok,
        encode_png(decode_png(encode_png(decode_png(bytes)->Ok_0))->Ok_0) == encode_png(
            decode_png(bytes)->Ok_0,
        ),
{
    lemma_png_encode_decode(bytes);
    lemma_png_decode_encode(decode_png(bytes)->Ok_0);
}

/// Encoding one more chunk appends its record.
pub proof fn lemma_encode_chunks_push(chunks: Seq<ChunkView>, last: ChunkView)
    ensures
        encode_chunks(chunks.push(last)) == encode_chunks(chunks) + last.encode(),
    decreases chunks.len(),
{
    let longer = chunks.push(last);
    if chunks.len() == 0 {
        assert(longer.first() == last);
        assert(longer.drop_first() =~= Seq::<ChunkView>::empty());
        assert(encode_chunks(longer.drop_first()) =~= Seq::<u8>::empty());
        assert(encode_chunks(chunks) =~= Seq::<u8>::empty());
        assert(encode_chunks(longer) =~= encode_chunks(chunks) + last.encode());
    } else {
        lemma_encode_chunks_push(chunks.drop_first(), last);
        assert(longer.first() == chunks.first());
        assert(longer.drop_first() =~= chunks.drop_first().push(last));
        assert(encode_chunks(longer) =~= encode_chunks(chunks) + last.encode());
    }
}

/// The first match is the least index whose chunk matches: it is within the container
/// or just past it, no chunk before it matches, and the chunk at it does, if there is
/// one.
pub proof fn lemma_first_match(chunks: Seq<ChunkView>, text: Seq<char>)
    ensures
        0 <= first_match(chunks, text) <= chunks.len(),
        first_match(chunks, text) < chunks.len() ==> type_matches(
            chunks[first_match(chunks, text)].chunk_type,
            text,
        ),
        forall|j: int|
            0 <= j < first_match(chunks, text) ==> !type_matches(
                (#[trigger] chunks[j]).chunk_type,
                text,
            ),
    decreases chunks.len(),
{
    if chunks.len() > 0 && !type_matches(chunks.first().chunk_type, text) {
        let tail = chunks.drop_first();
        lemma_first_match(tail, text);
        assert forall|j: int| 0 <= j < first_match(chunks, text) implies !type_matches(
            (#[trigger] chunks[j]).chunk_type,
            text,
        ) by {
            if j > 0 {
                assert(chunks[j] == tail[j - 1]);
            }
        }
    }
}

/// The first match is the one index whose chunk matches while none before it does.
pub proof fn lemma_first_match_unique(chunks: Seq<ChunkView>, text: Seq<char>, at: int)
    requires
        0 <= at < chunks.len(),
        type_matches(chunks[at].chunk_type, text),
        forall|j: int| 0 <= j < at ==> !type_matches((#[trigger] chunks[j]).chunk_type, text),
    ensures
        first_match(chunks, text) == at,
{
    lemma_first_match(chunks, text);
}

/// No chunk matches exactly when the first match lies past the last chunk.
pub proof fn lemma_first_match_absent(chunks: Seq<ChunkView>, text: Seq<char>)
    ensures
        first_match(chunks, text) == chunks.len() <==> forall|j: int|
            0 <= j < chunks.len() ==> !type_matches((#[trigger] chunks[j]).chunk_type, text),
{
    lemma_first_match(chunks, text);
}

/// A type code parsed from a text matches that text, so a chunk made with the code is
/// found by the text.
pub proof fn lemma_parsed_type_matches(text: Seq<char>)
    requires
        parse_chunk_type(text) is Ok,
    ensures
        type_matches(parse_chunk_type(text)->Ok_0, text),
{
    assert(is_ascii_chars(text));
    is_ascii_chars_encode_utf8(text);
    assert(parse_chunk_type(text)->Ok_0 =~= encode_utf8(text));
}

/// Taking out the first match leaves every other chunk in, in the order they had:
/// those before it keep their index, those after it move up by one.
pub proof fn lemma_remove_keeps_order(chunks: Seq<ChunkView>, text: Seq<char>)
    requires
        first_match(chunks, text) < chunks.len(),
    ensures
        chunks.remove(first_match(chunks, text)).len() == chunks.len() - 1,
        forall|j: int|
            0 <= j < first_match(chunks, text) ==> #[trigger] chunks.remove(
                first_match(chunks, text),
            )[j] == chunks[j],
        forall|j: int|
            first_match(chunks, text) <= j < chunks.len() - 1 ==> #[trigger] chunks.remove(
                first_match(chunks, text),
            )[j] == chunks[j + 1],
{
    lemma_first_match(chunks, text);
}

/// Of two chunks of one type appended one after the other, taking out the first match
/// never takes the later one: it stays, in last place. Where no chunk before the two
/// matches, it is the earlier of the two that leaves.
pub proof fn lemma_remove_takes_earlier(
    chunks: Seq<ChunkView>,
    earlier: ChunkView,
    later: ChunkView,
    text: Seq<char>,
)
    requires
        type_matches(earlier.chunk_type, text),
        type_matches(later.chunk_type, text),
    ensures
        first_match(chunks.push(earlier).push(later), text) <= chunks.len(),
        chunks.push(earlier).push(later).remove(
            first_match(chunks.push(earlier).push(later), text),
        ).last() == later,
        first_match(chunks, text) == chunks.len() ==> chunks.push(earlier).push(later).remove(
            first_match(chunks.push(earlier).push(later), text),
        ) == chunks.push(later),
{
    let all = chunks.push(earlier).push(later);
    lemma_first_match(all, text);
    lemma_first_match(chunks, text);
    let at = first_match(all, text);
    assert(all[chunks.len() as int] == earlier);
    if at > chunks.len() {
        assert(!type_matches(all[chunks.len() as int].chunk_type, text));
    }
    if first_match(chunks, text) == chunks.len() {
        assert forall|j: int| 0 <= j < chunks.len() implies !type_matches(
            (#[trigger] all[j]).chunk_type,
            text,
        ) by {
            assert(all[j] == chunks[j]);
        }
        lemma_first_match_unique(all, text, chunks.len() as int);
        assert(all.remove(at) =~= chunks.push(later));
    }
}

/// `outcome` with `prefix` put before the chunks of its success.
pub(crate) open spec fn after(prefix: Seq<ChunkView>, outcome: Result<Seq<ChunkView>, ChunkError>) -> Result<
    Seq<ChunkView>,
    ChunkError,
> {
    match outcome {
        Err(e) => Err(e),
        Ok(rest) => Ok(prefix + rest),
    }
}

/// Where the first match lies, counted from any index before it.
pub(crate) proof fn lemma_first_match_step(chunks: Seq<ChunkView>, text: Seq<char>, i: int)
    requires
        0 <= i < chunks.len(),
        first_match(chunks, text) == i + first_match(chunks.skip(i), text),
    ensures
        type_matches(chunks[i].chunk_type, text) ==> first_match(chunks, text) == i,
        !type_matches(chunks[i].chunk_type, text) ==> first_match(chunks, text) == i + 1
            + first_match(chunks.skip(i + 1), text),
{
    assert(chunks.skip(i).first() == chunks[i]);
    assert(chunks.skip(i).drop_first() =~= chunks.skip(i + 1));
}

/// One step of `decode_chunks` on bytes that decode.
proof fn lemma_decode_chunks_step(bytes: Seq<u8>)
    requires
        bytes.len() > 0,
        decode_chunks(bytes) is Ok,
    ensures
        decode_chunk(bytes) is Ok,
        decode_chunks(bytes.skip(FRAME_LEN + decode_chunk(bytes)->Ok_0.data.len())) is Ok,
        decode_chunks(bytes)->Ok_0 == seq![decode_chunk(bytes)->Ok_0] + decode_chunks(
            bytes.skip(FRAME_LEN + decode_chunk(bytes)->Ok_0.data.len()),
        )->Ok_0,
{
}

/// One step of `decode_chunks` from a chunk and what the bytes after it decode to.
pub(crate) proof fn lemma_decode_chunks_cons(
    bytes: Seq<u8>,
    first: ChunkView,
    outcome: Result<Seq<ChunkView>, ChunkError>,
)
    requires
        bytes.len() > 0,
        decode_chunk(bytes) == Ok::<ChunkView, ChunkError>(first),
        decode_chunks(bytes.skip(FRAME_LEN + first.data.len())) == outcome,
    ensures
        decode_chunks(bytes) == after(seq![first], outcome),
{
}

/// A record before bytes that decode to chunks decodes to its chunk before those chunks.
proof fn lemma_decode_record_and_rest(first: ChunkView, rest: Seq<u8>, tail: Seq<ChunkView>)
    requires
        first.wf(),
        decode_chunks(rest) == Ok::<Seq<ChunkView>, ChunkError>(tail),
    ensures
        decode_chunks(first.encode() + rest) == Ok::<Seq<ChunkView>, ChunkError>(
            seq![first] + tail,
        ),
{
    lemma_decode_encode(first, rest);
    lemma_skip_prefix(first.encode(), rest);
    lemma_decode_chunks_cons(first.encode() + rest, first, Ok(tail));
}

/// Putting chunks before an outcome, one more chunk at a time.
pub(crate) proof fn lemma_after_push(
    before: Seq<ChunkView>,
    chunk: ChunkView,
    outcome: Result<Seq<ChunkView>, ChunkError>,
)
    ensures
        after(before, after(seq![chunk], outcome)) == after(before.push(chunk), outcome),
{
    if outcome is Ok {
        assert(before + (seq![chunk] + outcome->Ok_0) =~= before.push(chunk) + outcome->Ok_0);
    }
}

/// The records of chunks are the record of the first followed by the records of the
/// others.
proof fn lemma_encode_chunks_first(chunks: Seq<ChunkView>)
    requires
        chunks.len() > 0,
    ensures
        encode_chunks(chunks) == chunks.first().encode() + encode_chunks(chunks.drop_first()),
{
}

/// The records of a chunk followed by others.
proof fn lemma_encode_chunks_cons(first: ChunkView, tail: Seq<ChunkView>)
    ensures
        encode_chunks(seq![first] + tail) == first.encode() + encode_chunks(tail),
{
    let chunks = seq![first] + tail;
    assert(chunks.first() == first);
    assert(chunks.drop_first() =~= tail);
}

/// The chunks after the first of well-formed chunks are well formed.
proof fn lemma_all_wf_rest(chunks: Seq<ChunkView>)
    requires
        chunks.len() > 0,
        all_wf(chunks),
    ensures
        chunks.first().wf(),
        all_wf(chunks.drop_first()),
{
    let tail = chunks.drop_first();
    assert forall|i: int| 0 <= i < tail.len() implies (#[trigger] tail[i]).wf() by {
        assert(tail[i] == chunks[i + 1]);
    }
}

/// A well-formed chunk before well-formed chunks.
proof fn lemma_all_wf_cons(first: ChunkView, tail: Seq<ChunkView>)
    requires
        first.wf(),
        all_wf(tail),
    ensures
        all_wf(seq![first] + tail),
{
    let chunks = seq![first] + tail;
    assert forall|i: int| 0 <= i < chunks.len() implies (#[trigger] chunks[i]).wf() by {
        if i > 0 {
            assert(chunks[i] == tail[i - 1]);
        }
    }
}

/// The records of no chunks are no bytes, and no bytes decode to no chunks.
pub(crate) proof fn lemma_empty(chunks: Seq<ChunkView>, bytes: Seq<u8>)
    ensures
        chunks.len() == 0 ==> chunks == Seq::<ChunkView>::empty() && encode_chunks(chunks)
            == Seq::<u8>::empty(),
        bytes.len() == 0 ==> bytes == Seq::<u8>::empty() && decode_chunks(bytes) == Ok::<
            Seq<ChunkView>,
            ChunkError,
        >(Seq::empty()),
{
    if chunks.len() == 0 {
        assert(chunks =~= Seq::<ChunkView>::empty());
    }
    if bytes.len() == 0 {
        assert(bytes =~= Seq::<u8>::empty());
    }
}

/// A sequence that is not empty is its first element followed by the others.
proof fn lemma_first_and_rest(chunks: Seq<ChunkView>)
    requires
        chunks.len() > 0,
    ensures
        seq![chunks.first()] + chunks.drop_first() == chunks,
{
    assert(seq![chunks.first()] + chunks.drop_first() =~= chunks);
}

/// What follows a prefix is what was put after it.
proof fn lemma_skip_prefix(prefix: Seq<u8>, rest: Seq<u8>)
    ensures
        (prefix + rest).skip(prefix.len() as int) == rest,
        (prefix + rest).subrange(0, prefix.len() as int) == prefix,
        (prefix + rest).len() == prefix.len() + rest.len(),
{
    assert((prefix + rest).skip(prefix.len() as int) =~= rest);
    assert((prefix + rest).subrange(0, prefix.len() as int) =~= prefix);
}

/// Skipping twice is skipping once as far.
pub(crate) proof fn lemma_skip_skip(bytes: Seq<u8>, first: int, then: int)
    requires
        0 <= first,
        0 <= then,
        first + then <= bytes.len(),
    ensures
        bytes.skip(first).skip(then) == bytes.skip(first + then),
{
    assert(bytes.skip(first).skip(then) =~= bytes.skip(first + then));
}

/// A sequence is its start followed by its rest.
proof fn lemma_split_join(bytes: Seq<u8>, at: int)
    requires
        0 <= at <= bytes.len(),
    ensures
        bytes.subrange(0, at) + bytes.skip(at) == bytes,
{
    assert(bytes.subrange(0, at) + bytes.skip(at) =~= bytes);
}

} // verus!
