//! A chunk: one length-prefixed, typed, checksummed record.

use vstd::prelude::*;
use vstd::slice::{slice_subrange, slice_to_vec};
use vstd::std_specs::convert::TryFromSpecImpl;
use vstd::utf8::{decode_utf8, valid_utf8};
use crate::byte_order::{
    be_to_u32, lemma_be_decode_encode, lemma_be_encode_decode, u32_from_be_bytes, u32_to_be,
    u32_to_be_bytes,
};
use crate::checksum::{checksum, crc32_iso_hdlc};
use crate::chunk_type::ChunkType;
use crate::text::{decimal, push_bytes, push_decimal, render_bytes, utf8_lossy};
use vstd::string::StringExecFns;

verus! {

/// The bytes that frame a payload: four of length, four of type, four of checksum.
pub const FRAME_LEN: u64 = 12;

/// Why bytes are not a chunk.
#[derive(Debug, PartialEq, Eq, Structural, Clone, Copy)]
pub enum ChunkError {
    /// The bytes end before the record does: a record needs this many bytes.
    InvalidLength(u64),
    /// The checksum in the record (`got`) is not the checksum of its type and payload
    /// (`expected`).
    InvalidCrc { got: u32, expected: u32 },
}

/// What a chunk is: a type code and a payload. Its length and checksum follow from them.
pub struct ChunkView {
    pub chunk_type: Seq<u8>,
    pub data: Seq<u8>,
}

impl ChunkView {
    /// The type code has four bytes and the payload's length fits the length field.
    pub open spec fn wf(self) -> bool {
        &&& self.chunk_type.len() == 4
        &&& self.data.len() <= u32::MAX
    }

    /// The number of payload bytes.
    pub open spec fn length(self) -> u32 {
        self.data.len() as u32
    }

    /// The checksum over the type code followed by the payload.
    pub open spec fn crc(self) -> u32 {
        crc32_iso_hdlc(self.chunk_type + self.data)
    }

    /// The record on the wire: length, type code, payload, checksum.
    pub open spec fn encode(self) -> Seq<u8> {
        u32_to_be(self.length()) + self.chunk_type + self.data + u32_to_be(self.crc())
    }

    /// The chunk for a reader: `(length, type, [payload bytes], checksum)`.
    pub open spec fn render(self) -> Seq<char> {
        "("@ + decimal(self.length() as nat) + ", "@ + utf8_lossy(self.chunk_type) + ", "@
            + render_bytes(self.data) + ", "@ + decimal(self.crc() as nat) + ")"@
    }
}

/// The chunk that `bytes` start with, or why they start with none.
///
/// Bytes after the record are not looked at.
pub open spec fn decode_chunk(bytes: Seq<u8>) -> Result<ChunkView, ChunkError> {
    if bytes.len() < FRAME_LEN {
        Err(ChunkError::InvalidLength(FRAME_LEN))
    } else {
        let length = be_to_u32(bytes.subrange(0, 4));
        if bytes.len() < FRAME_LEN + length {
            Err(ChunkError::InvalidLength((FRAME_LEN + length) as u64))
        } else {
            let chunk = ChunkView {
                chunk_type: bytes.subrange(4, 8),
                data: bytes.subrange(8, 8 + length),
            };
            let got = be_to_u32(bytes.subrange(8 + length, 12 + length));
            if got == chunk.crc() {
                Ok(chunk)
            } else {
                Err(ChunkError::InvalidCrc { got, expected: chunk.crc() })
            }
        }
    }
}

/// A chunk, with its length and checksum always those of its type code and payload.
#[derive(Debug)]
pub struct Chunk {
    length: u32,
    chunk_type: ChunkType,
    chunk_data: Vec<u8>,
    crc: u32,
}

impl View for Chunk {
    type V = ChunkView;

    closed spec fn view(&self) -> ChunkView {
        ChunkView { chunk_type: self.chunk_type@, data: self.chunk_data@ }
    }
}

impl Chunk {
    /// The stored length and checksum are those of the type code and payload.
    #[verifier::type_invariant]
    pub closed spec fn consistent(&self) -> bool {
        &&& self.length == self.chunk_data@.len()
        &&& self.crc == self@.crc()
    }

    /// What consistency says of the chunk's view.
    pub proof fn lemma_consistent(self)
        requires
            self.consistent(),
        ensures
            self@.wf(),
    {
    }

    /// A chunk of the given type and payload, with the checksum computed.
    pub fn new(chunk_type: ChunkType, data: Vec<u8>) -> (chunk: Chunk)
        requires
            data@.len() <= u32::MAX,
        ensures
            chunk@ == (ChunkView { chunk_type: chunk_type@, data: data@ }),
            chunk@.wf(),
    {
        let mut type_and_data: Vec<u8> = Vec::new();
        type_and_data.extend_from_slice(chunk_type.bytes().as_slice());
        type_and_data.extend_from_slice(data.as_slice());
        assert(type_and_data@ =~= chunk_type@ + data@);
        let crc = checksum(type_and_data.as_slice());
        Chunk { length: data.len() as u32, chunk_type, chunk_data: data, crc }
    }

    /// The chunk of a record whose fields have been read and whose checksum has been
    /// computed: the chunk itself if the record's checksum is the computed one, and the
    /// mismatch if it is not.
    pub fn from_record(
        chunk_type: ChunkType,
        data: Vec<u8>,
        supplied_crc: u32,
        computed_crc: u32,
    ) -> (checked: Result<Chunk, ChunkError>)
        requires
            data@.len() <= u32::MAX,
            computed_crc == crc32_iso_hdlc(chunk_type@ + data@),
        ensures
            supplied_crc == computed_crc ==> checked is Ok && checked->Ok_0@ == (ChunkView {
                chunk_type: chunk_type@,
                data: data@,
            }),
            supplied_crc != computed_crc ==> checked == Err::<Chunk, ChunkError>(
                ChunkError::InvalidCrc { got: supplied_crc, expected: computed_crc },
            ),
    {
        if supplied_crc != computed_crc {
            return Err(ChunkError::InvalidCrc { got: supplied_crc, expected: computed_crc });
        }
        Ok(Chunk { length: data.len() as u32, chunk_type, chunk_data: data, crc: supplied_crc })
    }

    /// The number of payload bytes.
    pub fn length(&self) -> (length: u32)
        ensures
            length == self@.data.len(),
            length == self@.length(),
    {
        proof {
            use_type_invariant(self);
        }
        self.length
    }

    /// The type code.
    pub fn chunk_type(&self) -> (chunk_type: &ChunkType)
        ensures
            chunk_type@ == self@.chunk_type,
    {
        &self.chunk_type
    }

    /// The payload.
    pub fn data(&self) -> (data: &[u8])
        ensures
            data@ == self@.data,
    {
        self.chunk_data.as_slice()
    }

    /// The checksum over type code and payload.
    pub fn crc(&self) -> (crc: u32)
        ensures
            crc == self@.crc(),
    {
        proof {
            use_type_invariant(self);
        }
        self.crc
    }

    /// The payload as text: the characters it encodes, if it is valid UTF-8.
    pub fn data_as_string(&self) -> (text: Result<String, std::string::FromUtf8Error>)
        ensures
            text is Ok <==> valid_utf8(self@.data),
            text is Ok ==> text->Ok_0@ == decode_utf8(self@.data),
    {
        String::from_utf8(self.chunk_data.clone())
    }

    /// The chunk for a reader: `(length, type, [payload bytes], checksum)`, the type
    /// code as text and the numbers in decimal.
    pub fn to_string(&self) -> (text: String)
        ensures
            text@ == self@.render(),
    {
        proof {
            use_type_invariant(self);
        }
        let mut text = String::new();
        text.append("(");
        push_decimal(&mut text, self.length as u64);
        text.append(", ");
        text.append(self.chunk_type.to_string().as_str());
        text.append(", ");
        push_bytes(&mut text, self.chunk_data.as_slice());
        text.append(", ");
        push_decimal(&mut text, self.crc as u64);
        text.append(")");
        assert(text@ =~= self@.render());
        text
    }

    /// The record of this chunk: length, type code, payload and checksum, the integers
    /// in big-endian order. The chunk decodes from these bytes again.
    pub fn as_bytes(&self) -> (bytes: Vec<u8>)
        ensures
            bytes@ == self@.encode(),
            decode_chunk(bytes@) == Ok::<ChunkView, ChunkError>(self@),
    {
        proof {
            use_type_invariant(self);
            lemma_decode_encode(self@, Seq::empty());
        }
        let mut bytes: Vec<u8> = Vec::new();
        bytes.extend_from_slice(u32_to_be_bytes(self.length).as_slice());
        bytes.extend_from_slice(self.chunk_type.bytes().as_slice());
        bytes.extend_from_slice(self.chunk_data.as_slice());
        bytes.extend_from_slice(u32_to_be_bytes(self.crc).as_slice());
        assert(bytes@ =~= self@.encode());
        bytes
    }
}

impl<'a> TryFrom<&'a [u8]> for Chunk {
    type Error = ChunkError;

    /// Reads the chunk that `bytes` start with.
    ///
    /// Fails with `InvalidLength` when fewer than twelve bytes are given, or fewer than
    /// the record's length field asks for, and with `InvalidCrc` when the record's
    /// checksum is not that of its type code and payload.
    fn try_from(bytes: &'a [u8]) -> (decoded: Result<Chunk, ChunkError>)
        ensures
            match decoded {
                Ok(chunk) => decode_chunk(bytes@) == Ok::<ChunkView, ChunkError>(chunk@)
                    && chunk@.wf() && chunk@.encode() == bytes@.subrange(
                    0,
                    FRAME_LEN + chunk@.data.len(),
                ),
                Err(e) => decode_chunk(bytes@) == Err::<ChunkView, ChunkError>(e),
            },
    {
        if bytes.len() < 12 {
            return Err(ChunkError::InvalidLength(FRAME_LEN));
        }
        let length = u32_from_be_bytes([bytes[0], bytes[1], bytes[2], bytes[3]]);
        assert(seq![bytes[0], bytes[1], bytes[2], bytes[3]] =~= bytes@.subrange(0, 4));
        let needed: u64 = FRAME_LEN + length as u64;
        if (bytes.len() as u64) < needed {
            return Err(ChunkError::InvalidLength(needed));
        }
        let data_end: usize = 8 + length as usize;
        let chunk_type = ChunkType::try_from([bytes[4], bytes[5], bytes[6], bytes[7]]).unwrap();
        assert(chunk_type@ =~= bytes@.subrange(4, 8));
        let data = slice_to_vec(slice_subrange(bytes, 8, data_end));
        let supplied_crc = u32_from_be_bytes(
            [bytes[data_end], bytes[data_end + 1], bytes[data_end + 2], bytes[data_end + 3]],
        );
        assert(seq![
            bytes[data_end as int],
            bytes[data_end + 1],
            bytes[data_end + 2],
            bytes[data_end + 3],
        ] =~= bytes@.subrange(8 + length, 12 + length));
        let computed_crc = checksum(slice_subrange(bytes, 4, data_end));
        assert(bytes@.subrange(4, data_end as int) =~= chunk_type@ + data@);
        proof {
            if supplied_crc == computed_crc {
                lemma_encode_decode(bytes@);
            }
        }
        Chunk::from_record(chunk_type, data, supplied_crc, computed_crc)
    }
}

/// The conversion is specified by the `ensures` of `try_from`, over views: no
/// specification function can name the `Vec` that a chunk holds.
impl<'a> TryFromSpecImpl<&'a [u8]> for Chunk {
    open spec fn obeys_try_from_spec() -> bool {
        false
    }

    open spec fn try_from_spec(bytes: &'a [u8]) -> Result<Chunk, ChunkError> {
        arbitrary()
    }
}

/// A chunk decodes from its own record, whatever bytes follow the record.
pub proof fn lemma_decode_encode(chunk: ChunkView, rest: Seq<u8>)
    requires
        chunk.wf(),
    ensures
        chunk.encode().len() == FRAME_LEN + chunk.data.len(),
        decode_chunk(chunk.encode()) == Ok::<ChunkView, ChunkError>(chunk),
        decode_chunk(chunk.encode() + rest) == Ok::<ChunkView, ChunkError>(chunk),
{
    let length = chunk.data.len() as int;
    lemma_be_decode_encode(chunk.length());
    lemma_be_decode_encode(chunk.crc());
    let record = chunk.encode();
    assert(record.subrange(0, 4) =~= u32_to_be(chunk.length()));
    assert(record.subrange(4, 8) =~= chunk.chunk_type);
    assert(record.subrange(8, 8 + length) =~= chunk.data);
    assert(record.subrange(8 + length, 12 + length) =~= u32_to_be(chunk.crc()));
    let longer = record + rest;
    assert(longer.subrange(0, 4) =~= u32_to_be(chunk.length()));
    assert(longer.subrange(4, 8) =~= chunk.chunk_type);
    assert(longer.subrange(8, 8 + length) =~= chunk.data);
    assert(longer.subrange(8 + length, 12 + length) =~= u32_to_be(chunk.crc()));
}

/// Bytes that decode to a chunk start with exactly that chunk's record, and the chunk
/// is well formed.
pub proof fn lemma_encode_decode(bytes: Seq<u8>)
    requires
        decode_chunk(bytes) is Ok,
    ensures
        decode_chunk(bytes)->Ok_0.wf(),
        FRAME_LEN + decode_chunk(bytes)->Ok_0.data.len() <= bytes.len(),
        decode_chunk(bytes)->Ok_0.encode() == bytes.subrange(
            0,
            FRAME_LEN + decode_chunk(bytes)->Ok_0.data.len(),
        ),
{
    let chunk = decode_chunk(bytes)->Ok_0;
    let length = chunk.data.len() as int;
    lemma_be_encode_decode(bytes.subrange(0, 4));
    lemma_be_encode_decode(bytes.subrange(8 + length, 12 + length));
    assert(chunk.encode() =~= bytes.subrange(0, 12 + length));
}

/// A record whose type code or payload was changed after it was written, its length
/// field and checksum left alone, passes for the changed chunk only if the changed bytes
/// have the checksum that was written. Otherwise it is refused with `InvalidCrc`: `got`
/// is the checksum written, `expected` the checksum of what is there now.
pub proof fn lemma_altered_record(written: ChunkView, altered: ChunkView)
    requires
        written.wf(),
        altered.wf(),
        altered.data.len() == written.data.len(),
    ensures
        decode_chunk(
            u32_to_be(written.length()) + altered.chunk_type + altered.data + u32_to_be(
                written.crc(),
            ),
        ) == (if altered.crc() == written.crc() {
            Ok::<ChunkView, ChunkError>(altered)
        } else {
            Err::<ChunkView, ChunkError>(
                ChunkError::InvalidCrc { got: written.crc(), expected: altered.crc() },
            )
        }),
{
    let length = written.data.len() as int;
    lemma_be_decode_encode(written.length());
    lemma_be_decode_encode(written.crc());
    let record = u32_to_be(written.length()) + altered.chunk_type + altered.data + u32_to_be(
        written.crc(),
    );
    assert(record.subrange(0, 4) =~= u32_to_be(written.length()));
    assert(record.subrange(4, 8) =~= altered.chunk_type);
    assert(record.subrange(8, 8 + length) =~= altered.data);
    assert(record.subrange(8 + length, 12 + length) =~= u32_to_be(written.crc()));
}

/// A checksum error always names two different checksums: the one in the record and
/// the one of the record's type code and payload.
pub proof fn lemma_invalid_crc_unequal(bytes: Seq<u8>)
    requires
        decode_chunk(bytes) is Err,
        decode_chunk(bytes)->Err_0 is InvalidCrc,
    ensures
        decode_chunk(bytes)->Err_0->got != decode_chunk(bytes)->Err_0->expected,
        FRAME_LEN + be_to_u32(bytes.subrange(0, 4)) <= bytes.len(),
        decode_chunk(bytes)->Err_0->expected == crc32_iso_hdlc(
            bytes.subrange(4, 8 + be_to_u32(bytes.subrange(0, 4))),
        ),
{
    let length = be_to_u32(bytes.subrange(0, 4)) as int;
    assert(bytes.subrange(4, 8) + bytes.subrange(8, 8 + length) =~= bytes.subrange(4, 8 + length));
}

} // verus!
