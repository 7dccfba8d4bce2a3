//! One chunk of a PNG stream: a type tag, a payload, and a CRC-32 over both.
//!
//! On the wire a chunk is `length ++ type ++ data ++ crc`, where `length` and
//! `crc` are 32-bit big-endian integers, `length` counts the bytes of `data`
//! only, and `crc` is the checksum of `type ++ data`.

use vstd::prelude::*;
use vstd::slice::{slice_subrange, slice_to_vec};
use vstd::string::StringExecFns;
use vstd::utf8::{decode_utf8, valid_utf8};
use crate::checksum::{checksum, crc32};
use crate::chunk_type::{text_of_tag, ChunkType};
use crate::decimal::{decimal, push_decimal};
use crate::endian::{be_bytes, be_value, u32_from_be, u32_to_be};
use crate::error::PngError;

verus! {

/// What a chunk is: a type tag and a payload. Its length and its checksum
/// follow from these two.
pub struct ChunkView {
    pub chunk_type: Seq<u8>,
    pub data: Seq<u8>,
}

impl ChunkView {
    /// The tag has four bytes and the payload's length fits in 32 bits.
    pub open spec fn wf(self) -> bool {
        &&& self.chunk_type.len() == 4
        &&& self.data.len() <= u32::MAX
    }

    /// The bytes that the checksum covers: the type tag, then the payload.
    pub open spec fn checked(self) -> Seq<u8> {
        self.chunk_type + self.data
    }

    /// The chunk's checksum.
    pub open spec fn crc(self) -> u32 {
        crc32(self.checked())
    }

    /// The chunk as it stands in a stream.
    pub open spec fn bytes(self) -> Seq<u8> {
        frame(self.chunk_type, self.data, self.crc())
    }
}

/// One line of a chunk's summary: a label, a value, a line feed.
pub open spec fn summary_line(label: Seq<char>, value: Seq<char>) -> Seq<char> {
    label + value + "\n"@
}

/// The summary of a chunk as text: its length, its type tag, its length
/// again, the size of its payload, and its checksum, one to a line between
/// braces.
pub open spec fn summary(chunk: ChunkView) -> Seq<char> {
    "Chunk {\n"@ + summary_line(" Length: "@, decimal(chunk.data.len())) + summary_line(
        " Type: "@,
        text_of_tag(chunk.chunk_type),
    ) + summary_line(" Length: "@, decimal(chunk.data.len())) + summary_line(
        " Data: "@,
        decimal(chunk.data.len()),
    ) + summary_line(" Crc: "@, decimal(chunk.crc() as nat)) + "}\n"@
}

/// The layout of a chunk whose checksum field holds `crc`.
pub open spec fn frame(chunk_type: Seq<u8>, data: Seq<u8>, crc: u32) -> Seq<u8> {
    be_bytes(data.len() as u32) + chunk_type + data + be_bytes(crc)
}

/// The payload length that the first four bytes of `bytes` declare.
pub open spec fn declared_len(bytes: Seq<u8>) -> u32 {
    be_value(bytes.subrange(0, 4))
}

/// The checksum that the last four bytes of `bytes` hold.
pub open spec fn stored_crc(bytes: Seq<u8>) -> u32 {
    be_value(bytes.subrange(bytes.len() - 4, bytes.len() as int))
}

/// The part of a serialized chunk that its checksum covers: all but the
/// length field in front and the checksum field at the end.
pub open spec fn checked_part(bytes: Seq<u8>) -> Seq<u8> {
    bytes.subrange(4, bytes.len() - 4)
}

/// What reading `bytes` as one chunk gives, where `computed` is the checksum
/// of the part that the checksum covers.
///
/// The bytes are refused as truncated unless they are exactly as many as
/// their length field declares, the twelve bytes of the three fixed fields
/// included, and as mismatched if the checksum field holds another value
/// than `computed`.
pub open spec fn frame_parts(bytes: Seq<u8>, computed: u32) -> Result<ChunkView, PngError> {
    if bytes.len() < 12 || declared_len(bytes) + 12 != bytes.len() {
        Err(PngError::TruncatedChunk)
    } else if stored_crc(bytes) != computed {
        Err(PngError::CrcMismatch)
    } else {
        Ok(ChunkView { chunk_type: bytes.subrange(4, 8), data: bytes.subrange(8, bytes.len() - 4) })
    }
}

/// What parsing `bytes` as one chunk gives.
pub open spec fn parse_chunk(bytes: Seq<u8>) -> Result<ChunkView, PngError> {
    frame_parts(bytes, crc32(checked_part(bytes)))
}

/// Lays out a chunk with the given checksum field.
pub fn write_frame(chunk_type: &ChunkType, data: &[u8], crc: u32) -> (bytes: Vec<u8>)
    requires
        data@.len() <= u32::MAX,
    ensures
        bytes@ == frame(chunk_type@, data@, crc),
{
    let length: [u8; 4] = u32_to_be(data.len() as u32);
    let sum: [u8; 4] = u32_to_be(crc);
    let mut bytes: Vec<u8> = Vec::new();
    bytes.extend_from_slice(length.as_slice());
    bytes.extend_from_slice(chunk_type.bytes.as_slice());
    bytes.extend_from_slice(data);
    bytes.extend_from_slice(sum.as_slice());
    bytes
}

/// Splits a serialized chunk into its type tag and its payload, given the
/// checksum `computed` of the part that the checksum covers. The chunk is
/// refused where its length field or its checksum field does not agree with
/// what it holds.
pub fn split_frame(bytes: &[u8], computed: u32) -> (r: Result<(ChunkType, Vec<u8>), PngError>)
    ensures
        match r {
            Ok((chunk_type, data)) => frame_parts(bytes@, computed) == Ok::<ChunkView, PngError>(
                ChunkView { chunk_type: chunk_type@, data: data@ },
            ),
            Err(e) => frame_parts(bytes@, computed) == Err::<ChunkView, PngError>(e),
        },
{
    let n: usize = bytes.len();
    if n < 12 {
        return Err(PngError::TruncatedChunk);
    }
    let declared: u32 = u32_from_be(bytes, 0);
    if declared as u64 + 12 != n as u64 {
        return Err(PngError::TruncatedChunk);
    }
    let stored: u32 = u32_from_be(bytes, n - 4);
    if stored != computed {
        return Err(PngError::CrcMismatch);
    }
    let tag: [u8; 4] = [bytes[4], bytes[5], bytes[6], bytes[7]];
    let chunk_type = ChunkType::from_bytes(tag);
    let data: Vec<u8> = slice_to_vec(slice_subrange(bytes, 8, n - 4));
    assert(chunk_type@ =~= bytes@.subrange(4, 8));
    Ok((chunk_type, data))
}

/// A chunk of a PNG stream. Its checksum is always that of its type tag and
/// payload, and its payload's length always fits in 32 bits.
#[derive(Debug, PartialEq, Eq)]
pub struct Chunk {
    chunk_type: ChunkType,
    data: Vec<u8>,
    crc: u32,
}

impl View for Chunk {
    type V = ChunkView;

    closed spec fn view(&self) -> ChunkView {
        ChunkView { chunk_type: self.chunk_type@, data: self.data@ }
    }
}

impl Clone for Chunk {
    fn clone(&self) -> (chunk: Chunk)
        ensures
            chunk@ == self@,
    {
        proof {
            use_type_invariant(self);
        }
        Chunk {
            chunk_type: self.chunk_type,
            data: slice_to_vec(self.data.as_slice()),
            crc: self.crc,
        }
    }
}

impl TryFrom<&[u8]> for Chunk {
    type Error = PngError;

    /// Parses one serialized chunk. The bytes must be the whole chunk and
    /// nothing else: they are refused as `TruncatedChunk` unless they are as
    /// many as the length field declares and twelve more, and as
    /// `CrcMismatch` unless the checksum field holds the checksum of the type
    /// tag and the payload.
    fn try_from(bytes: &[u8]) -> (r: Result<Chunk, PngError>)
        ensures
            match r {
                Ok(chunk) => parse_chunk(bytes@) == Ok::<ChunkView, PngError>(chunk@),
                Err(e) => parse_chunk(bytes@) == Err::<ChunkView, PngError>(e),
            },
    {
        let n: usize = bytes.len();
        if n < 12 {
            return Err(PngError::TruncatedChunk);
        }
        let computed: u32 = checksum(slice_subrange(bytes, 4, n - 4));
        match split_frame(bytes, computed) {
            Ok((chunk_type, data)) => {
                assert(chunk_type@ + data@ =~= checked_part(bytes@));
                Ok(Chunk { chunk_type, data, crc: computed })
            },
            Err(e) => Err(e),
        }
    }
}

/// The general law of `TryFrom` speaks of the chunk itself, where this
/// library speaks of a chunk's view. The law is therefore not claimed: what
/// `try_from` returns is stated in its own contract, over `parse_chunk`.
impl vstd::std_specs::convert::TryFromSpecImpl<&[u8]> for Chunk {
    open spec fn obeys_try_from_spec() -> bool {
        false
    }

    open spec fn try_from_spec(bytes: &[u8]) -> Result<Chunk, PngError> {
        arbitrary()
    }
}

impl Chunk {
    #[verifier::type_invariant]
    spec fn consistent(self) -> bool {
        &&& self.data@.len() <= u32::MAX
        &&& self.crc == crc32(self.chunk_type@ + self.data@)
    }

    /// Makes a chunk of the given type and payload, and computes its
    /// checksum.
    pub fn new(chunk_type: ChunkType, data: Vec<u8>) -> (chunk: Chunk)
        requires
            data@.len() <= u32::MAX,
        ensures
            chunk@ == (ChunkView { chunk_type: chunk_type@, data: data@ }),
    {
        let mut checked: Vec<u8> = Vec::new();
        checked.extend_from_slice(chunk_type.bytes.as_slice());
        checked.extend_from_slice(data.as_slice());
        let crc: u32 = checksum(checked.as_slice());
        assert(checked@ =~= chunk_type@ + data@);
        Chunk { chunk_type, data, crc }
    }

    /// The number of bytes in the payload.
    pub fn length(&self) -> (n: u32)
        ensures
            n == self@.data.len(),
            self@.wf(),
    {
        proof {
            use_type_invariant(self);
        }
        self.data.len() as u32
    }

    /// The chunk's type tag.
    pub fn chunk_type(&self) -> (t: ChunkType)
        ensures
            t@ == self@.chunk_type,
    {
        self.chunk_type
    }

    /// The payload.
    pub fn data(&self) -> (d: &[u8])
        ensures
            d@ == self@.data,
    {
        self.data.as_slice()
    }

    /// The checksum of the type tag and the payload.
    pub fn crc(&self) -> (sum: u32)
        ensures
            sum == self@.crc(),
    {
        proof {
            use_type_invariant(self);
        }
        self.crc
    }

    /// The payload as text, or `Utf8DecodeError` where it is not valid
    /// UTF-8.
    pub fn data_as_string(&self) -> (r: Result<String, PngError>)
        ensures
            match r {
                Ok(s) => valid_utf8(self@.data) && s@ == decode_utf8(self@.data),
                Err(e) => !valid_utf8(self@.data) && e == PngError::Utf8DecodeError,
            },
    {
        match String::from_utf8(slice_to_vec(self.data.as_slice())) {
            Ok(s) => {
                proof {
                    vstd::utf8::encode_utf8_decode_utf8(s@);
                }
                Ok(s)
            },
            Err(_) => Err(PngError::Utf8DecodeError),
        }
    }

    /// The chunk's summary as text.
    pub fn to_string(&self) -> (text: String)
        ensures
            text@ == summary(self@),
    {
        proof {
            use_type_invariant(self);
        }
        let length: u32 = self.data.len() as u32;
        let tag: String = self.chunk_type.to_string();
        let mut text: String = String::new();
        text.append("Chunk {\n");
        text.append(" Length: ");
        push_decimal(&mut text, length);
        text.append("\n");
        text.append(" Type: ");
        text.append(tag.as_str());
        text.append("\n");
        text.append(" Length: ");
        push_decimal(&mut text, length);
        text.append("\n");
        text.append(" Data: ");
        push_decimal(&mut text, length);
        text.append("\n");
        text.append(" Crc: ");
        push_decimal(&mut text, self.crc);
        text.append("\n");
        text.append("}\n");
        assert(text@ =~= summary(self@));
        text
    }

    /// The chunk as it stands in a stream: length, type tag, payload,
    /// checksum. Parsing these bytes gives the chunk back.
    pub fn as_bytes(&self) -> (bytes: Vec<u8>)
        ensures
            self@.wf(),
            bytes@ == self@.bytes(),
            parse_chunk(bytes@) == Ok::<ChunkView, PngError>(self@),
    {
        proof {
            use_type_invariant(self);
            lemma_parse_serialized_chunk(self@);
        }
        write_frame(&self.chunk_type, self.data.as_slice(), self.crc)
    }
}

/// A parsed chunk is well formed, and its bytes are the bytes it was parsed
/// from.
pub proof fn lemma_parsed_chunk(bytes: Seq<u8>)
    requires
        parse_chunk(bytes) is Ok,
    ensures
        parse_chunk(bytes)->Ok_0.wf(),
        parse_chunk(bytes)->Ok_0.bytes() == bytes,
{
    let chunk = parse_chunk(bytes)->Ok_0;
    let n = bytes.len() as int;
    crate::endian::lemma_be_bytes_of_value(bytes.subrange(0, 4));
    crate::endian::lemma_be_bytes_of_value(bytes.subrange(n - 4, n));
    assert(chunk.checked() =~= checked_part(bytes));
    assert(chunk.bytes() =~= bytes);
}

/// Parsing a serialized chunk gives the chunk back: its type tag and its
/// payload, and with them its length and its checksum.
pub proof fn lemma_parse_serialized_chunk(chunk: ChunkView)
    requires
        chunk.wf(),
    ensures
        chunk.bytes().len() == chunk.data.len() + 12,
        parse_chunk(chunk.bytes()) == Ok::<ChunkView, PngError>(chunk),
{
    let bytes = chunk.bytes();
    let n = chunk.data.len() as u32;
    crate::endian::lemma_be_value_of_bytes(n);
    crate::endian::lemma_be_value_of_bytes(chunk.crc());
    assert(bytes.subrange(0, 4) =~= be_bytes(n));
    assert(bytes.subrange(bytes.len() - 4, bytes.len() as int) =~= be_bytes(chunk.crc()));
    assert(checked_part(bytes) =~= chunk.checked());
    assert(bytes.subrange(4, 8) =~= chunk.chunk_type);
    assert(bytes.subrange(8, bytes.len() - 4) =~= chunk.data);
}

/// Damage to the type tag or the payload of a serialized chunk is detected
/// whenever it changes the checksum: bytes that keep the chunk's length
/// field and checksum field, and whose checked part has another checksum
/// than the chunk's, are refused as mismatched.
pub proof fn lemma_damage_detected(chunk: ChunkView, damaged: Seq<u8>)
    requires
        chunk.wf(),
        damaged.len() == chunk.bytes().len(),
        damaged.subrange(0, 4) == chunk.bytes().subrange(0, 4),
        damaged.subrange(damaged.len() - 4, damaged.len() as int) == chunk.bytes().subrange(
            damaged.len() - 4,
            damaged.len() as int,
        ),
        crc32(checked_part(damaged)) != chunk.crc(),
    ensures
        parse_chunk(damaged) == Err::<ChunkView, PngError>(PngError::CrcMismatch),
{
    let bytes = chunk.bytes();
    let n = chunk.data.len() as u32;
    crate::endian::lemma_be_value_of_bytes(n);
    crate::endian::lemma_be_value_of_bytes(chunk.crc());
    assert(bytes.subrange(0, 4) =~= be_bytes(n));
    assert(bytes.subrange(bytes.len() - 4, bytes.len() as int) =~= be_bytes(chunk.crc()));
}

} // verus!
