//! A PNG stream: the eight-byte signature, then chunks one after another.

use vstd::prelude::*;
use vstd::slice::slice_subrange;
use crate::chunk::{
    declared_len, lemma_parse_serialized_chunk, lemma_parsed_chunk, parse_chunk, Chunk, ChunkView,
};
use crate::chunk_type::text_of_tag;
use crate::endian::{be_bytes, lemma_be_value_of_bytes, u32_from_be};
use crate::error::PngError;

verus! {

/// The eight bytes that every PNG stream begins with.
pub const SIGNATURE: [u8; 8] = [0x89, 0x50, 0x4e, 0x47, 0x0d, 0x0a, 0x1a, 0x0a];

/// The signature as a sequence.
pub open spec fn signature() -> Seq<u8> {
    seq![0x89u8, 0x50u8, 0x4eu8, 0x47u8, 0x0du8, 0x0au8, 0x1au8, 0x0au8]
}

/// What each chunk of `chunks` is.
pub open spec fn views(chunks: Seq<Chunk>) -> Seq<ChunkView> {
    chunks.map_values(|chunk: Chunk| chunk@)
}

/// What each of the chunks that `chunks` refers to is.
pub open spec fn ref_views(chunks: Seq<&Chunk>) -> Seq<ChunkView> {
    chunks.map_values(|chunk: &Chunk| chunk@)
}

/// The test that a chunk passes when its type tag reads as `tag`.
pub open spec fn has_tag(tag: Seq<char>) -> spec_fn(ChunkView) -> bool {
    |chunk: ChunkView| text_of_tag(chunk.chunk_type) == tag
}

/// The test that a chunk passes when its type tag does not read as `tag`.
pub open spec fn lacks_tag(tag: Seq<char>) -> spec_fn(ChunkView) -> bool {
    |chunk: ChunkView| text_of_tag(chunk.chunk_type) != tag
}

/// The serialized chunks of `chunks`, one after another.
pub open spec fn chunks_bytes(chunks: Seq<ChunkView>) -> Seq<u8>
    decreases chunks.len(),
{
    if chunks.len() == 0 {
        Seq::empty()
    } else {
        chunks[0].bytes() + chunks_bytes(chunks.drop_first())
    }
}

/// The stream that holds `chunks`.
pub open spec fn serialize_png(chunks: Seq<ChunkView>) -> Seq<u8> {
    signature() + chunks_bytes(chunks)
}

/// `front` before the chunks of `rest`, or the error of `rest`.
pub open spec fn after(front: Seq<ChunkView>, rest: Result<Seq<ChunkView>, PngError>) -> Result<
    Seq<ChunkView>,
    PngError,
> {
    match rest {
        Ok(chunks) => Ok(front + chunks),
        Err(e) => Err(e),
    }
}

/// What parsing `bytes` as chunks one after another gives.
///
/// Each chunk takes as many bytes as its length field declares and twelve
/// more. Where fewer are left the bytes are refused as truncated. The first
/// chunk that is refused decides the error.
pub open spec fn parse_chunks(bytes: Seq<u8>) -> Result<Seq<ChunkView>, PngError>
    decreases bytes.len(),
{
    if bytes.len() == 0 {
        Ok(Seq::empty())
    } else if bytes.len() < 4 || bytes.len() < declared_len(bytes) + 12 {
        Err(PngError::TruncatedChunk)
    } else {
        let n = declared_len(bytes) + 12;
        match parse_chunk(bytes.subrange(0, n)) {
            Ok(first) => after(seq![first], parse_chunks(bytes.skip(n))),
            Err(e) => Err(e),
        }
    }
}

/// What parsing `bytes` as a PNG stream gives.
pub open spec fn parse_png(bytes: Seq<u8>) -> Result<Seq<ChunkView>, PngError> {
    if bytes.len() < 8 || bytes.subrange(0, 8) != signature() {
        Err(PngError::InvalidSignature)
    } else {
        parse_chunks(bytes.skip(8))
    }
}

/// Appending a chunk to a sequence appends its bytes to the sequence's.
pub proof fn lemma_chunks_bytes_push(chunks: Seq<ChunkView>, last: ChunkView)
    ensures
        chunks_bytes(chunks.push(last)) == chunks_bytes(chunks) + last.bytes(),
    decreases chunks.len(),
{
    if chunks.len() == 0 {
        assert(chunks.push(last).drop_first() =~= Seq::<ChunkView>::empty());
        assert(chunks_bytes(Seq::<ChunkView>::empty()) =~= Seq::<u8>::empty());
        assert(chunks_bytes(chunks.push(last)) =~= chunks_bytes(chunks) + last.bytes());
    } else {
        assert(chunks.push(last).drop_first() =~= chunks.drop_first().push(last));
        lemma_chunks_bytes_push(chunks.drop_first(), last);
        assert(chunks_bytes(chunks.push(last)) =~= chunks_bytes(chunks) + last.bytes());
    }
}

/// Parsing the serialized chunks of a sequence gives the sequence back.
pub proof fn lemma_parse_serialized_chunks(chunks: Seq<ChunkView>)
    requires
        forall|i: int| 0 <= i < chunks.len() ==> (#[trigger] chunks[i]).wf(),
    ensures
        parse_chunks(chunks_bytes(chunks)) == Ok::<Seq<ChunkView>, PngError>(chunks),
    decreases chunks.len(),
{
    if chunks.len() == 0 {
        assert(chunks =~= Seq::<ChunkView>::empty());
    } else {
        let first = chunks[0];
        let rest = chunks.drop_first();
        let bytes = chunks_bytes(chunks);
        let n: int = first.data.len() as int + 12;
        assert(first.wf());
        lemma_parse_serialized_chunk(first);
        lemma_be_value_of_bytes(first.data.len() as u32);
        assert(bytes.subrange(0, 4) =~= be_bytes(first.data.len() as u32));
        assert(bytes.subrange(0, n) =~= first.bytes());
        assert(bytes.skip(n) =~= chunks_bytes(rest));
        assert forall|i: int| 0 <= i < rest.len() implies (#[trigger] rest[i]).wf() by {
            assert(chunks[i + 1].wf());
        }
        lemma_parse_serialized_chunks(rest);
        assert(seq![first] + rest =~= chunks);
    }
}

/// Parsing the stream that holds a sequence of chunks gives the sequence
/// back.
pub proof fn lemma_parse_serialized_png(chunks: Seq<ChunkView>)
    requires
        forall|i: int| 0 <= i < chunks.len() ==> (#[trigger] chunks[i]).wf(),
    ensures
        parse_png(serialize_png(chunks)) == Ok::<Seq<ChunkView>, PngError>(chunks),
{
    let bytes = serialize_png(chunks);
    assert(bytes.subrange(0, 8) =~= signature());
    assert(bytes.skip(8) =~= chunks_bytes(chunks));
    lemma_parse_serialized_chunks(chunks);
}

/// Where parsing a sequence of chunks succeeds on bytes that are not empty,
/// it has parsed a first chunk from as many bytes as the length field
/// declares, and the other chunks from the bytes after it.
proof fn lemma_parse_chunks_step(bytes: Seq<u8>)
    requires
        parse_chunks(bytes) is Ok,
        bytes.len() > 0,
    ensures
        declared_len(bytes) + 12 <= bytes.len(),
        parse_chunk(bytes.subrange(0, declared_len(bytes) + 12)) is Ok,
        parse_chunks(bytes.skip(declared_len(bytes) + 12)) is Ok,
        parse_chunks(bytes)->Ok_0 == seq![
            parse_chunk(bytes.subrange(0, declared_len(bytes) + 12))->Ok_0,
        ] + parse_chunks(bytes.skip(declared_len(bytes) + 12))->Ok_0,
{
}

/// Parsed chunks are well formed, and their bytes, one after another, are
/// the bytes they were parsed from.
pub proof fn lemma_parsed_chunks(bytes: Seq<u8>)
    requires
        parse_chunks(bytes) is Ok,
    ensures
        forall|i: int|
            0 <= i < parse_chunks(bytes)->Ok_0.len() ==> (#[trigger] parse_chunks(
                bytes,
            )->Ok_0[i]).wf(),
        chunks_bytes(parse_chunks(bytes)->Ok_0) == bytes,
    decreases bytes.len(),
{
    let chunks = parse_chunks(bytes)->Ok_0;
    if bytes.len() == 0 {
        assert(chunks_bytes(chunks) =~= bytes);
    } else {
        let n = declared_len(bytes) + 12;
        let head = bytes.subrange(0, n);
        let tail = bytes.skip(n);
        let first = parse_chunk(head)->Ok_0;
        let rest = parse_chunks(tail)->Ok_0;
        lemma_parse_chunks_step(bytes);
        lemma_parsed_chunk(head);
        lemma_parsed_chunks(tail);
        assert(chunks[0] == first);
        assert(chunks.drop_first() =~= rest);
        assert forall|i: int| 0 <= i < chunks.len() implies (#[trigger] chunks[i]).wf() by {
            if i > 0 {
                assert(chunks[i] == rest[i - 1]);
            }
        }
        assert(chunks_bytes(chunks) == first.bytes() + chunks_bytes(rest));
        assert(head + tail =~= bytes);
    }
}

/// The chunks of a parsed stream are well formed, and serializing them
/// gives the stream back.
pub proof fn lemma_serialize_parsed_png(bytes: Seq<u8>)
    requires
        parse_png(bytes) is Ok,
    ensures
        forall|i: int|
            0 <= i < parse_png(bytes)->Ok_0.len() ==> (#[trigger] parse_png(bytes)->Ok_0[i]).wf(),
        serialize_png(parse_png(bytes)->Ok_0) == bytes,
{
    lemma_parsed_chunks(bytes.skip(8));
    assert(serialize_png(parse_png(bytes)->Ok_0) =~= bytes);
}

/// What passes a test is among what was tested: where all chunks of a
/// sequence are well formed, so are those that a test picks.
pub proof fn lemma_filter_wf(chunks: Seq<ChunkView>, test: spec_fn(ChunkView) -> bool)
    requires
        forall|i: int| 0 <= i < chunks.len() ==> (#[trigger] chunks[i]).wf(),
    ensures
        forall|i: int|
            0 <= i < chunks.filter(test).len() ==> (#[trigger] chunks.filter(test)[i]).wf(),
    decreases chunks.len(),
{
    if chunks.len() == 0 {
        chunks.lemma_filter_len(test);
    } else {
        let front = chunks.drop_last();
        lemma_filter_wf(front, test);
        front.lemma_filter_push(chunks.last(), test);
        assert(front.push(chunks.last()) =~= chunks);
    }
}

/// What is left when the chunks of one type are taken out holds no chunk
/// of that type.
pub proof fn lemma_none_left(chunks: Seq<ChunkView>, tag: Seq<char>)
    ensures
        chunks.filter(lacks_tag(tag)).filter(has_tag(tag)).len() == 0,
    decreases chunks.len(),
{
    if chunks.len() == 0 {
        chunks.lemma_filter_len(lacks_tag(tag));
        chunks.filter(lacks_tag(tag)).lemma_filter_len(has_tag(tag));
    } else {
        let front = chunks.drop_last();
        lemma_none_left(front, tag);
        front.lemma_filter_push(chunks.last(), lacks_tag(tag));
        front.filter(lacks_tag(tag)).lemma_filter_push(chunks.last(), has_tag(tag));
        assert(front.push(chunks.last()) =~= chunks);
    }
}

/// Whether `bytes` begins with the signature.
fn has_signature(bytes: &[u8]) -> (r: bool)
    ensures
        r == (bytes@.len() >= 8 && bytes@.subrange(0, 8) == signature()),
{
    if bytes.len() < 8 {
        return false;
    }
    let mut i: usize = 0;
    while i < 8
        invariant
            i <= 8,
            bytes@.len() >= 8,
            forall|j: int| 0 <= j < i ==> bytes@[j] == signature()[j],
        decreases 8 - i,
    {
        if bytes[i] != SIGNATURE[i] {
            assert(bytes@.subrange(0, 8)[i as int] != signature()[i as int]);
            return false;
        }
        i += 1;
    }
    assert(bytes@.subrange(0, 8) =~= signature());
    true
}

/// Whether the type tag of `chunk` reads as `tag`.
fn reads_as(chunk: &Chunk, tag: &String) -> (r: bool)
    ensures
        r == has_tag(tag@)(chunk@),
{
    chunk.chunk_type().to_string() == *tag
}

/// A PNG stream held as its chunks, in the order of the stream.
#[derive(Debug, PartialEq, Eq)]
pub struct PngContainer {
    chunks: Vec<Chunk>,
}

impl View for PngContainer {
    type V = Seq<ChunkView>;

    closed spec fn view(&self) -> Seq<ChunkView> {
        views(self.chunks@)
    }
}

impl PngContainer {
    /// The container that holds `chunks`, in their order.
    pub fn from_chunks(chunks: Vec<Chunk>) -> (png: PngContainer)
        ensures
            png@ == views(chunks@),
    {
        PngContainer { chunks }
    }

    /// The chunks, in their order.
    pub fn chunks(&self) -> (chunks: &[Chunk])
        ensures
            views(chunks@) == self@,
    {
        self.chunks.as_slice()
    }

    /// Adds `chunk` at the end.
    pub fn append_chunk(&mut self, chunk: Chunk)
        ensures
            final(self)@ == old(self)@.push(chunk@),
    {
        self.chunks.push(chunk);
        assert(views(self.chunks@) =~= views(old(self).chunks@).push(chunk@));
    }

    /// The chunks whose type tag reads as `tag`, in their order.
    pub fn find_chunks_by_type(&self, tag: &str) -> (found: Vec<&Chunk>)
        ensures
            ref_views(found@) == self@.filter(has_tag(tag@)),
    {
        let wanted: String = tag.to_owned();
        let mut found: Vec<&Chunk> = Vec::new();
        let count: usize = self.chunks.len();
        let mut i: usize = 0;
        proof {
            self@.take(0).lemma_filter_len(has_tag(tag@));
            assert(ref_views(found@) =~= self@.take(0).filter(has_tag(tag@)));
        }
        while i < count
            invariant
                i <= count,
                count == self.chunks@.len(),
                self@.len() == count,
                wanted@ == tag@,
                ref_views(found@) == self@.take(i as int).filter(has_tag(tag@)),
            decreases count - i,
        {
            let chunk: &Chunk = &self.chunks[i];
            let ghost before = ref_views(found@);
            proof {
                self@.take(i as int).lemma_filter_push(self@[i as int], has_tag(tag@));
                assert(self@.take(i + 1) =~= self@.take(i as int).push(self@[i as int]));
            }
            if reads_as(chunk, &wanted) {
                found.push(chunk);
                assert(ref_views(found@) =~= before.push(chunk@));
            }
            i += 1;
        }
        assert(self@.take(count as int) =~= self@);
        found
    }

    /// Takes out the chunks whose type tag reads as `tag` and returns them
    /// in their order. Where there is none the container stays as it is and
    /// the call fails with `ChunkNotFound`.
    pub fn remove_chunks_by_type(&mut self, tag: &str) -> (r: Result<Vec<Chunk>, PngError>)
        ensures
            match r {
                Ok(removed) => {
                    &&& removed@.len() > 0
                    &&& views(removed@) == old(self)@.filter(has_tag(tag@))
                    &&& final(self)@ == old(self)@.filter(lacks_tag(tag@))
                },
                Err(e) => {
                    &&& e == PngError::ChunkNotFound
                    &&& old(self)@.filter(has_tag(tag@)).len() == 0
                    &&& final(self)@ == old(self)@
                },
            },
    {
        let wanted: String = tag.to_owned();
        let ghost all = self@;
        let mut taken: Vec<Chunk> = Vec::new();
        std::mem::swap(&mut taken, &mut self.chunks);
        let mut kept: Vec<Chunk> = Vec::new();
        let mut removed: Vec<Chunk> = Vec::new();
        proof {
            all.take(0).lemma_filter_len(has_tag(tag@));
            all.take(0).lemma_filter_len(lacks_tag(tag@));
            assert(views(removed@) =~= all.take(0).filter(has_tag(tag@)));
            assert(views(kept@) =~= all.take(0).filter(lacks_tag(tag@)));
            assert(views(kept@) =~= all.take(0));
        }
        for chunk in it: taken.into_iter()
            invariant
                wanted@ == tag@,
                views(it.seq()) == all,
                views(removed@) == all.take(it.index() as int).filter(has_tag(tag@)),
                views(kept@) == all.take(it.index() as int).filter(lacks_tag(tag@)),
                removed@.len() == 0 ==> views(kept@) == all.take(it.index() as int),
        {
            let ghost i = it.index() as int;
            let ghost kept_before = views(kept@);
            let ghost removed_before = views(removed@);
            proof {
                all.take(i).lemma_filter_push(all[i], has_tag(tag@));
                all.take(i).lemma_filter_push(all[i], lacks_tag(tag@));
                assert(all.take(i + 1) =~= all.take(i).push(all[i]));
                assert(chunk@ == all[i]);
            }
            if reads_as(&chunk, &wanted) {
                removed.push(chunk);
                assert(views(removed@) =~= removed_before.push(chunk@));
            } else {
                kept.push(chunk);
                assert(views(kept@) =~= kept_before.push(chunk@));
            }
        }
        assert(all.take(all.len() as int) =~= all);
        self.chunks = kept;
        if removed.len() == 0 {
            Err(PngError::ChunkNotFound)
        } else {
            Ok(removed)
        }
    }

    /// Parses a whole PNG stream: the signature, then chunks until the bytes
    /// end.
    pub fn parse(bytes: &[u8]) -> (r: Result<PngContainer, PngError>)
        ensures
            match r {
                Ok(png) => parse_png(bytes@) == Ok::<Seq<ChunkView>, PngError>(png@),
                Err(e) => parse_png(bytes@) == Err::<Seq<ChunkView>, PngError>(e),
            },
    {
        if !has_signature(bytes) {
            return Err(PngError::InvalidSignature);
        }
        let total: usize = bytes.len();
        let mut chunks: Vec<Chunk> = Vec::new();
        let mut pos: usize = 8;
        assert(views(chunks@) =~= Seq::<ChunkView>::empty());
        while pos < total
            invariant
                8 <= pos <= total,
                total == bytes@.len(),
                parse_png(bytes@) == parse_chunks(bytes@.skip(8)),
                parse_chunks(bytes@.skip(8)) == after(
                    views(chunks@),
                    parse_chunks(bytes@.skip(pos as int)),
                ),
            decreases total - pos,
        {
            let ghost rest = bytes@.skip(pos as int);
            let left: usize = total - pos;
            if left < 4 {
                return Err(PngError::TruncatedChunk);
            }
            let declared: u32 = u32_from_be(bytes, pos);
            assert(bytes@.subrange(pos as int, pos + 4) =~= rest.subrange(0, 4));
            if (left as u64) < declared as u64 + 12 {
                return Err(PngError::TruncatedChunk);
            }
            let n: usize = declared as usize + 12;
            assert(bytes@.subrange(pos as int, pos + n) =~= rest.subrange(0, n as int));
            assert(bytes@.skip(pos + n) =~= rest.skip(n as int));
            match Chunk::try_from(slice_subrange(bytes, pos, pos + n)) {
                Ok(chunk) => {
                    let ghost before = views(chunks@);
                    chunks.push(chunk);
                    pos = pos + n;
                    proof {
                        assert(views(chunks@) =~= before.push(chunk@));
                        let tail = parse_chunks(bytes@.skip(pos as int));
                        match tail {
                            Ok(more) => {
                                assert(before + (seq![chunk@] + more) =~= before.push(chunk@)
                                    + more);
                            },
                            Err(_) => {},
                        }
                    }
                },
                Err(e) => {
                    return Err(e);
                },
            }
        }
        assert(bytes@.skip(pos as int) =~= Seq::<u8>::empty());
        assert(views(chunks@) + Seq::<ChunkView>::empty() =~= views(chunks@));
        Ok(PngContainer { chunks })
    }

    /// The stream: the signature, then each chunk as it stands on the wire.
    /// Parsing these bytes gives the chunks back.
    pub fn serialize(&self) -> (bytes: Vec<u8>)
        ensures
            bytes@ == serialize_png(self@),
            parse_png(bytes@) == Ok::<Seq<ChunkView>, PngError>(self@),
    {
        let mut bytes: Vec<u8> = Vec::new();
        bytes.extend_from_slice(SIGNATURE.as_slice());
        assert(bytes@ =~= signature());
        let count: usize = self.chunks.len();
        let mut i: usize = 0;
        assert(self@.take(0) =~= Seq::<ChunkView>::empty());
        while i < count
            invariant
                i <= count,
                count == self.chunks@.len(),
                self@.len() == count,
                bytes@ == signature() + chunks_bytes(self@.take(i as int)),
                forall|j: int| 0 <= j < i ==> (#[trigger] self@[j]).wf(),
            decreases count - i,
        {
            let one: Vec<u8> = self.chunks[i].as_bytes();
            bytes.extend_from_slice(one.as_slice());
            proof {
                lemma_chunks_bytes_push(self@.take(i as int), self@[i as int]);
                assert(self@.take(i + 1) =~= self@.take(i as int).push(self@[i as int]));
                assert(bytes@ =~= signature() + chunks_bytes(self@.take(i + 1)));
            }
            i += 1;
        }
        assert(self@.take(count as int) =~= self@);
        proof {
            lemma_parse_serialized_png(self@);
        }
        bytes
    }
}

} // verus!
