//! The four commands, from the bytes of a PNG file to what is written back
//! or shown. Reading and writing the file is the caller's part.

use vstd::prelude::*;
use std::str::FromStr;
use vstd::slice::slice_to_vec;
use vstd::utf8::{decode_utf8, encode_utf8, valid_utf8};
use crate::args::{Cli, DecodeArgs, EncodeArgs, PngMeArgs, RemoveArgs};
use crate::chunk::{summary, Chunk, ChunkView};
use crate::chunk_type::{is_tag_text, lemma_text_of_parsed_tag, tag_of_text, ChunkType};
use crate::error::PngError;
use crate::png::{
    has_tag, lacks_tag, lemma_filter_wf, lemma_none_left, lemma_parse_serialized_png,
    lemma_serialize_parsed_png, parse_png, serialize_png, PngContainer,
};

verus! {

/// What is to be done with the result of a command.
#[derive(Debug, PartialEq, Eq)]
pub enum Outcome {
    /// These bytes are to be written to the command's target file.
    Write(Vec<u8>),
    /// These texts are to be shown, each on its own.
    Show(Vec<String>),
}

/// What an outcome holds.
pub enum OutcomeView {
    Write(Seq<u8>),
    Show(Seq<Seq<char>>),
}

impl View for Outcome {
    type V = OutcomeView;

    open spec fn view(&self) -> OutcomeView {
        match *self {
            Outcome::Write(bytes) => OutcomeView::Write(bytes@),
            Outcome::Show(lines) => OutcomeView::Show(texts(lines@)),
        }
    }
}

/// What `encode` makes of the file `png`: the same stream with one more
/// chunk at its end, of the type that `tag` names and with `message` as its
/// payload.
pub open spec fn encoded(png: Seq<u8>, tag: Seq<char>, message: Seq<u8>) -> Result<
    Seq<u8>,
    PngError,
> {
    match parse_png(png) {
        Ok(chunks) => if is_tag_text(tag) {
            Ok(serialize_png(chunks.push(ChunkView { chunk_type: tag_of_text(tag), data: message })))
        } else {
            Err(PngError::InvalidChunkType)
        },
        Err(e) => Err(e),
    }
}

/// What `decode` reads from the file `png`: the payload of the first chunk
/// whose type tag reads as `tag`, as text.
pub open spec fn decoded(png: Seq<u8>, tag: Seq<char>) -> Result<Seq<char>, PngError> {
    match parse_png(png) {
        Ok(chunks) => {
            let found = chunks.filter(has_tag(tag));
            if found.len() == 0 {
                Err(PngError::ChunkNotFound)
            } else if !valid_utf8(found[0].data) {
                Err(PngError::Utf8DecodeError)
            } else {
                Ok(decode_utf8(found[0].data))
            }
        },
        Err(e) => Err(e),
    }
}

/// What `remove` makes of the file `png`: the same stream without the
/// chunks whose type tag reads as `tag`.
pub open spec fn removed(png: Seq<u8>, tag: Seq<char>) -> Result<Seq<u8>, PngError> {
    match parse_png(png) {
        Ok(chunks) => if chunks.filter(has_tag(tag)).len() == 0 {
            Err(PngError::ChunkNotFound)
        } else {
            Ok(serialize_png(chunks.filter(lacks_tag(tag))))
        },
        Err(e) => Err(e),
    }
}

/// What `print` shows of the file `png`: the summary of each chunk.
pub open spec fn printed(png: Seq<u8>) -> Result<Seq<Seq<char>>, PngError> {
    match parse_png(png) {
        Ok(chunks) => Ok(chunks.map_values(|chunk: ChunkView| summary(chunk))),
        Err(e) => Err(e),
    }
}

/// What running `command` on the file `png` comes to: `encode` and `remove`
/// have the new file written, `decode` has the message shown, and `print`
/// the summaries.
pub open spec fn ran(command: PngMeArgs, png: Seq<u8>) -> Result<OutcomeView, PngError> {
    match command {
        PngMeArgs::Encode(args) => match encoded(
            png,
            args.chunk_type@,
            encode_utf8(args.message@),
        ) {
            Ok(out) => Ok(OutcomeView::Write(out)),
            Err(e) => Err(e),
        },
        PngMeArgs::Decode(args) => match decoded(png, args.chunk_type@) {
            Ok(message) => Ok(OutcomeView::Show(seq![message])),
            Err(e) => Err(e),
        },
        PngMeArgs::Remove(args) => match removed(png, args.chunk_type@) {
            Ok(out) => Ok(OutcomeView::Write(out)),
            Err(e) => Err(e),
        },
        PngMeArgs::Print(_) => match printed(png) {
            Ok(lines) => Ok(OutcomeView::Show(lines)),
            Err(e) => Err(e),
        },
    }
}

/// The text of each string of `lines`.
pub open spec fn texts(lines: Seq<String>) -> Seq<Seq<char>> {
    lines.map_values(|line: String| line@)
}

/// What `encode` returns parses as the chunks of the file it was given and,
/// after them, the new chunk.
pub proof fn lemma_parse_encoded(png: Seq<u8>, tag: Seq<char>, message: Seq<u8>)
    requires
        message.len() <= u32::MAX,
        encoded(png, tag, message) is Ok,
    ensures
        parse_png(png) is Ok,
        parse_png(encoded(png, tag, message)->Ok_0) == Ok::<Seq<ChunkView>, PngError>(
            parse_png(png)->Ok_0.push(ChunkView { chunk_type: tag_of_text(tag), data: message }),
        ),
{
    let chunks = parse_png(png)->Ok_0;
    let last = ChunkView { chunk_type: tag_of_text(tag), data: message };
    lemma_serialize_parsed_png(png);
    assert forall|i: int| 0 <= i < chunks.push(last).len() implies (#[trigger] chunks.push(
        last,
    )[i]).wf() by {
        if i < chunks.len() {
            assert(chunks[i].wf());
        }
    }
    lemma_parse_serialized_png(chunks.push(last));
}

/// `decode` after `encode` with the same type reads the message back, where
/// the file held no chunk of that type before. Where it held one, `decode`
/// reads what it read before: the first chunk of the type is the older one.
pub proof fn lemma_decode_after_encode(png: Seq<u8>, tag: Seq<char>, message: Seq<char>)
    requires
        encode_utf8(message).len() <= u32::MAX,
        encoded(png, tag, encode_utf8(message)) is Ok,
    ensures
        decoded(png, tag) == Err::<Seq<char>, PngError>(PngError::ChunkNotFound) ==> decoded(
            encoded(png, tag, encode_utf8(message))->Ok_0,
            tag,
        ) == Ok::<Seq<char>, PngError>(message),
        decoded(png, tag) != Err::<Seq<char>, PngError>(PngError::ChunkNotFound) ==> decoded(
            encoded(png, tag, encode_utf8(message))->Ok_0,
            tag,
        ) == decoded(png, tag),
{
    let data = encode_utf8(message);
    let chunks = parse_png(png)->Ok_0;
    let last = ChunkView { chunk_type: tag_of_text(tag), data };
    lemma_parse_encoded(png, tag, data);
    lemma_text_of_parsed_tag(tag);
    assert(has_tag(tag)(last));
    chunks.lemma_filter_push(last, has_tag(tag));
    vstd::utf8::encode_utf8_valid_utf8(message);
    vstd::utf8::encode_utf8_decode_utf8(message);
}

/// `remove` after `encode` with the same type succeeds, and what it returns
/// is the file without any chunk of that type: it parses as the chunks of
/// the file that had another type, and none of that type is found in it.
pub proof fn lemma_remove_after_encode(png: Seq<u8>, tag: Seq<char>, message: Seq<u8>)
    requires
        message.len() <= u32::MAX,
        encoded(png, tag, message) is Ok,
    ensures
        removed(encoded(png, tag, message)->Ok_0, tag) is Ok,
        parse_png(removed(encoded(png, tag, message)->Ok_0, tag)->Ok_0) == Ok::<
            Seq<ChunkView>,
            PngError,
        >(parse_png(png)->Ok_0.filter(lacks_tag(tag))),
        parse_png(png)->Ok_0.filter(lacks_tag(tag)).filter(has_tag(tag)).len() == 0,
{
    let chunks = parse_png(png)->Ok_0;
    let last = ChunkView { chunk_type: tag_of_text(tag), data: message };
    lemma_parse_encoded(png, tag, message);
    lemma_text_of_parsed_tag(tag);
    assert(has_tag(tag)(last));
    assert(!lacks_tag(tag)(last));
    chunks.lemma_filter_push(last, has_tag(tag));
    chunks.lemma_filter_push(last, lacks_tag(tag));
    lemma_serialize_parsed_png(png);
    lemma_filter_wf(chunks, lacks_tag(tag));
    lemma_parse_serialized_png(chunks.filter(lacks_tag(tag)));
    lemma_none_left(chunks, tag);
}

/// Appends to the PNG stream `png` a chunk of the type `args.chunk_type`
/// that carries `args.message`, and returns the new stream.
pub fn encode(args: &EncodeArgs, png: &[u8]) -> (r: Result<Vec<u8>, PngError>)
    requires
        encode_utf8(args.message@).len() <= u32::MAX,
    ensures
        match r {
            Ok(out) => encoded(png@, args.chunk_type@, encode_utf8(args.message@)) == Ok::<
                Seq<u8>,
                PngError,
            >(out@),
            Err(e) => encoded(png@, args.chunk_type@, encode_utf8(args.message@)) == Err::<
                Seq<u8>,
                PngError,
            >(e),
        },
{
    let mut container = match PngContainer::parse(png) {
        Ok(container) => container,
        Err(e) => {
            return Err(e);
        },
    };
    let chunk_type = match ChunkType::from_str(args.chunk_type.as_str()) {
        Ok(chunk_type) => chunk_type,
        Err(e) => {
            return Err(e);
        },
    };
    let message: Vec<u8> = slice_to_vec(args.message.as_str().as_bytes());
    container.append_chunk(Chunk::new(chunk_type, message));
    Ok(container.serialize())
}

/// Reads from the PNG stream `png` the message that the first chunk of the
/// type `args.chunk_type` carries.
pub fn decode(args: &DecodeArgs, png: &[u8]) -> (r: Result<String, PngError>)
    ensures
        match r {
            Ok(message) => decoded(png@, args.chunk_type@) == Ok::<Seq<char>, PngError>(message@),
            Err(e) => decoded(png@, args.chunk_type@) == Err::<Seq<char>, PngError>(e),
        },
{
    let container = match PngContainer::parse(png) {
        Ok(container) => container,
        Err(e) => {
            return Err(e);
        },
    };
    let found: Vec<&Chunk> = container.find_chunks_by_type(args.chunk_type.as_str());
    if found.len() == 0 {
        return Err(PngError::ChunkNotFound);
    }
    found[0].data_as_string()
}

/// Takes out of the PNG stream `png` the chunks of the type
/// `args.chunk_type`, and returns the new stream.
pub fn remove(args: &RemoveArgs, png: &[u8]) -> (r: Result<Vec<u8>, PngError>)
    ensures
        match r {
            Ok(out) => removed(png@, args.chunk_type@) == Ok::<Seq<u8>, PngError>(out@),
            Err(e) => removed(png@, args.chunk_type@) == Err::<Seq<u8>, PngError>(e),
        },
{
    let mut container = match PngContainer::parse(png) {
        Ok(container) => container,
        Err(e) => {
            return Err(e);
        },
    };
    match container.remove_chunks_by_type(args.chunk_type.as_str()) {
        Ok(_) => Ok(container.serialize()),
        Err(e) => Err(e),
    }
}

/// The summary of each chunk of the PNG stream `png`, in the order of the
/// stream.
pub fn print(png: &[u8]) -> (r: Result<Vec<String>, PngError>)
    ensures
        match r {
            Ok(lines) => printed(png@) == Ok::<Seq<Seq<char>>, PngError>(texts(lines@)),
            Err(e) => printed(png@) == Err::<Seq<Seq<char>>, PngError>(e),
        },
{
    let container = match PngContainer::parse(png) {
        Ok(container) => container,
        Err(e) => {
            return Err(e);
        },
    };
    let chunks: &[Chunk] = container.chunks();
    let mut lines: Vec<String> = Vec::new();
    let mut i: usize = 0;
    while i < chunks.len()
        invariant
            i <= chunks@.len(),
            lines@.len() == i,
            forall|j: int| 0 <= j < i ==> (#[trigger] lines@[j])@ == summary(chunks@[j]@),
        decreases chunks@.len() - i,
    {
        lines.push(chunks[i].to_string());
        i += 1;
    }
    assert(texts(lines@) =~= container@.map_values(|chunk: ChunkView| summary(chunk)));
    Ok(lines)
}

/// Runs the command of `cli` on the contents `png` of the file that the
/// command reads.
pub fn run(cli: &Cli, png: &[u8]) -> (r: Result<Outcome, PngError>)
    requires
        cli.command matches PngMeArgs::Encode(args) ==> encode_utf8(args.message@).len()
            <= u32::MAX,
    ensures
        match r {
            Ok(outcome) => ran(cli.command, png@) == Ok::<OutcomeView, PngError>(outcome@),
            Err(e) => ran(cli.command, png@) == Err::<OutcomeView, PngError>(e),
        },
{
    match &cli.command {
        PngMeArgs::Encode(args) => match encode(args, png) {
            Ok(out) => Ok(Outcome::Write(out)),
            Err(e) => Err(e),
        },
        PngMeArgs::Decode(args) => match decode(args, png) {
            Ok(message) => {
                let mut lines: Vec<String> = Vec::new();
                lines.push(message);
                assert(texts(lines@) =~= seq![message@]);
                Ok(Outcome::Show(lines))
            },
            Err(e) => Err(e),
        },
        PngMeArgs::Remove(args) => match remove(args, png) {
            Ok(out) => Ok(Outcome::Write(out)),
            Err(e) => Err(e),
        },
        PngMeArgs::Print(_) => match print(png) {
            Ok(lines) => Ok(Outcome::Show(lines)),
            Err(e) => Err(e),
        },
    }
}

} // verus!
