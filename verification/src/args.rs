//! The four commands and what each is given.

use vstd::prelude::*;
use std::path::PathBuf;

verus! {

/// A path in the file system. The library carries paths and never reads
/// them.
#[verifier::external_type_specification]
#[verifier::external_body]
pub struct ExPathBuf(PathBuf);

/// One invocation: the command to run.
pub struct Cli {
    pub command: PngMeArgs,
}

/// The commands.
pub enum PngMeArgs {
    /// Hide a message in a file.
    Encode(EncodeArgs),
    /// Show the message hidden in a file.
    Decode(DecodeArgs),
    /// Take a message out of a file.
    Remove(RemoveArgs),
    /// Show the chunks of a file.
    Print(PrintArgs),
}

/// What `encode` is given.
pub struct EncodeArgs {
    /// The PNG file to read.
    pub file_path: PathBuf,
    /// The type tag of the chunk that will carry the message.
    pub chunk_type: String,
    /// The message.
    pub message: String,
    /// Where to write the result; the file that was read, where this is
    /// `None`.
    pub output_file: Option<PathBuf>,
}

/// What `decode` is given.
pub struct DecodeArgs {
    /// The PNG file to read.
    pub file_path: PathBuf,
    /// The type tag of the chunk that carries the message.
    pub chunk_type: String,
}

/// What `remove` is given.
pub struct RemoveArgs {
    /// The PNG file to change.
    pub file_path: PathBuf,
    /// The type tag of the chunks to take out.
    pub chunk_type: String,
}

/// What `print` is given.
pub struct PrintArgs {
    /// The PNG file to read.
    pub file_path: PathBuf,
}

impl PngMeArgs {
    /// The file that the command reads.
    pub fn source(&self) -> (path: &PathBuf)
        ensures
            *path == match *self {
                PngMeArgs::Encode(args) => args.file_path,
                PngMeArgs::Decode(args) => args.file_path,
                PngMeArgs::Remove(args) => args.file_path,
                PngMeArgs::Print(args) => args.file_path,
            },
    {
        match self {
            PngMeArgs::Encode(args) => &args.file_path,
            PngMeArgs::Decode(args) => &args.file_path,
            PngMeArgs::Remove(args) => &args.file_path,
            PngMeArgs::Print(args) => &args.file_path,
        }
    }

    /// The file that the command writes, if it writes one: `encode` the
    /// output file it was given, or else the file it read; `remove` the file
    /// it read.
    pub fn target(&self) -> (path: Option<&PathBuf>)
        ensures
            path == match *self {
                PngMeArgs::Encode(args) => match args.output_file {
                    Some(output) => Some(&output),
                    None => Some(&args.file_path),
                },
                PngMeArgs::Remove(args) => Some(&args.file_path),
                PngMeArgs::Decode(_) => None::<&PathBuf>,
                PngMeArgs::Print(_) => None::<&PathBuf>,
            },
    {
        match self {
            PngMeArgs::Encode(args) => match &args.output_file {
                Some(output) => Some(output),
                None => Some(&args.file_path),
            },
            PngMeArgs::Remove(args) => Some(&args.file_path),
            PngMeArgs::Decode(_) => None,
            PngMeArgs::Print(_) => None,
        }
    }
}

} // verus!
