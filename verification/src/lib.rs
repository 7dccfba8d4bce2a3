//! A codec for PNG chunks and for the container that holds them.
//!
//! A PNG stream is a fixed signature followed by chunks. Each chunk carries a
//! four-letter type tag, a payload and a CRC-32 over both. The library parses
//! and serializes chunks and whole streams, and finds, appends and removes
//! chunks by their tag.

pub mod args;
pub mod checksum;
pub mod chunk;
pub mod chunk_type;
pub mod commands;
pub mod decimal;
pub mod endian;
pub mod error;
pub mod png;
pub mod text;
