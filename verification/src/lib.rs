//! Codec for a tag-length-value binary container format: a fixed 8-byte
//! signature followed by chunks, each carrying a 4-byte type tag, a
//! length-prefixed payload, and a CRC-32 integrity checksum.
use vstd::prelude::*;

pub mod args;
pub mod chunk;
pub mod commands;
pub mod chunk_type;
pub mod crc32;
pub mod error;
pub mod png;
pub mod text;
pub mod wire;

use crate::args::Config;
use crate::chunk::{Chunk, ChunkModel};
use crate::commands::{Commands, OperationResult};
use crate::crc32::crc32_of;
use crate::error::FormatError;
use crate::png::{spec_first_match, spec_parse_png, Png};
use vstd::string::{StrSliceExecFns, StringExecFns};
use vstd::utf8::{decode_utf8, encode_utf8, valid_utf8};

verus! {

/// Returns the given text unless it is empty.
pub fn check_string(s: &str) -> (r: Option<&str>)
    ensures
        match r {
            Some(t) => s@.len() > 0 && t@ == s@,
            None => s@.len() == 0,
        },
{
    if !s.is_empty() {
        Some(s)
    } else {
        None
    }
}

/// Runs one request against the codec: parse the container bytes, then
/// append, look up, remove, or report, per the command. The chunk type
/// of a lookup must render to text, and an encoded message must fit the
/// 32-bit length field; both are outside this function's contract, and
/// the caller tests for them and aborts before calling.
pub fn operation(config: &Config) -> (r: Result<OperationResult, FormatError>)
    requires
        match config.command {
            Commands::Encode(e) => encode_utf8(e.message@).len() <= u32::MAX,
            Commands::Decode(d) => valid_utf8(d.chunk_type@),
            Commands::Remove(d) => valid_utf8(d.chunk_type@),
            Commands::Print(d) => valid_utf8(d.chunk_type@),
        },
    ensures
        match config.command {
            Commands::Encode(e) => match r {
                Ok(OperationResult::EncodedPng(p)) => spec_parse_png(e.data@) is Ok && p@
                    == spec_parse_png(e.data@)->Ok_0.push(
                    (ChunkModel {
                        length: encode_utf8(e.message@).len() as u32,
                        ctype: e.chunk_type@,
                        data: encode_utf8(e.message@),
                        crc: crc32_of(e.chunk_type@ + encode_utf8(e.message@)),
                    }),
                ) && p.wf(),
                Err(err) => spec_parse_png(e.data@) == Err::<Seq<ChunkModel>, FormatError>(err),
                _ => false,
            },
            Commands::Decode(d) => match r {
                Ok(OperationResult::DecodedMessage(msg)) => spec_parse_png(d.data@) is Ok && {
                    let s = spec_parse_png(d.data@)->Ok_0;
                    let i = spec_first_match(s, decode_utf8(d.chunk_type@));
                    if i < s.len() {
                        valid_utf8(s[i].data) && msg@ == decode_utf8(s[i].data)
                    } else {
                        msg@ == "Chunk not found"@
                    }
                },
                Err(err) => spec_parse_png(d.data@) == Err::<Seq<ChunkModel>, FormatError>(err) || (
                spec_parse_png(d.data@) is Ok && err == FormatError::InvalidEncoding && {
                    let s = spec_parse_png(d.data@)->Ok_0;
                    let i = spec_first_match(s, decode_utf8(d.chunk_type@));
                    i < s.len() && !valid_utf8(s[i].data)
                }),
                _ => false,
            },
            Commands::Remove(d) => match r {
                Ok(OperationResult::RemovedChunk(c)) => spec_parse_png(d.data@) is Ok && {
                    let s = spec_parse_png(d.data@)->Ok_0;
                    let i = spec_first_match(s, decode_utf8(d.chunk_type@));
                    i < s.len() && c@ == s[i]
                },
                Err(err) => spec_parse_png(d.data@) == Err::<Seq<ChunkModel>, FormatError>(err) || (
                spec_parse_png(d.data@) is Ok && err == FormatError::ChunkNotFound && {
                    let s = spec_parse_png(d.data@)->Ok_0;
                    spec_first_match(s, decode_utf8(d.chunk_type@)) == s.len()
                }),
                _ => false,
            },
            Commands::Print(d) => match r {
                Ok(OperationResult::PrintedInfo(ct)) => spec_parse_png(d.data@) is Ok && {
                    let s = spec_parse_png(d.data@)->Ok_0;
                    let i = spec_first_match(s, decode_utf8(d.chunk_type@));
                    i < s.len() && ct@ == s[i].ctype
                },
                Err(err) => spec_parse_png(d.data@) == Err::<Seq<ChunkModel>, FormatError>(err) || (
                spec_parse_png(d.data@) is Ok && err == FormatError::ChunkNotFound && {
                    let s = spec_parse_png(d.data@)->Ok_0;
                    spec_first_match(s, decode_utf8(d.chunk_type@)) == s.len()
                }),
                _ => false,
            },
        },
{
    match &config.command {
        Commands::Encode(encode_cmd) => {
            let mut png = match Png::parse(encode_cmd.data().as_slice()) {
                Ok(p) => p,
                Err(e) => {
                    return Err(e);
                },
            };
            let message_bytes = encode_cmd.message().as_str().as_bytes_vec();
            let new_chunk = Chunk::new(*encode_cmd.chunk_type(), message_bytes);
            png.append_chunk(new_chunk);
            Ok(OperationResult::EncodedPng(png))
        },
        Commands::Decode(decode_cmd) => {
            let png = match Png::parse(decode_cmd.data().as_slice()) {
                Ok(p) => p,
                Err(e) => {
                    return Err(e);
                },
            };
            let text = decode_cmd.chunk_type().to_text();
            let message = match png.chunk_by_type(text.as_str()) {
                Some(chunk) => match chunk.data_as_string() {
                    Ok(m) => m,
                    Err(e) => {
                        return Err(e);
                    },
                },
                None => String::from_str("Chunk not found"),
            };
            Ok(OperationResult::DecodedMessage(message))
        },
        Commands::Remove(remove_cmd) => {
            let mut png = match Png::parse(remove_cmd.data().as_slice()) {
                Ok(p) => p,
                Err(e) => {
                    return Err(e);
                },
            };
            let text = remove_cmd.chunk_type().to_text();
            match png.remove_chunk(text.as_str()) {
                Ok(chunk) => Ok(OperationResult::RemovedChunk(chunk)),
                Err(e) => Err(e),
            }
        },
        Commands::Print(print_cmd) => {
            let png = match Png::parse(print_cmd.data().as_slice()) {
                Ok(p) => p,
                Err(e) => {
                    return Err(e);
                },
            };
            let text = print_cmd.chunk_type().to_text();
            match png.chunk_by_type(text.as_str()) {
                Some(chunk) => Ok(OperationResult::PrintedInfo(chunk.chunk_type())),
                None => Err(FormatError::ChunkNotFound),
            }
        },
    }
}

} // verus!
