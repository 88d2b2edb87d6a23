//! The four requests a caller can make of the codec, with the plain
//! values each carries.
use vstd::prelude::*;

use crate::chunk::Chunk;
use crate::chunk_type::ChunkType;
use crate::png::Png;

verus! {

/// One request: hide a message, read one back, remove a chunk, or
/// report on one.
#[derive(Debug)]
pub enum Commands {
    Encode(EncodeCommand),
    Decode(DataCommand),
    Remove(DataCommand),
    Print(DataCommand),
}

/// A request that needs only the container bytes and a chunk type.
#[derive(Debug)]
pub struct DataCommand {
    pub data: Vec<u8>,
    pub chunk_type: ChunkType,
}

impl DataCommand {
    /// Bundles the container bytes with the requested chunk type.
    pub fn new(data: Vec<u8>, chunk_type: ChunkType) -> (r: DataCommand)
        ensures
            r.data@ == data@,
            r.chunk_type == chunk_type,
    {
        DataCommand { data, chunk_type }
    }

    /// The container bytes the request works on.
    pub fn data(&self) -> (r: &Vec<u8>)
        ensures
            r@ == self.data@,
    {
        &self.data
    }

    /// The chunk type the request names.
    pub fn chunk_type(&self) -> (r: &ChunkType)
        ensures
            *r == self.chunk_type,
    {
        &self.chunk_type
    }
}

/// The encode request: container bytes, a chunk type, the message to
/// hide, and where to write the result (empty for nowhere).
#[derive(Debug)]
pub struct EncodeCommand {
    pub data: Vec<u8>,
    pub chunk_type: ChunkType,
    pub message: String,
    pub output: String,
}

impl EncodeCommand {
    /// Bundles everything the encode request needs.
    pub fn new(data: Vec<u8>, chunk_type: ChunkType, message: String, output: String) -> (r:
        EncodeCommand)
        ensures
            r.data@ == data@,
            r.chunk_type == chunk_type,
            r.message@ == message@,
            r.output@ == output@,
    {
        EncodeCommand { data, chunk_type, message, output }
    }

    /// The message to hide.
    pub fn message(&self) -> (r: &String)
        ensures
            r@ == self.message@,
    {
        &self.message
    }

    /// Where to write the result; empty for nowhere.
    pub fn output(&self) -> (r: &String)
        ensures
            r@ == self.output@,
    {
        &self.output
    }

    /// The container bytes the request works on.
    pub fn data(&self) -> (r: &Vec<u8>)
        ensures
            r@ == self.data@,
    {
        &self.data
    }

    /// The chunk type the request names.
    pub fn chunk_type(&self) -> (r: &ChunkType)
        ensures
            *r == self.chunk_type,
    {
        &self.chunk_type
    }
}

/// What a completed request hands back.
#[derive(Debug)]
pub enum OperationResult {
    /// The container with the new chunk appended.
    EncodedPng(Png),
    /// The decoded message, or the fixed not-found text when the
    /// container has no chunk of the requested type.
    DecodedMessage(String),
    /// The chunk that was removed.
    RemovedChunk(Chunk),
    /// The type of the chunk to report on.
    PrintedInfo(ChunkType),
}

} // verus!
