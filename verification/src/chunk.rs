//! The chunk log: one fixed-size entry per chunk of a chunked token blob.
use crate::le::{
    le_bytes_u32, lemma_u32_le_roundtrip, put_u32_le, read_u32_le, u32_from_le,
};
use crate::{RsvpError, RsvpResult};
use vstd::prelude::*;

verus! {

/// Where one chunk of a chunked token blob lies, and which tokens it holds.
#[derive(Debug, Clone, Copy, PartialEq, Eq, Structural)]
pub struct ChunkLog {
    /// The length of the chunk
    pub len: u32,
    /// The offset in bytes from the start of the file to the beginning of this chunk.
    pub offset: u32,
    /// The index of the first token in this chunk, relative to the entire token stream.
    pub first_token_index: u32,
}

/// The 12 bytes of a chunk log entry: its length, offset and first token index, each a
/// little-endian `u32`.
pub open spec fn chunk_log_bytes(c: ChunkLog) -> Seq<u8> {
    le_bytes_u32(c.len) + le_bytes_u32(c.offset) + le_bytes_u32(c.first_token_index)
}

/// What reading a chunk log entry from `s` gives: the entry its first 12 bytes describe, or
/// `InvalidHeader` where `s` is shorter than that.
pub open spec fn chunk_log_from_bytes(s: Seq<u8>) -> RsvpResult<ChunkLog> {
    if s.len() < 12 {
        Err(RsvpError::InvalidHeader)
    } else {
        Ok(
            ChunkLog {
                len: u32_from_le(s.subrange(0, 4)),
                offset: u32_from_le(s.subrange(4, 8)),
                first_token_index: u32_from_le(s.subrange(8, 12)),
            },
        )
    }
}

impl ChunkLog {
    /// The size in bytes of an entry, in memory and in the file: three `u32` with no padding.
    pub const SIZE: usize = 12;

    /// The entry's bytes as they stand in the file.
    pub fn as_bytes(&self) -> (r: [u8; 12])
        ensures
            r@ == chunk_log_bytes(*self),
            r@.subrange(0, 4) == le_bytes_u32(self.len),
            r@.subrange(4, 8) == le_bytes_u32(self.offset),
            r@.subrange(8, 12) == le_bytes_u32(self.first_token_index),
    {
        proof {
            lemma_chunk_log_bytes_fields(*self);
        }
        let mut bytes = [0u8; 12];
        put_u32_le(&mut bytes, 0, self.len);
        put_u32_le(&mut bytes, 4, self.offset);
        put_u32_le(&mut bytes, 8, self.first_token_index);
        assert(bytes@ =~= chunk_log_bytes(*self));
        bytes
    }
}

impl From<&ChunkLog> for [u8; 12] {
    /// The entry's bytes as they stand in the file.
    fn from(value: &ChunkLog) -> (r: [u8; 12])
        ensures
            r@ == chunk_log_bytes(*value),
    {
        let r = value.as_bytes();
        proof {
            let a = choose|a: [u8; 12]| a@ == chunk_log_bytes(*value);
            assert(a@ == chunk_log_bytes(*value));
            assert(r =~= a);
        }
        r
    }
}

impl vstd::std_specs::convert::FromSpecImpl<&ChunkLog> for [u8; 12] {
    open spec fn obeys_from_spec() -> bool {
        true
    }

    open spec fn from_spec(value: &ChunkLog) -> [u8; 12] {
        choose|a: [u8; 12]| a@ == chunk_log_bytes(*value)
    }
}

impl TryFrom<&[u8]> for ChunkLog {
    type Error = RsvpError;

    /// Reads an entry from the first 12 bytes of `value`.
    fn try_from(value: &[u8]) -> (r: RsvpResult<ChunkLog>)
        ensures
            r == chunk_log_from_bytes(value@),
            (r is Ok) <==> value@.len() >= 12,
            r is Ok ==> {
                &&& le_bytes_u32(r->Ok_0.len) == value@.subrange(0, 4)
                &&& le_bytes_u32(r->Ok_0.offset) == value@.subrange(4, 8)
                &&& le_bytes_u32(r->Ok_0.first_token_index) == value@.subrange(8, 12)
            },
    {
        proof {
            lemma_chunk_log_from_bytes_fields(value@);
        }
        if value.len() < ChunkLog::SIZE {
            return Err(RsvpError::InvalidHeader);
        }
        Ok(
            ChunkLog {
                len: read_u32_le(value, 0),
                offset: read_u32_le(value, 4),
                first_token_index: read_u32_le(value, 8),
            },
        )
    }
}

impl vstd::std_specs::convert::TryFromSpecImpl<&[u8]> for ChunkLog {
    open spec fn obeys_try_from_spec() -> bool {
        true
    }

    open spec fn try_from_spec(value: &[u8]) -> RsvpResult<ChunkLog> {
        chunk_log_from_bytes(value@)
    }
}

/// Reading back the bytes of an entry gives the entry.
pub proof fn lemma_chunk_log_roundtrip(c: ChunkLog)
    ensures
        chunk_log_bytes(c).len() == ChunkLog::SIZE,
        chunk_log_from_bytes(chunk_log_bytes(c)) == Ok::<ChunkLog, RsvpError>(c),
{
    let b = chunk_log_bytes(c);
    lemma_u32_le_roundtrip(c.len, b);
    lemma_u32_le_roundtrip(c.offset, b);
    lemma_u32_le_roundtrip(c.first_token_index, b);
    assert(b.subrange(0, 4) =~= le_bytes_u32(c.len));
    assert(b.subrange(4, 8) =~= le_bytes_u32(c.offset));
    assert(b.subrange(8, 12) =~= le_bytes_u32(c.first_token_index));
}

/// Every 12 bytes are the bytes of exactly one entry: writing out the entry read from `s`
/// gives back the first 12 bytes of `s`.
pub proof fn lemma_chunk_log_reencode(s: Seq<u8>)
    requires
        s.len() >= ChunkLog::SIZE,
    ensures
        chunk_log_bytes(chunk_log_from_bytes(s)->Ok_0) == s.subrange(0, 12),
{
    let c = chunk_log_from_bytes(s)->Ok_0;
    lemma_u32_le_roundtrip(c.len, s.subrange(0, 4));
    lemma_u32_le_roundtrip(c.offset, s.subrange(4, 8));
    lemma_u32_le_roundtrip(c.first_token_index, s.subrange(8, 12));
    assert(chunk_log_bytes(c) =~= s.subrange(0, 12));
}

/// Where each field stands in the 12 bytes of an entry: the length in bytes 0..4, the offset
/// in bytes 4..8 and the first token index in bytes 8..12, each least significant byte first.
pub proof fn lemma_chunk_log_bytes_fields(c: ChunkLog)
    ensures
        chunk_log_bytes(c).len() == 12,
        chunk_log_bytes(c).subrange(0, 4) == le_bytes_u32(c.len),
        chunk_log_bytes(c).subrange(4, 8) == le_bytes_u32(c.offset),
        chunk_log_bytes(c).subrange(8, 12) == le_bytes_u32(c.first_token_index),
{
    let b = chunk_log_bytes(c);
    assert(b.subrange(0, 4) =~= le_bytes_u32(c.len));
    assert(b.subrange(4, 8) =~= le_bytes_u32(c.offset));
    assert(b.subrange(8, 12) =~= le_bytes_u32(c.first_token_index));
}

/// Reading an entry from 12 or more bytes always succeeds, and each field is the number whose
/// little-endian bytes stand at its place: the length at 0..4, the offset at 4..8 and the first
/// token index at 8..12. Fewer bytes give `InvalidHeader`.
pub proof fn lemma_chunk_log_from_bytes_fields(s: Seq<u8>)
    ensures
        s.len() < 12 ==> chunk_log_from_bytes(s) == Err::<ChunkLog, RsvpError>(RsvpError::InvalidHeader),
        s.len() >= 12 ==> {
            &&& chunk_log_from_bytes(s) is Ok
            &&& le_bytes_u32(chunk_log_from_bytes(s)->Ok_0.len) == s.subrange(0, 4)
            &&& le_bytes_u32(chunk_log_from_bytes(s)->Ok_0.offset) == s.subrange(4, 8)
            &&& le_bytes_u32(chunk_log_from_bytes(s)->Ok_0.first_token_index) == s.subrange(8, 12)
        },
{
    if s.len() >= 12 {
        let c = chunk_log_from_bytes(s)->Ok_0;
        lemma_u32_le_roundtrip(c.len, s.subrange(0, 4));
        lemma_u32_le_roundtrip(c.offset, s.subrange(4, 8));
        lemma_u32_le_roundtrip(c.first_token_index, s.subrange(8, 12));
    }
}

/// A token blob split into chunks, with the chunk log that indexes them.
#[allow(dead_code)]
pub struct ChunkedBlob<'a> {
    /// A reference to the data, either a file buffer or on flash
    file_data: &'a [u8],
    /// Raw bytes of the chunk logs, `chunk_count * size_of::<ChunkLog>`
    log_slice: &'a [u8],
    /// The index of the log
    chunk_count: u16,
    /// Hint to decompressors allocator
    max_raw_chunk_len: u32,
}

} // verus!
