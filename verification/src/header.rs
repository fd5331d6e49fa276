//! The fixed-size header at the start of an RSVP file, and the metadata block after it.
use crate::le::{
    le_bytes_u16, le_bytes_u32, le_bytes_u64, lemma_u16_le_roundtrip, lemma_u32_le_roundtrip,
    lemma_u64_le_roundtrip, put_u16_le, put_u32_le, put_u64_le, read_u16_le,
    read_u32_le, read_u64_le, u16_from_le, u32_from_le, u64_from_le,
};
use crate::{RsvpError, RsvpResult};
use vstd::prelude::*;

verus! {

/// The magic bytes at the start of every RSVP file: `%rsvp_rs`.
pub const MAGIC_VERSION: [u8; 8] = [0x25u8, 0x72u8, 0x73u8, 0x76u8, 0x70u8, 0x5fu8, 0x72u8, 0x73u8];

/// The only version of the format that this library reads and writes.
pub const VERSION_V1: u8 = 1;

/// The magic bytes `%rsvp_rs`.
pub open spec fn magic_bytes() -> Seq<u8> {
    seq![0x25u8, 0x72u8, 0x73u8, 0x76u8, 0x70u8, 0x5fu8, 0x72u8, 0x73u8]
}

/// The value of the header's `magic` field in a valid file: the magic bytes read as a
/// little-endian `u64`.
pub open spec fn magic_value() -> u64 {
    u64_from_le(magic_bytes())
}

/// How the token stream is compressed.
#[derive(Debug, Clone, Copy, PartialEq, Eq, Structural)]
pub enum CompressionType {
    /// The token stream is stored as it is.
    Uncompressed,
    /// The token stream is compressed with heatshrink.
    Heatshrink,
}

impl Default for CompressionType {
    fn default() -> (r: Self)
        ensures
            r == CompressionType::Uncompressed,
    {
        CompressionType::Uncompressed
    }
}

/// Enumerates the various layouts of the tokens
#[derive(Debug, Clone, Copy, PartialEq, Eq, Structural)]
pub enum BlobLayout {
    Empty,
    Single { token_offset: u32, token_stream_len: u32 },
    Chunked { chunk_count: u16, chunk_offsets: u32, max_chunk_length: u32 },
}

impl Default for BlobLayout {
    fn default() -> (r: Self)
        ensures
            r == BlobLayout::Empty,
    {
        BlobLayout::Empty
    }
}

/// Represents the header of an RSVP file.
#[derive(Debug, Clone, Copy, PartialEq, Eq, Structural)]
pub struct RsvpHeader {
    /// The magic number and version of the RSVP file format. Usually, this is the bytes "%rsvp_rs".
    pub magic: u64,
    /// The version of the RSVP file format
    pub version: u8,
    /// The compression type used for the token stream
    pub compression: CompressionType,
    /// Reserved for future use. Should be set to 0.
    pub _reserved: u16,
    /// The number of tokens in the token stream. Purely for informational purposes, as the token stream is self-delimiting.
    pub token_count: u32,
    /// Where the tokens lie in the file.
    pub layout: BlobLayout,
}

impl Default for RsvpHeader {
    /// The all-zero header, with no compression and no tokens.
    fn default() -> (r: Self)
        ensures
            r == (RsvpHeader {
                magic: 0,
                version: 0,
                compression: CompressionType::Uncompressed,
                _reserved: 0,
                token_count: 0,
                layout: BlobLayout::Empty,
            }),
    {
        RsvpHeader {
            magic: 0,
            version: 0,
            compression: CompressionType::Uncompressed,
            _reserved: 0,
            token_count: 0,
            layout: BlobLayout::Empty,
        }
    }
}

/// `n` zero bytes.
pub open spec fn zeros(n: nat) -> Seq<u8> {
    Seq::new(n, |_i: int| 0u8)
}

/// The byte that stands for a compression type.
pub open spec fn compression_code(c: CompressionType) -> u8 {
    match c {
        CompressionType::Uncompressed => 0,
        CompressionType::Heatshrink => 1,
    }
}

/// The compression type that a byte stands for, if any.
pub open spec fn compression_from_code(b: u8) -> Option<CompressionType> {
    if b == 0 {
        Some(CompressionType::Uncompressed)
    } else if b == 1 {
        Some(CompressionType::Heatshrink)
    } else {
        None
    }
}

/// The 16 bytes that describe a layout: a tag byte, a zero byte, the layout's fields in
/// little-endian order, and zeros to fill.
pub open spec fn layout_bytes(l: BlobLayout) -> Seq<u8> {
    match l {
        BlobLayout::Empty => zeros(16),
        BlobLayout::Single { token_offset, token_stream_len } => seq![1u8, 0u8] + le_bytes_u32(token_offset)
            + le_bytes_u32(token_stream_len) + zeros(6),
        BlobLayout::Chunked { chunk_count, chunk_offsets, max_chunk_length } => seq![2u8, 0u8]
            + le_bytes_u16(chunk_count) + le_bytes_u32(chunk_offsets) + le_bytes_u32(max_chunk_length)
            + zeros(4),
    }
}

/// The layout that 16 bytes describe, if their tag byte is known.
pub open spec fn layout_from_bytes(b: Seq<u8>) -> Option<BlobLayout> {
    if b[0] == 0 {
        Some(BlobLayout::Empty)
    } else if b[0] == 1 {
        Some(
            BlobLayout::Single {
                token_offset: u32_from_le(b.subrange(2, 6)),
                token_stream_len: u32_from_le(b.subrange(6, 10)),
            },
        )
    } else if b[0] == 2 {
        Some(
            BlobLayout::Chunked {
                chunk_count: u16_from_le(b.subrange(2, 4)),
                chunk_offsets: u32_from_le(b.subrange(4, 8)),
                max_chunk_length: u32_from_le(b.subrange(8, 12)),
            },
        )
    } else {
        None
    }
}

/// The 32 bytes of a header: magic, version, compression, reserved, token count, layout.
pub open spec fn header_bytes(h: RsvpHeader) -> Seq<u8> {
    le_bytes_u64(h.magic) + seq![h.version, compression_code(h.compression)] + le_bytes_u16(h._reserved)
        + le_bytes_u32(h.token_count) + layout_bytes(h.layout)
}

/// What reading a header from `s` gives: the header its first 32 bytes describe, or the
/// first check that fails, in this order: length (`UnexpectedEof`), magic (`InvalidMagic`),
/// version (`UnsupportedVersion`), compression and layout (`InvalidHeader`).
pub open spec fn header_from_bytes(s: Seq<u8>) -> RsvpResult<RsvpHeader> {
    if s.len() < 32 {
        Err(RsvpError::UnexpectedEof)
    } else if s.subrange(0, 8) != magic_bytes() {
        Err(RsvpError::InvalidMagic)
    } else if s[8] != VERSION_V1 {
        Err(RsvpError::UnsupportedVersion)
    } else {
        match (compression_from_code(s[9]), layout_from_bytes(s.subrange(16, 32))) {
            (Some(compression), Some(layout)) => Ok(
                RsvpHeader {
                    magic: u64_from_le(s.subrange(0, 8)),
                    version: s[8],
                    compression,
                    _reserved: u16_from_le(s.subrange(10, 12)),
                    token_count: u32_from_le(s.subrange(12, 16)),
                    layout,
                },
            ),
            _ => Err(RsvpError::InvalidHeader),
        }
    }
}

impl RsvpHeader {
    /// The length in bytes of an encoded header.
    pub const HEADER_LEN: usize = 32;

    /// A header with the magic bytes and version 1, no compression, no tokens and an empty layout.
    pub fn new() -> (r: Self)
        ensures
            r == (RsvpHeader {
                magic: magic_value(),
                version: VERSION_V1,
                compression: CompressionType::Uncompressed,
                _reserved: 0,
                token_count: 0,
                layout: BlobLayout::Empty,
            }),
    {
        let magic = read_u64_le(MAGIC_VERSION.as_slice(), 0);
        proof {
            assert(MAGIC_VERSION@.subrange(0, 8) =~= magic_bytes());
        }
        RsvpHeader { magic, version: VERSION_V1, ..Default::default() }
    }

    /// Sets the compression type for the header.
    pub fn with_compression(&mut self, compression: CompressionType)
        ensures
            *final(self) == (RsvpHeader { compression, ..*old(self) }),
    {
        self.compression = compression;
    }

    /// Sets the token count for the header.
    pub fn with_token_count(&mut self, token_count: u32)
        ensures
            *final(self) == (RsvpHeader { token_count, ..*old(self) }),
    {
        self.token_count = token_count;
    }

    /// Sets the token offset and token stream length for the header.
    pub fn with_token_offset_and_stream_len(&mut self, token_offset: u32, token_stream_len: u32)
        ensures
            *final(self) == (RsvpHeader {
                layout: BlobLayout::Single { token_offset, token_stream_len },
                ..*old(self)
            }),
    {
        self.layout = BlobLayout::Single { token_offset, token_stream_len }
    }

    /// Describes a token blob split into `chunk_count` chunks, whose chunk log starts at
    /// `chunk_offsets` and whose longest chunk holds `max_chunk_length` bytes.
    pub fn with_chunked_blob(&mut self, chunk_count: u16, chunk_offsets: u32, max_chunk_length: u32)
        ensures
            *final(self) == (RsvpHeader {
                layout: BlobLayout::Chunked { chunk_count, chunk_offsets, max_chunk_length },
                ..*old(self)
            }),
    {
        self.layout = BlobLayout::Chunked { chunk_count, chunk_offsets, max_chunk_length }
    }

    /// Converts the RsvpHeader into a byte array representation.
    pub fn to_bytes(&self) -> (r: [u8; 32])
        ensures
            r@ == header_bytes(*self),
    {
        let mut bytes = [0u8; 32];
        put_u64_le(&mut bytes, 0, self.magic);
        bytes[8] = self.version;
        bytes[9] = match self.compression {
            CompressionType::Uncompressed => 0,
            CompressionType::Heatshrink => 1,
        };
        put_u16_le(&mut bytes, 10, self._reserved);
        put_u32_le(&mut bytes, 12, self.token_count);
        match self.layout {
            BlobLayout::Empty => {},
            BlobLayout::Single { token_offset, token_stream_len } => {
                bytes[16] = 1;
                put_u32_le(&mut bytes, 18, token_offset);
                put_u32_le(&mut bytes, 22, token_stream_len);
            },
            BlobLayout::Chunked { chunk_count, chunk_offsets, max_chunk_length } => {
                bytes[16] = 2;
                put_u16_le(&mut bytes, 18, chunk_count);
                put_u32_le(&mut bytes, 20, chunk_offsets);
                put_u32_le(&mut bytes, 24, max_chunk_length);
            },
        }
        assert(bytes@ =~= header_bytes(*self));
        bytes
    }
}

/// Reading back the bytes of a layout gives the layout.
pub proof fn lemma_layout_roundtrip(l: BlobLayout)
    ensures
        layout_bytes(l).len() == 16,
        layout_from_bytes(layout_bytes(l)) == Some(l),
{
    let b = layout_bytes(l);
    match l {
        BlobLayout::Empty => {},
        BlobLayout::Single { token_offset, token_stream_len } => {
            lemma_u32_le_roundtrip(token_offset, b);
            lemma_u32_le_roundtrip(token_stream_len, b);
            assert(b.subrange(2, 6) =~= le_bytes_u32(token_offset));
            assert(b.subrange(6, 10) =~= le_bytes_u32(token_stream_len));
        },
        BlobLayout::Chunked { chunk_count, chunk_offsets, max_chunk_length } => {
            lemma_u16_le_roundtrip(chunk_count, b);
            lemma_u32_le_roundtrip(chunk_offsets, b);
            lemma_u32_le_roundtrip(max_chunk_length, b);
            assert(b.subrange(2, 4) =~= le_bytes_u16(chunk_count));
            assert(b.subrange(4, 8) =~= le_bytes_u32(chunk_offsets));
            assert(b.subrange(8, 12) =~= le_bytes_u32(max_chunk_length));
        },
    }
}

/// The bytes of a header are 32 long, and reading them back gives the header itself
/// exactly when its magic and version are those of the format; otherwise the magic is
/// refused first, then the version.
pub proof fn lemma_header_roundtrip(h: RsvpHeader)
    ensures
        header_bytes(h).len() == RsvpHeader::HEADER_LEN,
        header_from_bytes(header_bytes(h)) == (if h.magic != magic_value() {
            Err(RsvpError::InvalidMagic)
        } else if h.version != VERSION_V1 {
            Err(RsvpError::UnsupportedVersion)
        } else {
            Ok(h)
        }),
{
    let b = header_bytes(h);
    lemma_u64_le_roundtrip(h.magic, magic_bytes());
    lemma_u16_le_roundtrip(h._reserved, b);
    lemma_u32_le_roundtrip(h.token_count, b);
    lemma_layout_roundtrip(h.layout);
    assert(b.subrange(0, 8) =~= le_bytes_u64(h.magic));
    assert(b.subrange(10, 12) =~= le_bytes_u16(h._reserved));
    assert(b.subrange(12, 16) =~= le_bytes_u32(h.token_count));
    assert(b.subrange(16, 32) =~= layout_bytes(h.layout));
    if h.magic != magic_value() {
        assert(b.subrange(0, 8) != magic_bytes());
    } else {
        assert(b.subrange(0, 8) == magic_bytes());
    }
}

/// Writing out a header that was read from `s` gives back the bytes of `s` up to the layout's
/// tag, and reading those bytes back gives the same header.
pub proof fn lemma_header_reencode(s: Seq<u8>)
    requires
        header_from_bytes(s) is Ok,
    ensures
        header_bytes(header_from_bytes(s)->Ok_0).subrange(0, 17) == s.subrange(0, 17),
        header_from_bytes(header_bytes(header_from_bytes(s)->Ok_0)) == header_from_bytes(s),
{
    let h = header_from_bytes(s)->Ok_0;
    let b = header_bytes(h);
    lemma_u64_le_roundtrip(h.magic, s.subrange(0, 8));
    lemma_u16_le_roundtrip(h._reserved, s.subrange(10, 12));
    lemma_u32_le_roundtrip(h.token_count, s.subrange(12, 16));
    lemma_layout_roundtrip(h.layout);
    assert(b.subrange(0, 17) =~= s.subrange(0, 17));
    lemma_header_roundtrip(h);
}

/// Reading a header looks only at the first 32 bytes: what follows them makes no difference.
pub proof fn lemma_header_reads_prefix(s: Seq<u8>, t: Seq<u8>)
    requires
        s.len() >= RsvpHeader::HEADER_LEN,
        t.len() >= RsvpHeader::HEADER_LEN,
        s.subrange(0, 32) == t.subrange(0, 32),
    ensures
        header_from_bytes(s) == header_from_bytes(t),
{
    assert(s.subrange(0, 8) =~= s.subrange(0, 32).subrange(0, 8));
    assert(t.subrange(0, 8) =~= t.subrange(0, 32).subrange(0, 8));
    assert(s.subrange(10, 12) =~= t.subrange(10, 12)) by {
        assert(s.subrange(10, 12) =~= s.subrange(0, 32).subrange(10, 12));
        assert(t.subrange(10, 12) =~= t.subrange(0, 32).subrange(10, 12));
    }
    assert(s.subrange(12, 16) =~= t.subrange(12, 16)) by {
        assert(s.subrange(12, 16) =~= s.subrange(0, 32).subrange(12, 16));
        assert(t.subrange(12, 16) =~= t.subrange(0, 32).subrange(12, 16));
    }
    assert(s.subrange(16, 32) =~= t.subrange(16, 32)) by {
        assert(s.subrange(16, 32) =~= s.subrange(0, 32).subrange(16, 32));
        assert(t.subrange(16, 32) =~= t.subrange(0, 32).subrange(16, 32));
    }
    assert(s[8] == s.subrange(0, 32)[8] && t[8] == t.subrange(0, 32)[8]);
    assert(s[9] == s.subrange(0, 32)[9] && t[9] == t.subrange(0, 32)[9]);
}

/// Where each field stands in the 32 bytes of a header, each number least significant byte
/// first: the magic in bytes 0..8, the version in byte 8, the compression in byte 9 (0 for none,
/// 1 for heatshrink), the reserved field in 10..12, the token count in 12..16, the layout's tag
/// in byte 16 (0 empty, 1 single, 2 chunked) and a zero in byte 17. A single layout puts its
/// token offset in 18..22 and its stream length in 22..26; a chunked one its chunk count in
/// 18..20, its chunk log offset in 20..24 and its longest chunk's length in 24..28. Every byte
/// of the layout that holds no field is zero.
pub proof fn lemma_header_bytes_fields(h: RsvpHeader)
    ensures
        ({
            let b = header_bytes(h);
            &&& b.len() == 32
            &&& b.subrange(0, 8) == le_bytes_u64(h.magic)
            &&& b[8] == h.version
            &&& b[9] == (if h.compression == CompressionType::Uncompressed { 0u8 } else { 1u8 })
            &&& b.subrange(10, 12) == le_bytes_u16(h._reserved)
            &&& b.subrange(12, 16) == le_bytes_u32(h.token_count)
            &&& b[17] == 0
            &&& match h.layout {
                BlobLayout::Empty => {
                    &&& b[16] == 0
                    &&& forall|i: int| 17 <= i < 32 ==> b[i] == 0
                },
                BlobLayout::Single { token_offset, token_stream_len } => {
                    &&& b[16] == 1
                    &&& b.subrange(18, 22) == le_bytes_u32(token_offset)
                    &&& b.subrange(22, 26) == le_bytes_u32(token_stream_len)
                    &&& forall|i: int| 26 <= i < 32 ==> b[i] == 0
                },
                BlobLayout::Chunked { chunk_count, chunk_offsets, max_chunk_length } => {
                    &&& b[16] == 2
                    &&& b.subrange(18, 20) == le_bytes_u16(chunk_count)
                    &&& b.subrange(20, 24) == le_bytes_u32(chunk_offsets)
                    &&& b.subrange(24, 28) == le_bytes_u32(max_chunk_length)
                    &&& forall|i: int| 28 <= i < 32 ==> b[i] == 0
                },
            }
        }),
{
    let b = header_bytes(h);
    assert(b.subrange(0, 8) =~= le_bytes_u64(h.magic));
    assert(b.subrange(10, 12) =~= le_bytes_u16(h._reserved));
    assert(b.subrange(12, 16) =~= le_bytes_u32(h.token_count));
    match h.layout {
        BlobLayout::Empty => {},
        BlobLayout::Single { token_offset, token_stream_len } => {
            assert(b.subrange(18, 22) =~= le_bytes_u32(token_offset));
            assert(b.subrange(22, 26) =~= le_bytes_u32(token_stream_len));
        },
        BlobLayout::Chunked { chunk_count, chunk_offsets, max_chunk_length } => {
            assert(b.subrange(18, 20) =~= le_bytes_u16(chunk_count));
            assert(b.subrange(20, 24) =~= le_bytes_u32(chunk_offsets));
            assert(b.subrange(24, 28) =~= le_bytes_u32(max_chunk_length));
        },
    }
}

/// What reading a header from `s` gives, check by check: `UnexpectedEof` below 32 bytes,
/// `InvalidMagic` unless the first 8 bytes are `%rsvp_rs`, `UnsupportedVersion` unless byte 8
/// is 1, `InvalidHeader` unless the compression byte 9 is 0 or 1 and the layout tag byte 16 is
/// 0, 1 or 2. Otherwise it succeeds, and each field is the number whose little-endian bytes
/// stand at the field's place (see `lemma_header_bytes_fields`); the compression is none for 0
/// and heatshrink for 1, and the tag picks the layout.
pub proof fn lemma_header_from_bytes_fields(s: Seq<u8>)
    ensures
        s.len() < 32 ==> header_from_bytes(s) == Err::<RsvpHeader, RsvpError>(RsvpError::UnexpectedEof),
        s.len() >= 32 && s.subrange(0, 8) != seq![0x25u8, 0x72u8, 0x73u8, 0x76u8, 0x70u8, 0x5fu8, 0x72u8, 0x73u8]
            ==> header_from_bytes(s) == Err::<RsvpHeader, RsvpError>(RsvpError::InvalidMagic),
        s.len() >= 32 && s.subrange(0, 8) == seq![0x25u8, 0x72u8, 0x73u8, 0x76u8, 0x70u8, 0x5fu8, 0x72u8, 0x73u8]
            && s[8] != 1 ==> header_from_bytes(s) == Err::<RsvpHeader, RsvpError>(
            RsvpError::UnsupportedVersion,
        ),
        s.len() >= 32 && s.subrange(0, 8) == seq![0x25u8, 0x72u8, 0x73u8, 0x76u8, 0x70u8, 0x5fu8, 0x72u8, 0x73u8]
            && s[8] == 1 && (s[9] > 1 || s[16] > 2) ==> header_from_bytes(s) == Err::<RsvpHeader, RsvpError>(
            RsvpError::InvalidHeader,
        ),
        s.len() >= 32 && s.subrange(0, 8) == seq![0x25u8, 0x72u8, 0x73u8, 0x76u8, 0x70u8, 0x5fu8, 0x72u8, 0x73u8]
            && s[8] == 1 && s[9] <= 1 && s[16] <= 2 ==> {
            let h = header_from_bytes(s)->Ok_0;
            &&& header_from_bytes(s) is Ok
            &&& le_bytes_u64(h.magic) == s.subrange(0, 8)
            &&& h.version == 1
            &&& (h.compression == CompressionType::Uncompressed <==> s[9] == 0)
            &&& le_bytes_u16(h._reserved) == s.subrange(10, 12)
            &&& le_bytes_u32(h.token_count) == s.subrange(12, 16)
            &&& (s[16] == 0 ==> h.layout == BlobLayout::Empty)
            &&& (s[16] == 1 ==> h.layout is Single && le_bytes_u32(h.layout->token_offset) == s.subrange(18, 22)
                && le_bytes_u32(h.layout->token_stream_len) == s.subrange(22, 26))
            &&& (s[16] == 2 ==> h.layout is Chunked && le_bytes_u16(h.layout->chunk_count) == s.subrange(18, 20)
                && le_bytes_u32(h.layout->chunk_offsets) == s.subrange(20, 24)
                && le_bytes_u32(h.layout->max_chunk_length) == s.subrange(24, 28))
        },
{
    if s.len() >= 32 && s.subrange(0, 8) == magic_bytes() && s[8] == 1 && s[9] <= 1 && s[16] <= 2 {
        let h = header_from_bytes(s)->Ok_0;
        let l = s.subrange(16, 32);
        lemma_u64_le_roundtrip(h.magic, s.subrange(0, 8));
        lemma_u16_le_roundtrip(h._reserved, s.subrange(10, 12));
        lemma_u32_le_roundtrip(h.token_count, s.subrange(12, 16));
        assert(l.subrange(2, 6) =~= s.subrange(18, 22));
        assert(l.subrange(6, 10) =~= s.subrange(22, 26));
        assert(l.subrange(2, 4) =~= s.subrange(18, 20));
        assert(l.subrange(4, 8) =~= s.subrange(20, 24));
        assert(l.subrange(8, 12) =~= s.subrange(24, 28));
        match h.layout {
            BlobLayout::Empty => {},
            BlobLayout::Single { token_offset, token_stream_len } => {
                lemma_u32_le_roundtrip(token_offset, s.subrange(18, 22));
                lemma_u32_le_roundtrip(token_stream_len, s.subrange(22, 26));
            },
            BlobLayout::Chunked { chunk_count, chunk_offsets, max_chunk_length } => {
                lemma_u16_le_roundtrip(chunk_count, s.subrange(18, 20));
                lemma_u32_le_roundtrip(chunk_offsets, s.subrange(20, 24));
                lemma_u32_le_roundtrip(max_chunk_length, s.subrange(24, 28));
            },
        }
    }
}

impl TryFrom<&[u8]> for RsvpHeader {
    type Error = RsvpError;

    /// Reads a header from the first 32 bytes of `value`.
    fn try_from(value: &[u8]) -> (r: RsvpResult<RsvpHeader>)
        ensures
            r == header_from_bytes(value@),
    {
        if value.len() < RsvpHeader::HEADER_LEN {
            return Err(RsvpError::UnexpectedEof);
        }
        let mut i: usize = 0;
        while i < 8
            invariant
                i <= 8,
                value@.len() >= 32,
                MAGIC_VERSION@ == magic_bytes(),
                forall|j: int| 0 <= j < i ==> value@[j] == magic_bytes()[j],
            decreases 8 - i,
        {
            if value[i] != MAGIC_VERSION[i] {
                assert(value@.subrange(0, 8)[i as int] != magic_bytes()[i as int]);
                return Err(RsvpError::InvalidMagic);
            }
            i = i + 1;
        }
        assert(value@.subrange(0, 8) =~= magic_bytes());
        if value[8] != VERSION_V1 {
            return Err(RsvpError::UnsupportedVersion);
        }
        let magic = read_u64_le(value, 0);
        let version = value[8];
        let compression = match value[9] {
            0 => CompressionType::Uncompressed,
            1 => CompressionType::Heatshrink,
            _ => return Err(RsvpError::InvalidHeader),
        };
        let _reserved = read_u16_le(value, 10);
        let token_count = read_u32_le(value, 12);
        let layout = match value[16] {
            0 => BlobLayout::Empty,
            1 => BlobLayout::Single {
                token_offset: read_u32_le(value, 18),
                token_stream_len: read_u32_le(value, 22),
            },
            2 => BlobLayout::Chunked {
                chunk_count: read_u16_le(value, 18),
                chunk_offsets: read_u32_le(value, 20),
                max_chunk_length: read_u32_le(value, 24),
            },
            _ => return Err(RsvpError::InvalidHeader),
        };
        proof {
            let l = value@.subrange(16, 32);
            assert(l.subrange(2, 6) =~= value@.subrange(18, 22));
            assert(l.subrange(6, 10) =~= value@.subrange(22, 26));
            assert(l.subrange(2, 4) =~= value@.subrange(18, 20));
            assert(l.subrange(4, 8) =~= value@.subrange(20, 24));
            assert(l.subrange(8, 12) =~= value@.subrange(24, 28));
        }
        Ok(RsvpHeader { magic, version, compression, _reserved, token_count, layout })
    }
}

impl vstd::std_specs::convert::TryFromSpecImpl<&[u8]> for RsvpHeader {
    open spec fn obeys_try_from_spec() -> bool {
        true
    }

    open spec fn try_from_spec(value: &[u8]) -> RsvpResult<RsvpHeader> {
        header_from_bytes(value@)
    }
}

impl From<&RsvpHeader> for [u8; 32] {
    /// The 32 bytes of the header.
    fn from(value: &RsvpHeader) -> (r: [u8; 32])
        ensures
            r@ == header_bytes(*value),
    {
        let r = value.to_bytes();
        proof {
            assert(r@ == header_bytes(*value));
            let a = choose|a: [u8; 32]| a@ == header_bytes(*value);
            assert(a@ == header_bytes(*value));
            assert(r =~= a);
        }
        r
    }
}

impl vstd::std_specs::convert::FromSpecImpl<&RsvpHeader> for [u8; 32] {
    open spec fn obeys_from_spec() -> bool {
        true
    }

    open spec fn from_spec(value: &RsvpHeader) -> [u8; 32] {
        choose|a: [u8; 32]| a@ == header_bytes(*value)
    }
}

/// The descriptive fields stored after the header.
#[derive(Debug, Clone, PartialEq, Eq)]
pub struct Metadata<'a> {
    pub author: &'a str,
    pub title: &'a str,
    pub date: &'a str,
    pub publication: &'a str,
    pub description: &'a str,
}

impl<'a> Default for Metadata<'a> {
    /// Metadata whose fields are all empty.
    fn default() -> (r: Self)
        ensures
            r.author@ == Seq::<char>::empty(),
            r.title@ == Seq::<char>::empty(),
            r.date@ == Seq::<char>::empty(),
            r.publication@ == Seq::<char>::empty(),
            r.description@ == Seq::<char>::empty(),
    {
        proof {
            reveal_strlit("");
        }
        Metadata { author: "", title: "", date: "", publication: "", description: "" }
    }
}

/// What bincode's standard configuration decodes from the start of `bytes` when it reads
/// five borrowed strings in a row: the five strings and the number of bytes they took, or,
/// where it fails, whether the failure was a string whose bytes are not UTF-8.
pub uninterp spec fn bincode_five_strs(bytes: Seq<u8>) -> Result<
    (Seq<char>, Seq<char>, Seq<char>, Seq<char>, Seq<char>, nat),
    bool,
>;

/// Calls `bincode_next::borrow_decode_from_slice` with the standard configuration to read five
/// `&str` from `bytes`, and on failure tells whether bincode's error is its `Utf8` variant.
/// Claimed: the result is what `bincode_five_strs` names for these bytes, and the count of
/// bytes read is at most the slice's length (the crate computes it as the slice's length less
/// what is left unread). The error value itself is carried along with nothing said of it.
#[verifier::external_body]
fn decode_five_strs<'a>(bytes: &'a [u8]) -> (r: Result<
    ((&'a str, &'a str, &'a str, &'a str, &'a str), usize),
    (bincode_next::error::DecodeError, bool),
>)
    ensures
        match r {
            Ok((f, n)) => {
                &&& bincode_five_strs(bytes@) == Ok::<_, bool>((f.0@, f.1@, f.2@, f.3@, f.4@, n as nat))
                &&& n <= bytes@.len()
            },
            Err((_, utf8)) => bincode_five_strs(bytes@) == Err::<(Seq<char>, Seq<char>, Seq<char>, Seq<char>, Seq<char>, nat), bool>(utf8),
        },
{
    match bincode_next::borrow_decode_from_slice(bytes, bincode_next::config::standard()) {
        Ok(decoded) => Ok(decoded),
        Err(e @ bincode_next::error::DecodeError::Utf8 { .. }) => Err((e, true)),
        Err(e) => Err((e, false)),
    }
}

impl<'a> Metadata<'a> {
    pub fn with_author(&mut self, author: &'a str)
        ensures
            *final(self) == (Metadata { author, ..*old(self) }),
    {
        self.author = author;
    }

    pub fn with_title(&mut self, title: &'a str)
        ensures
            *final(self) == (Metadata { title, ..*old(self) }),
    {
        self.title = title
    }

    pub fn with_date(&mut self, date: &'a str)
        ensures
            *final(self) == (Metadata { date, ..*old(self) }),
    {
        self.date = date
    }

    pub fn with_publication(&mut self, publication: &'a str)
        ensures
            *final(self) == (Metadata { publication, ..*old(self) }),
    {
        self.publication = publication
    }

    pub fn with_description(&mut self, description: &'a str)
        ensures
            *final(self) == (Metadata { description, ..*old(self) }),
    {
        self.description = description;
    }

    /// Builds the metadata from what bincode decoded: its five strings, in field order; or,
    /// where decoding failed, `InvalidUtf8` for a string that is not UTF-8 and `DecodeError`
    /// with bincode's error for any other failure.
    pub fn from_decoded(
        decoded: Result<
            ((&'a str, &'a str, &'a str, &'a str, &'a str), usize),
            (bincode_next::error::DecodeError, bool),
        >,
    ) -> (r: RsvpResult<Metadata<'a>>)
        ensures
            match decoded {
                Ok((f, _)) => r == Ok::<Metadata<'a>, RsvpError>(
                    Metadata { author: f.0, title: f.1, date: f.2, publication: f.3, description: f.4 },
                ),
                Err((e, utf8)) => r == Err::<Metadata<'a>, RsvpError>(
                    if utf8 {
                        RsvpError::InvalidUtf8
                    } else {
                        RsvpError::DecodeError(e)
                    },
                ),
            },
    {
        match decoded {
            Ok((f, _)) => Ok(
                Metadata { author: f.0, title: f.1, date: f.2, publication: f.3, description: f.4 },
            ),
            Err((_, true)) => Err(RsvpError::InvalidUtf8),
            Err((e, false)) => Err(RsvpError::DecodeError(e)),
        }
    }

    /// Reads the metadata that follows the header in `slice`, which starts at the header.
    pub fn seek_metadata(slice: &'a [u8]) -> (r: RsvpResult<Metadata<'a>>)
        requires
            slice@.len() >= RsvpHeader::HEADER_LEN,
        ensures
            (r is Ok) <==> (bincode_five_strs(slice@.skip(32)) is Ok),
            r is Ok ==> {
                let f = bincode_five_strs(slice@.skip(32))->Ok_0;
                let m = r->Ok_0;
                &&& m.author@ == f.0
                &&& m.title@ == f.1
                &&& m.date@ == f.2
                &&& m.publication@ == f.3
                &&& m.description@ == f.4
            },
            bincode_five_strs(slice@.skip(32)) == Err::<
                (Seq<char>, Seq<char>, Seq<char>, Seq<char>, Seq<char>, nat),
                bool,
            >(true) ==> r->Err_0 is InvalidUtf8,
            bincode_five_strs(slice@.skip(32)) == Err::<
                (Seq<char>, Seq<char>, Seq<char>, Seq<char>, Seq<char>, nat),
                bool,
            >(false) ==> r->Err_0 is DecodeError,
    {
        let rest = vstd::slice::slice_subrange(slice, RsvpHeader::HEADER_LEN, slice.len());
        assert(rest@ =~= slice@.skip(32));
        Self::from_decoded(decode_five_strs(rest))
    }
}

} // verus!
