use rsvp_format::chunk::ChunkLog;
use rsvp_format::header::{RsvpHeader};
use rsvp_format::RsvpError;

fn generate_header() -> RsvpHeader {
    let mut header = RsvpHeader::new();
    header.with_compression(rsvp_format::header::CompressionType::Heatshrink);
    header.with_token_count(0xff);
    header.with_token_offset_and_stream_len(0x50, 0x1000);
    header
}

#[test]
fn test_create_fake_file() {
    let mut header = generate_header();
    let metadata = (
        "Andy Weir",
        "The Martian",
        "September 2011",
        "Crown Publishing Group",
        "In the year 2035,[7] the crew of NASA's Ares 3 mission have arrived 
            at Acidalia Planitia for a planned month-long stay on Mars.
            After only six sols, a dust and wind storm threatens to topple their Mars 
            Ascent Vehicle (MAV), which would trap them on the planet. During the hurried
            evacuation, an antenna tears loose and impales astronaut Mark Watney, a botanist
            and engineer, also disabling his spacesuit radio. He is flung out of sight by 
            the wind and presumed dead. As the MAV teeters dangerously, mission commander 
            Melissa Lewis has no choice but to take off without completing the search for Watney.",
    );

    let chunks = [[0xde; 1024]; 10];

    let mut buf = Vec::new();
    buf.extend_from_slice(&[0u8; RsvpHeader::HEADER_LEN]);
    buf.resize(1024, 0);
    bincode_next::encode_into_slice(metadata, &mut buf, bincode_next::config::standard())
        .expect("Failed to encode metadata");

    let chunk_offset = RsvpHeader::HEADER_LEN + buf.len();
    let mut chunk_data_offset = chunk_offset + (ChunkLog::SIZE * chunks.len());

    header.with_chunked_blob(
        chunks.len() as u16,
        chunk_offset as u32,
        chunks[0].len() as u32,
    );
    buf[..RsvpHeader::HEADER_LEN].copy_from_slice(&header.to_bytes());

    for (index, chunk) in chunks.iter().enumerate() {
        buf.extend_from_slice(
            &ChunkLog {
                len: chunk.len() as u32,
                offset: chunk_data_offset as u32,
                first_token_index: index as u32,
            }
            .as_bytes(),
        );
        chunk_data_offset += chunk.len();
    }
    for chunk in &chunks {
        buf.extend_from_slice(chunk);
    }
}

#[test]
fn chunk_log_size_matches_memory_layout() {
    assert_eq!(ChunkLog::SIZE, core::mem::size_of::<ChunkLog>());
}

#[test]
fn chunk_log_bytes_are_little_endian() {
    let c = ChunkLog { len: 0x04030201, offset: 0x0000_0400, first_token_index: 0xffff_fffe };
    assert_eq!(c.as_bytes(), [1, 2, 3, 4, 0, 4, 0, 0, 0xfe, 0xff, 0xff, 0xff]);
    let via_from: [u8; 12] = (&c).into();
    assert_eq!(via_from, c.as_bytes());
}

#[test]
fn chunk_log_roundtrip() {
    let c = ChunkLog { len: 1024, offset: 1352, first_token_index: 7 };
    let mut bytes = c.as_bytes().to_vec();
    bytes.push(0xaa);
    let back = ChunkLog::try_from(bytes.as_slice()).expect("reads back");
    assert_eq!(back, c);
}

#[test]
fn chunk_log_too_short() {
    let bytes = [0u8; 11];
    assert!(matches!(ChunkLog::try_from(&bytes[..]), Err(RsvpError::InvalidHeader)));
}
