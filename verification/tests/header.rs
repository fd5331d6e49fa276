use rsvp_format::header::{
    BlobLayout, CompressionType, Metadata, RsvpHeader, MAGIC_VERSION, VERSION_V1,
};
use rsvp_format::RsvpError;

fn generate_header() -> RsvpHeader {
    let mut header = RsvpHeader::new();
    header.with_compression(CompressionType::Heatshrink);
    header.with_token_count(0xff);
    header.with_token_offset_and_stream_len(0x50, 0x1000);
    header
}

fn generate_metadata() -> Metadata<'static> {
    Metadata {
        author: "Andy Weir",
        title: "The Martian",
        date: "September 2011",
        publication: "Crown Publishing Group",
        description: "In the year 2035,[7] the crew of NASA's Ares 3 mission have arrived 
            at Acidalia Planitia for a planned month-long stay on Mars.
            After only six sols, a dust and wind storm threatens to topple their Mars 
            Ascent Vehicle (MAV), which would trap them on the planet. During the hurried
            evacuation, an antenna tears loose and impales astronaut Mark Watney, a botanist
            and engineer, also disabling his spacesuit radio. He is flung out of sight by 
            the wind and presumed dead. As the MAV teeters dangerously, mission commander 
            Melissa Lewis has no choice but to take off without completing the search for Watney.",
    }
}

fn metadata_fields<'a>(m: &Metadata<'a>) -> (&'a str, &'a str, &'a str, &'a str, &'a str) {
    (m.author, m.title, m.date, m.publication, m.description)
}

#[test]
fn test_header_building() {
    let header = generate_header();
    let test_header = RsvpHeader {
        magic: u64::from_le_bytes(MAGIC_VERSION),
        version: 1,
        compression: CompressionType::Heatshrink,
        _reserved: 0,
        token_count: 0xff,
        layout: BlobLayout::Single {
            token_offset: 0x50,
            token_stream_len: 0x1000,
        },
    };
    assert_eq!(header, test_header);
}

#[test]
fn test_serialization() {
    let header_serialized = generate_header().to_bytes();
    let deserialized_header: RsvpHeader = header_serialized
        .as_slice()
        .try_into()
        .expect("Unable to convert slice to header");
    assert_eq!(generate_header(), deserialized_header)
}

#[test]
fn test_header_with_metadata() {
    let header = generate_header();
    let metadata = generate_metadata();

    let mut buffer = Vec::new();
    buffer.extend_from_slice(header.to_bytes().as_ref());
    buffer.resize(RsvpHeader::HEADER_LEN + 1024, 0);
    bincode_next::encode_into_slice(
        metadata_fields(&metadata),
        &mut buffer[RsvpHeader::HEADER_LEN..],
        bincode_next::config::standard(),
    )
    .expect("Unable to encode the metadata");

    let deserialized_header: RsvpHeader = buffer
        .as_slice()
        .try_into()
        .expect("Unable to convert slice to header");
    assert_eq!(deserialized_header, generate_header());
    let deserialized_metadata =
        Metadata::seek_metadata(&buffer).expect("Unable to deserialize metadata");
    assert_eq!(deserialized_metadata, metadata);
}

#[test]
fn new_header_has_magic_and_version() {
    let header = RsvpHeader::new();
    assert_eq!(header.magic, u64::from_le_bytes(*b"%rsvp_rs"));
    assert_eq!(header.version, VERSION_V1);
    assert_eq!(header.compression, CompressionType::Uncompressed);
    assert_eq!(header._reserved, 0);
    assert_eq!(header.token_count, 0);
    assert_eq!(header.layout, BlobLayout::Empty);
}

#[test]
fn default_header_is_all_zero() {
    let header = RsvpHeader::default();
    assert_eq!(header.magic, 0);
    assert_eq!(header.version, 0);
    assert_eq!(header.to_bytes(), [0u8; 32]);
    assert_eq!(CompressionType::default(), CompressionType::Uncompressed);
    assert_eq!(BlobLayout::default(), BlobLayout::Empty);
}

#[test]
fn header_bytes_single_layout() {
    let bytes = generate_header().to_bytes();
    let mut expected = [0u8; 32];
    expected[0..8].copy_from_slice(b"%rsvp_rs");
    expected[8] = 1;
    expected[9] = 1;
    expected[12] = 0xff;
    expected[16] = 1;
    expected[18] = 0x50;
    expected[22] = 0x00;
    expected[23] = 0x10;
    assert_eq!(bytes, expected);
    let via_from: [u8; 32] = (&generate_header()).into();
    assert_eq!(via_from, expected);
}

#[test]
fn header_bytes_chunked_layout() {
    let mut header = RsvpHeader::new();
    header.with_chunked_blob(0x0a0b, 0x01020304, 0x11223344);
    let bytes = header.to_bytes();
    assert_eq!(bytes[9], 0);
    assert_eq!(&bytes[16..32], &[2, 0, 0x0b, 0x0a, 4, 3, 2, 1, 0x44, 0x33, 0x22, 0x11, 0, 0, 0, 0]);
    let back = RsvpHeader::try_from(bytes.as_slice()).expect("chunked header reads back");
    assert_eq!(back, header);
}

#[test]
fn header_reserved_and_trailing_bytes_roundtrip() {
    let mut header = generate_header();
    header._reserved = 0xbeef;
    let mut buf = header.to_bytes().to_vec();
    assert_eq!(&buf[10..12], &[0xef, 0xbe]);
    buf.extend_from_slice(&[9, 9, 9]);
    let back = RsvpHeader::try_from(buf.as_slice()).expect("header with trailing data reads back");
    assert_eq!(back, header);
}

#[test]
fn header_too_short() {
    let bytes = generate_header().to_bytes();
    let r = RsvpHeader::try_from(&bytes[..31]);
    assert!(matches!(r, Err(RsvpError::UnexpectedEof)));
    assert!(matches!(RsvpHeader::try_from(&[][..]), Err(RsvpError::UnexpectedEof)));
}

#[test]
fn header_bad_magic() {
    let mut bytes = generate_header().to_bytes();
    bytes[7] = b'S';
    bytes[8] = 7;
    assert!(matches!(RsvpHeader::try_from(bytes.as_slice()), Err(RsvpError::InvalidMagic)));
    let r = RsvpHeader::try_from(RsvpHeader::default().to_bytes().as_slice());
    assert!(matches!(r, Err(RsvpError::InvalidMagic)));
}

#[test]
fn header_bad_version() {
    let mut bytes = generate_header().to_bytes();
    bytes[8] = 2;
    bytes[9] = 7;
    assert!(matches!(RsvpHeader::try_from(bytes.as_slice()), Err(RsvpError::UnsupportedVersion)));
}

#[test]
fn header_bad_compression() {
    let mut bytes = generate_header().to_bytes();
    bytes[9] = 2;
    assert!(matches!(RsvpHeader::try_from(bytes.as_slice()), Err(RsvpError::InvalidHeader)));
}

#[test]
fn header_bad_layout_tag() {
    let mut bytes = generate_header().to_bytes();
    bytes[16] = 3;
    assert!(matches!(RsvpHeader::try_from(bytes.as_slice()), Err(RsvpError::InvalidHeader)));
}

#[test]
fn header_ignores_padding_bytes() {
    let mut bytes = generate_header().to_bytes();
    bytes[17] = 0x77;
    bytes[30] = 0x55;
    let back = RsvpHeader::try_from(bytes.as_slice()).expect("padding is ignored");
    assert_eq!(back, generate_header());
}

#[test]
fn metadata_setters() {
    let mut m = Metadata::default();
    assert_eq!(m.author, "");
    m.with_author("A");
    m.with_title("T");
    m.with_date("D");
    m.with_publication("P");
    m.with_description("X");
    assert_eq!(
        m,
        Metadata { author: "A", title: "T", date: "D", publication: "P", description: "X" }
    );
}

#[test]
fn metadata_truncated_is_decode_error() {
    let mut buffer = generate_header().to_bytes().to_vec();
    buffer.push(5);
    buffer.extend_from_slice(b"ab");
    let r = Metadata::seek_metadata(&buffer);
    assert!(matches!(r, Err(RsvpError::DecodeError(_))));
}

#[test]
fn metadata_invalid_utf8() {
    let mut buffer = generate_header().to_bytes().to_vec();
    buffer.extend_from_slice(&[1, b'a', 2, 0xff, 0xfe, 0, 0, 0]);
    let r = Metadata::seek_metadata(&buffer);
    assert!(matches!(r, Err(RsvpError::InvalidUtf8)));
}

#[test]
fn errors_convert_from_outside_errors() {
    let e: RsvpError = bincode_next::error::DecodeError::LimitExceeded.into();
    assert!(matches!(e, RsvpError::DecodeError(bincode_next::error::DecodeError::LimitExceeded)));
    let slice_err = <[u8; 4]>::try_from(&[1u8, 2][..]).unwrap_err();
    let e: RsvpError = slice_err.into();
    assert!(matches!(e, RsvpError::InvalidSlice(_)));
    assert_eq!(e.message(), "Unable to convert slice to array.");
}

#[test]
fn metadata_reads_after_header_only() {
    let mut buffer = vec![0xffu8; RsvpHeader::HEADER_LEN];
    let strs = ("a", "bc", "", "d", "ef");
    let mut tail = vec![0u8; 64];
    let n = bincode_next::encode_into_slice(strs, &mut tail, bincode_next::config::standard())
        .expect("encodes");
    assert_eq!(n, 11);
    buffer.extend_from_slice(&tail[..n]);
    let m = Metadata::seek_metadata(&buffer).expect("decodes");
    assert_eq!(m, Metadata { author: "a", title: "bc", date: "", publication: "d", description: "ef" });
}

#[test]
fn metadata_from_decoded_maps_both_cases() {
    let ok = Metadata::from_decoded(Ok((("w", "x", "y", "z", "v"), 10)));
    assert_eq!(
        ok.expect("ok stays ok"),
        Metadata { author: "w", title: "x", date: "y", publication: "z", description: "v" }
    );
    let err = Metadata::from_decoded(Err((bincode_next::error::DecodeError::LimitExceeded, false)));
    assert!(matches!(err, Err(RsvpError::DecodeError(bincode_next::error::DecodeError::LimitExceeded))));
    let utf8 = Metadata::from_decoded(Err((bincode_next::error::DecodeError::LimitExceeded, true)));
    assert!(matches!(utf8, Err(RsvpError::InvalidUtf8)));
}

#[test]
fn error_messages() {
    assert_eq!(
        RsvpError::InvalidMagic.message(),
        "The file does not start with the expected magic bytes."
    );
    assert_eq!(
        RsvpError::UnsupportedVersion.message(),
        "The file has a version that is not supported by this library."
    );
    assert_eq!(RsvpError::UnexpectedEof.message(), "The file is too short to contain a valid header.");
    assert_eq!(RsvpError::InvalidUtf8.message(), "The file contains invalid UTF-8 data.");
    assert_eq!(RsvpError::InvalidHeader.message(), "The file contains an invalid header.");
    assert_eq!(
        RsvpError::DecodeError(bincode_next::error::DecodeError::LimitExceeded).message(),
        "Bincode Deser failure"
    );
}
