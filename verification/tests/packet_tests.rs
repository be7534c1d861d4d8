use rcon::RconError;
use rcon::packet::{RconPacket, decode_frame};

#[test]
fn size_counts_fields_and_terminated_payload() {
    let p = RconPacket::new(5, 2, "hello");
    assert_eq!(p.get_size(), 8 + 5 + 2);
    assert_eq!(p.get_id(), 5);
    assert_eq!(p.get_cmd(), 2);
    assert_eq!(p.get_data(), b"hello\0\0");
}

#[test]
fn empty_text_still_carries_terminator() {
    let p = RconPacket::new(1, 3, "");
    assert_eq!(p.get_size(), 10);
    assert_eq!(p.get_data(), &[0u8, 0u8]);
}

#[test]
fn wire_layout_is_little_endian() {
    let p = RconPacket::new(1, 2, "A");
    let bytes = p.into_bytes();
    assert_eq!(
        bytes,
        vec![11, 0, 0, 0, 1, 0, 0, 0, 2, 0, 0, 0, 65, 0, 0]
    );
}

#[test]
fn negative_id_encodes_as_twos_complement() {
    let p = RconPacket::new(-1, 2, "");
    let bytes = p.into_bytes();
    assert_eq!(&bytes[4..8], &[0xFF, 0xFF, 0xFF, 0xFF]);
}

#[test]
fn round_trip_recovers_id_type_and_text() {
    let p = RconPacket::new(7, 3, "list players");
    let bytes = p.into_bytes();
    let (q, next) = decode_frame(&bytes, 0).unwrap();
    assert_eq!(next, bytes.len());
    assert_eq!(q.get_id(), 7);
    assert_eq!(q.get_cmd(), 3);
    assert_eq!(q.get_data_string(), "list players");
}

#[test]
fn round_trip_trims_trailing_whitespace() {
    let p = RconPacket::new(2, 2, "done \t\r\n");
    let bytes = p.into_bytes();
    let (q, _) = decode_frame(&bytes, 0).unwrap();
    assert_eq!(q.get_data_string(), "done");
}

#[test]
fn text_extraction_strips_terminator_only_from_the_tail() {
    let p = RconPacket::new(1, 2, "a b");
    assert_eq!(p.get_data_string(), "a b");
}

#[test]
fn text_extraction_keeps_non_ascii_characters() {
    let p = RconPacket::new(1, 2, "héllo wörld");
    assert_eq!(p.get_data_string(), "héllo wörld");
}

#[test]
fn text_extraction_substitutes_invalid_utf8() {
    let p = RconPacket {
        size: 10,
        id: 1,
        cmd: 2,
        data: vec![0xFF, 0x41],
    };
    assert_eq!(p.get_data_string(), "\u{FFFD}A");
}

#[test]
fn decode_fails_on_short_header() {
    let bytes = vec![1u8, 2, 3];
    assert!(matches!(decode_frame(&bytes, 0), Err(RconError::TruncatedStream)));
}

#[test]
fn decode_fails_on_short_payload() {
    // Declares 8 + 4 payload bytes but delivers only 1.
    let bytes = vec![12, 0, 0, 0, 1, 0, 0, 0, 2, 0, 0, 0, 65];
    assert!(matches!(decode_frame(&bytes, 0), Err(RconError::TruncatedStream)));
}

#[test]
fn decode_fails_on_impossible_size() {
    // A size below 8 cannot even cover the id and type fields.
    let bytes = vec![4, 0, 0, 0, 1, 0, 0, 0, 2, 0, 0, 0];
    assert!(matches!(decode_frame(&bytes, 0), Err(RconError::TruncatedStream)));
}

#[test]
fn decode_walks_consecutive_frames() {
    let mut stream = RconPacket::new(1, 2, "one").into_bytes();
    stream.extend(RconPacket::new(2, 2, "two").into_bytes());
    let (p, next) = decode_frame(&stream, 0).unwrap();
    let (q, end) = decode_frame(&stream, next).unwrap();
    assert_eq!(p.get_id(), 1);
    assert_eq!(p.get_data_string(), "one");
    assert_eq!(q.get_id(), 2);
    assert_eq!(q.get_data_string(), "two");
    assert_eq!(end, stream.len());
}

