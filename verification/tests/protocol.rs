use byteorder::{ByteOrder, LittleEndian, WriteBytesExt};
use security_camera_viewer::protocol::{
    calculate_crc16_ccitt, FormatError, MetricsPacket, MjpegHeader, MjpegPacket, Packet,
    CRC_SIZE, MAX_JPEG_SIZE, METRICS_PACKET_SIZE, METRICS_SYNC_WORD, MIN_PACKET_SIZE,
    MJPEG_HEADER_SIZE, SYNC_WORD,
};
use std::io::Cursor;

fn image_packet(sequence: u32, payload: &[u8]) -> Vec<u8> {
    let mut buf = vec![0u8; MJPEG_HEADER_SIZE];
    LittleEndian::write_u32(&mut buf[0..4], SYNC_WORD);
    LittleEndian::write_u32(&mut buf[4..8], sequence);
    LittleEndian::write_u32(&mut buf[8..12], payload.len() as u32);
    buf.extend_from_slice(payload);
    let crc = calculate_crc16_ccitt(&buf);
    buf.push((crc & 0xFF) as u8);
    buf.push((crc >> 8) as u8);
    buf
}

fn metrics_packet(words: [u32; 8]) -> Vec<u8> {
    let mut buf = vec![0u8; METRICS_PACKET_SIZE - CRC_SIZE];
    LittleEndian::write_u32(&mut buf[0..4], METRICS_SYNC_WORD);
    for (i, word) in words.iter().enumerate() {
        LittleEndian::write_u32(&mut buf[4 + 4 * i..8 + 4 * i], *word);
    }
    let crc = calculate_crc16_ccitt(&buf);
    buf.push((crc & 0xFF) as u8);
    buf.push((crc >> 8) as u8);
    buf
}

fn small_jpeg() -> Vec<u8> {
    vec![0xFF, 0xD8, 0x01, 0x02, 0x03, 0xFF, 0xD9]
}

#[test]
fn test_crc16_ccitt() {
    let data = b"123456789";
    let crc = calculate_crc16_ccitt(data);
    assert_eq!(crc, 0x29B1);
}

#[test]
fn test_sync_word_validation() {
    let mut buf = vec![0u8; MJPEG_HEADER_SIZE];
    let mut cursor = Cursor::new(&mut buf);

    cursor.write_u32::<LittleEndian>(SYNC_WORD).unwrap();
    cursor.write_u32::<LittleEndian>(1).unwrap();
    cursor.write_u32::<LittleEndian>(100).unwrap();

    let header = MjpegHeader::parse(&buf).unwrap();
    assert_eq!(header.sync_word, SYNC_WORD);
    assert_eq!(header.sequence, 1);
    assert_eq!(header.jpeg_size, 100);
}

#[test]
fn test_invalid_sync_word() {
    let mut buf = vec![0u8; MJPEG_HEADER_SIZE];
    let mut cursor = Cursor::new(&mut buf);

    cursor.write_u32::<LittleEndian>(0xDEADBEEF).unwrap();

    let result = MjpegHeader::parse(&buf);
    assert!(result.is_err());
    assert_eq!(result, Err(FormatError::BadMarker));
}

#[test]
fn test_jpeg_size_limit() {
    let mut buf = vec![0u8; MJPEG_HEADER_SIZE];
    let mut cursor = Cursor::new(&mut buf);

    cursor.write_u32::<LittleEndian>(SYNC_WORD).unwrap();
    cursor.write_u32::<LittleEndian>(1).unwrap();
    cursor.write_u32::<LittleEndian>(1_000_000).unwrap();

    let result = MjpegHeader::parse(&buf);
    assert!(result.is_err());
    assert_eq!(result, Err(FormatError::SizeOutOfRange));
}

#[test]
fn test_bare_jpeg_format() {
    let mut jpeg_data = vec![
        0xFF, 0xD8, // SOI
        0xFF, 0xDB, // DQT marker
        0x00, 0x04, // DQT length
        0x00, 0x00, // DQT data
    ];
    jpeg_data.extend_from_slice(&[0xFF; 100]);
    jpeg_data.push(0xFF);
    jpeg_data.push(0xD9);

    let packet = MjpegPacket {
        header: MjpegHeader {
            sync_word: SYNC_WORD,
            sequence: 0,
            jpeg_size: jpeg_data.len() as u32,
        },
        jpeg_data: jpeg_data.clone(),
        crc16: calculate_crc16_ccitt(&jpeg_data),
    };

    assert!(packet.is_valid_jpeg(), "Bare JPEG format should be valid");
}

#[test]
fn test_jfif_jpeg_format() {
    let jpeg_data = vec![
        0xFF, 0xD8, // SOI
        0xFF, 0xE0, // APP0 (JFIF)
        0x00, 0x10, // APP0 length
        0x4A, 0x46, 0x49, 0x46, 0x00, // "JFIF\0"
        0x01, 0x01, // Version 1.1
        0x00, 0x00, 0x00, 0x01, 0x00, 0x01, 0x00, 0x00,
        0xFF, 0xD9, // EOI
    ];

    let packet = MjpegPacket {
        header: MjpegHeader {
            sync_word: SYNC_WORD,
            sequence: 0,
            jpeg_size: jpeg_data.len() as u32,
        },
        jpeg_data: jpeg_data.clone(),
        crc16: calculate_crc16_ccitt(&jpeg_data),
    };

    assert!(packet.is_valid_jpeg(), "JFIF JPEG format should be valid");
}

#[test]
fn crc_of_nothing_is_the_initial_value() {
    assert_eq!(calculate_crc16_ccitt(&[]), 0xFFFF);
}

#[test]
fn crc_of_one_byte() {
    // CRC-16/CCITT-FALSE of the single byte 'A'.
    assert_eq!(calculate_crc16_ccitt(b"A"), 0xB915);
}

#[test]
fn header_sizes() {
    assert_eq!(MJPEG_HEADER_SIZE, 12);
    assert_eq!(CRC_SIZE, 2);
    assert_eq!(MIN_PACKET_SIZE, 14);
    assert_eq!(MAX_JPEG_SIZE, 512 * 1024);
    let header = MjpegHeader { sync_word: SYNC_WORD, sequence: 7, jpeg_size: 100 };
    assert_eq!(header.total_size(), 114);
}

#[test]
fn header_reads_little_endian_fields() {
    let buf = [
        0xBE, 0xBA, 0xFE, 0xCA, 0x04, 0x03, 0x02, 0x01, 0x10, 0x00, 0x00, 0x00,
    ];
    let header = MjpegHeader::parse(&buf).unwrap();
    assert_eq!(header.sequence, 0x01020304);
    assert_eq!(header.jpeg_size, 16);
}

#[test]
fn header_too_short_is_truncated() {
    let buf = [0xBE, 0xBA, 0xFE, 0xCA, 0, 0, 0, 0, 0, 0, 0];
    assert_eq!(MjpegHeader::parse(&buf), Err(FormatError::Truncated));
    assert_eq!(MjpegHeader::parse(&[]), Err(FormatError::Truncated));
}

#[test]
fn header_accepts_the_largest_size_and_rejects_the_next() {
    let mut buf = vec![0u8; MJPEG_HEADER_SIZE];
    LittleEndian::write_u32(&mut buf[0..4], SYNC_WORD);
    LittleEndian::write_u32(&mut buf[8..12], MAX_JPEG_SIZE);
    assert_eq!(MjpegHeader::parse(&buf).unwrap().jpeg_size, MAX_JPEG_SIZE);
    LittleEndian::write_u32(&mut buf[8..12], MAX_JPEG_SIZE + 1);
    assert_eq!(MjpegHeader::parse(&buf), Err(FormatError::SizeOutOfRange));
}

#[test]
fn packet_parses_to_its_parts() {
    let payload = small_jpeg();
    let buf = image_packet(42, &payload);
    let packet = MjpegPacket::parse(&buf).unwrap();
    assert_eq!(packet.header.sync_word, SYNC_WORD);
    assert_eq!(packet.header.sequence, 42);
    assert_eq!(packet.header.jpeg_size as usize, payload.len());
    assert_eq!(packet.jpeg_data, payload);
    assert_eq!(packet.crc16, calculate_crc16_ccitt(&buf[..buf.len() - 2]));
    assert!(packet.is_valid_jpeg());
}

#[test]
fn packet_parse_is_repeatable() {
    let buf = image_packet(9, &small_jpeg());
    let first = MjpegPacket::parse(&buf).unwrap();
    let second = MjpegPacket::parse(&buf).unwrap();
    assert_eq!(first, second);
    assert_eq!(
        calculate_crc16_ccitt(&buf[..MJPEG_HEADER_SIZE + first.jpeg_data.len()]),
        first.crc16
    );
    let again = image_packet(first.header.sequence, &first.jpeg_data);
    assert_eq!(again, buf);
    assert_eq!(MjpegPacket::parse(&again).unwrap(), first);
}

#[test]
fn packet_ignores_trailing_bytes() {
    let mut buf = image_packet(3, &small_jpeg());
    buf.extend_from_slice(&[1, 2, 3, 4, 5]);
    let packet = MjpegPacket::parse(&buf).unwrap();
    assert_eq!(packet.jpeg_data, small_jpeg());
}

#[test]
fn packet_with_empty_payload() {
    let buf = image_packet(1, &[]);
    assert_eq!(buf.len(), MIN_PACKET_SIZE);
    let packet = MjpegPacket::parse(&buf).unwrap();
    assert!(packet.jpeg_data.is_empty());
    assert!(!packet.is_valid_jpeg());
}

#[test]
fn packet_shorter_than_declared_is_truncated() {
    let buf = image_packet(3, &small_jpeg());
    assert_eq!(MjpegPacket::parse(&buf[..buf.len() - 1]), Err(FormatError::Truncated));
    assert_eq!(MjpegPacket::parse(&buf[..MJPEG_HEADER_SIZE]), Err(FormatError::Truncated));
}

#[test]
fn corrupted_payload_fails_the_checksum() {
    let mut buf = image_packet(3, &small_jpeg());
    buf[MJPEG_HEADER_SIZE + 2] ^= 0x40;
    assert_eq!(MjpegPacket::parse(&buf), Err(FormatError::ChecksumMismatch));
}

#[test]
fn every_single_byte_corruption_outside_the_size_is_detected() {
    let good = image_packet(0x01020304, &small_jpeg());
    for at in 0..good.len() {
        if (8..12).contains(&at) {
            continue;
        }
        for flip in [0x01u8, 0x80, 0xFF] {
            let mut bad = good.clone();
            bad[at] ^= flip;
            let expected = if at < 4 {
                FormatError::BadMarker
            } else {
                FormatError::ChecksumMismatch
            };
            assert_eq!(MjpegPacket::parse(&bad), Err(expected));
        }
    }
}

#[test]
fn corrupted_checksum_field_fails_the_checksum() {
    let mut buf = image_packet(3, &small_jpeg());
    let last = buf.len() - 1;
    buf[last] ^= 0x01;
    assert_eq!(MjpegPacket::parse(&buf), Err(FormatError::ChecksumMismatch));
}

#[test]
fn jpeg_markers_are_required_at_both_ends() {
    let make = |data: Vec<u8>| MjpegPacket {
        header: MjpegHeader { sync_word: SYNC_WORD, sequence: 0, jpeg_size: data.len() as u32 },
        jpeg_data: data,
        crc16: 0,
    };
    assert!(make(vec![0xFF, 0xD8, 0xFF, 0xD9]).is_valid_jpeg());
    assert!(!make(vec![0xFF, 0xD8, 0xD9]).is_valid_jpeg());
    assert!(!make(vec![]).is_valid_jpeg());
    assert!(!make(vec![0xFF, 0xD9, 0xFF, 0xD9]).is_valid_jpeg());
    assert!(!make(vec![0xFE, 0xD8, 0xFF, 0xD9]).is_valid_jpeg());
    assert!(!make(vec![0xFF, 0xD8, 0xFF, 0xD8]).is_valid_jpeg());
    assert!(!make(vec![0xFF, 0xD8, 0x00, 0xD9]).is_valid_jpeg());
}

#[test]
fn metrics_packet_parses_to_its_fields() {
    let buf = metrics_packet([5, 1000, 33, 44, 2, 9000, 1, 0x0A0B0C0D]);
    assert_eq!(buf.len(), METRICS_PACKET_SIZE);
    let packet = MetricsPacket::parse(&buf).unwrap();
    assert_eq!(packet.sync_word, METRICS_SYNC_WORD);
    assert_eq!(packet.sequence, 5);
    assert_eq!(packet.timestamp_ms, 1000);
    assert_eq!(packet.camera_frames, 33);
    assert_eq!(packet.usb_packets, 44);
    assert_eq!(packet.action_q_depth, 2);
    assert_eq!(packet.avg_packet_size, 9000);
    assert_eq!(packet.errors, 1);
    assert_eq!(packet.reserved, 0x0A0B0C0D);
    assert_eq!(packet.crc16, calculate_crc16_ccitt(&buf[..36]));
}

#[test]
fn metrics_packet_errors() {
    let good = metrics_packet([5, 1000, 33, 44, 2, 9000, 1, 0]);
    assert_eq!(MetricsPacket::parse(&good[..37]), Err(FormatError::Truncated));
    let mut bad_marker = good.clone();
    bad_marker[0] = 0;
    assert_eq!(MetricsPacket::parse(&bad_marker), Err(FormatError::BadMarker));
    let mut bad_crc = good.clone();
    bad_crc[20] ^= 1;
    assert_eq!(MetricsPacket::parse(&bad_crc), Err(FormatError::ChecksumMismatch));
    assert_eq!(
        MetricsPacket::parse(&image_packet(1, &small_jpeg())),
        Err(FormatError::Truncated)
    );
}

#[test]
fn packet_kind_follows_the_marker() {
    let image = image_packet(8, &small_jpeg());
    match Packet::parse(&image).unwrap() {
        Packet::Mjpeg(packet) => assert_eq!(packet.header.sequence, 8),
        Packet::Metrics(_) => panic!("an image packet parsed as metrics"),
    }
    let metrics = metrics_packet([6, 0, 0, 0, 0, 0, 0, 0]);
    match Packet::parse(&metrics).unwrap() {
        Packet::Metrics(packet) => assert_eq!(packet.sequence, 6),
        Packet::Mjpeg(_) => panic!("a metrics packet parsed as an image"),
    }
    assert_eq!(Packet::parse(&[1, 2, 3]), Err(FormatError::Truncated));
    assert_eq!(Packet::parse(&[1, 2, 3, 4, 5]), Err(FormatError::BadMarker));
    assert_eq!(Packet::parse(&image[..10]), Err(FormatError::Truncated));
}
