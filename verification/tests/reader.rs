use security_camera_viewer::protocol::{
    calculate_crc16_ccitt, Packet, PacketKind, METRICS_PACKET_SIZE, METRICS_SYNC_WORD,
    SYNC_WORD,
};
use security_camera_viewer::reader::{
    read_packet_from, PacketReader, ReadError, ReadStep, ReaderMode, TransportFault, MAX_RETRIES,
};
use security_camera_viewer::sync::{
    find_marker, MarkerScanner, ScanStatus, SyncError, MAX_SEARCH_BYTES,
};

fn with_crc(mut body: Vec<u8>) -> Vec<u8> {
    let crc = calculate_crc16_ccitt(&body);
    body.extend_from_slice(&crc.to_le_bytes());
    body
}

fn image_packet(sequence: u32, payload: &[u8]) -> Vec<u8> {
    let mut buf = Vec::new();
    buf.extend_from_slice(&SYNC_WORD.to_le_bytes());
    buf.extend_from_slice(&sequence.to_le_bytes());
    buf.extend_from_slice(&(payload.len() as u32).to_le_bytes());
    buf.extend_from_slice(payload);
    with_crc(buf)
}

fn metrics_packet(sequence: u32) -> Vec<u8> {
    let mut buf = Vec::new();
    buf.extend_from_slice(&METRICS_SYNC_WORD.to_le_bytes());
    buf.extend_from_slice(&sequence.to_le_bytes());
    for word in [1000u32, 30, 40, 1, 9000, 0, 0] {
        buf.extend_from_slice(&word.to_le_bytes());
    }
    with_crc(buf)
}

fn jpeg(fill: u8, len: usize) -> Vec<u8> {
    let mut data = vec![0xFF, 0xD8];
    data.extend(std::iter::repeat(fill).take(len));
    data.extend_from_slice(&[0xFF, 0xD9]);
    data
}

fn sequence_of(step: &ReadStep) -> u32 {
    match step {
        ReadStep::Done { packet: Packet::Mjpeg(packet), .. } => packet.header.sequence,
        ReadStep::Done { packet: Packet::Metrics(packet), .. } => packet.sequence,
        other => panic!("no packet: {:?}", other),
    }
}

fn retries_of(step: &ReadStep) -> u32 {
    match step {
        ReadStep::Done { retries, .. } => *retries,
        other => panic!("no packet: {:?}", other),
    }
}

#[test]
fn clean_stream_gives_the_packet_at_once() {
    let stream = image_packet(7, &jpeg(1, 20));
    let (step, taken) = read_packet_from(&stream, 0, ReaderMode::Aligned);
    assert_eq!(sequence_of(&step), 7);
    assert_eq!(retries_of(&step), 0);
    assert_eq!(taken, stream.len());
    match step {
        ReadStep::Done { packet: Packet::Mjpeg(packet), .. } => {
            assert_eq!(packet.jpeg_data, jpeg(1, 20));
            assert!(packet.is_valid_jpeg());
        }
        other => panic!("no image: {:?}", other),
    }
}

#[test]
fn packets_are_read_one_after_the_other() {
    let mut stream = image_packet(1, &jpeg(1, 5));
    stream.extend(metrics_packet(2));
    stream.extend(image_packet(3, &jpeg(3, 9)));
    let mut at = 0;
    let mut seen = Vec::new();
    while at < stream.len() {
        let (step, taken) = read_packet_from(&stream, at, ReaderMode::Aligned);
        assert_eq!(retries_of(&step), 0);
        seen.push(sequence_of(&step));
        at += taken;
    }
    assert_eq!(seen, vec![1, 2, 3]);
    assert_eq!(at, stream.len());
}

#[test]
fn metrics_packet_is_read_whole() {
    let stream = metrics_packet(11);
    let (step, taken) = read_packet_from(&stream, 0, ReaderMode::Aligned);
    assert_eq!(taken, METRICS_PACKET_SIZE);
    match step {
        ReadStep::Done { packet: Packet::Metrics(packet), retries } => {
            assert_eq!(packet.sequence, 11);
            assert_eq!(packet.timestamp_ms, 1000);
            assert_eq!(packet.camera_frames, 30);
            assert_eq!(retries, 0);
        }
        other => panic!("no metrics: {:?}", other),
    }
}

#[test]
fn one_corrupted_frame_costs_one_resynchronization() {
    let mut corrupted = image_packet(1, &jpeg(1, 30));
    corrupted[20] ^= 0x55;
    let good = image_packet(2, &jpeg(2, 30));
    let mut stream = corrupted.clone();
    stream.extend(&good);
    let (step, taken) = read_packet_from(&stream, 0, ReaderMode::Aligned);
    assert_eq!(sequence_of(&step), 2);
    assert_eq!(retries_of(&step), 1);
    assert!(retries_of(&step) <= MAX_RETRIES);
    assert_eq!(taken, stream.len());
}

#[test]
fn payload_without_jpeg_markers_costs_one_attempt() {
    let mut stream = image_packet(1, &[1, 2, 3, 4, 5, 6]);
    stream.extend(image_packet(2, &jpeg(2, 4)));
    let (step, taken) = read_packet_from(&stream, 0, ReaderMode::Aligned);
    assert_eq!(sequence_of(&step), 2);
    assert_eq!(retries_of(&step), 1);
    assert_eq!(taken, stream.len());
}

#[test]
fn garbage_before_the_marker_costs_one_attempt_on_an_aligned_read() {
    let mut stream = vec![9, 8, 7, 6, 5, 4, 3];
    stream.extend(image_packet(5, &jpeg(5, 4)));
    let (step, taken) = read_packet_from(&stream, 0, ReaderMode::Aligned);
    assert_eq!(sequence_of(&step), 5);
    assert_eq!(retries_of(&step), 1);
    assert_eq!(taken, stream.len());
}

#[test]
fn scanning_read_skips_garbage_without_an_attempt() {
    let mut stream = vec![9, 8, 7, 6, 5, 4, 3];
    stream.extend(image_packet(5, &jpeg(5, 4)));
    stream.extend_from_slice(&[1, 2, 3]);
    let (step, taken) = read_packet_from(&stream, 0, ReaderMode::Scanning);
    assert_eq!(sequence_of(&step), 5);
    assert_eq!(retries_of(&step), 0);
    assert_eq!(taken, stream.len() - 3);
}

#[test]
fn scanning_read_finds_a_metrics_packet() {
    let mut stream = vec![0xCA, 0xFE];
    stream.extend(metrics_packet(77));
    let (step, taken) = read_packet_from(&stream, 0, ReaderMode::Scanning);
    assert_eq!(sequence_of(&step), 77);
    assert_eq!(taken, stream.len());
}

#[test]
fn three_failed_attempts_exhaust_the_recovery() {
    let mut bad = image_packet(1, &jpeg(1, 8));
    let last = bad.len() - 1;
    bad[last] ^= 1;
    let mut stream = Vec::new();
    for _ in 0..3 {
        stream.extend(&bad);
    }
    stream.extend(image_packet(9, &jpeg(9, 8)));
    let (step, taken) = read_packet_from(&stream, 0, ReaderMode::Aligned);
    assert_eq!(step, ReadStep::Failed(ReadError::RecoveryExhausted));
    assert_eq!(taken, 3 * bad.len());
    // The next read starts afresh and finds the good packet.
    let (step, _) = read_packet_from(&stream, taken, ReaderMode::Aligned);
    assert_eq!(sequence_of(&step), 9);
    assert_eq!(retries_of(&step), 0);
}

#[test]
fn two_failed_attempts_still_recover() {
    let mut bad = image_packet(1, &jpeg(1, 8));
    bad[14] ^= 1;
    let mut stream = bad.clone();
    stream.extend(&bad);
    stream.extend(image_packet(9, &jpeg(9, 8)));
    let (step, taken) = read_packet_from(&stream, 0, ReaderMode::Aligned);
    assert_eq!(sequence_of(&step), 9);
    assert_eq!(retries_of(&step), 2);
    assert_eq!(taken, stream.len());
}

#[test]
fn oversize_header_fails_the_attempt() {
    let mut stream = Vec::new();
    stream.extend_from_slice(&SYNC_WORD.to_le_bytes());
    stream.extend_from_slice(&1u32.to_le_bytes());
    stream.extend_from_slice(&1_000_000u32.to_le_bytes());
    stream.extend(image_packet(4, &jpeg(4, 4)));
    let (step, taken) = read_packet_from(&stream, 0, ReaderMode::Aligned);
    assert_eq!(sequence_of(&step), 4);
    assert_eq!(retries_of(&step), 1);
    assert_eq!(taken, stream.len());
}

#[test]
fn end_of_stream_inside_a_packet_is_a_closed_connection() {
    let stream = image_packet(7, &jpeg(1, 20));
    for cut in [0, 1, 4, 11, 12, 20, stream.len() - 1] {
        let (step, taken) = read_packet_from(&stream[..cut], 0, ReaderMode::Aligned);
        assert_eq!(step, ReadStep::Failed(ReadError::ConnectionClosed));
        assert_eq!(taken, cut);
    }
}

#[test]
fn a_read_from_beyond_the_end_finds_the_stream_closed() {
    let stream = image_packet(7, &jpeg(1, 20));
    let (step, taken) = read_packet_from(&stream, stream.len() + 5, ReaderMode::Aligned);
    assert_eq!(step, ReadStep::Failed(ReadError::ConnectionClosed));
    assert_eq!(taken, 0);
}

#[test]
fn search_without_a_marker_gives_up_at_the_budget() {
    let mut stream = vec![1, 2, 3, 4];
    stream.extend(std::iter::repeat(0u8).take(MAX_SEARCH_BYTES + 10));
    let (step, taken) = read_packet_from(&stream, 0, ReaderMode::Aligned);
    assert_eq!(step, ReadStep::Failed(ReadError::MarkerNotFound));
    assert_eq!(taken, 4 + MAX_SEARCH_BYTES);
    let (step, taken) = read_packet_from(&stream, 0, ReaderMode::Scanning);
    assert_eq!(step, ReadStep::Failed(ReadError::MarkerNotFound));
    assert_eq!(taken, MAX_SEARCH_BYTES);
}

#[test]
fn marker_at_the_very_end_of_the_budget_is_found() {
    let mut stream = vec![0u8; MAX_SEARCH_BYTES - 4];
    let packet = image_packet(3, &jpeg(3, 4));
    stream.extend(&packet);
    let (step, taken) = read_packet_from(&stream, 0, ReaderMode::Scanning);
    assert_eq!(sequence_of(&step), 3);
    assert_eq!(taken, stream.len());
    let mut late = vec![0u8; MAX_SEARCH_BYTES - 3];
    late.extend(&packet);
    let (step, _) = read_packet_from(&late, 0, ReaderMode::Scanning);
    assert_eq!(step, ReadStep::Failed(ReadError::MarkerNotFound));
}

#[test]
fn reader_asks_for_what_it_needs() {
    let packet = image_packet(7, &jpeg(1, 20));
    let mut reader = PacketReader::new(ReaderMode::Aligned);
    assert_eq!(reader.wanted(), 4);
    assert_eq!(reader.feed(&packet[..4]), (ReadStep::NeedMore, 4));
    assert_eq!(reader.wanted(), 8);
    assert_eq!(reader.feed(&packet[4..12]), (ReadStep::NeedMore, 8));
    assert_eq!(reader.wanted(), packet.len() - 12);
    let (step, taken) = reader.feed(&packet[12..]);
    assert_eq!(sequence_of(&step), 7);
    assert_eq!(taken, packet.len() - 12);
    // Ready for the next read.
    assert_eq!(reader.wanted(), 4);
    assert_eq!(reader.retries(), 0);
    let mut scanning = PacketReader::new(ReaderMode::Scanning);
    assert_eq!(scanning.wanted(), 4);
    scanning.feed(&[0, 0, 0, 0, 0]);
    assert_eq!(scanning.wanted(), 1);
}

#[test]
fn reader_takes_bytes_one_at_a_time() {
    let packet = image_packet(7, &jpeg(1, 20));
    let mut reader = PacketReader::new(ReaderMode::Aligned);
    for byte in &packet[..packet.len() - 1] {
        assert_eq!(reader.push(*byte), ReadStep::NeedMore);
    }
    let step = reader.push(packet[packet.len() - 1]);
    assert_eq!(sequence_of(&step), 7);
}

#[test]
fn feed_stops_at_the_end_of_a_read() {
    let mut stream = image_packet(1, &jpeg(1, 5));
    let first = stream.len();
    stream.extend(image_packet(2, &jpeg(2, 5)));
    let mut reader = PacketReader::new(ReaderMode::Aligned);
    let (step, taken) = reader.feed(&stream);
    assert_eq!(sequence_of(&step), 1);
    assert_eq!(taken, first);
    let (step, taken) = reader.feed(&stream[first..]);
    assert_eq!(sequence_of(&step), 2);
    assert_eq!(taken, stream.len() - first);
}

#[test]
fn transport_faults_end_the_read() {
    let packet = image_packet(7, &jpeg(1, 20));
    let mut reader = PacketReader::new(ReaderMode::Aligned);
    reader.feed(&packet[..10]);
    assert_eq!(reader.abort(TransportFault::TimedOut), ReadError::Timeout);
    assert_eq!(reader.wanted(), 4);
    assert_eq!(reader.abort(TransportFault::Closed), ReadError::ConnectionClosed);
    assert_eq!(reader.abort(TransportFault::Other), ReadError::Io);
    let (step, _) = reader.feed(&packet);
    assert_eq!(sequence_of(&step), 7);
}

#[test]
fn a_timeout_does_not_count_as_a_failed_attempt() {
    let mut bad = image_packet(1, &jpeg(1, 8));
    bad[14] ^= 1;
    let mut reader = PacketReader::new(ReaderMode::Aligned);
    assert_eq!(reader.feed(&bad), (ReadStep::NeedMore, bad.len()));
    assert_eq!(reader.retries(), 1);
    assert_eq!(reader.abort(TransportFault::TimedOut), ReadError::Timeout);
    assert_eq!(reader.retries(), 0);
}

#[test]
fn only_a_timeout_is_not_fatal() {
    assert!(!ReadError::Timeout.is_fatal());
    assert!(ReadError::ConnectionClosed.is_fatal());
    assert!(ReadError::RecoveryExhausted.is_fatal());
    assert!(ReadError::MarkerNotFound.is_fatal());
    assert!(ReadError::Io.is_fatal());
}

#[test]
fn find_marker_returns_the_first_marker() {
    let mut stream = vec![1, 2, 3];
    stream.extend_from_slice(&METRICS_SYNC_WORD.to_le_bytes());
    stream.extend_from_slice(&SYNC_WORD.to_le_bytes());
    assert_eq!(find_marker(&stream, 0), Ok((7, PacketKind::Metrics)));
    assert_eq!(find_marker(&stream, 3), Ok((7, PacketKind::Metrics)));
    assert_eq!(find_marker(&stream, 4), Ok((11, PacketKind::Mjpeg)));
    assert_eq!(find_marker(&stream, 8), Err(SyncError::EndOfStream));
    assert_eq!(find_marker(&stream, 11), Err(SyncError::EndOfStream));
    assert_eq!(find_marker(&stream, 50), Err(SyncError::EndOfStream));
    assert_eq!(find_marker(&[], 0), Err(SyncError::EndOfStream));
}

#[test]
fn find_marker_is_bounded_by_its_budget() {
    let mut stream = vec![0u8; MAX_SEARCH_BYTES - 4];
    stream.extend_from_slice(&SYNC_WORD.to_le_bytes());
    stream.extend_from_slice(&[0, 0]);
    assert_eq!(find_marker(&stream, 0), Ok((MAX_SEARCH_BYTES, PacketKind::Mjpeg)));
    stream.insert(0, 0);
    assert_eq!(find_marker(&stream, 0), Err(SyncError::BudgetExhausted));
    assert_eq!(find_marker(&stream, 1), Ok((MAX_SEARCH_BYTES + 1, PacketKind::Mjpeg)));
    assert_eq!(find_marker(&vec![0u8; MAX_SEARCH_BYTES - 1], 0), Err(SyncError::EndOfStream));
    assert_eq!(find_marker(&vec![0u8; MAX_SEARCH_BYTES], 0), Err(SyncError::BudgetExhausted));
}

#[test]
fn scanner_slides_its_window() {
    let mut scanner = MarkerScanner::new();
    assert_eq!(scanner.bytes_seen(), 0);
    for byte in [0xCA, 0xBE, 0xBA, 0xFE] {
        assert_eq!(scanner.push(byte), ScanStatus::Searching);
    }
    assert_eq!(scanner.push(0xCA), ScanStatus::Found(PacketKind::Mjpeg));
    assert_eq!(scanner.bytes_seen(), 5);
    assert_eq!(scanner.push(0xEF), ScanStatus::Searching);
    assert_eq!(scanner.push(0xBE), ScanStatus::Searching);
    assert_eq!(scanner.push(0xFE), ScanStatus::Searching);
    assert_eq!(scanner.push(0xCA), ScanStatus::Found(PacketKind::Metrics));
}

#[test]
fn scanner_does_not_take_zeros_for_a_marker_start() {
    // Three bytes of a marker are no marker, whatever the window held.
    let mut scanner = MarkerScanner::new();
    assert_eq!(scanner.push(0xBA), ScanStatus::Searching);
    assert_eq!(scanner.push(0xFE), ScanStatus::Searching);
    assert_eq!(scanner.push(0xCA), ScanStatus::Searching);
}

#[test]
fn scanner_stops_at_its_budget() {
    let mut scanner = MarkerScanner::new();
    for _ in 0..MAX_SEARCH_BYTES - 1 {
        assert_eq!(scanner.push(0), ScanStatus::Searching);
    }
    assert_eq!(scanner.push(0), ScanStatus::Exhausted);
    assert_eq!(scanner.bytes_seen(), MAX_SEARCH_BYTES);
    assert_eq!(scanner.push(0xBE), ScanStatus::Exhausted);
    assert_eq!(scanner.bytes_seen(), MAX_SEARCH_BYTES);
}
