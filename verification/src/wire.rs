//! The image packet seen from the sender's side, and what ties the parsers
//! to the wire: parsing inverts encoding, and a damaged packet does not
//! parse.

use vstd::prelude::*;

use crate::crc::{crc16_ccitt, lemma_crc16_detects_single_byte_change};
use crate::protocol::{
    le_u16_at, le_u32_at, parse_header_spec, parse_metrics_spec, parse_packet_spec, FormatError,
    MetricsPacket, MjpegHeader, MjpegPacketView, CRC_SIZE, MAX_JPEG_SIZE, METRICS_PACKET_SIZE,
    MJPEG_HEADER_SIZE, SYNC_WORD,
};

verus! {

/// The two bytes of `x`, least significant first.
pub open spec fn u16_le_bytes(x: u16) -> Seq<u8> {
    seq![(x % 0x100) as u8, (x / 0x100) as u8]
}

/// The four bytes of `x`, least significant first.
pub open spec fn u32_le_bytes(x: u32) -> Seq<u8> {
    seq![
        (x % 0x100) as u8,
        (x / 0x100 % 0x100) as u8,
        (x / 0x1_0000 % 0x100) as u8,
        (x / 0x100_0000) as u8,
    ]
}

/// The twelve header bytes of an image packet.
pub open spec fn mjpeg_header_bytes(sequence: u32, jpeg_size: u32) -> Seq<u8> {
    u32_le_bytes(SYNC_WORD) + u32_le_bytes(sequence) + u32_le_bytes(jpeg_size)
}

/// The bytes of the image packet that carries `payload` under `sequence`:
/// header, payload, and the checksum of both.
pub open spec fn mjpeg_packet_bytes(sequence: u32, payload: Seq<u8>) -> Seq<u8>
    recommends
        payload.len() <= MAX_JPEG_SIZE,
{
    let covered = mjpeg_header_bytes(sequence, payload.len() as u32) + payload;
    covered + u16_le_bytes(crc16_ccitt(covered))
}

/// The packet that `mjpeg_packet_bytes(sequence, payload)` encodes.
pub open spec fn mjpeg_packet_of(sequence: u32, payload: Seq<u8>) -> MjpegPacketView
    recommends
        payload.len() <= MAX_JPEG_SIZE,
{
    MjpegPacketView {
        header: MjpegHeader { sync_word: SYNC_WORD, sequence, jpeg_size: payload.len() as u32 },
        jpeg_data: payload,
        crc16: crc16_ccitt(mjpeg_header_bytes(sequence, payload.len() as u32) + payload),
    }
}

/// Reading a 16-bit value back from its bytes gives the value.
pub proof fn lemma_u16_le_roundtrip(s: Seq<u8>, at: int, x: u16)
    requires
        0 <= at,
        at + 2 <= s.len(),
        s.subrange(at, at + 2) == u16_le_bytes(x),
    ensures
        le_u16_at(s, at) == x,
{
    let b = u16_le_bytes(x);
    assert(s[at] == s.subrange(at, at + 2)[0]);
    assert(s[at + 1] == s.subrange(at, at + 2)[1]);
    assert(b[0] == (x % 0x100) as u8);
    assert(b[1] == (x / 0x100) as u8);
}

/// Reading a 32-bit value back from its bytes gives the value.
pub proof fn lemma_u32_le_roundtrip(s: Seq<u8>, at: int, x: u32)
    requires
        0 <= at,
        at + 4 <= s.len(),
        s.subrange(at, at + 4) == u32_le_bytes(x),
    ensures
        le_u32_at(s, at) == x,
{
    let b = u32_le_bytes(x);
    assert(s[at] == s.subrange(at, at + 4)[0]);
    assert(s[at + 1] == s.subrange(at, at + 4)[1]);
    assert(s[at + 2] == s.subrange(at, at + 4)[2]);
    assert(s[at + 3] == s.subrange(at, at + 4)[3]);
    assert(b[0] == (x % 0x100) as u8);
    assert(b[1] == (x / 0x100 % 0x100) as u8);
    assert(b[2] == (x / 0x1_0000 % 0x100) as u8);
    assert(b[3] == (x / 0x100_0000) as u8);
}

/// The bytes that a 16-bit value is read from are the bytes of that value.
pub proof fn lemma_u16_le_bytes_of_read(s: Seq<u8>, at: int)
    requires
        0 <= at,
        at + 2 <= s.len(),
    ensures
        u16_le_bytes(le_u16_at(s, at)) == s.subrange(at, at + 2),
{
    assert(u16_le_bytes(le_u16_at(s, at)) =~= s.subrange(at, at + 2));
}

/// The bytes that a 32-bit value is read from are the bytes of that value.
pub proof fn lemma_u32_le_bytes_of_read(s: Seq<u8>, at: int)
    requires
        0 <= at,
        at + 4 <= s.len(),
    ensures
        u32_le_bytes(le_u32_at(s, at)) == s.subrange(at, at + 4),
{
    assert(u32_le_bytes(le_u32_at(s, at)) =~= s.subrange(at, at + 4));
}

/// An encoded image packet is its payload between twelve bytes of header
/// and two of checksum.
pub proof fn lemma_encoded_len(sequence: u32, payload: Seq<u8>)
    ensures
        mjpeg_packet_bytes(sequence, payload).len() == MJPEG_HEADER_SIZE + payload.len()
            + CRC_SIZE,
{
}

/// Parsing inverts encoding: the bytes of an image packet, with anything
/// after them, parse to that packet.
pub proof fn lemma_parse_inverts_encoding(sequence: u32, payload: Seq<u8>, rest: Seq<u8>)
    requires
        payload.len() <= MAX_JPEG_SIZE,
    ensures
        parse_packet_spec(mjpeg_packet_bytes(sequence, payload) + rest) == Ok::<
            MjpegPacketView,
            FormatError,
        >(mjpeg_packet_of(sequence, payload)),
{
    let size = payload.len() as u32;
    let header = mjpeg_header_bytes(sequence, size);
    let covered = header + payload;
    let crc = crc16_ccitt(covered);
    let bytes = mjpeg_packet_bytes(sequence, payload) + rest;
    let end = MJPEG_HEADER_SIZE + payload.len();
    assert(header.len() == 12);
    assert(bytes.subrange(0, 4) =~= u32_le_bytes(SYNC_WORD));
    assert(bytes.subrange(4, 8) =~= u32_le_bytes(sequence));
    assert(bytes.subrange(8, 12) =~= u32_le_bytes(size));
    lemma_u32_le_roundtrip(bytes, 0, SYNC_WORD);
    lemma_u32_le_roundtrip(bytes, 4, sequence);
    lemma_u32_le_roundtrip(bytes, 8, size);
    assert(bytes.take(end) =~= covered);
    assert(bytes.subrange(end, end + 2) =~= u16_le_bytes(crc));
    lemma_u16_le_roundtrip(bytes, end, crc);
    assert(bytes.subrange(MJPEG_HEADER_SIZE as int, end) =~= payload);
}

/// Encoding inverts parsing: a buffer that parses opens with exactly the
/// bytes of the packet it parses to, and the packet's checksum is the
/// checksum of its header and payload.
pub proof fn lemma_parsed_bytes_are_encoding(bytes: Seq<u8>)
    requires
        parse_packet_spec(bytes) is Ok,
    ensures
        ({
            let packet = parse_packet_spec(bytes)->Ok_0;
            &&& packet.header.sync_word == SYNC_WORD
            &&& packet.header.jpeg_size == packet.jpeg_data.len()
            &&& packet.header.jpeg_size <= MAX_JPEG_SIZE
            &&& packet == mjpeg_packet_of(packet.header.sequence, packet.jpeg_data)
            &&& bytes.take(packet.header.spec_total_size()) == mjpeg_packet_bytes(
                packet.header.sequence,
                packet.jpeg_data,
            )
        }),
{
    let packet = parse_packet_spec(bytes)->Ok_0;
    let header = parse_header_spec(bytes)->Ok_0;
    let end = MJPEG_HEADER_SIZE + header.jpeg_size;
    let encoded = mjpeg_packet_bytes(packet.header.sequence, packet.jpeg_data);
    lemma_u32_le_bytes_of_read(bytes, 0);
    lemma_u32_le_bytes_of_read(bytes, 4);
    lemma_u32_le_bytes_of_read(bytes, 8);
    lemma_u16_le_bytes_of_read(bytes, end);
    let head = mjpeg_header_bytes(header.sequence, header.jpeg_size);
    assert(head =~= bytes.take(12)) by {
        assert(bytes.subrange(0, 4) + bytes.subrange(4, 8) + bytes.subrange(8, 12) =~= bytes.take(
            12,
        ));
    }
    assert(head + packet.jpeg_data =~= bytes.take(end));
    assert(encoded =~= bytes.take(end + CRC_SIZE)) by {
        assert(bytes.take(end) + bytes.subrange(end, end + 2) =~= bytes.take(end + 2));
    }
}

/// Parsing is stable: a buffer that parses, encoded again from the packet
/// it gave, parses to the same packet.
pub proof fn lemma_reparse_gives_same_packet(bytes: Seq<u8>)
    requires
        parse_packet_spec(bytes) is Ok,
    ensures
        ({
            let packet = parse_packet_spec(bytes)->Ok_0;
            &&& parse_packet_spec(mjpeg_packet_bytes(packet.header.sequence, packet.jpeg_data))
                == parse_packet_spec(bytes)
            &&& packet.crc16 == crc16_ccitt(
                bytes.take(MJPEG_HEADER_SIZE + packet.header.jpeg_size),
            )
        }),
{
    let packet = parse_packet_spec(bytes)->Ok_0;
    lemma_parsed_bytes_are_encoding(bytes);
    lemma_parse_inverts_encoding(packet.header.sequence, packet.jpeg_data, Seq::<u8>::empty());
    assert(mjpeg_packet_bytes(packet.header.sequence, packet.jpeg_data) + Seq::<u8>::empty()
        =~= mjpeg_packet_bytes(packet.header.sequence, packet.jpeg_data));
}

/// A packet with one damaged byte does not parse. Where the damage is in
/// the sequence number, the payload or the checksum, the parser reports
/// `ChecksumMismatch`; where it is in the marker, `BadMarker`. (Damage to
/// the size field moves the place where the checksum is looked for, and
/// nothing is claimed of it.)
pub proof fn lemma_single_byte_damage_is_detected(bytes: Seq<u8>, damaged: Seq<u8>, at: int)
    requires
        parse_packet_spec(bytes) is Ok,
        damaged.len() == bytes.len(),
        0 <= at < parse_packet_spec(bytes)->Ok_0.header.spec_total_size(),
        !(8 <= at < 12),
        damaged[at] != bytes[at],
        forall|j: int| 0 <= j < bytes.len() && j != at ==> damaged[j] == bytes[j],
    ensures
        at < 4 ==> parse_packet_spec(damaged) == Err::<MjpegPacketView, FormatError>(
            FormatError::BadMarker,
        ),
        at >= 4 ==> parse_packet_spec(damaged) == Err::<MjpegPacketView, FormatError>(
            FormatError::ChecksumMismatch,
        ),
{
    let header = parse_header_spec(bytes)->Ok_0;
    let end = MJPEG_HEADER_SIZE + header.jpeg_size;
    if at < 4 {
        assert(le_u32_at(damaged, 0) != le_u32_at(bytes, 0));
    } else {
        assert(le_u32_at(damaged, 0) == le_u32_at(bytes, 0));
        assert(le_u32_at(damaged, 8) == le_u32_at(bytes, 8));
        if at < end {
            assert(le_u16_at(damaged, end) == le_u16_at(bytes, end));
            lemma_crc16_detects_single_byte_change(bytes.take(end), damaged.take(end), at);
        } else {
            assert(damaged.take(end) =~= bytes.take(end));
            assert(le_u16_at(damaged, end) != le_u16_at(bytes, end));
        }
    }
}

/// A metrics packet with one damaged byte does not parse, wherever the
/// damage is: in the marker the parser reports `BadMarker`, anywhere else
/// `ChecksumMismatch`.
pub proof fn lemma_metrics_damage_is_detected(bytes: Seq<u8>, damaged: Seq<u8>, at: int)
    requires
        parse_metrics_spec(bytes) is Ok,
        damaged.len() == bytes.len(),
        0 <= at < METRICS_PACKET_SIZE,
        damaged[at] != bytes[at],
        forall|j: int| 0 <= j < bytes.len() && j != at ==> damaged[j] == bytes[j],
    ensures
        at < 4 ==> parse_metrics_spec(damaged) == Err::<MetricsPacket, FormatError>(
            FormatError::BadMarker,
        ),
        at >= 4 ==> parse_metrics_spec(damaged) == Err::<MetricsPacket, FormatError>(
            FormatError::ChecksumMismatch,
        ),
{
    let end = METRICS_PACKET_SIZE - CRC_SIZE;
    if at < 4 {
        assert(le_u32_at(damaged, 0) != le_u32_at(bytes, 0));
    } else {
        assert(le_u32_at(damaged, 0) == le_u32_at(bytes, 0));
        if at < end {
            assert(le_u16_at(damaged, end) == le_u16_at(bytes, end));
            lemma_crc16_detects_single_byte_change(bytes.take(end), damaged.take(end), at);
        } else {
            assert(damaged.take(end) =~= bytes.take(end));
            assert(le_u16_at(damaged, end) != le_u16_at(bytes, end));
        }
    }
}

} // verus!
