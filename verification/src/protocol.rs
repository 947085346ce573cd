//! The wire format: fixed little-endian headers, a payload, and a trailing
//! CRC-16/CCITT over every byte before it.
//!
//! An image packet is `marker | sequence | jpeg_size | jpeg bytes | crc16`.
//! A metrics packet is a fixed record of nine 32-bit words followed by its
//! checksum. The marker, the first word of either, tells the two apart.

use byteorder::{ByteOrder, LittleEndian};
use vstd::prelude::*;
use vstd::slice::{slice_subrange, slice_to_vec};

pub use crate::crc::calculate_crc16_ccitt;
use crate::crc::crc16_ccitt;

verus! {

/// Marker that opens an image packet.
pub const SYNC_WORD: u32 = 0xCAFEBABE;

/// Marker that opens a metrics packet.
pub const METRICS_SYNC_WORD: u32 = 0xCAFEBEEF;

/// Bytes of an image packet's header: marker, sequence number, payload size.
pub const MJPEG_HEADER_SIZE: usize = 12;

/// Bytes of the trailing checksum.
pub const CRC_SIZE: usize = 2;

/// The smallest image packet: a header and a checksum around no payload.
pub const MIN_PACKET_SIZE: usize = MJPEG_HEADER_SIZE + CRC_SIZE;

/// Largest payload an image packet may declare (512 KiB).
pub const MAX_JPEG_SIZE: u32 = 524288;

/// Bytes of a whole metrics packet, checksum included.
pub const METRICS_PACKET_SIZE: usize = 38;

/// The 16-bit value whose little-endian encoding stands at `s[at..at + 2]`.
pub open spec fn le_u16_at(s: Seq<u8>, at: int) -> u16
    recommends
        0 <= at,
        at + 2 <= s.len(),
{
    (s[at] as int + s[at + 1] as int * 0x100) as u16
}

/// The 32-bit value whose little-endian encoding stands at `s[at..at + 4]`.
pub open spec fn le_u32_at(s: Seq<u8>, at: int) -> u32
    recommends
        0 <= at,
        at + 4 <= s.len(),
{
    (s[at] as int + s[at + 1] as int * 0x100 + s[at + 2] as int * 0x1_0000 + s[at + 3] as int
        * 0x100_0000) as u32
}

/// `byteorder::LittleEndian::read_u16` on the bytes from `at` on: the value
/// of the first two of them, least significant byte first. The outside
/// function panics on fewer than two bytes, which `requires` rules out.
#[verifier::external_body]
pub(crate) fn read_u16_le(buf: &[u8], at: usize) -> (value: u16)
    requires
        at + 2 <= buf@.len(),
    ensures
        value == le_u16_at(buf@, at as int),
{
    LittleEndian::read_u16(&buf[at..])
}

/// `byteorder::LittleEndian::read_u32` on the bytes from `at` on: the value
/// of the first four of them, least significant byte first. The outside
/// function panics on fewer than four bytes, which `requires` rules out.
#[verifier::external_body]
pub(crate) fn read_u32_le(buf: &[u8], at: usize) -> (value: u32)
    requires
        at + 4 <= buf@.len(),
    ensures
        value == le_u32_at(buf@, at as int),
{
    LittleEndian::read_u32(&buf[at..])
}

/// Why a buffer is not a packet.
#[derive(Debug, Clone, Copy, PartialEq, Eq, Structural)]
pub enum FormatError {
    /// The buffer ends before the header, or before the packet that the
    /// header declares.
    Truncated,
    /// The first four bytes are not the expected marker.
    BadMarker,
    /// The declared payload size is above `MAX_JPEG_SIZE`.
    SizeOutOfRange,
    /// The stored checksum is not the checksum of the bytes before it.
    ChecksumMismatch,
}

/// Header of an image packet.
#[derive(Debug, Clone, Copy, PartialEq, Eq, Structural)]
pub struct MjpegHeader {
    /// Always `SYNC_WORD` in a parsed header.
    pub sync_word: u32,
    /// Frame sequence number.
    pub sequence: u32,
    /// Payload size in bytes.
    pub jpeg_size: u32,
}

/// What `MjpegHeader::parse` makes of `bytes`.
pub open spec fn parse_header_spec(bytes: Seq<u8>) -> Result<MjpegHeader, FormatError> {
    if bytes.len() < MJPEG_HEADER_SIZE {
        Err(FormatError::Truncated)
    } else if le_u32_at(bytes, 0) != SYNC_WORD {
        Err(FormatError::BadMarker)
    } else if le_u32_at(bytes, 8) > MAX_JPEG_SIZE {
        Err(FormatError::SizeOutOfRange)
    } else {
        Ok(
            MjpegHeader {
                sync_word: SYNC_WORD,
                sequence: le_u32_at(bytes, 4),
                jpeg_size: le_u32_at(bytes, 8),
            },
        )
    }
}

impl MjpegHeader {
    /// Bytes of the whole packet that this header opens.
    pub open spec fn spec_total_size(&self) -> int {
        MJPEG_HEADER_SIZE + self.jpeg_size + CRC_SIZE
    }

    /// Reads the header at the start of `buf`.
    ///
    /// Fails with `Truncated` on fewer than twelve bytes, with `BadMarker`
    /// when the first word is not `SYNC_WORD`, and with `SizeOutOfRange`
    /// when the declared payload is above `MAX_JPEG_SIZE`, in that order.
    pub fn parse(buf: &[u8]) -> (result: Result<MjpegHeader, FormatError>)
        ensures
            result == parse_header_spec(buf@),
    {
        if buf.len() < MJPEG_HEADER_SIZE {
            return Err(FormatError::Truncated);
        }
        let sync_word = read_u32_le(buf, 0);
        if sync_word != SYNC_WORD {
            return Err(FormatError::BadMarker);
        }
        let sequence = read_u32_le(buf, 4);
        let jpeg_size = read_u32_le(buf, 8);
        if jpeg_size > MAX_JPEG_SIZE {
            return Err(FormatError::SizeOutOfRange);
        }
        Ok(MjpegHeader { sync_word, sequence, jpeg_size })
    }

    /// Size of the whole packet: header, payload and checksum.
    pub fn total_size(&self) -> (size: usize)
        requires
            self.spec_total_size() <= usize::MAX,
        ensures
            size == self.spec_total_size(),
    {
        MJPEG_HEADER_SIZE + self.jpeg_size as usize + CRC_SIZE
    }
}

/// A whole image packet.
#[derive(Debug, Clone, PartialEq, Eq)]
pub struct MjpegPacket {
    /// The header that opened it.
    pub header: MjpegHeader,
    /// The payload, a JPEG image.
    pub jpeg_data: Vec<u8>,
    /// The checksum that closed it.
    pub crc16: u16,
}

/// An image packet as a mathematical value.
pub struct MjpegPacketView {
    pub header: MjpegHeader,
    pub jpeg_data: Seq<u8>,
    pub crc16: u16,
}

impl View for MjpegPacket {
    type V = MjpegPacketView;

    open spec fn view(&self) -> MjpegPacketView {
        MjpegPacketView { header: self.header, jpeg_data: self.jpeg_data@, crc16: self.crc16 }
    }
}

/// Whether `payload` opens with the JPEG start-of-image marker `FF D8` and
/// closes with the end-of-image marker `FF D9`.
pub open spec fn looks_like_jpeg(payload: Seq<u8>) -> bool {
    &&& payload.len() >= 4
    &&& payload[0] == 0xFF
    &&& payload[1] == 0xD8
    &&& payload[payload.len() - 2] == 0xFF
    &&& payload[payload.len() - 1] == 0xD9
}

/// What `MjpegPacket::parse` makes of `bytes`.
pub open spec fn parse_packet_spec(bytes: Seq<u8>) -> Result<MjpegPacketView, FormatError> {
    match parse_header_spec(bytes) {
        Err(e) => Err(e),
        Ok(header) => {
            let end = MJPEG_HEADER_SIZE + header.jpeg_size;
            if bytes.len() < end + CRC_SIZE {
                Err(FormatError::Truncated)
            } else if le_u16_at(bytes, end) != crc16_ccitt(bytes.take(end)) {
                Err(FormatError::ChecksumMismatch)
            } else {
                Ok(
                    MjpegPacketView {
                        header,
                        jpeg_data: bytes.subrange(MJPEG_HEADER_SIZE as int, end),
                        crc16: le_u16_at(bytes, end),
                    },
                )
            }
        },
    }
}

/// The outcome of a parse as a mathematical value.
pub open spec fn mjpeg_result_view(result: Result<MjpegPacket, FormatError>) -> Result<
    MjpegPacketView,
    FormatError,
> {
    match result {
        Ok(packet) => Ok(packet@),
        Err(e) => Err(e),
    }
}

impl MjpegPacket {
    /// Reads the image packet at the start of `buf`; bytes after it are
    /// ignored.
    ///
    /// Fails as `MjpegHeader::parse` does on the header, then with
    /// `Truncated` when `buf` is shorter than the packet the header
    /// declares, then with `ChecksumMismatch` when the two bytes after the
    /// payload are not the CRC-16/CCITT of the header and the payload.
    pub fn parse(buf: &[u8]) -> (result: Result<MjpegPacket, FormatError>)
        ensures
            mjpeg_result_view(result) == parse_packet_spec(buf@),
    {
        let header = match MjpegHeader::parse(buf) {
            Ok(header) => header,
            Err(e) => {
                return Err(e);
            },
        };
        let total_size = header.total_size();
        if buf.len() < total_size {
            return Err(FormatError::Truncated);
        }
        let jpeg_end = total_size - CRC_SIZE;
        let jpeg_data = slice_to_vec(slice_subrange(buf, MJPEG_HEADER_SIZE, jpeg_end));
        let crc16 = read_u16_le(buf, jpeg_end);
        let calculated_crc = calculate_crc16_ccitt(slice_subrange(buf, 0, jpeg_end));
        proof {
            assert(buf@.subrange(0, jpeg_end as int) =~= buf@.take(jpeg_end as int));
        }
        if calculated_crc != crc16 {
            return Err(FormatError::ChecksumMismatch);
        }
        Ok(MjpegPacket { header, jpeg_data, crc16 })
    }

    /// Whether the payload carries the JPEG start and end markers. A
    /// corroborating check beside the checksum, not a replacement for it.
    pub fn is_valid_jpeg(&self) -> (valid: bool)
        ensures
            valid == looks_like_jpeg(self.jpeg_data@),
    {
        let len = self.jpeg_data.len();
        if len < 4 {
            return false;
        }
        let has_soi = self.jpeg_data[0] == 0xFF && self.jpeg_data[1] == 0xD8;
        let has_eoi = self.jpeg_data[len - 2] == 0xFF && self.jpeg_data[len - 1] == 0xD9;
        has_soi && has_eoi
    }
}

/// A metrics packet: counters that the device reports about itself.
#[derive(Debug, Clone, Copy, PartialEq, Eq, Structural)]
pub struct MetricsPacket {
    /// Always `METRICS_SYNC_WORD` in a parsed packet.
    pub sync_word: u32,
    /// Packet sequence number.
    pub sequence: u32,
    /// Device uptime in milliseconds.
    pub timestamp_ms: u32,
    /// Frames that the camera has captured.
    pub camera_frames: u32,
    /// Packets that the device has sent.
    pub usb_packets: u32,
    /// Depth of the device's send queue.
    pub action_q_depth: u32,
    /// Average packet size in bytes.
    pub avg_packet_size: u32,
    /// Errors that the device has counted.
    pub errors: u32,
    /// The ninth word of the record, which has no assigned meaning.
    pub reserved: u32,
    /// The checksum that closed it.
    pub crc16: u16,
}

/// What `MetricsPacket::parse` makes of `bytes`.
pub open spec fn parse_metrics_spec(bytes: Seq<u8>) -> Result<MetricsPacket, FormatError> {
    let end = METRICS_PACKET_SIZE - CRC_SIZE;
    if bytes.len() < METRICS_PACKET_SIZE {
        Err(FormatError::Truncated)
    } else if le_u32_at(bytes, 0) != METRICS_SYNC_WORD {
        Err(FormatError::BadMarker)
    } else if le_u16_at(bytes, end) != crc16_ccitt(bytes.take(end)) {
        Err(FormatError::ChecksumMismatch)
    } else {
        Ok(
            MetricsPacket {
                sync_word: METRICS_SYNC_WORD,
                sequence: le_u32_at(bytes, 4),
                timestamp_ms: le_u32_at(bytes, 8),
                camera_frames: le_u32_at(bytes, 12),
                usb_packets: le_u32_at(bytes, 16),
                action_q_depth: le_u32_at(bytes, 20),
                avg_packet_size: le_u32_at(bytes, 24),
                errors: le_u32_at(bytes, 28),
                reserved: le_u32_at(bytes, 32),
                crc16: le_u16_at(bytes, end),
            },
        )
    }
}

impl MetricsPacket {
    /// Reads the metrics packet at the start of `buf`; bytes after it are
    /// ignored.
    ///
    /// Fails with `Truncated` on fewer than `METRICS_PACKET_SIZE` bytes,
    /// with `BadMarker` when the first word is not `METRICS_SYNC_WORD`, and
    /// with `ChecksumMismatch` when the last two bytes are not the
    /// CRC-16/CCITT of the bytes before them, in that order.
    pub fn parse(buf: &[u8]) -> (result: Result<MetricsPacket, FormatError>)
        ensures
            result == parse_metrics_spec(buf@),
    {
        if buf.len() < METRICS_PACKET_SIZE {
            return Err(FormatError::Truncated);
        }
        let sync_word = read_u32_le(buf, 0);
        if sync_word != METRICS_SYNC_WORD {
            return Err(FormatError::BadMarker);
        }
        let end = METRICS_PACKET_SIZE - CRC_SIZE;
        let crc16 = read_u16_le(buf, end);
        let calculated_crc = calculate_crc16_ccitt(slice_subrange(buf, 0, end));
        proof {
            assert(buf@.subrange(0, end as int) =~= buf@.take(end as int));
        }
        if calculated_crc != crc16 {
            return Err(FormatError::ChecksumMismatch);
        }
        Ok(
            MetricsPacket {
                sync_word,
                sequence: read_u32_le(buf, 4),
                timestamp_ms: read_u32_le(buf, 8),
                camera_frames: read_u32_le(buf, 12),
                usb_packets: read_u32_le(buf, 16),
                action_q_depth: read_u32_le(buf, 20),
                avg_packet_size: read_u32_le(buf, 24),
                errors: read_u32_le(buf, 28),
                reserved: read_u32_le(buf, 32),
                crc16,
            },
        )
    }
}

/// Either kind of packet.
#[derive(Debug, Clone, PartialEq, Eq)]
pub enum Packet {
    /// An image frame.
    Mjpeg(MjpegPacket),
    /// A metrics record.
    Metrics(MetricsPacket),
}

/// A packet as a mathematical value.
pub enum PacketView {
    Mjpeg(MjpegPacketView),
    Metrics(MetricsPacket),
}

impl View for Packet {
    type V = PacketView;

    open spec fn view(&self) -> PacketView {
        match self {
            Packet::Mjpeg(packet) => PacketView::Mjpeg(packet@),
            Packet::Metrics(packet) => PacketView::Metrics(*packet),
        }
    }
}

/// The two kinds of packet, as their markers tell them apart.
#[derive(Debug, Clone, Copy, PartialEq, Eq, Structural)]
pub enum PacketKind {
    Mjpeg,
    Metrics,
}

/// The kind of packet that `word` opens, if it is a marker at all.
pub open spec fn marker_kind(word: u32) -> Option<PacketKind> {
    if word == SYNC_WORD {
        Some(PacketKind::Mjpeg)
    } else if word == METRICS_SYNC_WORD {
        Some(PacketKind::Metrics)
    } else {
        None
    }
}

/// The kind of packet that `word` opens, if it is a marker at all.
pub fn classify_marker(word: u32) -> (kind: Option<PacketKind>)
    ensures
        kind == marker_kind(word),
{
    if word == SYNC_WORD {
        Some(PacketKind::Mjpeg)
    } else if word == METRICS_SYNC_WORD {
        Some(PacketKind::Metrics)
    } else {
        None
    }
}

/// What `Packet::parse` makes of `bytes`.
pub open spec fn parse_any_spec(bytes: Seq<u8>) -> Result<PacketView, FormatError> {
    if bytes.len() < 4 {
        Err(FormatError::Truncated)
    } else {
        match marker_kind(le_u32_at(bytes, 0)) {
            None => Err(FormatError::BadMarker),
            Some(PacketKind::Mjpeg) => match parse_packet_spec(bytes) {
                Ok(packet) => Ok(PacketView::Mjpeg(packet)),
                Err(e) => Err(e),
            },
            Some(PacketKind::Metrics) => match parse_metrics_spec(bytes) {
                Ok(packet) => Ok(PacketView::Metrics(packet)),
                Err(e) => Err(e),
            },
        }
    }
}

/// The outcome of a parse as a mathematical value.
pub open spec fn packet_result_view(result: Result<Packet, FormatError>) -> Result<
    PacketView,
    FormatError,
> {
    match result {
        Ok(packet) => Ok(packet@),
        Err(e) => Err(e),
    }
}

impl Packet {
    /// Reads the packet at the start of `buf`, of the kind that its first
    /// word announces.
    ///
    /// Fails with `Truncated` on fewer than four bytes and with `BadMarker`
    /// when the first word is neither marker; otherwise as the parser of
    /// the announced kind does.
    pub fn parse(buf: &[u8]) -> (result: Result<Packet, FormatError>)
        ensures
            packet_result_view(result) == parse_any_spec(buf@),
    {
        if buf.len() < 4 {
            return Err(FormatError::Truncated);
        }
        match classify_marker(read_u32_le(buf, 0)) {
            None => Err(FormatError::BadMarker),
            Some(PacketKind::Mjpeg) => match MjpegPacket::parse(buf) {
                Ok(packet) => Ok(Packet::Mjpeg(packet)),
                Err(e) => Err(e),
            },
            Some(PacketKind::Metrics) => match MetricsPacket::parse(buf) {
                Ok(packet) => Ok(Packet::Metrics(packet)),
                Err(e) => Err(e),
            },
        }
    }
}

} // verus!
