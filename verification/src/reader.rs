//! Reading one valid packet from a byte stream that may be damaged or out
//! of step.
//!
//! The reader is a state machine that is fed the transport's bytes and
//! answers each with what to do next. It performs no input itself, so the
//! same rules serve a serial line, a socket and a buffer in memory.
//!
//! One read goes through attempts. An attempt assembles a packet from its
//! marker on and checks it; a packet that fails a check ends the attempt.
//! After a failed attempt the reader searches the stream for the next
//! marker and tries again from there, up to `MAX_RETRIES` attempts in all.

use vstd::prelude::*;
use vstd::slice::slice_subrange;

use crate::protocol::{
    classify_marker, le_u32_at, looks_like_jpeg, marker_kind, parse_any_spec, parse_header_spec,
    read_u32_le, MjpegHeader, Packet, PacketKind, PacketView, CRC_SIZE, METRICS_PACKET_SIZE,
    METRICS_SYNC_WORD, MJPEG_HEADER_SIZE, SYNC_WORD,
};
use crate::sync::{scan_status, tail_from, MarkerScanner, ScanStatus, MAX_SEARCH_BYTES};

verus! {

/// Attempts that one read may fail before it gives up.
pub const MAX_RETRIES: u32 = 3;

/// How a read finds its first marker.
#[derive(Debug, Clone, Copy, PartialEq, Eq, Structural)]
pub enum ReaderMode {
    /// The stream is taken to stand at the start of a packet, as on a
    /// serial line after a packet was read whole.
    Aligned,
    /// The stream gives no packet boundaries, as on a socket: every read
    /// opens with a search for a marker.
    Scanning,
}

/// Why a read returned no packet.
#[derive(Debug, Clone, Copy, PartialEq, Eq, Structural)]
pub enum ReadError {
    /// The transport delivered nothing in time. Not fatal: the caller
    /// reads again.
    Timeout,
    /// The stream ended inside a read.
    ConnectionClosed,
    /// `MAX_RETRIES` attempts in a row failed their checks.
    RecoveryExhausted,
    /// A search for the next marker used up its budget.
    MarkerNotFound,
    /// The transport failed in another way.
    Io,
}

/// What a transport reports in place of bytes.
#[derive(Debug, Clone, Copy, PartialEq, Eq, Structural)]
pub enum TransportFault {
    /// No bytes within the read timeout.
    TimedOut,
    /// End of stream.
    Closed,
    /// Any other failure.
    Other,
}

/// The error that a read reports for a transport fault.
pub open spec fn fault_error(fault: TransportFault) -> ReadError {
    match fault {
        TransportFault::TimedOut => ReadError::Timeout,
        TransportFault::Closed => ReadError::ConnectionClosed,
        TransportFault::Other => ReadError::Io,
    }
}

/// Whether `error` ends the connection. Only a timeout does not.
pub open spec fn is_fatal(error: ReadError) -> bool {
    error != ReadError::Timeout
}

impl ReadError {
    /// Whether this error ends the connection. Only a timeout does not.
    pub fn is_fatal(&self) -> (fatal: bool)
        ensures
            fatal == is_fatal(*self),
    {
        match self {
            ReadError::Timeout => false,
            _ => true,
        }
    }
}

/// What an attempt is waiting for.
#[derive(Debug, Clone, Copy, PartialEq, Eq, Structural)]
pub enum Phase {
    /// The four bytes at which an aligned stream should hold a marker.
    Marker,
    /// A marker, anywhere in what comes.
    Sync,
    /// The rest of an image packet's header.
    Header,
    /// The rest of the packet.
    Body,
}

/// The reader as a mathematical value.
pub struct ReaderState {
    pub mode: ReaderMode,
    pub phase: Phase,
    /// Bytes of the packet being assembled, from its marker on.
    pub buf: Seq<u8>,
    /// Bytes that the search in progress has consumed.
    pub scanned: Seq<u8>,
    /// Attempts of this read that have failed.
    pub retries: nat,
}

/// The answer to one byte.
#[derive(Debug, Clone, PartialEq, Eq)]
pub enum ReadStep {
    /// Nothing to report yet.
    NeedMore,
    /// The read is over: `packet` passed every check, after `retries`
    /// failed attempts.
    Done { packet: Packet, retries: u32 },
    /// The read is over without a packet.
    Failed(ReadError),
}

/// The answer to one byte as a mathematical value.
pub enum ReadStepView {
    NeedMore,
    Done { packet: PacketView, retries: nat },
    Failed(ReadError),
}

impl View for ReadStep {
    type V = ReadStepView;

    open spec fn view(&self) -> ReadStepView {
        match self {
            ReadStep::NeedMore => ReadStepView::NeedMore,
            ReadStep::Done { packet, retries } => ReadStepView::Done {
                packet: packet@,
                retries: *retries as nat,
            },
            ReadStep::Failed(error) => ReadStepView::Failed(*error),
        }
    }
}

/// The reader at the start of a read.
pub open spec fn fresh(mode: ReaderMode) -> ReaderState {
    ReaderState {
        mode,
        phase: match mode {
            ReaderMode::Aligned => Phase::Marker,
            ReaderMode::Scanning => Phase::Sync,
        },
        buf: Seq::empty(),
        scanned: Seq::empty(),
        retries: 0,
    }
}

/// The four bytes of the marker of `kind`, as they stand on the wire.
pub open spec fn marker_bytes(kind: PacketKind) -> Seq<u8> {
    match kind {
        PacketKind::Mjpeg => seq![0xBEu8, 0xBAu8, 0xFEu8, 0xCAu8],
        PacketKind::Metrics => seq![0xEFu8, 0xBEu8, 0xFEu8, 0xCAu8],
    }
}

/// Length of the whole packet that `buf` opens, as far as `buf` says it:
/// fixed for a metrics packet, declared in the header of an image packet.
pub open spec fn announced_len(buf: Seq<u8>) -> int {
    match marker_kind(le_u32_at(buf, 0)) {
        Some(PacketKind::Mjpeg) => MJPEG_HEADER_SIZE + le_u32_at(buf, 8) + CRC_SIZE,
        Some(PacketKind::Metrics) => METRICS_PACKET_SIZE as int,
        None => 0,
    }
}

/// The reader once a marker of `kind` is in: `buf` holds the marker, and
/// the attempt goes on with the header of an image packet or the body of
/// a metrics packet.
pub open spec fn after_marker(state: ReaderState, kind: PacketKind) -> ReaderState {
    ReaderState {
        phase: match kind {
            PacketKind::Mjpeg => Phase::Header,
            PacketKind::Metrics => Phase::Body,
        },
        buf: marker_bytes(kind),
        scanned: Seq::empty(),
        ..state
    }
}

/// The reader and its answer when an attempt fails: one more search,
/// unless this was the last attempt allowed.
pub open spec fn after_failure(state: ReaderState) -> (ReaderState, ReadStepView) {
    if state.retries + 1 >= MAX_RETRIES {
        (fresh(state.mode), ReadStepView::Failed(ReadError::RecoveryExhausted))
    } else {
        (
            ReaderState {
                phase: Phase::Sync,
                buf: Seq::empty(),
                scanned: Seq::empty(),
                retries: state.retries + 1,
                ..state
            },
            ReadStepView::NeedMore,
        )
    }
}

/// The reader and its answer when a whole packet is in `buf`: the packet,
/// if it parses and, being an image, carries the JPEG markers; else a
/// failed attempt.
pub open spec fn after_body(state: ReaderState, buf: Seq<u8>) -> (ReaderState, ReadStepView) {
    match parse_any_spec(buf) {
        Ok(PacketView::Mjpeg(packet)) => if looks_like_jpeg(packet.jpeg_data) {
            (
                fresh(state.mode),
                ReadStepView::Done { packet: PacketView::Mjpeg(packet), retries: state.retries },
            )
        } else {
            after_failure(state)
        },
        Ok(PacketView::Metrics(packet)) => (
            fresh(state.mode),
            ReadStepView::Done { packet: PacketView::Metrics(packet), retries: state.retries },
        ),
        Err(_) => after_failure(state),
    }
}

/// The reader and its answer after `byte`.
pub open spec fn step_spec(state: ReaderState, byte: u8) -> (ReaderState, ReadStepView) {
    let buf = state.buf.push(byte);
    match state.phase {
        Phase::Sync => {
            let scanned = state.scanned.push(byte);
            match scan_status(scanned) {
                ScanStatus::Found(kind) => (after_marker(state, kind), ReadStepView::NeedMore),
                ScanStatus::Exhausted => (
                    fresh(state.mode),
                    ReadStepView::Failed(ReadError::MarkerNotFound),
                ),
                ScanStatus::Searching => (
                    ReaderState { scanned, ..state },
                    ReadStepView::NeedMore,
                ),
            }
        },
        Phase::Marker => if buf.len() < 4 {
            (ReaderState { buf, ..state }, ReadStepView::NeedMore)
        } else {
            match marker_kind(le_u32_at(buf, 0)) {
                Some(kind) => (after_marker(state, kind), ReadStepView::NeedMore),
                None => after_failure(state),
            }
        },
        Phase::Header => if buf.len() < MJPEG_HEADER_SIZE {
            (ReaderState { buf, ..state }, ReadStepView::NeedMore)
        } else {
            match parse_header_spec(buf) {
                Ok(_) => (ReaderState { phase: Phase::Body, buf, ..state }, ReadStepView::NeedMore),
                Err(_) => after_failure(state),
            }
        },
        Phase::Body => if buf.len() < announced_len(buf) {
            (ReaderState { buf, ..state }, ReadStepView::NeedMore)
        } else {
            after_body(state, buf)
        },
    }
}

/// Whether `state` is one that a reader can be in between two bytes.
pub open spec fn state_wf(state: ReaderState) -> bool {
    &&& state.retries < MAX_RETRIES
    &&& match state.phase {
        Phase::Marker => {
            &&& state.buf.len() < 4
            &&& state.scanned.len() == 0
        },
        Phase::Sync => {
            &&& state.buf.len() == 0
            &&& state.scanned.len() < MAX_SEARCH_BYTES
        },
        Phase::Header => {
            &&& 4 <= state.buf.len() < MJPEG_HEADER_SIZE
            &&& le_u32_at(state.buf, 0) == SYNC_WORD
            &&& state.scanned.len() == 0
        },
        Phase::Body => {
            &&& state.scanned.len() == 0
            &&& state.buf.len() < announced_len(state.buf)
            &&& match marker_kind(le_u32_at(state.buf, 0)) {
                Some(PacketKind::Mjpeg) => {
                    &&& state.buf.len() >= MJPEG_HEADER_SIZE
                    &&& parse_header_spec(state.buf) is Ok
                },
                Some(PacketKind::Metrics) => state.buf.len() >= 4,
                None => false,
            }
        },
    }
}

/// A step leads from one such state to another.
pub proof fn lemma_step_keeps_wf(state: ReaderState, byte: u8)
    requires
        state_wf(state),
    ensures
        state_wf(step_spec(state, byte).0),
{
    let buf = state.buf.push(byte);
    assert(le_u32_at(marker_bytes(PacketKind::Mjpeg), 0) == SYNC_WORD);
    assert(le_u32_at(marker_bytes(PacketKind::Metrics), 0) == METRICS_SYNC_WORD);
    if state.buf.len() >= 4 {
        assert(le_u32_at(buf, 0) == le_u32_at(state.buf, 0));
    }
    if state.buf.len() >= 12 {
        assert(le_u32_at(buf, 4) == le_u32_at(state.buf, 4));
        assert(le_u32_at(buf, 8) == le_u32_at(state.buf, 8));
    }
}

/// The reader, its answer and the count of bytes taken when it is fed
/// `data` until it reports the end of a read or `data` runs out.
pub open spec fn feed_spec(state: ReaderState, data: Seq<u8>) -> (ReaderState, ReadStepView, nat)
    decreases data.len(),
{
    if data.len() == 0 {
        (state, ReadStepView::NeedMore, 0)
    } else {
        let (next, step) = step_spec(state, data[0]);
        if step is NeedMore {
            let (last, answer, taken) = feed_spec(next, data.skip(1));
            (last, answer, (taken + 1) as nat)
        } else {
            (next, step, 1)
        }
    }
}

/// How one read over a stream that holds exactly `input` ends, and how
/// many bytes it takes: as the reader decides, or with `ConnectionClosed`
/// when `input` runs out before it has decided.
pub open spec fn read_spec(mode: ReaderMode, input: Seq<u8>) -> (ReadStepView, nat) {
    let (_, answer, taken) = feed_spec(fresh(mode), input);
    if answer is NeedMore {
        (ReadStepView::Failed(ReadError::ConnectionClosed), taken)
    } else {
        (answer, taken)
    }
}

/// Bytes that the reader will take before it can decide anything.
pub open spec fn wanted_spec(state: ReaderState) -> int {
    match state.phase {
        Phase::Marker => 4 - state.buf.len(),
        Phase::Sync => if state.scanned.len() < 4 {
            4 - state.scanned.len()
        } else {
            1
        },
        Phase::Header => MJPEG_HEADER_SIZE - state.buf.len(),
        Phase::Body => announced_len(state.buf) - state.buf.len(),
    }
}

/// The state machine that reads packets.
pub struct PacketReader {
    mode: ReaderMode,
    phase: Phase,
    buf: Vec<u8>,
    /// Length that `buf` must reach before the next decision.
    target: usize,
    retries: u32,
    scanner: MarkerScanner,
}

impl View for PacketReader {
    type V = ReaderState;

    closed spec fn view(&self) -> ReaderState {
        ReaderState {
            mode: self.mode,
            phase: self.phase,
            buf: self.buf@,
            scanned: if self.phase == Phase::Sync {
                self.scanner.consumed()
            } else {
                Seq::empty()
            },
            retries: self.retries as nat,
        }
    }
}

impl PacketReader {
    /// The reader's fields agree with one another and stand for a state
    /// between two bytes.
    pub closed spec fn wf(&self) -> bool {
        &&& state_wf(self@)
        &&& self.scanner.wf()
        &&& self.target == match self.phase {
            Phase::Marker => 4,
            Phase::Sync => 0,
            Phase::Header => MJPEG_HEADER_SIZE as int,
            Phase::Body => announced_len(self.buf@),
        }
    }

    /// A reader at the start of a read.
    pub fn new(mode: ReaderMode) -> (reader: PacketReader)
        ensures
            reader.wf(),
            reader@ == fresh(mode),
    {
        let phase = match mode {
            ReaderMode::Aligned => Phase::Marker,
            ReaderMode::Scanning => Phase::Sync,
        };
        let target: usize = match mode {
            ReaderMode::Aligned => 4,
            ReaderMode::Scanning => 0,
        };
        PacketReader {
            mode,
            phase,
            buf: Vec::new(),
            target,
            retries: 0,
            scanner: MarkerScanner::new(),
        }
    }

    /// Puts the reader back to the start of a read.
    fn reset(&mut self)
        ensures
            final(self).wf(),
            final(self)@ == fresh(old(self)@.mode),
    {
        self.buf = Vec::new();
        self.retries = 0;
        self.scanner = MarkerScanner::new();
        match self.mode {
            ReaderMode::Aligned => {
                self.phase = Phase::Marker;
                self.target = 4;
            },
            ReaderMode::Scanning => {
                self.phase = Phase::Sync;
                self.target = 0;
            },
        }
    }

    /// Ends the attempt in progress as failed.
    fn fail_attempt(&mut self) -> (step: ReadStep)
        requires
            old(self).retries < MAX_RETRIES,
        ensures
            final(self).wf(),
            (final(self)@, step@) == after_failure(old(self)@),
    {
        if self.retries + 1 >= MAX_RETRIES {
            self.reset();
            ReadStep::Failed(ReadError::RecoveryExhausted)
        } else {
            self.retries = self.retries + 1;
            self.phase = Phase::Sync;
            self.target = 0;
            self.buf = Vec::new();
            self.scanner = MarkerScanner::new();
            ReadStep::NeedMore
        }
    }

    /// Goes on with the attempt after a marker of `kind`.
    fn begin(&mut self, kind: PacketKind)
        requires
            old(self).retries < MAX_RETRIES,
            old(self).scanner.wf(),
        ensures
            final(self).wf(),
            final(self)@ == after_marker(old(self)@, kind),
    {
        let mut buf: Vec<u8> = Vec::new();
        match kind {
            PacketKind::Mjpeg => {
                buf.push(0xBE);
                buf.push(0xBA);
                buf.push(0xFE);
                buf.push(0xCA);
                self.phase = Phase::Header;
                self.target = MJPEG_HEADER_SIZE;
            },
            PacketKind::Metrics => {
                buf.push(0xEF);
                buf.push(0xBE);
                buf.push(0xFE);
                buf.push(0xCA);
                self.phase = Phase::Body;
                self.target = METRICS_PACKET_SIZE;
            },
        }
        proof {
            assert(buf@ =~= marker_bytes(kind));
            assert(le_u32_at(marker_bytes(PacketKind::Mjpeg), 0) == SYNC_WORD);
            assert(le_u32_at(marker_bytes(PacketKind::Metrics), 0) == METRICS_SYNC_WORD);
        }
        self.buf = buf;
    }

    /// Takes the next byte of the stream and says what it led to.
    ///
    /// After `Done` or `Failed` the reader stands at the start of a new
    /// read in the same mode.
    pub fn push(&mut self, byte: u8) -> (step: ReadStep)
        requires
            old(self).wf(),
        ensures
            final(self).wf(),
            (final(self)@, step@) == step_spec(old(self)@, byte),
    {
        proof {
            lemma_step_keeps_wf(self@, byte);
        }
        match self.phase {
            Phase::Sync => {
                match self.scanner.push(byte) {
                    ScanStatus::Found(kind) => {
                        self.begin(kind);
                        ReadStep::NeedMore
                    },
                    ScanStatus::Exhausted => {
                        self.reset();
                        ReadStep::Failed(ReadError::MarkerNotFound)
                    },
                    ScanStatus::Searching => ReadStep::NeedMore,
                }
            },
            Phase::Marker => {
                self.buf.push(byte);
                if self.buf.len() < 4 {
                    return ReadStep::NeedMore;
                }
                match classify_marker(read_u32_le(self.buf.as_slice(), 0)) {
                    Some(kind) => {
                        self.begin(kind);
                        ReadStep::NeedMore
                    },
                    None => self.fail_attempt(),
                }
            },
            Phase::Header => {
                self.buf.push(byte);
                if self.buf.len() < MJPEG_HEADER_SIZE {
                    return ReadStep::NeedMore;
                }
                match MjpegHeader::parse(self.buf.as_slice()) {
                    Ok(header) => {
                        self.phase = Phase::Body;
                        self.target = header.total_size();
                        ReadStep::NeedMore
                    },
                    Err(_) => self.fail_attempt(),
                }
            },
            Phase::Body => {
                self.buf.push(byte);
                proof {
                    assert(le_u32_at(self.buf@, 0) == le_u32_at(old(self).buf@, 0));
                    if old(self).buf@.len() >= 12 {
                        assert(le_u32_at(self.buf@, 8) == le_u32_at(old(self).buf@, 8));
                    }
                }
                if self.buf.len() < self.target {
                    return ReadStep::NeedMore;
                }
                match Packet::parse(self.buf.as_slice()) {
                    Ok(Packet::Mjpeg(packet)) => {
                        if packet.is_valid_jpeg() {
                            let retries = self.retries;
                            self.reset();
                            ReadStep::Done { packet: Packet::Mjpeg(packet), retries }
                        } else {
                            self.fail_attempt()
                        }
                    },
                    Ok(Packet::Metrics(packet)) => {
                        let retries = self.retries;
                        self.reset();
                        ReadStep::Done { packet: Packet::Metrics(packet), retries }
                    },
                    Err(_) => self.fail_attempt(),
                }
            },
        }
    }

    /// Attempts of the read in progress that have failed.
    pub fn retries(&self) -> (retries: u32)
        ensures
            retries == self@.retries,
    {
        self.retries
    }

    /// Number of bytes to read next: the reader decides nothing before it
    /// has them all. At least one.
    pub fn wanted(&self) -> (wanted: usize)
        requires
            self.wf(),
        ensures
            wanted == wanted_spec(self@),
            wanted >= 1,
    {
        match self.phase {
            Phase::Sync => {
                let seen = self.scanner.bytes_seen();
                if seen < 4 {
                    4 - seen
                } else {
                    1
                }
            },
            _ => self.target - self.buf.len(),
        }
    }

    /// Ends the read in progress because the transport reported `fault`,
    /// and returns the error that the read ends with: `Timeout` for a
    /// timeout, which is not fatal and counts against no limit,
    /// `ConnectionClosed` for the end of the stream, `Io` otherwise. The
    /// reader then stands at the start of a new read.
    pub fn abort(&mut self, fault: TransportFault) -> (error: ReadError)
        ensures
            final(self).wf(),
            final(self)@ == fresh(old(self)@.mode),
            error == fault_error(fault),
    {
        self.reset();
        match fault {
            TransportFault::TimedOut => ReadError::Timeout,
            TransportFault::Closed => ReadError::ConnectionClosed,
            TransportFault::Other => ReadError::Io,
        }
    }

    /// Takes bytes of `data` in order until one ends the read or `data`
    /// runs out, and returns the last answer with the number of bytes
    /// taken.
    pub fn feed(&mut self, data: &[u8]) -> (fed: (ReadStep, usize))
        requires
            old(self).wf(),
        ensures
            final(self).wf(),
            (final(self)@, fed.0@, fed.1 as nat) == feed_spec(old(self)@, data@),
            fed.1 <= data@.len(),
            fed.0@ is NeedMore ==> fed.1 == data@.len(),
    {
        let mut i: usize = 0;
        proof {
            assert(data@.skip(0) =~= data@);
        }
        while i < data.len()
            invariant
                i <= data.len(),
                self.wf(),
                feed_spec(old(self)@, data@) == ({
                    let (last, answer, taken) = feed_spec(self@, data@.skip(i as int));
                    (last, answer, (taken + i) as nat)
                }),
            decreases data.len() - i,
        {
            let step = self.push(data[i]);
            proof {
                let rest = data@.skip(i as int);
                assert(rest[0] == data@[i as int]);
                assert(rest.skip(1) =~= data@.skip(i + 1));
            }
            i = i + 1;
            match step {
                ReadStep::NeedMore => {},
                _ => {
                    return (step, i);
                },
            }
        }
        (ReadStep::NeedMore, i)
    }
}

/// Performs one read over the bytes of `stream` from `start` on, as over a
/// transport that holds exactly those bytes and then reports its end.
///
/// Returns how the read ended, never `NeedMore`, and the number of bytes
/// it took.
pub fn read_packet_from(stream: &[u8], start: usize, mode: ReaderMode) -> (read: (ReadStep, usize))
    ensures
        (read.0@, read.1 as nat) == read_spec(mode, tail_from(stream@, start as int)),
        !(read.0@ is NeedMore),
        read.1 <= tail_from(stream@, start as int).len(),
{
    let mut reader = PacketReader::new(mode);
    let from = if start <= stream.len() {
        start
    } else {
        stream.len()
    };
    let rest = slice_subrange(stream, from, stream.len());
    proof {
        assert(rest@ =~= tail_from(stream@, start as int));
    }
    let (step, taken) = reader.feed(rest);
    match step {
        ReadStep::NeedMore => (ReadStep::Failed(ReadError::ConnectionClosed), taken),
        _ => (step, taken),
    }
}

} // verus!
