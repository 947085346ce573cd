//! What a read over a given stream comes to: a clean packet is delivered
//! at once, garbage before a packet is skipped, a damaged packet costs one
//! attempt before the packet behind it is delivered, and whatever is
//! delivered was in the stream.

use vstd::prelude::*;

use crate::protocol::{
    le_u32_at, looks_like_jpeg, marker_kind, parse_any_spec, parse_header_spec,
    parse_packet_spec, FormatError, MjpegHeader, MjpegPacketView, PacketKind, PacketView,
    CRC_SIZE, MAX_JPEG_SIZE, MJPEG_HEADER_SIZE, SYNC_WORD,
};
use crate::reader::{
    after_body, after_failure, after_marker, announced_len, feed_spec, fresh,
    lemma_step_keeps_wf, marker_bytes, read_spec, state_wf, step_spec, wanted_spec, Phase,
    ReadError, ReadStepView, ReaderMode, ReaderState, MAX_RETRIES,
};
use crate::sync::{
    marker_ending_at, no_marker_ends_in, scan_status, ScanStatus, MAX_SEARCH_BYTES,
};
use crate::wire::{
    lemma_encoded_len, lemma_parse_inverts_encoding, mjpeg_packet_bytes, mjpeg_packet_of,
};

verus! {

/// What a step can end a read with. A packet is delivered only when the
/// bytes assembled parse to it, an image only when it carries the JPEG
/// markers as well, and never after `MAX_RETRIES` failed attempts or
/// more. A read fails only at its last allowed attempt or at the end of a
/// search's budget.
pub proof fn lemma_step_outcomes(state: ReaderState, byte: u8)
    requires
        state_wf(state),
    ensures
        match step_spec(state, byte).1 {
            ReadStepView::NeedMore => true,
            ReadStepView::Done { packet, retries } => {
                &&& retries == state.retries
                &&& retries < MAX_RETRIES
                &&& state.phase == Phase::Body
                &&& parse_any_spec(state.buf.push(byte)) == Ok::<PacketView, FormatError>(packet)
                &&& (packet matches PacketView::Mjpeg(image) ==> looks_like_jpeg(image.jpeg_data))
            },
            ReadStepView::Failed(error) => {
                ||| error == ReadError::RecoveryExhausted && state.retries + 1 == MAX_RETRIES
                ||| error == ReadError::MarkerNotFound && state.phase == Phase::Sync
                    && state.scanned.len() + 1 == MAX_SEARCH_BYTES
            },
        },
{
}

/// However many bytes are fed, the reader stays in a sound state, takes no
/// more bytes than it was given, and delivers a packet only after fewer
/// than `MAX_RETRIES` failed attempts.
pub proof fn lemma_feed_outcomes(state: ReaderState, data: Seq<u8>)
    requires
        state_wf(state),
    ensures
        state_wf(feed_spec(state, data).0),
        feed_spec(state, data).2 <= data.len(),
        feed_spec(state, data).1 is NeedMore ==> feed_spec(state, data).2 == data.len(),
        feed_spec(state, data).1 matches ReadStepView::Done { retries, packet } ==> {
            &&& retries < MAX_RETRIES
            &&& (packet matches PacketView::Mjpeg(image) ==> looks_like_jpeg(image.jpeg_data))
        },
    decreases data.len(),
{
    if data.len() > 0 {
        lemma_step_keeps_wf(state, data[0]);
        lemma_step_outcomes(state, data[0]);
        let (next, step) = step_spec(state, data[0]);
        if step is NeedMore {
            lemma_feed_outcomes(next, data.skip(1));
        }
    }
}

/// Feeding `a + b` is feeding `a` and then, unless `a` ended the read,
/// feeding `b`.
pub proof fn lemma_feed_concat(state: ReaderState, a: Seq<u8>, b: Seq<u8>)
    ensures
        feed_spec(state, a + b) == ({
            let (middle, answer, taken) = feed_spec(state, a);
            if answer is NeedMore {
                let (last, answer2, taken2) = feed_spec(middle, b);
                (last, answer2, (taken + taken2) as nat)
            } else {
                (middle, answer, taken)
            }
        }),
    decreases a.len(),
{
    if a.len() == 0 {
        assert(a + b =~= b);
    } else {
        let (next, step) = step_spec(state, a[0]);
        assert((a + b)[0] == a[0]);
        assert((a + b).skip(1) =~= a.skip(1) + b);
        if step is NeedMore {
            lemma_feed_concat(next, a.skip(1), b);
        }
    }
}

/// Feeding one byte is one step.
pub proof fn lemma_feed_one(state: ReaderState, byte: u8)
    ensures
        feed_spec(state, seq![byte]) == (step_spec(state, byte).0, step_spec(state, byte).1, 1nat),
{
    reveal_with_fuel(feed_spec, 2);
    assert(seq![byte].skip(1) =~= Seq::<u8>::empty());
}

/// The reader decides nothing before it has the bytes it wants: outside a
/// search, fewer bytes than that are only added to the packet being
/// assembled.
pub proof fn lemma_feed_collects(state: ReaderState, data: Seq<u8>)
    requires
        state_wf(state),
        state.phase != Phase::Sync,
        data.len() < wanted_spec(state),
    ensures
        feed_spec(state, data) == (
            ReaderState { buf: state.buf + data, ..state },
            ReadStepView::NeedMore,
            data.len(),
        ),
    decreases data.len(),
{
    if data.len() == 0 {
        assert(state.buf + data =~= state.buf);
    } else {
        let byte = data[0];
        let buf = state.buf.push(byte);
        let next = ReaderState { buf, ..state };
        if state.buf.len() >= 4 {
            assert(le_u32_at(buf, 0) == le_u32_at(state.buf, 0));
        }
        if state.buf.len() >= 12 {
            assert(le_u32_at(buf, 4) == le_u32_at(state.buf, 4));
            assert(le_u32_at(buf, 8) == le_u32_at(state.buf, 8));
        }
        assert(step_spec(state, byte) == (next, ReadStepView::NeedMore));
        lemma_feed_collects(next, data.skip(1));
        assert(buf + data.skip(1) =~= state.buf + data);
    }
}

/// An aligned read looks for a marker in exactly the first four bytes.
pub proof fn lemma_aligned_marker(state: ReaderState, word: Seq<u8>)
    requires
        state_wf(state),
        state.phase == Phase::Marker,
        state.buf.len() == 0,
        word.len() == 4,
    ensures
        feed_spec(state, word) == (match marker_kind(le_u32_at(word, 0)) {
            Some(kind) => (after_marker(state, kind), ReadStepView::NeedMore, 4nat),
            None => (after_failure(state).0, after_failure(state).1, 4nat),
        }),
{
    let head = word.take(3);
    lemma_feed_collects(state, head);
    lemma_feed_concat(state, head, seq![word[3]]);
    assert(head + seq![word[3]] =~= word);
    let middle = ReaderState { buf: state.buf + head, ..state };
    lemma_feed_one(middle, word[3]);
    assert(middle.buf.push(word[3]) =~= word);
}

/// A search takes bytes up to the end of the first marker and goes on from
/// there with the packet that the marker opens.
pub proof fn lemma_search_stops_at_first_marker(state: ReaderState, data: Seq<u8>, at: int)
    requires
        state_wf(state),
        state.phase == Phase::Sync,
        0 <= at < data.len(),
        state.scanned == data.take(at),
        data.len() <= MAX_SEARCH_BYTES,
        marker_ending_at(data, data.len() as int) is Some,
        no_marker_ends_in(data, 0, data.len() - 1),
    ensures
        feed_spec(state, data.skip(at)) == (
            after_marker(state, marker_ending_at(data, data.len() as int)->Some_0),
            ReadStepView::NeedMore,
            (data.len() - at) as nat,
        ),
    decreases data.len() - at,
{
    let rest = data.skip(at);
    let scanned = state.scanned.push(rest[0]);
    assert(scanned =~= data.take(at + 1));
    assert(marker_ending_at(scanned, scanned.len() as int) == marker_ending_at(data, at + 1)) by {
        if at + 1 >= 4 {
            assert(le_u32_at(scanned, at + 1 - 4) == le_u32_at(data, at + 1 - 4));
        }
    }
    if at + 1 == data.len() {
        assert(rest.skip(1) =~= Seq::<u8>::empty());
        assert(rest =~= seq![rest[0]]);
        lemma_feed_one(state, rest[0]);
    } else {
        assert(marker_ending_at(data, at + 1) is None);
        let next = ReaderState { scanned, ..state };
        assert(step_spec(state, rest[0]) == (next, ReadStepView::NeedMore));
        assert(rest.skip(1) =~= data.skip(at + 1));
        lemma_search_stops_at_first_marker(next, data, at + 1);
    }
}

/// Once the marker of an image packet is in, the bytes of a whole packet
/// with a sound header are taken to the last, and the packet is then
/// judged as a whole.
pub proof fn lemma_image_attempt(state: ReaderState, packet: Seq<u8>)
    requires
        state_wf(state),
        state.phase == Phase::Header,
        state.buf == marker_bytes(PacketKind::Mjpeg),
        parse_header_spec(packet) is Ok,
        packet.len() == parse_header_spec(packet)->Ok_0.spec_total_size(),
    ensures
        feed_spec(state, packet.skip(4)) == (
            after_body(state, packet).0,
            after_body(state, packet).1,
            (packet.len() - 4) as nat,
        ),
{
    let n = packet.len() as int;
    assert(marker_bytes(PacketKind::Mjpeg) =~= packet.take(4)) by {
        assert(le_u32_at(packet, 0) == SYNC_WORD);
        assert(le_u32_at(marker_bytes(PacketKind::Mjpeg), 0) == SYNC_WORD);
    }
    // The rest of the header, all but its last byte.
    let a = packet.subrange(4, 11);
    lemma_feed_collects(state, a);
    let s1 = ReaderState { buf: state.buf + a, ..state };
    assert(s1.buf =~= packet.take(11));
    // The last byte of the header.
    let header = packet.take(12);
    assert(s1.buf.push(packet[11]) =~= header);
    assert(le_u32_at(header, 0) == le_u32_at(packet, 0));
    assert(le_u32_at(header, 4) == le_u32_at(packet, 4));
    assert(le_u32_at(header, 8) == le_u32_at(packet, 8));
    let s2 = ReaderState { phase: Phase::Body, buf: header, ..state };
    assert(step_spec(s1, packet[11]) == (s2, ReadStepView::NeedMore));
    lemma_feed_one(s1, packet[11]);
    // The payload and the first byte of the checksum.
    let c = packet.subrange(12, n - 1);
    assert(announced_len(header) == n);
    assert(state_wf(s2));
    lemma_feed_collects(s2, c);
    let s3 = ReaderState { buf: header + c, ..s2 };
    assert(s3.buf =~= packet.take(n - 1));
    // The last byte.
    assert(s3.buf.push(packet[n - 1]) =~= packet);
    assert(le_u32_at(s3.buf, 0) == le_u32_at(packet, 0));
    assert(le_u32_at(s3.buf, 8) == le_u32_at(packet, 8));
    assert(step_spec(s3, packet[n - 1]) == after_body(s3, packet));
    assert(after_body(s3, packet) == after_body(state, packet));
    lemma_feed_one(s3, packet[n - 1]);
    // Put together.
    let tail1 = seq![packet[11]] + (c + seq![packet[n - 1]]);
    assert(packet.skip(4) =~= a + tail1);
    lemma_feed_concat(state, a, tail1);
    lemma_feed_concat(s1, seq![packet[11]], c + seq![packet[n - 1]]);
    lemma_feed_concat(s2, c, seq![packet[n - 1]]);
}

/// The bytes of an image packet whose payload carries the JPEG markers
/// pass every check.
proof fn lemma_encoded_packet_passes(state: ReaderState, sequence: u32, payload: Seq<u8>)
    requires
        payload.len() <= MAX_JPEG_SIZE,
        looks_like_jpeg(payload),
    ensures
        after_body(state, mjpeg_packet_bytes(sequence, payload)) == (
            fresh(state.mode),
            ReadStepView::Done {
                packet: PacketView::Mjpeg(mjpeg_packet_of(sequence, payload)),
                retries: state.retries,
            },
        ),
        parse_header_spec(mjpeg_packet_bytes(sequence, payload)) is Ok,
        mjpeg_packet_bytes(sequence, payload).len() == parse_header_spec(
            mjpeg_packet_bytes(sequence, payload),
        )->Ok_0.spec_total_size(),
        marker_ending_at(mjpeg_packet_bytes(sequence, payload).take(4), 4) == Some(
            PacketKind::Mjpeg,
        ),
{
    let bytes = mjpeg_packet_bytes(sequence, payload);
    let packet = mjpeg_packet_of(sequence, payload);
    assert(parse_packet_spec(bytes) == Ok::<MjpegPacketView, FormatError>(packet)) by {
        lemma_parse_inverts_encoding(sequence, payload, Seq::<u8>::empty());
        assert(bytes + Seq::<u8>::empty() =~= bytes);
    }
    assert(bytes.len() == MJPEG_HEADER_SIZE + payload.len() + CRC_SIZE) by {
        lemma_encoded_len(sequence, payload);
    }
    assert(parse_header_spec(bytes) == Ok::<MjpegHeader, FormatError>(packet.header));
    assert(le_u32_at(bytes, 0) == SYNC_WORD);
    assert(le_u32_at(bytes.take(4), 0) == le_u32_at(bytes, 0));
    assert(parse_any_spec(bytes) == Ok::<PacketView, FormatError>(PacketView::Mjpeg(packet)));
}

/// A stream that stands at a sound image packet gives that packet at
/// once: an aligned read delivers it with no failed attempt and takes
/// exactly its bytes.
pub proof fn lemma_read_of_clean_stream(sequence: u32, payload: Seq<u8>, rest: Seq<u8>)
    requires
        payload.len() <= MAX_JPEG_SIZE,
        looks_like_jpeg(payload),
    ensures
        read_spec(ReaderMode::Aligned, mjpeg_packet_bytes(sequence, payload) + rest) == (
            ReadStepView::Done {
                packet: PacketView::Mjpeg(mjpeg_packet_of(sequence, payload)),
                retries: 0,
            },
            mjpeg_packet_bytes(sequence, payload).len(),
        ),
{
    let bytes = mjpeg_packet_bytes(sequence, payload);
    let start = fresh(ReaderMode::Aligned);
    lemma_encoded_packet_passes(start, sequence, payload);
    lemma_aligned_marker(start, bytes.take(4));
    let s1 = after_marker(start, PacketKind::Mjpeg);
    assert(le_u32_at(marker_bytes(PacketKind::Mjpeg), 0) == SYNC_WORD);
    lemma_image_attempt(s1, bytes);
    lemma_encoded_packet_passes(s1, sequence, payload);
    assert(bytes =~= bytes.take(4) + bytes.skip(4));
    lemma_feed_concat(start, bytes.take(4), bytes.skip(4));
    lemma_feed_concat(start, bytes, rest);
}

/// A read that opens with a search skips what stands before the first
/// marker: garbage in which no marker ends, followed by a sound image
/// packet, gives that packet with no failed attempt.
pub proof fn lemma_scanning_read_skips_garbage(
    garbage: Seq<u8>,
    sequence: u32,
    payload: Seq<u8>,
    rest: Seq<u8>,
)
    requires
        payload.len() <= MAX_JPEG_SIZE,
        looks_like_jpeg(payload),
        garbage.len() + 4 <= MAX_SEARCH_BYTES,
        no_marker_ends_in(
            garbage + mjpeg_packet_bytes(sequence, payload).take(4),
            0,
            garbage.len() as int + 3,
        ),
    ensures
        read_spec(
            ReaderMode::Scanning,
            garbage + mjpeg_packet_bytes(sequence, payload) + rest,
        ) == (
            ReadStepView::Done {
                packet: PacketView::Mjpeg(mjpeg_packet_of(sequence, payload)),
                retries: 0,
            },
            garbage.len() + mjpeg_packet_bytes(sequence, payload).len(),
        ),
{
    let bytes = mjpeg_packet_bytes(sequence, payload);
    let start = fresh(ReaderMode::Scanning);
    lemma_encoded_packet_passes(start, sequence, payload);
    let searched = garbage + bytes.take(4);
    assert(marker_ending_at(searched, searched.len() as int) == Some(PacketKind::Mjpeg)) by {
        assert(le_u32_at(searched, searched.len() - 4) == le_u32_at(bytes.take(4), 0));
    }
    assert(searched.take(0) =~= Seq::<u8>::empty());
    assert(searched.skip(0) =~= searched);
    lemma_search_stops_at_first_marker(start, searched, 0);
    let s1 = after_marker(start, PacketKind::Mjpeg);
    assert(le_u32_at(marker_bytes(PacketKind::Mjpeg), 0) == SYNC_WORD);
    lemma_image_attempt(s1, bytes);
    lemma_encoded_packet_passes(s1, sequence, payload);
    assert(garbage + bytes =~= searched + bytes.skip(4));
    lemma_feed_concat(start, searched, bytes.skip(4));
    lemma_feed_concat(start, garbage + bytes, rest);
}

/// Whether `packet` is a whole image packet with a sound header that
/// nevertheless fails: its checksum is wrong, or its payload lacks the
/// JPEG markers.
pub open spec fn is_damaged_packet(packet: Seq<u8>) -> bool {
    &&& parse_header_spec(packet) is Ok
    &&& packet.len() == parse_header_spec(packet)->Ok_0.spec_total_size()
    &&& match parse_packet_spec(packet) {
        Ok(parsed) => !looks_like_jpeg(parsed.jpeg_data),
        Err(_) => true,
    }
}

/// One damaged packet costs one attempt: where a damaged packet is
/// followed by a sound one, an aligned read fails once, finds the marker
/// of the sound packet in a single search, and delivers that packet,
/// having taken the bytes of both. The count of failed attempts, one,
/// stays under `MAX_RETRIES`.
pub proof fn lemma_read_recovers_after_damaged_packet(
    damaged: Seq<u8>,
    sequence: u32,
    payload: Seq<u8>,
    rest: Seq<u8>,
)
    requires
        is_damaged_packet(damaged),
        payload.len() <= MAX_JPEG_SIZE,
        looks_like_jpeg(payload),
    ensures
        read_spec(
            ReaderMode::Aligned,
            damaged + mjpeg_packet_bytes(sequence, payload) + rest,
        ) == (
            ReadStepView::Done {
                packet: PacketView::Mjpeg(mjpeg_packet_of(sequence, payload)),
                retries: 1,
            },
            damaged.len() + mjpeg_packet_bytes(sequence, payload).len(),
        ),
        1 < MAX_RETRIES,
{
    let bytes = mjpeg_packet_bytes(sequence, payload);
    let start = fresh(ReaderMode::Aligned);
    // The damaged packet is taken whole and fails.
    assert(le_u32_at(damaged.take(4), 0) == le_u32_at(damaged, 0));
    lemma_aligned_marker(start, damaged.take(4));
    let s1 = after_marker(start, PacketKind::Mjpeg);
    assert(le_u32_at(marker_bytes(PacketKind::Mjpeg), 0) == SYNC_WORD);
    lemma_image_attempt(s1, damaged);
    assert(damaged =~= damaged.take(4) + damaged.skip(4));
    lemma_feed_concat(start, damaged.take(4), damaged.skip(4));
    let s2 = after_failure(s1).0;
    assert(after_body(s1, damaged) == after_failure(s1));
    assert(feed_spec(start, damaged) == (s2, ReadStepView::NeedMore, damaged.len()));
    // The search finds the next marker in its first four bytes.
    lemma_encoded_packet_passes(s2, sequence, payload);
    let word = bytes.take(4);
    assert(word.take(0) =~= Seq::<u8>::empty());
    assert(word.skip(0) =~= word);
    assert(no_marker_ends_in(word, 0, 3));
    lemma_search_stops_at_first_marker(s2, word, 0);
    let s3 = after_marker(s2, PacketKind::Mjpeg);
    // The sound packet is taken whole and passes.
    lemma_image_attempt(s3, bytes);
    lemma_encoded_packet_passes(s3, sequence, payload);
    assert(bytes =~= word + bytes.skip(4));
    lemma_feed_concat(s2, word, bytes.skip(4));
    lemma_feed_concat(start, damaged, bytes);
    lemma_feed_concat(start, damaged + bytes, rest);
}

/// Whether `whole` ends with `tail`.
pub open spec fn ends_with(whole: Seq<u8>, tail: Seq<u8>) -> bool {
    tail.len() <= whole.len() && whole.subrange(whole.len() - tail.len(), whole.len() as int)
        == tail
}

/// Whether the reader in `state` holds the latest of the bytes `taken`
/// from the stream: a search the bytes it has consumed, an attempt the
/// bytes of the packet it is assembling.
pub open spec fn holds_latest(state: ReaderState, taken: Seq<u8>) -> bool {
    match state.phase {
        Phase::Sync => ends_with(taken, state.scanned),
        _ => ends_with(taken, state.buf),
    }
}

/// Whether `packet` is what the bytes of `stream` from some position up to
/// `end` parse to.
pub open spec fn lies_before(stream: Seq<u8>, end: int, packet: PacketView) -> bool {
    exists|start: int|
        0 <= start <= end && #[trigger] parse_any_spec(stream.subrange(start, end)) == Ok::<
            PacketView,
            FormatError,
        >(packet)
}

/// The four bytes that spell a marker are the marker's bytes.
proof fn lemma_marker_word_bytes(word: Seq<u8>, kind: PacketKind)
    requires
        word.len() == 4,
        marker_kind(le_u32_at(word, 0)) == Some(kind),
    ensures
        word == marker_bytes(kind),
{
    assert(word =~= marker_bytes(kind));
}

/// A step keeps the reader holding the latest bytes, and a packet that it
/// delivers is what the latest bytes parse to.
proof fn lemma_step_holds_latest(state: ReaderState, taken: Seq<u8>, byte: u8)
    requires
        state_wf(state),
        holds_latest(state, taken),
    ensures
        step_spec(state, byte).1 is NeedMore ==> holds_latest(
            step_spec(state, byte).0,
            taken.push(byte),
        ),
        step_spec(state, byte).1 matches ReadStepView::Done { packet, .. } ==> lies_before(
            taken.push(byte),
            taken.len() as int + 1,
            packet,
        ),
{
    let now = taken.push(byte);
    let (next, step) = step_spec(state, byte);
    let n = now.len() as int;
    assert(now.subrange(n, n) =~= Seq::<u8>::empty());
    match state.phase {
        Phase::Sync => {
            let scanned = state.scanned.push(byte);
            assert(now.subrange(n - scanned.len(), n) =~= scanned);
            if let ScanStatus::Found(kind) = scan_status(scanned) {
                let word = scanned.subrange(scanned.len() - 4, scanned.len() as int);
                assert(le_u32_at(word, 0) == le_u32_at(scanned, scanned.len() - 4));
                lemma_marker_word_bytes(word, kind);
                assert(now.subrange(n - 4, n) =~= word);
            }
        },
        _ => {
            let buf = state.buf.push(byte);
            assert(now.subrange(n - buf.len(), n) =~= buf);
            if state.phase == Phase::Marker && buf.len() == 4 {
                if let Some(kind) = marker_kind(le_u32_at(buf, 0)) {
                    lemma_marker_word_bytes(buf, kind);
                }
            }
            if step is Done {
                lemma_step_outcomes(state, byte);
                assert(parse_any_spec(now.subrange(n - buf.len(), n)) == Ok::<
                    PacketView,
                    FormatError,
                >(step->packet));
            }
        },
    }
}

/// The same of any number of steps.
proof fn lemma_feed_holds_latest(state: ReaderState, taken: Seq<u8>, data: Seq<u8>)
    requires
        state_wf(state),
        holds_latest(state, taken),
    ensures
        feed_spec(state, data).1 matches ReadStepView::Done { packet, .. } ==> lies_before(
            taken + data,
            taken.len() as int + feed_spec(state, data).2,
            packet,
        ),
    decreases data.len(),
{
    if data.len() > 0 {
        let (next, step) = step_spec(state, data[0]);
        lemma_step_keeps_wf(state, data[0]);
        lemma_step_holds_latest(state, taken, data[0]);
        let now = taken.push(data[0]);
        if step is NeedMore {
            lemma_feed_holds_latest(next, now, data.skip(1));
            assert(now + data.skip(1) =~= taken + data);
        } else if step is Done {
            let end = taken.len() as int + 1;
            let start = choose|start: int|
                0 <= start <= end && #[trigger] parse_any_spec(now.subrange(start, end)) == Ok::<
                    PacketView,
                    FormatError,
                >(step->packet);
            assert((taken + data).subrange(start, end) =~= now.subrange(start, end));
        }
    }
}

/// The reader invents nothing: every packet that a read delivers is what
/// some stretch of the stream parses to, a stretch that ends where the
/// read stopped taking bytes.
pub proof fn lemma_delivered_packet_lies_in_stream(mode: ReaderMode, input: Seq<u8>)
    ensures
        read_spec(mode, input).0 matches ReadStepView::Done { packet, .. } ==> lies_before(
            input,
            read_spec(mode, input).1 as int,
            packet,
        ),
        read_spec(mode, input).1 <= input.len(),
{
    let empty = Seq::<u8>::empty();
    assert(empty.subrange(0, 0) =~= empty);
    lemma_feed_holds_latest(fresh(mode), empty, input);
    lemma_feed_outcomes(fresh(mode), input);
    assert(empty + input =~= input);
}

} // verus!
