//! Finding the next packet in a stream that has lost its alignment: a
//! four-byte window slides over the bytes until it holds a marker, or
//! until the search has used up its budget.

use vstd::prelude::*;

use crate::protocol::{classify_marker, le_u32_at, marker_kind, PacketKind};

verus! {

/// Bytes that one search may consume before it gives up.
pub const MAX_SEARCH_BYTES: usize = 100_000;

/// The kind of packet whose marker ends just before position `end` of `s`,
/// if a marker ends there.
pub open spec fn marker_ending_at(s: Seq<u8>, end: int) -> Option<PacketKind> {
    if 4 <= end <= s.len() {
        marker_kind(le_u32_at(s, end - 4))
    } else {
        None
    }
}

/// Whether no marker ends at any position of `s` from `from` up to and
/// including `to`.
pub open spec fn no_marker_ends_in(s: Seq<u8>, from: int, to: int) -> bool {
    forall|e: int| from <= e <= to ==> (#[trigger] marker_ending_at(s, e)) is None
}

/// Where a search stands after the bytes it has consumed.
#[derive(Debug, Clone, Copy, PartialEq, Eq, Structural)]
pub enum ScanStatus {
    /// No marker yet, and budget left.
    Searching,
    /// The last four bytes are the marker of this kind of packet.
    Found(PacketKind),
    /// The budget is used up and the last four bytes are no marker.
    Exhausted,
}

/// The status of a search that has consumed exactly `consumed`.
pub open spec fn scan_status(consumed: Seq<u8>) -> ScanStatus {
    match marker_ending_at(consumed, consumed.len() as int) {
        Some(kind) => ScanStatus::Found(kind),
        None => if consumed.len() >= MAX_SEARCH_BYTES {
            ScanStatus::Exhausted
        } else {
            ScanStatus::Searching
        },
    }
}

/// The window of a search that has consumed `consumed`: its last four
/// bytes read as a little-endian word, the bytes not yet there taken as
/// zero.
pub open spec fn window_of(consumed: Seq<u8>) -> u32
    decreases consumed.len(),
{
    if consumed.len() == 0 {
        0
    } else {
        slide(window_of(consumed.drop_last()), consumed.last())
    }
}

/// The window after `byte` enters it: the oldest byte leaves at the low
/// end and `byte` becomes the most significant.
pub open spec fn slide(window: u32, byte: u8) -> u32 {
    (window / 0x100 + byte * 0x100_0000) as u32
}

/// Once four bytes are in, the window is the little-endian word that the
/// last four bytes spell.
pub proof fn lemma_window_is_last_word(consumed: Seq<u8>)
    requires
        consumed.len() >= 4,
    ensures
        window_of(consumed) == le_u32_at(consumed, consumed.len() - 4),
{
    reveal_with_fuel(window_of, 5);
    let n = consumed.len() as int;
    let s1 = consumed.drop_last();
    let s2 = s1.drop_last();
    let s3 = s2.drop_last();
    let s4 = s3.drop_last();
    let w4 = window_of(s4);
    assert(s1.last() == consumed[n - 2]);
    assert(s2.last() == consumed[n - 3]);
    assert(s3.last() == consumed[n - 4]);
    let w3 = slide(w4, consumed[n - 4]);
    let w2 = slide(w3, consumed[n - 3]);
    let w1 = slide(w2, consumed[n - 2]);
    let w0 = slide(w1, consumed[n - 1]);
    assert(window_of(consumed) == w0);
}

/// A search in progress: the sliding window and the count of bytes
/// consumed.
pub struct MarkerScanner {
    window: u32,
    seen: usize,
    consumed: Ghost<Seq<u8>>,
}

impl MarkerScanner {
    /// The bytes that the search has consumed.
    pub closed spec fn consumed(&self) -> Seq<u8> {
        self.consumed@
    }

    /// The window and the count agree with the bytes consumed, and the
    /// search has not run past its budget.
    pub closed spec fn wf(&self) -> bool {
        &&& self.seen == self.consumed@.len()
        &&& self.seen <= MAX_SEARCH_BYTES
        &&& self.window == window_of(self.consumed@)
    }

    /// A search that has consumed nothing.
    pub fn new() -> (scanner: MarkerScanner)
        ensures
            scanner.wf(),
            scanner.consumed() == Seq::<u8>::empty(),
    {
        MarkerScanner { window: 0, seen: 0, consumed: Ghost(Seq::empty()) }
    }

    /// Number of bytes consumed.
    pub fn bytes_seen(&self) -> (seen: usize)
        requires
            self.wf(),
        ensures
            seen == self.consumed().len(),
    {
        self.seen
    }

    /// Consumes `byte` and says where the search stands.
    ///
    /// A search whose budget is used up consumes no more: it stays as it
    /// is and answers `Exhausted`.
    pub fn push(&mut self, byte: u8) -> (status: ScanStatus)
        requires
            old(self).wf(),
        ensures
            final(self).wf(),
            old(self).consumed().len() < MAX_SEARCH_BYTES ==> {
                &&& final(self).consumed() == old(self).consumed().push(byte)
                &&& status == scan_status(final(self).consumed())
            },
            old(self).consumed().len() >= MAX_SEARCH_BYTES ==> {
                &&& final(self).consumed() == old(self).consumed()
                &&& status == ScanStatus::Exhausted
            },
    {
        if self.seen >= MAX_SEARCH_BYTES {
            return ScanStatus::Exhausted;
        }
        let ghost next = self.consumed@.push(byte);
        proof {
            assert(next.drop_last() =~= self.consumed@);
            assert(next.last() == byte);
            if next.len() >= 4 {
                lemma_window_is_last_word(next);
            }
        }
        self.window = self.window / 0x100 + (byte as u32) * 0x100_0000;
        self.seen = self.seen + 1;
        self.consumed = Ghost(next);
        if self.seen >= 4 {
            match classify_marker(self.window) {
                Some(kind) => {
                    return ScanStatus::Found(kind);
                },
                None => {},
            }
        }
        if self.seen >= MAX_SEARCH_BYTES {
            ScanStatus::Exhausted
        } else {
            ScanStatus::Searching
        }
    }
}

/// The bytes of `stream` from `start` on; none where `start` lies beyond
/// its end.
pub open spec fn tail_from(stream: Seq<u8>, start: int) -> Seq<u8> {
    if 0 <= start <= stream.len() {
        stream.skip(start)
    } else {
        Seq::empty()
    }
}

/// Why a search over a buffer found no marker.
#[derive(Debug, Clone, Copy, PartialEq, Eq, Structural)]
pub enum SyncError {
    /// The budget of `MAX_SEARCH_BYTES` was used up.
    BudgetExhausted,
    /// The buffer ended first.
    EndOfStream,
}

/// Searches `stream` from `start` on for the first marker.
///
/// Returns the position just after the first marker that lies wholly at or
/// after `start` and ends within `MAX_SEARCH_BYTES` of it, with the kind of
/// packet it opens. Fails with `BudgetExhausted` when no marker ends
/// within the budget although the stream is that long, and with
/// `EndOfStream` when the stream is shorter than the budget and holds no
/// marker from `start` on.
pub fn find_marker(stream: &[u8], start: usize) -> (found: Result<(usize, PacketKind), SyncError>)
    ensures
        match found {
            Ok((end, kind)) => {
                &&& start + 4 <= end <= stream@.len()
                &&& end - start <= MAX_SEARCH_BYTES
                &&& marker_ending_at(tail_from(stream@, start as int), end - start) == Some(kind)
                &&& no_marker_ends_in(tail_from(stream@, start as int), 0, end - start - 1)
            },
            Err(SyncError::BudgetExhausted) => {
                &&& tail_from(stream@, start as int).len() >= MAX_SEARCH_BYTES
                &&& no_marker_ends_in(
                    tail_from(stream@, start as int),
                    0,
                    MAX_SEARCH_BYTES as int,
                )
            },
            Err(SyncError::EndOfStream) => {
                &&& tail_from(stream@, start as int).len() < MAX_SEARCH_BYTES
                &&& no_marker_ends_in(
                    tail_from(stream@, start as int),
                    0,
                    tail_from(stream@, start as int).len() as int,
                )
            },
        },
{
    if start >= stream.len() {
        return Err(SyncError::EndOfStream);
    }
    let ghost tail = tail_from(stream@, start as int);
    let mut scanner = MarkerScanner::new();
    let mut i: usize = start;
    while i < stream.len()
        invariant
            start <= i <= stream.len(),
            tail == stream@.skip(start as int),
            scanner.wf(),
            scanner.consumed() == tail.take(i - start),
            i - start < MAX_SEARCH_BYTES,
            no_marker_ends_in(tail, 0, i - start),
        decreases stream.len() - i,
    {
        let status = scanner.push(stream[i]);
        proof {
            let now = tail.take(i - start + 1);
            assert(now =~= tail.take(i - start).push(stream@[i as int]));
            assert(marker_ending_at(now, now.len() as int) == marker_ending_at(
                tail,
                i - start + 1,
            )) by {
                if now.len() >= 4 {
                    assert(le_u32_at(now, now.len() - 4) == le_u32_at(tail, i - start + 1 - 4));
                }
            }
        }
        i = i + 1;
        match status {
            ScanStatus::Found(kind) => {
                return Ok((i, kind));
            },
            ScanStatus::Exhausted => {
                return Err(SyncError::BudgetExhausted);
            },
            ScanStatus::Searching => {},
        }
    }
    Err(SyncError::EndOfStream)
}

} // verus!
