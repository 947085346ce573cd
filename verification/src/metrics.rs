//! Frame rates from counters that wrap at 2^32: one estimator over a
//! window of packet sequence numbers and their arrival times, one over
//! pairs of the device's own clock and frame counter.
//!
//! A rate is kept as the exact ratio that it was measured as; turning it
//! into a number of frames per second is left to the last moment.

use vstd::prelude::*;

verus! {

/// A rate: `events` in `micros` microseconds. A rate over no time is no
/// estimate and counts as zero.
#[derive(Debug, Clone, Copy, PartialEq, Eq, Structural)]
pub struct Rate {
    pub events: u32,
    pub micros: u64,
}

impl Rate {
    /// The rate that stands for "no estimate".
    pub open spec fn spec_zero() -> Rate {
        Rate { events: 0, micros: 0 }
    }

    /// The rate in thousandths of an event per second, rounded down.
    pub open spec fn spec_milli_per_second(self) -> int {
        if self.micros == 0 {
            0
        } else {
            self.events * 1_000_000_000 / (self.micros as int)
        }
    }

    /// The rate that stands for "no estimate".
    pub fn zero() -> (rate: Rate)
        ensures
            rate == Rate::spec_zero(),
    {
        Rate { events: 0, micros: 0 }
    }

    /// The rate in thousandths of an event per second, rounded down; zero
    /// for a rate over no time.
    pub fn milli_per_second(&self) -> (value: u64)
        ensures
            value == self.spec_milli_per_second(),
    {
        if self.micros == 0 {
            0
        } else {
            let scaled: u64 = (self.events as u64) * 1_000_000_000;
            scaled / self.micros
        }
    }
}

/// How far a counter that wraps at 2^32 has moved from `earlier` to
/// `later`.
pub open spec fn counter_delta(earlier: u32, later: u32) -> u32 {
    ((later - earlier) % 0x1_0000_0000) as u32
}

/// How far a counter that wraps at 2^32 has moved from `earlier` to
/// `later`.
pub fn wrapping_delta(earlier: u32, later: u32) -> (delta: u32)
    ensures
        delta == counter_delta(earlier, later),
{
    if later >= earlier {
        later - earlier
    } else {
        (u32::MAX - earlier) + later + 1
    }
}

/// The rate between two samples of the device's clock, in milliseconds,
/// and its frame counter: zero where the clock has not moved.
pub open spec fn counter_pair_rate(earlier: (u32, u32), later: (u32, u32)) -> Rate {
    let elapsed_ms = counter_delta(earlier.0, later.0);
    if elapsed_ms == 0 {
        Rate::spec_zero()
    } else {
        Rate { events: counter_delta(earlier.1, later.1), micros: (elapsed_ms * 1000) as u64 }
    }
}

/// Estimates the camera's frame rate from the metrics that the device
/// sends: each sample is set against the one before it.
pub struct SpresenseCameraFpsCalculator {
    last_camera_frames: Option<u32>,
    last_timestamp_ms: Option<u32>,
}

impl SpresenseCameraFpsCalculator {
    /// The sample taken last, as clock and frame counter, if there was one.
    pub closed spec fn last_sample(&self) -> Option<(u32, u32)> {
        match (self.last_timestamp_ms, self.last_camera_frames) {
            (Some(timestamp_ms), Some(camera_frames)) => Some((timestamp_ms, camera_frames)),
            _ => None,
        }
    }

    /// An estimator that has seen no sample.
    pub fn new() -> (calculator: SpresenseCameraFpsCalculator)
        ensures
            calculator.last_sample() is None,
    {
        SpresenseCameraFpsCalculator { last_camera_frames: None, last_timestamp_ms: None }
    }

    /// Takes a sample and returns the rate since the sample before it:
    /// zero for the first sample and where the device's clock has not
    /// moved. Both counters may have wrapped in between.
    pub fn update(&mut self, timestamp_ms: u32, camera_frames: u32) -> (rate: Rate)
        ensures
            final(self).last_sample() == Some((timestamp_ms, camera_frames)),
            rate == match old(self).last_sample() {
                Some(earlier) => counter_pair_rate(earlier, (timestamp_ms, camera_frames)),
                None => Rate::spec_zero(),
            },
    {
        let mut rate = Rate::zero();
        match (self.last_timestamp_ms, self.last_camera_frames) {
            (Some(last_ts), Some(last_frames)) => {
                let frame_delta = wrapping_delta(last_frames, camera_frames);
                let time_delta_ms = wrapping_delta(last_ts, timestamp_ms);
                if time_delta_ms > 0 {
                    rate = Rate { events: frame_delta, micros: (time_delta_ms as u64) * 1000 };
                }
            },
            _ => {},
        }
        self.last_camera_frames = Some(camera_frames);
        self.last_timestamp_ms = Some(timestamp_ms);
        rate
    }
}

/// The window after one more sample: the sample is appended, and the
/// oldest leaves where that makes more than `size`.
pub open spec fn window_push(window: Seq<(u32, u64)>, size: nat, sample: (u32, u64)) -> Seq<
    (u32, u64),
> {
    let grown = window.push(sample);
    if grown.len() > size {
        grown.skip(1)
    } else {
        grown
    }
}

/// The rate across a window of sequence numbers and arrival times in
/// microseconds: how far the sequence number has moved between the oldest
/// and the newest sample, over the time between them. Zero for fewer than
/// two samples and where no time has passed.
pub open spec fn window_rate(window: Seq<(u32, u64)>) -> Rate {
    if window.len() >= 2 && window.last().1 > window.first().1 {
        Rate {
            events: counter_delta(window.first().0, window.last().0),
            micros: (window.last().1 - window.first().1) as u64,
        }
    } else {
        Rate::spec_zero()
    }
}

/// A steady stream is estimated at its true rate. Where the newest sample
/// of a window lies `steps` packets and `steps * spacing` microseconds
/// after the oldest, the rate across the window is `steps` packets in that
/// time, whether or not the sequence number has wrapped in between, and
/// comes to `10^9 / spacing` thousandths of a packet per second: 30 303
/// for a packet every 33 milliseconds.
pub proof fn lemma_steady_stream_rate(window: Seq<(u32, u64)>, steps: nat, spacing: nat)
    requires
        window.len() >= 2,
        0 < steps < 0x1_0000_0000,
        0 < spacing,
        window.last().0 == (window.first().0 + steps) % 0x1_0000_0000,
        window.last().1 == window.first().1 + steps * spacing,
    ensures
        window_rate(window) == (Rate { events: steps as u32, micros: (steps * spacing) as u64 }),
        window_rate(window).spec_milli_per_second() == 1_000_000_000int / (spacing as int),
        spacing == 33_000 ==> window_rate(window).spec_milli_per_second() == 30_303,
{
    assert(steps * spacing > 0) by (nonlinear_arith)
        requires
            steps > 0,
            spacing > 0,
    ;
    assert(counter_delta(window.first().0, window.last().0) == steps);
    vstd::arithmetic::div_mod::lemma_div_multiples_vanish_quotient(
        steps as int,
        1_000_000_000,
        spacing as int,
    );
}

/// Estimates the sender's packet rate from the sequence numbers of the
/// packets that arrive, over a sliding window of samples.
pub struct SpresenseFpsCalculator {
    sequence_window: Vec<(u32, u64)>,
    window_size: usize,
}

impl SpresenseFpsCalculator {
    /// The samples in the window, oldest first.
    pub closed spec fn window(&self) -> Seq<(u32, u64)> {
        self.sequence_window@
    }

    /// The most samples that the window holds.
    pub closed spec fn spec_window_size(&self) -> nat {
        self.window_size as nat
    }

    /// An estimator with an empty window of `window_size` samples.
    pub fn new(window_size: usize) -> (calculator: SpresenseFpsCalculator)
        ensures
            calculator.window() == Seq::<(u32, u64)>::empty(),
            calculator.spec_window_size() == window_size,
    {
        SpresenseFpsCalculator { sequence_window: Vec::new(), window_size }
    }

    /// Takes the sequence number of a packet that arrived at `now_micros`
    /// and returns the rate across the window that results.
    pub fn update(&mut self, sequence: u32, now_micros: u64) -> (rate: Rate)
        ensures
            final(self).spec_window_size() == old(self).spec_window_size(),
            final(self).window() == window_push(
                old(self).window(),
                old(self).spec_window_size(),
                (sequence, now_micros),
            ),
            rate == window_rate(final(self).window()),
    {
        self.sequence_window.push((sequence, now_micros));
        if self.sequence_window.len() > self.window_size {
            self.sequence_window.remove(0);
            proof {
                assert(self.sequence_window@ =~= old(self).sequence_window@.push(
                    (sequence, now_micros),
                ).skip(1));
            }
        }
        self.current_fps()
    }

    /// The rate across the window as it stands.
    pub fn current_fps(&self) -> (rate: Rate)
        ensures
            rate == window_rate(self.window()),
    {
        let len = self.sequence_window.len();
        if len >= 2 {
            let first = self.sequence_window[0];
            let last = self.sequence_window[len - 1];
            if last.1 > first.1 {
                return Rate { events: wrapping_delta(first.0, last.0), micros: last.1 - first.1 };
            }
        }
        Rate::zero()
    }
}

} // verus!
