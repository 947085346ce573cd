//! Where the packets go once they are read: an image feeds the packet-rate
//! estimator, the motion detector, the recording controller and the ring
//! buffer; a metrics packet feeds the camera-rate estimator only.
//!
//! The pipeline decides; the caller performs on the output what each
//! answer tells it to.

use std::time::Instant;
use vstd::prelude::*;
use vstd::slice::slice_to_vec;

use crate::metrics::{
    counter_pair_rate, window_push, window_rate, Rate, SpresenseCameraFpsCalculator,
    SpresenseFpsCalculator,
};
use crate::motion_detector::{
    gray_of, motion_between, FrameView, MotionDetectionConfig, MotionDetector, RgbaFrame,
};
use crate::protocol::MetricsPacket;
use crate::recorder::{
    frame_spec, start_spec, stop_spec, FrameAction, RecorderConfig, RecordingController,
    RecordingSession, SessionSummary, StartAction, StopReason, Trigger,
};
use crate::ring_buffer::{
    concat_frames, lemma_ring_push_total, ring_push, total_len, JpegFrame, RingBuffer,
};

verus! {

/// Samples in the window of the packet-rate estimator.
pub const RATE_WINDOW: usize = 30;

/// What an image led to.
pub struct ImageOutcome {
    /// The sender's packet rate across the window, this packet included.
    pub rate: Rate,
    /// Whether the detector saw motion in the picture.
    pub motion: bool,
    /// The answer to the start that motion asked for, where it asked.
    pub started: Option<StartAction>,
    /// Bytes that open the new output: the buffered frames, oldest first,
    /// where a session began that takes them; empty otherwise.
    pub prelude: Vec<u8>,
    /// What is to be done with the image itself.
    pub frame: FrameAction,
}

/// Whether the detector sees motion in `picture`: only with detection on,
/// a picture at hand and a baseline of its size to set it against.
pub open spec fn sees_motion(
    config: MotionDetectionConfig,
    baseline: Option<FrameView>,
    picture: Option<FrameView>,
) -> bool {
    config.enabled && match (baseline, picture) {
        (Some(prev), Some(current)) => motion_between(prev, gray_of(current), config),
        _ => false,
    }
}

/// The session, the answer to the start that motion asked for, and the
/// answer to the frame: motion with no session open asks for one to
/// start, and the frame then goes to whatever session is open.
pub open spec fn image_decision(
    session: RecordingSession,
    config: RecorderConfig,
    motion: bool,
    output_path: String,
    arrived: Instant,
    prebuffer: (usize, usize),
    frame_len: nat,
) -> (RecordingSession, Option<StartAction>, FrameAction) {
    if motion && session is Idle {
        let (opened, started) = start_spec(
            session,
            config,
            Trigger::Motion,
            output_path,
            arrived,
            prebuffer,
        );
        let (next, frame) = frame_spec(opened, config, frame_len, motion);
        (next, Some(started), frame)
    } else {
        let (next, frame) = frame_spec(session, config, frame_len, motion);
        (next, None, frame)
    }
}

/// `image::load_from_memory` followed by `DynamicImage::to_rgba8`: the size
/// and the samples of the picture that `jpeg` decodes to, or nothing where
/// the decoder rejects it. The decoder picks its arithmetic by the processor
/// it runs on and may round differently, so nothing is claimed of the result.
#[verifier::external_body]
fn decode_rgba(jpeg: &[u8]) -> (decoded: Option<(u32, u32, Vec<u8>)>) {
    match image::load_from_memory(jpeg) {
        Ok(picture) => {
            let rgba = picture.to_rgba8();
            Some((rgba.width(), rgba.height(), rgba.into_raw()))
        },
        Err(_) => None,
    }
}

/// The picture that the decoder makes of `jpeg`, if it makes one of four
/// samples to the pixel: `RgbaFrame::from_raw` of whatever it gave back.
pub fn decode_picture(jpeg: &[u8]) -> (picture: Option<RgbaFrame>)
    ensures
        picture matches Some(p) ==> p@.pixels.len() == p@.width * p@.height * 4,
{
    match decode_rgba(jpeg) {
        Some((width, height, pixels)) => RgbaFrame::from_raw(width, height, pixels),
        None => None,
    }
}

/// The detector, the ring buffer, the controller and the two estimators
/// of one capture session.
pub struct Pipeline {
    detector: MotionDetector,
    ring: RingBuffer,
    controller: RecordingController,
    sequence_rate: SpresenseFpsCalculator,
    camera_rate: SpresenseCameraFpsCalculator,
}

impl Pipeline {
    /// The motion detector.
    pub closed spec fn detector(&self) -> MotionDetector {
        self.detector
    }

    /// The ring buffer.
    pub closed spec fn ring(&self) -> RingBuffer {
        self.ring
    }

    /// The recording controller.
    pub closed spec fn controller(&self) -> RecordingController {
        self.controller
    }

    /// The packet-rate estimator.
    pub closed spec fn sequence_rate(&self) -> SpresenseFpsCalculator {
        self.sequence_rate
    }

    /// The camera-rate estimator.
    pub closed spec fn camera_rate(&self) -> SpresenseCameraFpsCalculator {
        self.camera_rate
    }

    /// The parts are sound.
    pub open spec fn wf(&self) -> bool {
        self.ring().wf()
    }

    /// Whether the counters in the pipeline have room for one more image
    /// of `frame_len` bytes: the detector's count of pictures, the ring
    /// buffer's count of bytes, and the counts of a session, open or about
    /// to open with the buffered frames.
    pub open spec fn has_room(&self, frame_len: nat) -> bool {
        &&& self.detector().spec_total_frames() < u64::MAX
        &&& total_len(self.ring().frames()) + frame_len <= usize::MAX
        &&& match self.controller().session().info() {
            Some(info) => info.frame_count < u64::MAX && info.total_bytes + frame_len <= u64::MAX,
            None => self.ring().frames().len() < u64::MAX,
        }
    }

    /// A pipeline under the given settings: no baseline, no session, and
    /// an empty ring buffer sized for the seconds before a trigger at the
    /// frame rate that the recorder assumes.
    pub fn new(motion: MotionDetectionConfig, recorder: RecorderConfig) -> (pipeline: Pipeline)
        requires
            motion.pre_record_seconds * recorder.assumed_fps <= u32::MAX,
        ensures
            pipeline.wf(),
            pipeline.detector().spec_config() == motion,
            pipeline.detector().baseline() is None,
            pipeline.detector().spec_total_frames() == 0,
            pipeline.detector().spec_motion_count() == 0,
            pipeline.ring().frames() == Seq::<JpegFrame>::empty(),
            pipeline.ring().spec_capacity() == motion.pre_record_seconds * recorder.assumed_fps,
            pipeline.controller().session() is Idle,
            pipeline.controller().spec_config() == recorder,
            pipeline.sequence_rate().window() == Seq::<(u32, u64)>::empty(),
            pipeline.sequence_rate().spec_window_size() == RATE_WINDOW,
            pipeline.camera_rate().last_sample() is None,
    {
        Pipeline {
            detector: MotionDetector::new(motion),
            ring: RingBuffer::from_seconds(motion.pre_record_seconds, recorder.assumed_fps),
            controller: RecordingController::new(recorder),
            sequence_rate: SpresenseFpsCalculator::new(RATE_WINDOW),
            camera_rate: SpresenseCameraFpsCalculator::new(),
        }
    }

    /// The motion detector, for display.
    pub fn motion_detector(&self) -> (detector: &MotionDetector)
        ensures
            *detector == self.detector(),
    {
        &self.detector
    }

    /// The ring buffer, for display.
    pub fn ring_buffer(&self) -> (ring: &RingBuffer)
        ensures
            *ring == self.ring(),
    {
        &self.ring
    }

    /// The recording controller, for display.
    pub fn recording_controller(&self) -> (controller: &RecordingController)
        ensures
            *controller == self.controller(),
    {
        &self.controller
    }

    /// Whether the counters in the pipeline have room for one more image
    /// of `frame_len` bytes.
    pub fn can_take(&self, frame_len: usize) -> (room: bool)
        requires
            self.wf(),
        ensures
            room == self.has_room(frame_len as nat),
    {
        let (frames, bytes) = self.controller.progress();
        let session_has_room = if self.controller.is_recording() {
            frames < u64::MAX && bytes <= u64::MAX - frame_len as u64
        } else {
            (self.ring.len() as u64) < u64::MAX
        };
        let buffer_has_room = self.ring.total_bytes() <= usize::MAX - frame_len;
        let detector_has_room = self.detector.stats().total_frames < u64::MAX;
        detector_has_room && buffer_has_room && session_has_room
    }

    /// Takes a metrics packet: it feeds the camera-rate estimator and
    /// nothing else. Returns the camera's frame rate since the packet
    /// before.
    pub fn on_metrics(&mut self, metrics: &MetricsPacket) -> (rate: Rate)
        ensures
            final(self).detector() == old(self).detector(),
            final(self).ring() == old(self).ring(),
            final(self).controller() == old(self).controller(),
            final(self).sequence_rate() == old(self).sequence_rate(),
            final(self).camera_rate().last_sample() == Some(
                (metrics.timestamp_ms, metrics.camera_frames),
            ),
            rate == match old(self).camera_rate().last_sample() {
                Some(earlier) => counter_pair_rate(
                    earlier,
                    (metrics.timestamp_ms, metrics.camera_frames),
                ),
                None => Rate::spec_zero(),
            },
    {
        self.camera_rate.update(metrics.timestamp_ms, metrics.camera_frames)
    }

    /// What an image does to the pipeline and what it is answered with,
    /// given the picture that its bytes decoded to, if they did.
    ///
    /// The sequence number feeds the packet-rate estimator; the camera-rate
    /// estimator is left alone. A picture goes to the detector, which
    /// counts it and, with detection on, makes it the baseline. Motion
    /// with no session open asks the controller for a session, and the
    /// image goes to the controller as a frame. The prelude is the buffered
    /// frames where a session began that takes them. With detection on,
    /// the image enters the ring buffer.
    pub open spec fn image_step(
        self,
        after: Pipeline,
        sequence: u32,
        jpeg: Seq<u8>,
        picture: Option<FrameView>,
        arrived: Instant,
        arrived_micros: u64,
        output_path: String,
        outcome: ImageOutcome,
    ) -> bool {
        &&& after.camera_rate() == self.camera_rate()
        &&& after.sequence_rate().spec_window_size() == self.sequence_rate().spec_window_size()
        &&& after.sequence_rate().window() == window_push(
            self.sequence_rate().window(),
            self.sequence_rate().spec_window_size(),
            (sequence, arrived_micros),
        )
        &&& outcome.rate == window_rate(after.sequence_rate().window())
        &&& outcome.motion == sees_motion(
            self.detector().spec_config(),
            self.detector().baseline(),
            picture,
        )
        &&& after.detector().spec_config() == self.detector().spec_config()
        &&& match picture {
            Some(p) => {
                &&& after.detector().spec_total_frames() == self.detector().spec_total_frames()
                    + 1
                &&& after.detector().spec_motion_count() == self.detector().spec_motion_count()
                    + if outcome.motion {
                    1int
                } else {
                    0int
                }
                &&& after.detector().baseline() == if self.detector().spec_config().enabled {
                    Some(gray_of(p))
                } else {
                    self.detector().baseline()
                }
            },
            None => after.detector() == self.detector(),
        }
        &&& after.controller().spec_config() == self.controller().spec_config()
        &&& (after.controller().session(), outcome.started, outcome.frame) == image_decision(
            self.controller().session(),
            self.controller().spec_config(),
            outcome.motion,
            output_path,
            arrived,
            self.ring().counts(),
            jpeg.len(),
        )
        &&& outcome.prelude@ == if outcome.started matches Some(
            StartAction::Open { flush_prebuffer: true, .. },
        ) {
            concat_frames(self.ring().frames())
        } else {
            Seq::<u8>::empty()
        }
        &&& after.ring().spec_capacity() == self.ring().spec_capacity()
        &&& self.detector().spec_config().enabled ==> exists|frame: JpegFrame|
            {
                &&& frame.jpeg_data@ == jpeg
                &&& frame.timestamp == arrived
                &&& after.ring().frames() == #[trigger] ring_push(
                    self.ring().frames(),
                    self.ring().spec_capacity(),
                    frame,
                )
            }
        &&& !self.detector().spec_config().enabled ==> after.ring().frames()
            == self.ring().frames()
    }

    /// Takes an image packet: its sequence number and its JPEG bytes.
    ///
    /// With detection on, the bytes are decoded first, and the picture, if
    /// there is one, goes to the detector; bytes that do not decode are
    /// recorded and buffered all the same. With detection off nothing is
    /// decoded and the detector is left alone. All else is as in
    /// `on_decoded_image`.
    pub fn on_image(
        &mut self,
        sequence: u32,
        jpeg: &[u8],
        arrived: Instant,
        arrived_micros: u64,
        output_path: String,
    ) -> (outcome: ImageOutcome)
        requires
            old(self).wf(),
            old(self).has_room(jpeg@.len()),
        ensures
            final(self).wf(),
            exists|picture: Option<FrameView>|
                {
                    &&& (picture is Some ==> old(self).detector().spec_config().enabled)
                    &&& #[trigger] old(self).image_step(
                        *final(self),
                        sequence,
                        jpeg@,
                        picture,
                        arrived,
                        arrived_micros,
                        output_path,
                        outcome,
                    )
                },
    {
        let picture = if self.detector.config().enabled {
            decode_picture(jpeg)
        } else {
            None
        };
        let ghost seen: Option<FrameView> = match &picture {
            Some(p) => Some(p@),
            None => None,
        };
        let outcome = self.on_decoded_image(
            sequence,
            jpeg,
            picture.as_ref(),
            arrived,
            arrived_micros,
            output_path,
        );
        proof {
            assert(old(self).image_step(
                *self,
                sequence,
                jpeg@,
                seen,
                arrived,
                arrived_micros,
                output_path,
                outcome,
            ));
        }
        outcome
    }

    /// Takes an image packet: its sequence number, its JPEG bytes, and the
    /// picture they decode to, where they decode.
    ///
    /// The sequence number feeds the packet-rate estimator. The picture
    /// goes to the detector. Motion with no session open asks the
    /// controller for a session that writes to `output_path`; where that
    /// session takes the buffered frames, their bytes are handed back as
    /// the prelude. The image then goes to the controller as a frame.
    /// Last, with detection on, the image enters the ring buffer, so that
    /// the buffer held only earlier frames when it was handed back.
    pub fn on_decoded_image(
        &mut self,
        sequence: u32,
        jpeg: &[u8],
        picture: Option<&RgbaFrame>,
        arrived: Instant,
        arrived_micros: u64,
        output_path: String,
    ) -> (outcome: ImageOutcome)
        requires
            old(self).wf(),
            old(self).has_room(jpeg@.len()),
        ensures
            final(self).wf(),
            old(self).image_step(
                *final(self),
                sequence,
                jpeg@,
                match picture {
                    Some(p) => Some(p@),
                    None => None,
                },
                arrived,
                arrived_micros,
                output_path,
                outcome,
            ),
    {
        let rate = self.sequence_rate.update(sequence, arrived_micros);
        let motion = match picture {
            Some(p) => self.detector.detect(p),
            None => false,
        };
        let mut started: Option<StartAction> = None;
        let mut prelude: Vec<u8> = Vec::new();
        if motion && !self.controller.is_recording() {
            let prebuffer = (self.ring.len(), self.ring.total_bytes());
            let action = self.controller.start(Trigger::Motion, output_path, arrived, prebuffer);
            match action {
                StartAction::Open { encoding: _, flush_prebuffer } => {
                    if flush_prebuffer {
                        self.ring.drain_to(&mut prelude);
                    }
                },
                _ => {},
            }
            started = Some(action);
        }
        let frame = self.controller.submit_frame(jpeg, motion);
        if self.detector.config().enabled {
            let entry = JpegFrame { jpeg_data: slice_to_vec(jpeg), timestamp: arrived };
            proof {
                lemma_ring_push_total(self.ring.frames(), self.ring.spec_capacity(), entry);
            }
            self.ring.push(entry);
        }
        ImageOutcome { rate, motion, started, prelude, frame }
    }

    /// Asks for a session to start by command. See
    /// `RecordingController::start`: with a session open nothing changes.
    /// A session started by command never takes the buffered frames.
    pub fn start_manual(&mut self, output_path: String, start_time: Instant) -> (action:
        StartAction)
        ensures
            final(self).detector() == old(self).detector(),
            final(self).ring() == old(self).ring(),
            final(self).sequence_rate() == old(self).sequence_rate(),
            final(self).camera_rate() == old(self).camera_rate(),
            final(self).controller().spec_config() == old(self).controller().spec_config(),
            (final(self).controller().session(), action) == start_spec(
                old(self).controller().session(),
                old(self).controller().spec_config(),
                Trigger::Manual,
                output_path,
                start_time,
                (0, 0),
            ),
    {
        self.controller.start(Trigger::Manual, output_path, start_time, (0, 0))
    }

    /// Takes back a start whose output could not be opened: no session is
    /// open afterwards.
    pub fn abort_start(&mut self)
        ensures
            final(self).detector() == old(self).detector(),
            final(self).ring() == old(self).ring(),
            final(self).sequence_rate() == old(self).sequence_rate(),
            final(self).camera_rate() == old(self).camera_rate(),
            final(self).controller().spec_config() == old(self).controller().spec_config(),
            final(self).controller().session() is Idle,
    {
        self.controller.abort_start();
    }

    /// Closes the open session for `reason` and returns what it came to,
    /// or returns nothing where no session is open.
    pub fn stop(&mut self, reason: StopReason) -> (summary: Option<SessionSummary>)
        ensures
            final(self).detector() == old(self).detector(),
            final(self).ring() == old(self).ring(),
            final(self).sequence_rate() == old(self).sequence_rate(),
            final(self).camera_rate() == old(self).camera_rate(),
            final(self).controller().spec_config() == old(self).controller().spec_config(),
            final(self).controller().session() is Idle,
            summary == stop_spec(old(self).controller().session(), reason),
    {
        self.controller.stop(reason)
    }

    /// Puts new settings on the detector. The ring buffer is sized anew
    /// for them, which empties it, and the detector starts without a
    /// baseline and with its counts at zero. The session is not touched.
    pub fn reconfigure_motion(&mut self, motion: MotionDetectionConfig)
        requires
            motion.pre_record_seconds * old(self).controller().spec_config().assumed_fps
                <= usize::MAX,
        ensures
            final(self).wf(),
            final(self).controller() == old(self).controller(),
            final(self).sequence_rate() == old(self).sequence_rate(),
            final(self).camera_rate() == old(self).camera_rate(),
            final(self).detector().spec_config() == motion,
            final(self).detector().baseline() is None,
            final(self).detector().spec_total_frames() == 0,
            final(self).detector().spec_motion_count() == 0,
            final(self).ring().frames() == Seq::<JpegFrame>::empty(),
            final(self).ring().spec_capacity() == motion.pre_record_seconds * old(
                self,
            ).controller().spec_config().assumed_fps,
    {
        let fps = self.controller.config().assumed_fps;
        proof {
            assert(motion.pre_record_seconds * fps <= 0xFFFF_FFFF * 0xFFFF_FFFF)
                by (nonlinear_arith)
                requires
                    0 <= motion.pre_record_seconds <= 0xFFFF_FFFF,
                    0 <= fps <= 0xFFFF_FFFF,
            ;
        }
        let capacity: u64 = (motion.pre_record_seconds as u64) * (fps as u64);
        self.ring.resize(capacity as usize);
        self.detector.update_config(motion);
        self.detector.reset();
    }
}

} // verus!
