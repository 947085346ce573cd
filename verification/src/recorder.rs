//! The recording controller: which session is open, what each frame does
//! to it, and when it closes.
//!
//! The controller decides and keeps count; it opens and writes nothing
//! itself. Each operation answers with the action that the caller is to
//! perform on the output: open it, write to it, close it. Since a session
//! is one value of an enum, no two outputs are ever open at once.

use std::time::Instant;
use vstd::prelude::*;

verus! {

/// Frames per second that sizes the post-record countdown. A fixed
/// assumption, not a measurement.
pub const ASSUMED_FPS: u32 = 11;

/// Bytes after which a session closes itself (1 GB).
pub const MAX_RECORDING_BYTES: u64 = 1_000_000_000;

/// How a session's output is written.
#[derive(Debug, Clone, Copy, PartialEq, Eq, Structural)]
pub enum EncodingKind {
    /// Every frame is appended to a file as it came.
    Raw,
    /// Every frame is handed to an outside video encoder.
    Piped,
}

/// What starts a session.
#[derive(Debug, Clone, Copy, PartialEq, Eq, Structural)]
pub enum Trigger {
    /// An explicit command.
    Manual,
    /// The motion detector.
    Motion,
}

/// Why a session closed.
#[derive(Debug, Clone, Copy, PartialEq, Eq, Structural)]
pub enum StopReason {
    /// An explicit command.
    Requested,
    /// The transport stopped.
    TransportStopped,
    /// The session had written more than the configured ceiling.
    SizeLimit,
    /// Motion had ceased and the countdown ran out.
    MotionEnded,
}

/// Settings of the controller.
#[derive(Debug, Clone, Copy, PartialEq, Eq, Structural)]
pub struct RecorderConfig {
    /// Whether the motion detector may start a session.
    pub motion_recording_enabled: bool,
    /// How outputs are written.
    pub encoding: EncodingKind,
    /// Seconds that a motion session goes on after motion has ceased.
    pub post_record_seconds: u32,
    /// Frames per second assumed when seconds are turned into frames.
    pub assumed_fps: u32,
    /// Bytes after which a session closes itself.
    pub max_bytes: u64,
}

/// What every open session carries.
#[derive(Debug, Clone)]
pub struct SessionInfo {
    /// When the session started.
    pub start_time: Instant,
    /// Frames written so far.
    pub frame_count: u64,
    /// Bytes written so far.
    pub total_bytes: u64,
    /// Where the output goes.
    pub output_path: String,
    /// How the output is written.
    pub encoding: EncodingKind,
}

/// The session that is open, if any.
#[derive(Debug, Clone)]
pub enum RecordingSession {
    /// Nothing is being recorded.
    Idle,
    /// A session started by command.
    Manual { info: SessionInfo },
    /// A session started by motion. `countdown_frames` is the number of
    /// motionless frames that the session will still take.
    MotionTriggered { info: SessionInfo, motion_active: bool, countdown_frames: u64 },
}

/// What a closed session came to.
#[derive(Debug, Clone)]
pub struct SessionSummary {
    /// What had started the session.
    pub trigger: Trigger,
    /// Why it closed.
    pub reason: StopReason,
    /// The session's counts and output as it closed.
    pub info: SessionInfo,
}

/// The answer to a request to start.
#[derive(Debug, Clone, Copy, PartialEq, Eq, Structural)]
pub enum StartAction {
    /// A session is open already: nothing changes and nothing is to be
    /// opened.
    AlreadyRecording,
    /// Motion may not start a session under the settings in force.
    MotionDisabled,
    /// A session has begun: its output is to be opened, and where
    /// `flush_prebuffer` is set, the buffered frames are to be written to
    /// it first.
    Open { encoding: EncodingKind, flush_prebuffer: bool },
}

/// The answer to a frame.
#[derive(Debug, Clone)]
pub enum FrameAction {
    /// No session is open: the frame is not recorded.
    Discard,
    /// The frame is to be written to the open output.
    Write,
    /// The frame is to be written, and the output closed: the session is
    /// over.
    WriteAndClose(SessionSummary),
}

impl RecordingSession {
    /// The counts and output of the open session.
    pub open spec fn info(self) -> Option<SessionInfo> {
        match self {
            RecordingSession::Idle => None,
            RecordingSession::Manual { info } => Some(info),
            RecordingSession::MotionTriggered { info, .. } => Some(info),
        }
    }

    /// What started the open session.
    pub open spec fn trigger(self) -> Trigger {
        match self {
            RecordingSession::MotionTriggered { .. } => Trigger::Motion,
            _ => Trigger::Manual,
        }
    }
}

/// Motionless frames that a motion session takes before it closes.
pub open spec fn countdown_start(config: RecorderConfig) -> u64 {
    (config.post_record_seconds * config.assumed_fps) as u64
}

/// Whether the buffered frames open the output of a session: only of one
/// that motion starts, and only where frames are appended as they came.
/// (A piped output starts from the triggering frame.)
pub open spec fn takes_prebuffer(config: RecorderConfig, trigger: Trigger) -> bool {
    trigger == Trigger::Motion && config.encoding == EncodingKind::Raw
}

/// The session and the answer after a request to start.
pub open spec fn start_spec(
    session: RecordingSession,
    config: RecorderConfig,
    trigger: Trigger,
    output_path: String,
    start_time: Instant,
    prebuffer: (usize, usize),
) -> (RecordingSession, StartAction) {
    if !(session is Idle) {
        (session, StartAction::AlreadyRecording)
    } else if trigger == Trigger::Motion && !config.motion_recording_enabled {
        (session, StartAction::MotionDisabled)
    } else {
        let flush = takes_prebuffer(config, trigger);
        let info = SessionInfo {
            start_time,
            frame_count: if flush {
                prebuffer.0 as u64
            } else {
                0
            },
            total_bytes: if flush {
                prebuffer.1 as u64
            } else {
                0
            },
            output_path,
            encoding: config.encoding,
        };
        (
            match trigger {
                Trigger::Manual => RecordingSession::Manual { info },
                Trigger::Motion => RecordingSession::MotionTriggered {
                    info,
                    motion_active: true,
                    countdown_frames: countdown_start(config),
                },
            },
            StartAction::Open { encoding: config.encoding, flush_prebuffer: flush },
        )
    }
}

/// The counts after one more frame of `frame_len` bytes.
pub open spec fn info_after_frame(info: SessionInfo, frame_len: nat) -> SessionInfo {
    SessionInfo {
        frame_count: (info.frame_count + 1) as u64,
        total_bytes: (info.total_bytes + frame_len) as u64,
        ..info
    }
}

/// The countdown after a frame: set anew by motion, one less without.
pub open spec fn countdown_after_frame(config: RecorderConfig, countdown: u64, motion: bool) -> u64 {
    if motion {
        countdown_start(config)
    } else if countdown > 0 {
        (countdown - 1) as u64
    } else {
        0
    }
}

/// The session and the answer after a frame of `frame_len` bytes in which
/// the detector saw motion or not.
///
/// An open session takes the frame. It then closes where it has written
/// more than the ceiling, and, being a motion session, where the frame was
/// motionless and the countdown has run out.
pub open spec fn frame_spec(
    session: RecordingSession,
    config: RecorderConfig,
    frame_len: nat,
    motion: bool,
) -> (RecordingSession, FrameAction) {
    match session {
        RecordingSession::Idle => (session, FrameAction::Discard),
        RecordingSession::Manual { info } => {
            let info = info_after_frame(info, frame_len);
            if info.total_bytes > config.max_bytes {
                (
                    RecordingSession::Idle,
                    FrameAction::WriteAndClose(
                        SessionSummary {
                            trigger: Trigger::Manual,
                            reason: StopReason::SizeLimit,
                            info,
                        },
                    ),
                )
            } else {
                (RecordingSession::Manual { info }, FrameAction::Write)
            }
        },
        RecordingSession::MotionTriggered { info, motion_active, countdown_frames } => {
            let info = info_after_frame(info, frame_len);
            let countdown = countdown_after_frame(config, countdown_frames, motion);
            if info.total_bytes > config.max_bytes {
                (
                    RecordingSession::Idle,
                    FrameAction::WriteAndClose(
                        SessionSummary {
                            trigger: Trigger::Motion,
                            reason: StopReason::SizeLimit,
                            info,
                        },
                    ),
                )
            } else if !motion && countdown == 0 {
                (
                    RecordingSession::Idle,
                    FrameAction::WriteAndClose(
                        SessionSummary {
                            trigger: Trigger::Motion,
                            reason: StopReason::MotionEnded,
                            info,
                        },
                    ),
                )
            } else {
                (
                    RecordingSession::MotionTriggered {
                        info,
                        motion_active: motion,
                        countdown_frames: countdown,
                    },
                    FrameAction::Write,
                )
            }
        },
    }
}

/// What a stop for `reason` makes of `session`: its summary, or nothing
/// where no session is open.
pub open spec fn stop_spec(session: RecordingSession, reason: StopReason) -> Option<
    SessionSummary,
> {
    match session.info() {
        None => None,
        Some(info) => Some(SessionSummary { trigger: session.trigger(), reason, info }),
    }
}

/// One output at a time. An output is opened only when none is open, and
/// a session is open afterwards. A frame is written only to an open
/// session; the session is closed exactly when the answer says so, and no
/// session is closed without its summary.
pub proof fn lemma_one_output_at_a_time(
    session: RecordingSession,
    config: RecorderConfig,
    trigger: Trigger,
    output_path: String,
    start_time: Instant,
    prebuffer: (usize, usize),
    frame_len: nat,
    motion: bool,
)
    ensures
        ({
            let (next, action) = start_spec(
                session,
                config,
                trigger,
                output_path,
                start_time,
                prebuffer,
            );
            &&& action is Open <==> session is Idle && !(next is Idle)
            &&& !(action is Open) ==> next == session
            &&& !(session is Idle) ==> action is AlreadyRecording
        }),
        ({
            let (next, action) = frame_spec(session, config, frame_len, motion);
            &&& action is Discard <==> session is Idle
            &&& action is Write <==> !(session is Idle) && !(next is Idle)
            &&& action is WriteAndClose <==> !(session is Idle) && next is Idle
            &&& session is Idle ==> next is Idle
        }),
{
}

/// A session's counts only grow, by exactly what is written: each frame
/// adds one to the frames and its size to the bytes, whether the session
/// goes on or closes, and a session that closes over the ceiling reports
/// in its summary the bytes that were written, this frame included.
pub proof fn lemma_frame_is_counted(
    session: RecordingSession,
    config: RecorderConfig,
    frame_len: nat,
    motion: bool,
)
    requires
        session.info() matches Some(info) && info.frame_count < u64::MAX && info.total_bytes
            + frame_len <= u64::MAX,
    ensures
        ({
            let before = session.info()->Some_0;
            let (next, action) = frame_spec(session, config, frame_len, motion);
            let after = match action {
                FrameAction::WriteAndClose(summary) => summary.info,
                _ => next.info()->Some_0,
            };
            &&& after.frame_count == before.frame_count + 1
            &&& after.total_bytes == before.total_bytes + frame_len
            &&& after.output_path == before.output_path
            &&& after.start_time == before.start_time
            &&& after.encoding == before.encoding
            &&& before.total_bytes + frame_len > config.max_bytes ==> {
                &&& next is Idle
                &&& action matches FrameAction::WriteAndClose(summary)
                &&& summary.reason == StopReason::SizeLimit
                &&& summary.info.total_bytes == before.total_bytes + frame_len
            }
            &&& action matches FrameAction::WriteAndClose(summary) ==> summary.trigger
                == session.trigger()
        }),
{
}

/// The controller: the settings and the session.
pub struct RecordingController {
    config: RecorderConfig,
    session: RecordingSession,
}

impl RecordingController {
    /// The session that is open, if any.
    pub closed spec fn session(&self) -> RecordingSession {
        self.session
    }

    /// The settings in force.
    pub closed spec fn spec_config(&self) -> RecorderConfig {
        self.config
    }

    /// A controller under `config` with no session open.
    pub fn new(config: RecorderConfig) -> (controller: RecordingController)
        ensures
            controller.session() is Idle,
            controller.spec_config() == config,
    {
        RecordingController { config, session: RecordingSession::Idle }
    }

    /// The settings that go with a detector's `post_record_seconds`: the
    /// frame rate assumed is `ASSUMED_FPS`, the ceiling
    /// `MAX_RECORDING_BYTES`.
    pub fn config_for(
        motion_recording_enabled: bool,
        encoding: EncodingKind,
        post_record_seconds: u32,
    ) -> (config: RecorderConfig)
        ensures
            config == (RecorderConfig {
                motion_recording_enabled,
                encoding,
                post_record_seconds,
                assumed_fps: ASSUMED_FPS,
                max_bytes: MAX_RECORDING_BYTES,
            }),
    {
        RecorderConfig {
            motion_recording_enabled,
            encoding,
            post_record_seconds,
            assumed_fps: ASSUMED_FPS,
            max_bytes: MAX_RECORDING_BYTES,
        }
    }

    /// The settings in force.
    pub fn config(&self) -> (config: &RecorderConfig)
        ensures
            *config == self.spec_config(),
    {
        &self.config
    }

    /// Whether a session is open.
    pub fn is_recording(&self) -> (recording: bool)
        ensures
            recording == !(self.session() is Idle),
    {
        match &self.session {
            RecordingSession::Idle => false,
            _ => true,
        }
    }

    /// Frames and bytes that the open session has written; zero of both
    /// where no session is open.
    pub fn progress(&self) -> (counts: (u64, u64))
        ensures
            counts == match self.session().info() {
                Some(info) => (info.frame_count, info.total_bytes),
                None => (0u64, 0u64),
            },
    {
        match &self.session {
            RecordingSession::Idle => (0, 0),
            RecordingSession::Manual { info } => (info.frame_count, info.total_bytes),
            RecordingSession::MotionTriggered { info, .. } => (info.frame_count, info.total_bytes),
        }
    }

    /// Motionless frames that the open motion session will still take; zero
    /// otherwise.
    pub fn countdown(&self) -> (frames: u64)
        ensures
            frames == match self.session() {
                RecordingSession::MotionTriggered { countdown_frames, .. } => countdown_frames,
                _ => 0,
            },
    {
        match &self.session {
            RecordingSession::MotionTriggered { countdown_frames, .. } => *countdown_frames,
            _ => 0,
        }
    }

    /// Asks for a session to start.
    ///
    /// With a session open, nothing changes: no second output is opened.
    /// Motion starts a session only where the settings allow it. Otherwise
    /// a session begins that writes to `output_path`, and the caller is
    /// told to open that output. A raw session that motion starts opens
    /// with the buffered frames, whose number and size `prebuffer` gives;
    /// they count as written.
    pub fn start(
        &mut self,
        trigger: Trigger,
        output_path: String,
        start_time: Instant,
        prebuffer: (usize, usize),
    ) -> (action: StartAction)
        ensures
            final(self).spec_config() == old(self).spec_config(),
            (final(self).session(), action) == start_spec(
                old(self).session(),
                old(self).spec_config(),
                trigger,
                output_path,
                start_time,
                prebuffer,
            ),
    {
        if self.is_recording() {
            return StartAction::AlreadyRecording;
        }
        let flush = match (trigger, self.config.encoding) {
            (Trigger::Motion, EncodingKind::Raw) => true,
            _ => false,
        };
        match trigger {
            Trigger::Motion => {
                if !self.config.motion_recording_enabled {
                    return StartAction::MotionDisabled;
                }
            },
            Trigger::Manual => {},
        }
        let info = SessionInfo {
            start_time,
            frame_count: if flush {
                prebuffer.0 as u64
            } else {
                0
            },
            total_bytes: if flush {
                prebuffer.1 as u64
            } else {
                0
            },
            output_path,
            encoding: self.config.encoding,
        };
        match trigger {
            Trigger::Manual => {
                self.session = RecordingSession::Manual { info };
            },
            Trigger::Motion => {
                let countdown_frames = self.initial_countdown();
                self.session = RecordingSession::MotionTriggered {
                    info,
                    motion_active: true,
                    countdown_frames,
                };
            },
        }
        StartAction::Open { encoding: self.config.encoding, flush_prebuffer: flush }
    }

    /// Motionless frames that a motion session takes before it closes:
    /// the configured seconds at the assumed frame rate.
    pub fn initial_countdown(&self) -> (frames: u64)
        ensures
            frames == countdown_start(self.spec_config()),
    {
        proof {
            assert(self.config.post_record_seconds * self.config.assumed_fps <= 0xFFFF_FFFF
                * 0xFFFF_FFFF) by (nonlinear_arith)
                requires
                    0 <= self.config.post_record_seconds <= 0xFFFF_FFFF,
                    0 <= self.config.assumed_fps <= 0xFFFF_FFFF,
            ;
        }
        (self.config.post_record_seconds as u64) * (self.config.assumed_fps as u64)
    }

    /// Takes back a start whose output could not be opened: no session is
    /// open afterwards, and no summary is made.
    pub fn abort_start(&mut self)
        ensures
            final(self).spec_config() == old(self).spec_config(),
            final(self).session() is Idle,
    {
        self.session = RecordingSession::Idle;
    }

    /// Closes the open session for `reason` and returns what it came to,
    /// or returns nothing where no session is open.
    pub fn stop(&mut self, reason: StopReason) -> (summary: Option<SessionSummary>)
        ensures
            final(self).spec_config() == old(self).spec_config(),
            final(self).session() is Idle,
            summary == stop_spec(old(self).session(), reason),
    {
        let mut session = RecordingSession::Idle;
        std::mem::swap(&mut self.session, &mut session);
        match session {
            RecordingSession::Idle => None,
            RecordingSession::Manual { info } => Some(
                SessionSummary { trigger: Trigger::Manual, reason, info },
            ),
            RecordingSession::MotionTriggered { info, .. } => Some(
                SessionSummary { trigger: Trigger::Motion, reason, info },
            ),
        }
    }
    /// Whether the open session can count one more frame of `frame_len`
    /// bytes within the range of its counters. True where no session is
    /// open.
    pub open spec fn can_count(&self, frame_len: nat) -> bool {
        match self.session().info() {
            Some(info) => info.frame_count < u64::MAX && info.total_bytes + frame_len <= u64::MAX,
            None => true,
        }
    }

    /// Takes a frame in which the detector saw motion or not, and says
    /// what is to be done with it.
    ///
    /// With no session open the frame is discarded. An open session
    /// counts the frame and has it written. The session then closes where
    /// its bytes have gone above the ceiling: the summary gives the bytes
    /// written, this frame included. A motion session also closes where
    /// the frame was motionless and its countdown has run out; a frame
    /// with motion sets the countdown anew.
    pub fn submit_frame(&mut self, frame: &[u8], motion: bool) -> (action: FrameAction)
        requires
            old(self).can_count(frame@.len()),
        ensures
            final(self).spec_config() == old(self).spec_config(),
            (final(self).session(), action) == frame_spec(
                old(self).session(),
                old(self).spec_config(),
                frame@.len(),
                motion,
            ),
    {
        let frame_len = frame.len();
        let mut session = RecordingSession::Idle;
        std::mem::swap(&mut self.session, &mut session);
        match session {
            RecordingSession::Idle => FrameAction::Discard,
            RecordingSession::Manual { info } => {
                let mut info = info;
                info.frame_count = info.frame_count + 1;
                info.total_bytes = info.total_bytes + frame_len as u64;
                if info.total_bytes > self.config.max_bytes {
                    FrameAction::WriteAndClose(
                        SessionSummary {
                            trigger: Trigger::Manual,
                            reason: StopReason::SizeLimit,
                            info,
                        },
                    )
                } else {
                    self.session = RecordingSession::Manual { info };
                    FrameAction::Write
                }
            },
            RecordingSession::MotionTriggered { info, motion_active: _, countdown_frames } => {
                let mut info = info;
                info.frame_count = info.frame_count + 1;
                info.total_bytes = info.total_bytes + frame_len as u64;
                let countdown: u64 = if motion {
                    self.initial_countdown()
                } else if countdown_frames > 0 {
                    countdown_frames - 1
                } else {
                    0
                };
                if info.total_bytes > self.config.max_bytes {
                    FrameAction::WriteAndClose(
                        SessionSummary {
                            trigger: Trigger::Motion,
                            reason: StopReason::SizeLimit,
                            info,
                        },
                    )
                } else if !motion && countdown == 0 {
                    FrameAction::WriteAndClose(
                        SessionSummary {
                            trigger: Trigger::Motion,
                            reason: StopReason::MotionEnded,
                            info,
                        },
                    )
                } else {
                    self.session = RecordingSession::MotionTriggered {
                        info,
                        motion_active: motion,
                        countdown_frames: countdown,
                    };
                    FrameAction::Write
                }
            },
        }
    }
}

} // verus!
