//! Motion detection by frame differencing: each picture is reduced to its
//! luminance and set against the one before it, and motion is reported
//! when enough of the pixels have changed by more than a threshold.
//!
//! All quantities are whole numbers. A sensitivity is given in
//! thousandths, a share of the picture in hundredths of a percent.

use vstd::prelude::*;

verus! {

/// Settings of the detector.
#[derive(Debug, Clone, Copy, PartialEq, Eq, Structural)]
pub struct MotionDetectionConfig {
    /// Whether detection is on.
    pub enabled: bool,
    /// Sensitivity in thousandths, 0 to 1000. The smaller the value, the
    /// smaller the change of luminance that counts.
    pub sensitivity_permille: u32,
    /// The share of the picture that must have changed for motion to be
    /// reported, in hundredths of a percent (100 is one percent).
    pub min_motion_area_centipercent: u32,
    /// Seconds of frames kept from before a trigger.
    pub pre_record_seconds: u32,
    /// Seconds of recording after motion has ceased.
    pub post_record_seconds: u32,
}

impl MotionDetectionConfig {
    /// The settings that a detector starts with: detection off, medium
    /// sensitivity, one percent of the picture, ten seconds before a
    /// trigger and thirty after.
    pub open spec fn spec_default() -> MotionDetectionConfig {
        MotionDetectionConfig {
            enabled: false,
            sensitivity_permille: 500,
            min_motion_area_centipercent: 100,
            pre_record_seconds: 10,
            post_record_seconds: 30,
        }
    }
}

impl Default for MotionDetectionConfig {
    fn default() -> (config: MotionDetectionConfig)
        ensures
            config == MotionDetectionConfig::spec_default(),
    {
        MotionDetectionConfig {
            enabled: false,
            sensitivity_permille: 500,
            min_motion_area_centipercent: 100,
            pre_record_seconds: 10,
            post_record_seconds: 30,
        }
    }
}

/// A picture as a mathematical value: its size and its samples, row by
/// row. A colour picture has four samples to the pixel (red, green, blue,
/// alpha), a grey one has one.
pub struct FrameView {
    pub width: nat,
    pub height: nat,
    pub pixels: Seq<u8>,
}

/// Luminance of a pixel: `0.299 R + 0.587 G + 0.114 B`, rounded down.
pub open spec fn luma(r: u8, g: u8, b: u8) -> u8 {
    ((299 * r + 587 * g + 114 * b) / 1000) as u8
}

/// The luminance of every pixel of a colour picture.
pub open spec fn gray_of(frame: FrameView) -> FrameView {
    FrameView {
        width: frame.width,
        height: frame.height,
        pixels: Seq::new(
            frame.width * frame.height,
            |i: int| luma(frame.pixels[4 * i], frame.pixels[4 * i + 1], frame.pixels[4 * i + 2]),
        ),
    }
}

/// Distance between two samples.
pub open spec fn abs_diff(a: u8, b: u8) -> u8 {
    if a >= b {
        (a - b) as u8
    } else {
        (b - a) as u8
    }
}

/// The distance, pixel by pixel, between two grey pictures of one size.
pub open spec fn difference_of(prev: FrameView, current: FrameView) -> FrameView {
    FrameView {
        width: prev.width,
        height: prev.height,
        pixels: Seq::new(prev.pixels.len(), |i: int| abs_diff(prev.pixels[i], current.pixels[i])),
    }
}

/// Number of samples above `threshold`.
pub open spec fn count_above(pixels: Seq<u8>, threshold: u8) -> nat
    decreases pixels.len(),
{
    if pixels.len() == 0 {
        0
    } else {
        count_above(pixels.drop_last(), threshold) + if pixels.last() > threshold {
            1nat
        } else {
            0nat
        }
    }
}

/// The change of luminance above which a pixel counts as changed:
/// `5 + sensitivity * 95`, rounded down and held to the range 5 to 100.
pub open spec fn threshold_of(sensitivity_permille: u32) -> u8 {
    let raw = 5 + sensitivity_permille * 95 / 1000;
    if raw > 100 {
        100
    } else {
        raw as u8
    }
}

/// Whether `changed` pixels of `total` are at least the share
/// `min_area_centipercent`. Of no pixels, no share is reached.
pub open spec fn area_reached(changed: nat, total: nat, min_area_centipercent: u32) -> bool {
    total > 0 && changed * 10000 >= min_area_centipercent * total
}

/// Whether the grey picture `current` shows motion against `prev` under
/// `config`. Pictures of different sizes are not compared.
pub open spec fn motion_between(
    prev: FrameView,
    current: FrameView,
    config: MotionDetectionConfig,
) -> bool {
    &&& prev.width == current.width
    &&& prev.height == current.height
    &&& area_reached(
        count_above(
            difference_of(prev, current).pixels,
            threshold_of(config.sensitivity_permille),
        ),
        current.pixels.len(),
        config.min_motion_area_centipercent,
    )
}

/// Where no sample is above the threshold, the count is zero.
pub proof fn lemma_count_above_none(pixels: Seq<u8>, threshold: u8)
    requires
        forall|i: int| 0 <= i < pixels.len() ==> pixels[i] <= threshold,
    ensures
        count_above(pixels, threshold) == 0,
    decreases pixels.len(),
{
    if pixels.len() > 0 {
        lemma_count_above_none(pixels.drop_last(), threshold);
    }
}

/// Where every sample is above the threshold, the count is their number.
pub proof fn lemma_count_above_all(pixels: Seq<u8>, threshold: u8)
    requires
        forall|i: int| 0 <= i < pixels.len() ==> pixels[i] > threshold,
    ensures
        count_above(pixels, threshold) == pixels.len(),
    decreases pixels.len(),
{
    if pixels.len() > 0 {
        lemma_count_above_all(pixels.drop_last(), threshold);
    }
}

/// A picture shows no motion against itself, whatever share above zero is
/// asked for.
pub proof fn lemma_identical_frames_show_no_motion(frame: FrameView, config: MotionDetectionConfig)
    requires
        config.min_motion_area_centipercent > 0,
    ensures
        !motion_between(frame, frame, config),
{
    let threshold = threshold_of(config.sensitivity_permille);
    lemma_count_above_none(difference_of(frame, frame).pixels, threshold);
    assert(config.min_motion_area_centipercent * frame.pixels.len() > 0 || frame.pixels.len() == 0)
        by (nonlinear_arith)
        requires
            config.min_motion_area_centipercent > 0,
            frame.pixels.len() >= 0,
    ;
}

/// A change of luminance beyond the threshold in every pixel is motion,
/// whatever share up to the whole picture is asked for.
pub proof fn lemma_change_everywhere_is_motion(
    prev: FrameView,
    current: FrameView,
    config: MotionDetectionConfig,
)
    requires
        prev.width == current.width,
        prev.height == current.height,
        prev.pixels.len() == current.pixels.len(),
        current.pixels.len() > 0,
        config.min_motion_area_centipercent <= 10000,
        forall|i: int|
            0 <= i < prev.pixels.len() ==> abs_diff(prev.pixels[i], current.pixels[i])
                > threshold_of(config.sensitivity_permille),
    ensures
        motion_between(prev, current, config),
{
    let threshold = threshold_of(config.sensitivity_permille);
    lemma_count_above_all(difference_of(prev, current).pixels, threshold);
    assert(config.min_motion_area_centipercent * current.pixels.len() <= 10000
        * current.pixels.len()) by (nonlinear_arith)
        requires
            config.min_motion_area_centipercent <= 10000,
            current.pixels.len() >= 0,
    ;
}

/// A change of luminance beyond the threshold in at least half of the
/// pixels is motion, whatever share up to half the picture is asked for.
pub proof fn lemma_change_in_half_is_motion(
    prev: FrameView,
    current: FrameView,
    config: MotionDetectionConfig,
)
    requires
        prev.width == current.width,
        prev.height == current.height,
        current.pixels.len() > 0,
        config.min_motion_area_centipercent <= 5000,
        2 * count_above(
            difference_of(prev, current).pixels,
            threshold_of(config.sensitivity_permille),
        ) >= current.pixels.len(),
    ensures
        motion_between(prev, current, config),
{
    assert(config.min_motion_area_centipercent * current.pixels.len() <= 5000
        * current.pixels.len()) by (nonlinear_arith)
        requires
            config.min_motion_area_centipercent <= 5000,
            current.pixels.len() >= 0,
    ;
}

/// A colour picture: four bytes to the pixel, row by row.
pub struct RgbaFrame {
    width: u32,
    height: u32,
    pixels: Vec<u8>,
}

impl View for RgbaFrame {
    type V = FrameView;

    closed spec fn view(&self) -> FrameView {
        FrameView { width: self.width as nat, height: self.height as nat, pixels: self.pixels@ }
    }
}

impl RgbaFrame {
    #[verifier::type_invariant]
    spec fn inv(self) -> bool {
        self.pixels@.len() == self.width * self.height * 4
    }

    /// The picture of `width` by `height` pixels that `pixels` holds, or
    /// nothing where `pixels` is not exactly four bytes to the pixel.
    pub fn from_raw(width: u32, height: u32, pixels: Vec<u8>) -> (frame: Option<RgbaFrame>)
        ensures
            frame is Some <==> pixels@.len() == width * height * 4,
            frame matches Some(f) ==> f@ == (FrameView {
                width: width as nat,
                height: height as nat,
                pixels: pixels@,
            }),
    {
        proof {
            assert(width * height <= 0xFFFF_FFFF * 0xFFFF_FFFF) by (nonlinear_arith)
                requires
                    width <= 0xFFFF_FFFF,
                    height <= 0xFFFF_FFFF,
            ;
        }
        let count: u128 = (width as u128) * (height as u128) * 4;
        if pixels.len() as u128 == count {
            Some(RgbaFrame { width, height, pixels })
        } else {
            None
        }
    }

    /// Width in pixels.
    pub fn width(&self) -> (width: u32)
        ensures
            width == self@.width,
    {
        self.width
    }

    /// Height in pixels.
    pub fn height(&self) -> (height: u32)
        ensures
            height == self@.height,
    {
        self.height
    }
}

/// A grey picture: one byte of luminance to the pixel, row by row.
pub struct GrayFrame {
    width: u32,
    height: u32,
    pixels: Vec<u8>,
}

impl View for GrayFrame {
    type V = FrameView;

    closed spec fn view(&self) -> FrameView {
        FrameView { width: self.width as nat, height: self.height as nat, pixels: self.pixels@ }
    }
}

impl GrayFrame {
    #[verifier::type_invariant]
    spec fn inv(self) -> bool {
        self.pixels@.len() == self.width * self.height
    }

    /// Width in pixels.
    pub fn width(&self) -> (width: u32)
        ensures
            width == self@.width,
    {
        self.width
    }

    /// Height in pixels.
    pub fn height(&self) -> (height: u32)
        ensures
            height == self@.height,
    {
        self.height
    }

    /// The sample at column `x` of row `y`.
    pub fn get_pixel(&self, x: u32, y: u32) -> (value: u8)
        requires
            x < self@.width,
            y < self@.height,
        ensures
            value == self@.pixels[y * self@.width + x],
            self@.pixels.len() == self@.width * self@.height,
    {
        proof {
            use_type_invariant(self);
            assert(self.pixels.len() == self.width * self.height);
            assert(0 <= y * self.width && y * self.width + x < self.width * self.height)
                by (nonlinear_arith)
                requires
                    0 <= x < self.width,
                    0 <= y < self.height,
            ;
        }
        let index: usize = (y as usize) * (self.width as usize) + (x as usize);
        self.pixels[index]
    }
}

/// Counts of a detector's work.
#[derive(Debug, Clone, Copy, PartialEq, Eq, Structural)]
pub struct MotionDetectorStats {
    /// Pictures that the detector was given.
    pub total_frames: u64,
    /// Pictures in which it reported motion.
    pub motion_detected_count: u64,
    /// The second as a share of the first, in hundredths of a percent,
    /// rounded down; zero before the first picture.
    pub detection_rate_centipercent: u32,
}

/// The share `count * 100 / total` in hundredths of a percent, rounded
/// down; zero of nothing.
pub open spec fn share_centipercent(count: u64, total: u64) -> int {
    if total == 0 {
        0
    } else {
        count * 10000 / (total as int)
    }
}

/// The detector: the settings, the luminance of the last picture, and the
/// counts.
pub struct MotionDetector {
    previous_frame: Option<GrayFrame>,
    config: MotionDetectionConfig,
    total_frames: u64,
    motion_detected_count: u64,
}

impl MotionDetector {
    #[verifier::type_invariant]
    spec fn inv(self) -> bool {
        self.motion_detected_count <= self.total_frames
    }

    /// The luminance picture that the next picture is set against, if one
    /// is stored.
    pub closed spec fn baseline(&self) -> Option<FrameView> {
        match self.previous_frame {
            Some(frame) => Some(frame@),
            None => None,
        }
    }

    /// The settings in force.
    pub closed spec fn spec_config(&self) -> MotionDetectionConfig {
        self.config
    }

    /// Pictures that the detector was given since the counts were last
    /// reset.
    pub closed spec fn spec_total_frames(&self) -> u64 {
        self.total_frames
    }

    /// Pictures in which it reported motion since the counts were last
    /// reset.
    pub closed spec fn spec_motion_count(&self) -> u64 {
        self.motion_detected_count
    }

    /// A detector under `config` with no baseline and all counts at zero.
    pub fn new(config: MotionDetectionConfig) -> (detector: MotionDetector)
        ensures
            detector.baseline() is None,
            detector.spec_config() == config,
            detector.spec_total_frames() == 0,
            detector.spec_motion_count() == 0,
    {
        MotionDetector { previous_frame: None, config, total_frames: 0, motion_detected_count: 0 }
    }

    /// A detector under the default settings.
    pub fn default() -> (detector: MotionDetector)
        ensures
            detector.baseline() is None,
            detector.spec_config() == MotionDetectionConfig::spec_default(),
            detector.spec_total_frames() == 0,
            detector.spec_motion_count() == 0,
    {
        Self::new(MotionDetectionConfig::default())
    }

    /// Takes the next picture and says whether it shows motion.
    ///
    /// With detection off, the answer is no and nothing but the count of
    /// pictures changes. With detection on, the picture's luminance
    /// becomes the new baseline whatever the answer, and the answer is yes
    /// exactly when there was a baseline of the same size and the share of
    /// pixels whose luminance moved by more than the threshold reaches the
    /// configured share.
    pub fn detect(&mut self, current_frame: &RgbaFrame) -> (motion: bool)
        requires
            old(self).spec_total_frames() < u64::MAX,
        ensures
            final(self).spec_config() == old(self).spec_config(),
            final(self).spec_total_frames() == old(self).spec_total_frames() + 1,
            final(self).spec_motion_count() == old(self).spec_motion_count() + if motion {
                1int
            } else {
                0int
            },
            !old(self).spec_config().enabled ==> !motion && final(self).baseline() == old(
                self,
            ).baseline(),
            old(self).spec_config().enabled ==> {
                &&& final(self).baseline() == Some(gray_of(current_frame@))
                &&& motion == match old(self).baseline() {
                    Some(prev) => motion_between(
                        prev,
                        gray_of(current_frame@),
                        old(self).spec_config(),
                    ),
                    None => false,
                }
            },
    {
        proof {
            use_type_invariant(&*self);
        }
        if !self.config.enabled {
            self.total_frames = self.total_frames + 1;
            return false;
        }
        let gray = Self::rgba_to_gray(current_frame);
        let mut motion_detected = false;
        match &self.previous_frame {
            Some(prev) => {
                if prev.width() == gray.width() && prev.height() == gray.height() {
                    let diff = Self::compute_difference(prev, &gray);
                    let threshold = self.compute_threshold();
                    let changed_pixels = Self::count_changed_pixels(&diff, threshold);
                    let total_pixels = gray.pixels.len();
                    motion_detected = Self::reaches_area(
                        changed_pixels,
                        total_pixels,
                        self.config.min_motion_area_centipercent,
                    );
                }
            },
            None => {},
        }
        self.total_frames = self.total_frames + 1;
        if motion_detected {
            self.motion_detected_count = self.motion_detected_count + 1;
        }
        self.previous_frame = Some(gray);
        motion_detected
    }

    /// Whether `changed` pixels of `total` are at least the share
    /// `min_area_centipercent`.
    pub fn reaches_area(changed: usize, total: usize, min_area_centipercent: u32) -> (reached:
        bool)
        ensures
            reached == area_reached(changed as nat, total as nat, min_area_centipercent),
    {
        if total == 0 {
            return false;
        }
        proof {
            assert(min_area_centipercent * total <= 0xFFFF_FFFF * 0xFFFF_FFFF_FFFF_FFFF)
                by (nonlinear_arith)
                requires
                    0 <= min_area_centipercent <= 0xFFFF_FFFF,
                    0 <= total <= 0xFFFF_FFFF_FFFF_FFFF,
            ;
        }
        (changed as u128) * 10000 >= (min_area_centipercent as u128) * (total as u128)
    }

    /// Replaces the settings. The baseline and the counts stay.
    pub fn update_config(&mut self, config: MotionDetectionConfig)
        ensures
            final(self).spec_config() == config,
            final(self).baseline() == old(self).baseline(),
            final(self).spec_total_frames() == old(self).spec_total_frames(),
            final(self).spec_motion_count() == old(self).spec_motion_count(),
    {
        proof {
            use_type_invariant(&*self);
        }
        self.config = config;
    }

    /// The settings in force.
    pub fn config(&self) -> (config: &MotionDetectionConfig)
        ensures
            *config == self.spec_config(),
    {
        &self.config
    }

    /// The counts, and the share of pictures with motion.
    pub fn stats(&self) -> (stats: MotionDetectorStats)
        ensures
            stats.total_frames == self.spec_total_frames(),
            stats.motion_detected_count == self.spec_motion_count(),
            stats.detection_rate_centipercent == share_centipercent(
                self.spec_motion_count(),
                self.spec_total_frames(),
            ),
            stats.motion_detected_count <= stats.total_frames,
    {
        proof {
            use_type_invariant(self);
        }
        let rate: u32 = if self.total_frames > 0 {
            proof {
                assert(self.motion_detected_count * 10000 / (self.total_frames as int) <= 10000)
                    by (nonlinear_arith)
                    requires
                        0 <= self.motion_detected_count <= self.total_frames,
                        self.total_frames > 0,
                ;
            }
            let scaled: u128 = (self.motion_detected_count as u128) * 10000;
            let share: u128 = scaled / (self.total_frames as u128);
            share as u32
        } else {
            0
        };
        MotionDetectorStats {
            total_frames: self.total_frames,
            motion_detected_count: self.motion_detected_count,
            detection_rate_centipercent: rate,
        }
    }

    /// Sets the counts to zero. The baseline and the settings stay.
    pub fn reset_stats(&mut self)
        ensures
            final(self).spec_config() == old(self).spec_config(),
            final(self).baseline() == old(self).baseline(),
            final(self).spec_total_frames() == 0,
            final(self).spec_motion_count() == 0,
    {
        self.motion_detected_count = 0;
        self.total_frames = 0;
    }

    /// Forgets the baseline and sets the counts to zero. The settings
    /// stay.
    pub fn reset(&mut self)
        ensures
            final(self).spec_config() == old(self).spec_config(),
            final(self).baseline() is None,
            final(self).spec_total_frames() == 0,
            final(self).spec_motion_count() == 0,
    {
        proof {
            use_type_invariant(&*self);
        }
        self.previous_frame = None;
        self.reset_stats();
    }

    /// Whether a baseline is stored.
    pub fn has_baseline(&self) -> (stored: bool)
        ensures
            stored == self.baseline() is Some,
    {
        self.previous_frame.is_some()
    }

    /// The change of luminance above which a pixel counts as changed,
    /// from the configured sensitivity: 5 at 0, 52 at 500, 100 at 1000 and
    /// above.
    pub fn compute_threshold(&self) -> (threshold: u8)
        ensures
            threshold == threshold_of(self.spec_config().sensitivity_permille),
            5 <= threshold <= 100,
    {
        let min_threshold: u64 = 5;
        let max_threshold: u64 = 100;
        let range: u64 = max_threshold - min_threshold;
        let raw: u64 = min_threshold + (self.config.sensitivity_permille as u64) * range / 1000;
        if raw > max_threshold {
            max_threshold as u8
        } else {
            raw as u8
        }
    }

    /// The luminance of every pixel of `rgba`.
    pub fn rgba_to_gray(rgba: &RgbaFrame) -> (gray: GrayFrame)
        ensures
            gray@ == gray_of(rgba@),
    {
        proof {
            use_type_invariant(rgba);
        }
        let count: usize = rgba.pixels.len() / 4;
        let mut pixels: Vec<u8> = Vec::new();
        let mut i: usize = 0;
        while i < count
            invariant
                i <= count,
                count * 4 == rgba.pixels@.len(),
                rgba.pixels@.len() <= usize::MAX,
                pixels@.len() == i,
                forall|k: int|
                    0 <= k < i ==> #[trigger] pixels@[k] == luma(
                        rgba.pixels@[4 * k],
                        rgba.pixels@[4 * k + 1],
                        rgba.pixels@[4 * k + 2],
                    ),
            decreases count - i,
        {
            let r: u32 = rgba.pixels[4 * i] as u32;
            let g: u32 = rgba.pixels[4 * i + 1] as u32;
            let b: u32 = rgba.pixels[4 * i + 2] as u32;
            let y: u32 = (299 * r + 587 * g + 114 * b) / 1000;
            pixels.push(y as u8);
            i = i + 1;
        }
        proof {
            assert(pixels@ =~= gray_of(rgba@).pixels);
        }
        GrayFrame { width: rgba.width, height: rgba.height, pixels }
    }

    /// The distance, pixel by pixel, between two grey pictures of one
    /// size.
    pub fn compute_difference(prev: &GrayFrame, current: &GrayFrame) -> (diff: GrayFrame)
        requires
            prev@.width == current@.width,
            prev@.height == current@.height,
        ensures
            diff@ == difference_of(prev@, current@),
    {
        proof {
            use_type_invariant(prev);
            use_type_invariant(current);
        }
        let count: usize = prev.pixels.len();
        let mut pixels: Vec<u8> = Vec::new();
        let mut i: usize = 0;
        while i < count
            invariant
                i <= count,
                count == prev.pixels@.len(),
                count == current.pixels@.len(),
                pixels@.len() == i,
                forall|k: int|
                    0 <= k < i ==> #[trigger] pixels@[k] == abs_diff(
                        prev.pixels@[k],
                        current.pixels@[k],
                    ),
            decreases count - i,
        {
            let a = prev.pixels[i];
            let b = current.pixels[i];
            let d: u8 = if a >= b {
                a - b
            } else {
                b - a
            };
            pixels.push(d);
            i = i + 1;
        }
        proof {
            assert(pixels@ =~= difference_of(prev@, current@).pixels);
        }
        GrayFrame { width: prev.width, height: prev.height, pixels }
    }

    /// Number of pixels of `diff` above `threshold`.
    pub fn count_changed_pixels(diff: &GrayFrame, threshold: u8) -> (count: usize)
        ensures
            count == count_above(diff@.pixels, threshold),
    {
        let len: usize = diff.pixels.len();
        let mut count: usize = 0;
        let mut i: usize = 0;
        while i < len
            invariant
                i <= len,
                len == diff.pixels@.len(),
                count == count_above(diff.pixels@.take(i as int), threshold),
                count <= i,
            decreases len - i,
        {
            proof {
                assert(diff.pixels@.take(i + 1).drop_last() =~= diff.pixels@.take(i as int));
            }
            if diff.pixels[i] > threshold {
                count = count + 1;
            }
            i = i + 1;
        }
        proof {
            assert(diff.pixels@.take(len as int) =~= diff.pixels@);
        }
        count
    }
}

} // verus!
