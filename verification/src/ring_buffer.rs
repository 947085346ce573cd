//! A bounded first-in, first-out cache of the most recent frames, kept so
//! that a recording can begin with the seconds before its trigger.

use std::collections::VecDeque;
use std::time::Instant;
use vstd::prelude::*;

verus! {

/// `std::time::Instant`, a point on the monotonic clock. The library only
/// carries such values; it never reads them.
#[verifier::external_type_specification]
#[verifier::external_body]
pub struct ExInstant(Instant);

/// `Clone::clone` of `std::time::Instant`, a `Copy` type: the clone is the
/// value itself.
pub assume_specification[ <Instant as Clone>::clone ](instant: &Instant) -> (copy: Instant)
    ensures
        copy == *instant,
;

/// One buffered frame.
#[derive(Clone)]
pub struct JpegFrame {
    /// The JPEG image.
    pub jpeg_data: Vec<u8>,
    /// When the frame arrived.
    pub timestamp: Instant,
}

/// Sum of the image sizes of `frames`.
pub open spec fn total_len(frames: Seq<JpegFrame>) -> nat
    decreases frames.len(),
{
    if frames.len() == 0 {
        0
    } else {
        total_len(frames.drop_last()) + frames.last().jpeg_data@.len()
    }
}

/// The images of `frames`, one after the other.
pub open spec fn concat_frames(frames: Seq<JpegFrame>) -> Seq<u8>
    decreases frames.len(),
{
    if frames.len() == 0 {
        Seq::empty()
    } else {
        concat_frames(frames.drop_last()) + frames.last().jpeg_data@
    }
}

/// The contents of a buffer of `capacity` after `frame` is pushed onto
/// `frames`: a buffer that is full gives up its oldest frame first.
pub open spec fn ring_push(frames: Seq<JpegFrame>, capacity: nat, frame: JpegFrame) -> Seq<
    JpegFrame,
> {
    if frames.len() >= capacity && frames.len() > 0 {
        frames.skip(1).push(frame)
    } else {
        frames.push(frame)
    }
}

/// The contents of a buffer of `capacity` after each of `items` is pushed
/// onto `frames` in turn.
pub open spec fn ring_push_all(frames: Seq<JpegFrame>, capacity: nat, items: Seq<JpegFrame>) -> Seq<
    JpegFrame,
>
    decreases items.len(),
{
    if items.len() == 0 {
        frames
    } else {
        ring_push(ring_push_all(frames, capacity, items.drop_last()), capacity, items.last())
    }
}

/// Pushing one frame adds its size to the total.
pub proof fn lemma_total_len_push(frames: Seq<JpegFrame>, frame: JpegFrame)
    ensures
        total_len(frames.push(frame)) == total_len(frames) + frame.jpeg_data@.len(),
{
    assert(frames.push(frame).drop_last() =~= frames);
}

/// Dropping the oldest frame takes its size off the total.
pub proof fn lemma_total_len_skip_first(frames: Seq<JpegFrame>)
    requires
        frames.len() > 0,
    ensures
        total_len(frames.skip(1)) + frames[0].jpeg_data@.len() == total_len(frames),
    decreases frames.len(),
{
    if frames.len() == 1 {
        assert(frames.skip(1) =~= Seq::<JpegFrame>::empty());
        assert(frames.drop_last() =~= Seq::<JpegFrame>::empty());
    } else {
        lemma_total_len_skip_first(frames.drop_last());
        assert(frames.skip(1).drop_last() =~= frames.drop_last().skip(1));
    }
}

/// What a push does to the total: the new frame's size is added, and the
/// size of the frame that leaves, if one leaves, is taken off. So a push
/// never adds more than the new frame's size.
pub proof fn lemma_ring_push_total(frames: Seq<JpegFrame>, capacity: nat, frame: JpegFrame)
    ensures
        total_len(ring_push(frames, capacity, frame)) == total_len(frames)
            + frame.jpeg_data@.len() - (if frames.len() >= capacity && frames.len() > 0 {
            frames[0].jpeg_data@.len()
        } else {
            0
        }),
        total_len(ring_push(frames, capacity, frame)) <= total_len(frames)
            + frame.jpeg_data@.len(),
{
    lemma_total_len_push(frames, frame);
    if frames.len() > 0 {
        lemma_total_len_skip_first(frames);
        lemma_total_len_push(frames.skip(1), frame);
    }
}

/// The images laid end to end are as long as the sum of their sizes.
pub proof fn lemma_concat_frames_len(frames: Seq<JpegFrame>)
    ensures
        concat_frames(frames).len() == total_len(frames),
    decreases frames.len(),
{
    if frames.len() > 0 {
        lemma_concat_frames_len(frames.drop_last());
    }
}

/// The last `n` elements of `frames`, or all of them where there are fewer.
pub open spec fn most_recent(frames: Seq<JpegFrame>, n: nat) -> Seq<JpegFrame> {
    if frames.len() <= n {
        frames
    } else {
        frames.skip(frames.len() - n)
    }
}

/// A buffer of capacity one or more that has taken any run of pushes holds
/// the most recent `capacity` frames of all it ever held, in their order of
/// arrival: after `capacity + k` pushes into an empty buffer, exactly
/// `capacity` frames, the last that came.
pub proof fn lemma_ring_keeps_most_recent(
    frames: Seq<JpegFrame>,
    capacity: nat,
    items: Seq<JpegFrame>,
)
    requires
        capacity >= 1,
        frames.len() <= capacity,
    ensures
        ring_push_all(frames, capacity, items) == most_recent(frames + items, capacity),
        ring_push_all(frames, capacity, items).len() <= capacity,
        frames.len() + items.len() >= capacity ==> ring_push_all(frames, capacity, items).len()
            == capacity,
    decreases items.len(),
{
    if items.len() == 0 {
        assert(frames + items =~= frames);
    } else {
        let earlier = items.drop_last();
        lemma_ring_keeps_most_recent(frames, capacity, earlier);
        let all = frames + earlier;
        assert(frames + items =~= all.push(items.last()));
        assert(ring_push(most_recent(all, capacity), capacity, items.last()) =~= most_recent(
            all.push(items.last()),
            capacity,
        ));
    }
}

/// The bounded frame cache.
pub struct RingBuffer {
    /// Buffered frames, oldest first.
    frames: VecDeque<JpegFrame>,
    /// The most frames the buffer holds.
    capacity: usize,
    /// Sum of the image sizes of the buffered frames.
    total_bytes: usize,
}

impl RingBuffer {
    /// The buffered frames, oldest first.
    pub closed spec fn frames(&self) -> Seq<JpegFrame> {
        self.frames@
    }

    /// Number and total size of the buffered frames, as `len` and
    /// `total_bytes` return them.
    pub closed spec fn counts(&self) -> (usize, usize) {
        (self.frames.len(), self.total_bytes)
    }

    /// The most frames the buffer holds.
    pub closed spec fn spec_capacity(&self) -> nat {
        self.capacity as nat
    }

    /// The running total agrees with the contents, and the contents respect
    /// the capacity. (A buffer of capacity zero still takes one frame: it
    /// has nothing to evict before the first push.)
    pub closed spec fn wf(&self) -> bool {
        &&& self.total_bytes == total_len(self.frames@)
        &&& (self.frames@.len() <= self.capacity || self.frames@.len() <= 1)
    }

    /// The counts of a sound buffer are the number of its frames and the
    /// sum of their sizes.
    pub proof fn lemma_counts(self)
        requires
            self.wf(),
        ensures
            self.counts().0 == self.frames().len(),
            self.counts().1 == total_len(self.frames()),
    {
    }

    /// An empty buffer that holds at most `capacity` frames.
    pub fn new(capacity: usize) -> (buffer: RingBuffer)
        ensures
            buffer.wf(),
            buffer.frames() == Seq::<JpegFrame>::empty(),
            buffer.spec_capacity() == capacity,
    {
        RingBuffer { frames: VecDeque::new(), capacity, total_bytes: 0 }
    }

    /// An empty buffer sized for `seconds` of frames at `fps` frames a
    /// second.
    pub fn from_seconds(seconds: u32, fps: u32) -> (buffer: RingBuffer)
        requires
            seconds * fps <= u32::MAX,
        ensures
            buffer.wf(),
            buffer.frames() == Seq::<JpegFrame>::empty(),
            buffer.spec_capacity() == seconds * fps,
    {
        let capacity = (seconds * fps) as usize;
        Self::new(capacity)
    }

    /// Appends `frame`; a full buffer drops its oldest frame first.
    pub fn push(&mut self, frame: JpegFrame)
        requires
            old(self).wf(),
            total_len(ring_push(old(self).frames(), old(self).spec_capacity(), frame))
                <= usize::MAX,
        ensures
            final(self).wf(),
            final(self).spec_capacity() == old(self).spec_capacity(),
            final(self).frames() == ring_push(old(self).frames(), old(self).spec_capacity(), frame),
    {
        proof {
            lemma_ring_push_total(self.frames@, self.capacity as nat, frame);
            if self.frames@.len() > 0 {
                lemma_total_len_skip_first(self.frames@);
            }
        }
        if self.frames.len() >= self.capacity {
            if let Some(old_frame) = self.frames.pop_front() {
                assert(self.frames@ =~= old(self).frames@.skip(1));
                self.total_bytes = self.total_bytes - old_frame.jpeg_data.len();
            }
        }
        self.total_bytes = self.total_bytes + frame.jpeg_data.len();
        self.frames.push_back(frame);
    }

    /// Appends the image of every buffered frame to `sink`, oldest first,
    /// and returns how many frames and how many bytes that was. The buffer
    /// keeps its frames.
    pub fn drain_to(&self, sink: &mut Vec<u8>) -> (written: (usize, usize))
        requires
            self.wf(),
        ensures
            final(sink)@ == old(sink)@ + concat_frames(self.frames()),
            written.0 == self.frames().len(),
            written.1 == total_len(self.frames()),
    {
        let frame_count = self.frames.len();
        let mut i: usize = 0;
        while i < frame_count
            invariant
                i <= frame_count,
                frame_count == self.frames@.len(),
                sink@ == old(sink)@ + concat_frames(self.frames@.take(i as int)),
            decreases frame_count - i,
        {
            let frame = &self.frames[i];
            let ghost before = sink@;
            let mut j: usize = 0;
            while j < frame.jpeg_data.len()
                invariant
                    j <= frame.jpeg_data.len(),
                    sink@ == before + frame.jpeg_data@.take(j as int),
                decreases frame.jpeg_data.len() - j,
            {
                sink.push(frame.jpeg_data[j]);
                proof {
                    assert(frame.jpeg_data@.take(j + 1) =~= frame.jpeg_data@.take(j as int).push(
                        frame.jpeg_data@[j as int],
                    ));
                }
                j = j + 1;
            }
            proof {
                assert(frame.jpeg_data@.take(j as int) =~= frame.jpeg_data@);
                assert(self.frames@.take(i + 1).drop_last() =~= self.frames@.take(i as int));
                assert(sink@ =~= old(sink)@ + concat_frames(self.frames@.take(i + 1)));
            }
            i = i + 1;
        }
        proof {
            assert(self.frames@.take(i as int) =~= self.frames@);
        }
        (frame_count, self.total_bytes)
    }

    /// Drops every buffered frame.
    pub fn clear(&mut self)
        ensures
            final(self).wf(),
            final(self).spec_capacity() == old(self).spec_capacity(),
            final(self).frames() == Seq::<JpegFrame>::empty(),
    {
        self.frames.clear();
        self.total_bytes = 0;
    }

    /// Gives the buffer a new capacity. The buffered frames are dropped,
    /// not carried over.
    pub fn resize(&mut self, new_capacity: usize)
        ensures
            final(self).wf(),
            final(self).spec_capacity() == new_capacity,
            final(self).frames() == Seq::<JpegFrame>::empty(),
    {
        self.frames.clear();
        self.total_bytes = 0;
        self.capacity = new_capacity;
    }

    /// Number of buffered frames.
    pub fn len(&self) -> (len: usize)
        ensures
            len == self.frames().len(),
            len == self.counts().0,
    {
        self.frames.len()
    }

    /// Whether no frame is buffered.
    pub fn is_empty(&self) -> (empty: bool)
        ensures
            empty == (self.frames().len() == 0),
    {
        self.frames.len() == 0
    }

    /// Sum of the image sizes of the buffered frames.
    pub fn total_bytes(&self) -> (bytes: usize)
        requires
            self.wf(),
        ensures
            bytes == total_len(self.frames()),
            bytes == self.counts().1,
    {
        self.total_bytes
    }

    /// The most frames the buffer holds.
    pub fn capacity(&self) -> (capacity: usize)
        ensures
            capacity == self.spec_capacity(),
    {
        self.capacity
    }

    /// When the oldest buffered frame arrived, if there is one.
    pub fn oldest_timestamp(&self) -> (timestamp: Option<Instant>)
        ensures
            timestamp == if self.frames().len() == 0 {
                None
            } else {
                Some(self.frames().first().timestamp)
            },
    {
        if self.frames.len() == 0 {
            None
        } else {
            Some(self.frames[0].timestamp)
        }
    }

    /// When the newest buffered frame arrived, if there is one.
    pub fn newest_timestamp(&self) -> (timestamp: Option<Instant>)
        ensures
            timestamp == if self.frames().len() == 0 {
                None
            } else {
                Some(self.frames().last().timestamp)
            },
    {
        let len = self.frames.len();
        if len == 0 {
            None
        } else {
            Some(self.frames[len - 1].timestamp)
        }
    }
}

} // verus!
