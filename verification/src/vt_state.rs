//! Frame bookkeeping of the VideoToolbox encoder: the frame numbers behind
//! presentation timestamps, and the pending keyframe request, which a failed
//! encode re-arms so that the next frame restarts the stream with an IDR.
use vstd::prelude::*;
use crate::encoder::CMTime;

verus! {

/// Timestamps count 1/600 s ticks.
pub const TIMESCALE: i32 = 600;

/// The bookkeeping as a pair: frames started, and whether the next frame
/// must be an IDR.
pub type FrameBook = (u64, bool);

/// Starting an encode-and-wait frame: the frame index and the keyframe
/// request are handed out, the count advances and the request is cleared.
pub open spec fn begin_step(s: FrameBook) -> (FrameBook, (u64, bool)) {
    (((s.0 + 1) as u64, false), (s.0, s.1))
}

/// Recording an encode's outcome: a failure re-arms the keyframe request, a
/// success clears it.
pub open spec fn finish_step(s: FrameBook, ok: bool) -> FrameBook {
    (s.0, !ok)
}

/// Frame counter and keyframe request of one encoder.
#[derive(Debug)]
pub struct VtFrameState {
    frame_count: u64,
    pending_force_keyframe: bool,
}

impl VtFrameState {
    /// Frames started so far.
    pub closed spec fn count(self) -> u64 {
        self.frame_count
    }

    /// The bookkeeping as a pair.
    pub open spec fn book(self) -> FrameBook {
        (self.count(), self.pending())
    }

    /// Whether the next frame must be an IDR.
    pub closed spec fn pending(self) -> bool {
        self.pending_force_keyframe
    }

    /// No frame started, no keyframe requested.
    pub fn new() -> (s: Self)
        ensures
            s.count() == 0,
            !s.pending(),
    {
        VtFrameState { frame_count: 0, pending_force_keyframe: false }
    }

    pub fn frame_count(&self) -> (n: u64)
        ensures
            n == self.count(),
    {
        self.frame_count
    }

    /// Asks for the next frame to be an IDR.
    pub fn request_keyframe(&mut self)
        ensures
            final(self).pending(),
            final(self).count() == old(self).count(),
    {
        self.pending_force_keyframe = true;
    }

    /// Starts an encode-and-wait frame: hands out the frame index and the
    /// pending keyframe request, which it clears.
    pub fn begin_frame(&mut self) -> (t: (u64, bool))
        requires
            old(self).count() < u64::MAX,
        ensures
            t == (old(self).count(), old(self).pending()),
            final(self).count() == old(self).count() + 1,
            !final(self).pending(),
            (final(self).book(), t) == begin_step(old(self).book()),
    {
        let force = self.pending_force_keyframe;
        self.pending_force_keyframe = false;
        let index = self.frame_count;
        self.frame_count = self.frame_count + 1;
        (index, force)
    }

    /// Starts an AVC444 frame: hands out the frame index and the keyframe
    /// request, which stays pending until the outcome is recorded.
    pub fn begin_avc444_frame(&mut self) -> (t: (u64, bool))
        requires
            old(self).count() < u64::MAX,
        ensures
            t == (old(self).count(), old(self).pending()),
            final(self).count() == old(self).count() + 1,
            final(self).pending() == old(self).pending(),
    {
        let index = self.frame_count;
        self.frame_count = self.frame_count + 1;
        (index, self.pending_force_keyframe)
    }

    /// Records the outcome of an encode: a failure re-arms the keyframe
    /// request, a success clears it.
    pub fn finish_frame(&mut self, ok: bool)
        ensures
            final(self).pending() == !ok,
            final(self).count() == old(self).count(),
            final(self).book() == finish_step(old(self).book(), ok),
    {
        self.pending_force_keyframe = !ok;
    }

    /// Takes the keyframe request for a pipelined submission.
    pub fn take_keyframe_request(&mut self) -> (force: bool)
        ensures
            force == old(self).pending(),
            !final(self).pending(),
            final(self).count() == old(self).count(),
    {
        let force = self.pending_force_keyframe;
        self.pending_force_keyframe = false;
        force
    }

    /// Counts a pipelined submission, whatever its outcome.
    pub fn advance(&mut self)
        requires
            old(self).count() < u64::MAX,
        ensures
            final(self).count() == old(self).count() + 1,
            final(self).pending() == old(self).pending(),
    {
        self.frame_count = self.frame_count + 1;
    }
}

/// Recovery after a failed encode: whatever was pending before, the frame
/// started after a failure is handed a keyframe request, so the stream
/// restarts with an IDR; after a success, the next frame is forced only by a
/// new request.
pub proof fn law_failed_encode_forces_next_keyframe(s: FrameBook, ok: bool)
    ensures
        begin_step(finish_step(s, ok)).1.1 == !ok,
        begin_step(finish_step(s, false)).1.1,
{
}

/// Presentation time and duration of frame `index` when every frame lasts
/// `frame_duration` ticks.
pub fn pts_and_duration(index: u64, frame_duration: i64) -> (t: (CMTime, CMTime))
    requires
        index <= i64::MAX,
        i64::MIN <= index * frame_duration <= i64::MAX,
    ensures
        t.0 == (CMTime { value: (index * frame_duration) as i64, timescale: TIMESCALE, flags: 1, epoch: 0 }),
        t.1 == (CMTime { value: frame_duration, timescale: TIMESCALE, flags: 1, epoch: 0 }),
{
    let pts = CMTime::make(index as i64 * frame_duration, TIMESCALE);
    let duration = CMTime::make(frame_duration, TIMESCALE);
    (pts, duration)
}

} // verus!
