//! Frame pacing: an accumulator of elapsed time that says when a frame of
//! fixed length is due.
//!
//! Time is counted in frame parts, a thousandth of a frame. Elapsed time that
//! is about half a frame, one frame or two frames is taken to be exactly
//! that, so that the jitter of a display does not add up.

use vstd::prelude::*;

verus! {

/// The frames that a second holds.
pub const TARGET_FRAME_RATE: u64 = 60;

/// The parts that a frame holds: the least time that is counted is a
/// thousandth of a frame.
pub const PARTS_PER_FRAME: u64 = 1000;

/// How many parts may be missing for the accumulated time to count as a
/// frame.
pub const FRAME_PARTS_ERROR_MARGIN: u64 = 17;

/// The parts that a second holds.
pub const PARTS_IN_SECOND: u64 = 60000;

/// How far elapsed time may be from a snapping point to be taken for it.
pub const SNAP_MARGIN: u64 = 120;

/// An amount of time in frame parts.
#[derive(Debug, Clone, Copy, PartialEq, Eq, Structural)]
pub struct FrameParts(pub u64);

/// `num` taken to be `to` where it is within the snapping margin of it.
pub open spec fn snapped_to(num: u64, to: u64) -> u64 {
    if num - to <= SNAP_MARGIN && to - num <= SNAP_MARGIN {
        to
    } else {
        num
    }
}

/// Elapsed time with the jitter taken out: snapped to half a frame, then to
/// one frame, then to two frames.
pub open spec fn snapped(elapsed: u64) -> u64 {
    snapped_to(
        snapped_to(snapped_to(elapsed, (PARTS_PER_FRAME / 2) as u64), PARTS_PER_FRAME),
        (PARTS_PER_FRAME * 2) as u64,
    )
}

/// Takes `num` to be `to` where it is within the snapping margin of it.
pub fn snap(num: &mut u64, to: u64)
    ensures
        *final(num) == snapped_to(*old(num), to),
{
    let distance = if *num >= to {
        *num - to
    } else {
        to - *num
    };
    if distance <= SNAP_MARGIN {
        *num = to;
    }
}

impl FrameParts {
    /// The whole frames that this time holds.
    pub fn full_frames(&self) -> (frames: u64)
        ensures
            frames == self.0 / PARTS_PER_FRAME,
    {
        self.0 / PARTS_PER_FRAME
    }

    /// Whether this time holds a whole frame.
    pub fn has_frame(&self) -> (has: bool)
        ensures
            has == (self.0 >= PARTS_PER_FRAME),
    {
        self.0 >= PARTS_PER_FRAME
    }

    /// The time that is left when a frame is taken out, and nothing where
    /// no whole frame is there.
    pub open spec fn deducted(self) -> FrameParts {
        if self.0 >= PARTS_PER_FRAME {
            FrameParts((self.0 - PARTS_PER_FRAME) as u64)
        } else {
            FrameParts(0)
        }
    }

    /// Takes a frame out. Where no whole frame is there, nothing is left.
    pub fn deduct_frame(&mut self)
        ensures
            *final(self) == old(self).deducted(),
    {
        if !self.has_frame() {
            self.0 = 0;
        } else {
            self.0 -= PARTS_PER_FRAME;
        }
    }

    /// Takes a frame out if a whole frame is there, and says whether it did.
    pub fn try_deduct_frame(&mut self) -> (deducted: bool)
        ensures
            deducted == (old(self).0 >= PARTS_PER_FRAME),
            *final(self) == (if deducted {
                old(self).deducted()
            } else {
                *old(self)
            }),
    {
        if !self.has_frame() {
            return false;
        }
        self.0 -= PARTS_PER_FRAME;
        true
    }
}

/// The time that has elapsed and was not spent on frames yet.
#[derive(Debug)]
pub struct FrameData {
    accumulator: FrameParts,
}

impl FrameData {
    /// The time that is accumulated.
    pub closed spec fn accumulated(&self) -> u64 {
        self.accumulator.0
    }

    /// Whether a frame is due: the accumulated time is a frame, give or take
    /// the error margin.
    pub open spec fn due(&self) -> bool {
        self.accumulated() >= PARTS_PER_FRAME - FRAME_PARTS_ERROR_MARGIN
    }

    /// The time that is accumulated.
    pub fn accumulator(&self) -> (time: FrameParts)
        ensures
            time.0 == self.accumulated(),
    {
        self.accumulator
    }

    /// Frame data with no time accumulated.
    pub fn new() -> (data: FrameData)
        ensures
            data.accumulated() == 0,
    {
        FrameData { accumulator: FrameParts(0) }
    }

    /// Adds elapsed time, with the jitter taken out.
    pub fn elapsed(&mut self, time: FrameParts)
        requires
            old(self).accumulated() + snapped(time.0) <= u64::MAX,
        ensures
            final(self).accumulated() == old(self).accumulated() + snapped(time.0),
    {
        let mut elapsed = time.0;
        snap(&mut elapsed, PARTS_PER_FRAME / 2);
        snap(&mut elapsed, PARTS_PER_FRAME);
        snap(&mut elapsed, PARTS_PER_FRAME * 2);
        self.accumulator.0 += elapsed;
    }

    /// Says whether a frame is due, and if one is, takes it out of the
    /// accumulated time. To be called once for each frame that is drawn.
    pub fn frame(&mut self) -> (due: bool)
        ensures
            due == old(self).due(),
            final(self).accumulated() == (if due {
                FrameParts(old(self).accumulated()).deducted().0
            } else {
                old(self).accumulated()
            }),
    {
        if self.accumulator.0 < PARTS_PER_FRAME - FRAME_PARTS_ERROR_MARGIN {
            false
        } else {
            self.accumulator.deduct_frame();
            true
        }
    }
}

impl Default for FrameData {
    fn default() -> (data: FrameData)
        ensures
            data.accumulated() == 0,
    {
        FrameData::new()
    }
}

} // verus!
