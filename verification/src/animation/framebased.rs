//! Playback of pre-rendered frames.
//!
//! A `FrameBasedAnimation` steps through a list of frames, showing each for
//! its own duration; it can either stop after the last frame or loop.

use crate::animation::Animation;
use crate::animation::sat_add64;
use crate::braille::BrailleGrid;
use crate::braille::patterns_dot;
use crate::video::converter::BrailleFrame;
use vstd::prelude::*;

verus! {

/// One stored frame: a sheet of cell patterns and how long it is shown.
pub struct FrameData {
    pub patterns: Vec<u8>,
    pub width: usize,
    pub height: usize,
    pub duration_ms: u64,
}

impl FrameData {
    /// The pattern sheet covers the advertised cell rectangle.
    pub open spec fn wf(&self) -> bool {
        &&& self.patterns@.len() == self.width * self.height
        &&& self.width * self.height <= usize::MAX
    }
}

/// The sum of all frame durations, unbounded.
pub open spec fn total_duration_of(frames: Seq<FrameData>) -> int
    decreases frames.len(),
{
    if frames.len() == 0 {
        0
    } else {
        total_duration_of(frames.drop_last()) + frames.last().duration_ms
    }
}

/// The summed durations are never negative.
proof fn lemma_total_duration_nonneg(frames: Seq<FrameData>)
    ensures
        total_duration_of(frames) >= 0,
    decreases frames.len(),
{
    if frames.len() > 0 {
        lemma_total_duration_nonneg(frames.drop_last());
    }
}

/// An animation that plays back pre-rendered frames.
pub struct FrameBasedAnimation {
    frames: Vec<FrameData>,
    current_frame: usize,
    elapsed_ms: u64,
    loop_animation: bool,
    finished: bool,
}

impl FrameBasedAnimation {
    /// The stored frames.
    pub closed spec fn spec_frames(&self) -> Seq<FrameData> {
        self.frames@
    }

    /// Index of the frame being shown.
    pub closed spec fn spec_current(&self) -> int {
        self.current_frame as int
    }

    /// Time spent inside the current frame.
    pub closed spec fn spec_elapsed(&self) -> u64 {
        self.elapsed_ms
    }

    /// Whether playback restarts after the last frame.
    pub closed spec fn spec_looping(&self) -> bool {
        self.loop_animation
    }

    /// Whether a non-looping playback has run out of frames.
    pub closed spec fn spec_finished(&self) -> bool {
        self.finished
    }

    /// Create an empty animation; `loop_animation` selects looping playback.
    pub fn new(loop_animation: bool) -> (a: FrameBasedAnimation)
        ensures
            a.inv(),
            a.spec_frames().len() == 0,
            a.spec_current() == 0,
            a.spec_elapsed() == 0,
            a.spec_looping() == loop_animation,
            !a.spec_finished(),
    {
        FrameBasedAnimation {
            frames: Vec::new(),
            current_frame: 0,
            elapsed_ms: 0,
            loop_animation,
            finished: false,
        }
    }

    /// Append a frame of `width x height` cell patterns shown for
    /// `duration_ms` milliseconds.
    pub fn add_frame(
        &mut self,
        patterns: Vec<u8>,
        width: usize,
        height: usize,
        duration_ms: u64,
    )
        requires
            old(self).inv(),
            patterns@.len() == width * height,
            width * height <= usize::MAX,
        ensures
            final(self).inv(),
            final(self).spec_frames() == old(self).spec_frames().push(
                FrameData { patterns, width, height, duration_ms },
            ),
            final(self).spec_current() == old(self).spec_current(),
            final(self).spec_elapsed() == old(self).spec_elapsed(),
            final(self).spec_looping() == old(self).spec_looping(),
            final(self).spec_finished() == old(self).spec_finished(),
    {
        self.frames.push(FrameData { patterns, width, height, duration_ms });
    }

    /// Build a playback animation from converted frames.
    pub fn from_braille_frames(frames: Vec<BrailleFrame>, loop_animation: bool) -> (a:
        FrameBasedAnimation)
        requires
            forall|i: int| 0 <= i < frames@.len() ==> (#[trigger] frames@[i]).wf(),
        ensures
            a.inv(),
            a.spec_frames().len() == frames@.len(),
            forall|i: int|
                0 <= i < frames@.len() ==> {
                    &&& (#[trigger] a.spec_frames()[i]).patterns@ == frames@[i].patterns@
                    &&& a.spec_frames()[i].width == frames@[i].width
                    &&& a.spec_frames()[i].height == frames@[i].height
                    &&& a.spec_frames()[i].duration_ms == frames@[i].duration_ms
                },
            a.spec_current() == 0,
            a.spec_elapsed() == 0,
            a.spec_looping() == loop_animation,
            !a.spec_finished(),
    {
        let mut anim = FrameBasedAnimation::new(loop_animation);
        let n = frames.len();
        let mut rest = frames;
        let mut k: usize = 0;
        while k < n
            invariant
                n == frames@.len(),
                rest@ =~= frames@.subrange(k as int, n as int),
                forall|i: int| 0 <= i < frames@.len() ==> (#[trigger] frames@[i]).wf(),
                k <= n,
                anim.inv(),
                anim.spec_current() == 0,
                anim.spec_elapsed() == 0,
                anim.spec_looping() == loop_animation,
                !anim.spec_finished(),
                anim.spec_frames().len() == k,
                forall|i: int|
                    0 <= i < k ==> {
                        &&& (#[trigger] anim.spec_frames()[i]).patterns@ == frames@[i].patterns@
                        &&& anim.spec_frames()[i].width == frames@[i].width
                        &&& anim.spec_frames()[i].height == frames@[i].height
                        &&& anim.spec_frames()[i].duration_ms == frames@[i].duration_ms
                    },
            decreases n - k,
        {
            let f = rest.remove(0);
            assert(f == frames@[k as int]);
            let BrailleFrame { patterns, width, height, duration_ms } = f;
            anim.add_frame(patterns, width, height, duration_ms as u64);
            proof {
                assert(rest@ =~= frames@.subrange(k + 1, n as int));
            }
            k = k + 1;
        }
        anim
    }

    /// The number of stored frames.
    pub fn frame_count(&self) -> (n: usize)
        ensures
            n == self.spec_frames().len(),
    {
        self.frames.len()
    }

    /// The index of the frame currently shown.
    pub fn current_frame(&self) -> (i: usize)
        ensures
            i == self.spec_current(),
    {
        self.current_frame
    }
}

impl Animation for FrameBasedAnimation {
    open spec fn inv(&self) -> bool {
        &&& self.spec_current() <= self.spec_frames().len()
        &&& self.spec_frames().len() > 0 && self.spec_current() == self.spec_frames().len()
            ==> self.spec_finished()
        &&& self.spec_frames().len() == 0 ==> self.spec_current() == 0
        &&& forall|i: int|
            0 <= i < self.spec_frames().len() ==> (#[trigger] self.spec_frames()[i]).wf()
    }

    /// Advance by `delta_ms`; a frame change happens at most once per call.
    /// Returns false once a non-looping playback has passed its last frame
    /// (or when there are no frames at all).
    fn update(&mut self, delta_ms: u64) -> (keep: bool)
        ensures
            final(self).spec_frames() == old(self).spec_frames(),
            final(self).spec_looping() == old(self).spec_looping(),
            (old(self).spec_frames().len() == 0 || old(self).spec_finished())
                ==> (!keep && *final(self) == *old(self)),
            (old(self).spec_frames().len() > 0 && !old(self).spec_finished()) ==> {
                let e = sat_add64(old(self).spec_elapsed(), delta_ms);
                let dur = old(self).spec_frames()[old(self).spec_current()].duration_ms;
                &&& e < dur ==> keep && final(self).spec_elapsed() == e && final(self).spec_current()
                    == old(self).spec_current() && !final(self).spec_finished()
                &&& e >= dur && old(self).spec_current() + 1 < old(self).spec_frames().len()
                    ==> keep && final(self).spec_elapsed() == e - dur && final(self).spec_current()
                    == old(self).spec_current() + 1 && !final(self).spec_finished()
                &&& e >= dur && old(self).spec_current() + 1 == old(self).spec_frames().len()
                    && old(self).spec_looping() ==> keep && final(self).spec_elapsed() == e - dur
                    && final(self).spec_current() == 0 && !final(self).spec_finished()
                &&& e >= dur && old(self).spec_current() + 1 == old(self).spec_frames().len()
                    && !old(self).spec_looping() ==> !keep && final(self).spec_elapsed() == e - dur
                    && final(self).spec_current() == old(self).spec_frames().len()
                    && final(self).spec_finished()
            },
    {
        if self.frames.len() == 0 || self.finished {
            return false;
        }
        let delta_capped = if self.elapsed_ms <= u64::MAX - delta_ms {
            delta_ms
        } else {
            u64::MAX - self.elapsed_ms
        };
        self.elapsed_ms = self.elapsed_ms + delta_capped;
        let current_duration = self.frames[self.current_frame].duration_ms;
        if self.elapsed_ms >= current_duration {
            self.elapsed_ms = self.elapsed_ms - current_duration;
            self.current_frame = self.current_frame + 1;
            if self.current_frame >= self.frames.len() {
                if self.loop_animation {
                    self.current_frame = 0;
                } else {
                    self.finished = true;
                    return false;
                }
            }
        }
        true
    }

    /// Draw the current frame's dots into the canvas, clipped to its size;
    /// a playback without a current frame leaves the canvas alone. Colors
    /// are never touched: pre-rendered frames are monochrome.
    fn render(&self, grid: &mut BrailleGrid)
        ensures
            final(grid).colors_seq() == old(grid).colors_seq(),
            (0 <= self.spec_current() < self.spec_frames().len()) ==> forall|x: int, y: int|
                final(grid).spec_dot(x, y) == (old(grid).spec_dot(x, y) || (patterns_dot(
                    self.spec_frames()[self.spec_current()].patterns@,
                    self.spec_frames()[self.spec_current()].width as int,
                    self.spec_frames()[self.spec_current()].height as int,
                    x,
                    y,
                ) && x < old(grid).spec_dot_width() && y < old(grid).spec_dot_height())),
            !(0 <= self.spec_current() < self.spec_frames().len()) ==> *final(grid) == *old(grid),
    {
        if self.frames.len() == 0 || self.current_frame >= self.frames.len() {
            return;
        }
        let f = &self.frames[self.current_frame];
        grid.apply_cell_patterns(&f.patterns, f.width, f.height);
    }

    fn name(&self) -> &str {
        "Frame-Based Animation"
    }

    /// The summed frame durations for a non-looping playback, topping out at
    /// `u64::MAX`; a looping playback has no finite duration.
    fn duration_ms(&self) -> (d: Option<u64>)
        ensures
            self.spec_looping() ==> d is None,
            !self.spec_looping() ==> d == Some(
                if total_duration_of(self.spec_frames()) <= u64::MAX {
                    total_duration_of(self.spec_frames()) as u64
                } else {
                    u64::MAX
                },
            ),
    {
        if self.loop_animation {
            return None;
        }
        let mut total: u64 = 0;
        let mut k: usize = 0;
        let n = self.frames.len();
        while k < n
            invariant
                n == self.spec_frames().len(),
                k <= n,
                total == if total_duration_of(self.spec_frames().take(k as int)) <= u64::MAX {
                    total_duration_of(self.spec_frames().take(k as int)) as u64
                } else {
                    u64::MAX
                },
            decreases n - k,
        {
            let dur = self.frames[k].duration_ms;
            total = if total <= u64::MAX - dur {
                total + dur
            } else {
                u64::MAX
            };
            proof {
                assert(self.spec_frames().take(k + 1).drop_last() =~= self.spec_frames().take(
                    k as int,
                ));
                assert(self.spec_frames().take(k + 1).last() == self.spec_frames()[k as int]);
                assert(self.spec_frames().take(k + 1).len() == k + 1);
                lemma_total_duration_nonneg(self.spec_frames().take(k as int));
                assert(total_duration_of(self.spec_frames().take(k + 1)) == total_duration_of(
                    self.spec_frames().take(k as int),
                ) + self.spec_frames()[k as int].duration_ms);
            }
            k = k + 1;
        }
        proof {
            assert(self.spec_frames().take(n as int) =~= self.spec_frames());
        }
        Some(total)
    }
}

} // verus!
