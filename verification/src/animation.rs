//! The animation capability.
//!
//! Every animation the player can drive offers four things: advance internal
//! time by a measured delta, render the current state into a caller-owned
//! canvas, report a name, and optionally report a finite total duration.
//! The player treats animations polymorphically and owns none of their
//! internal state.

pub mod framebased;
pub mod merge;
pub mod rabbit;
pub mod trophy;

use crate::braille::BrailleGrid;
use vstd::prelude::*;

verus! {

/// Millisecond addition that tops out at `u64::MAX` instead of wrapping.
pub open spec fn sat_add64(a: u64, b: u64) -> u64 {
    if a + b <= u64::MAX {
        (a + b) as u64
    } else {
        u64::MAX
    }
}

/// Elapsed time over total time in thousandths, capped at one.
pub fn progress_permille_of(elapsed_ms: u64, total_ms: u64) -> (p: u32)
    ensures
        total_ms > 0 ==> p == (if elapsed_ms >= total_ms {
            1000int
        } else {
            elapsed_ms * 1000 / (total_ms as int)
        }),
        total_ms == 0 ==> p == 1000,
{
    if total_ms == 0 || elapsed_ms >= total_ms {
        1000
    } else {
        proof {
            vstd::arithmetic::mul::lemma_mul_inequality(
                elapsed_ms as int,
                total_ms as int,
                1000,
            );
            vstd::arithmetic::div_mod::lemma_multiply_divide_le(
                elapsed_ms as int * 1000,
                total_ms as int,
                1000,
            );
            vstd::arithmetic::div_mod::lemma_div_pos_is_pos(
                elapsed_ms as int * 1000,
                total_ms as int,
            );
            assert((elapsed_ms as int) * 1000 <= 0xffff_ffff_ffff_ffff * 1000) by (nonlinear_arith)
                requires
                    0 <= elapsed_ms <= 0xffff_ffff_ffff_ffff,
            ;
        }
        let p128 = (elapsed_ms as u128) * 1000 / (total_ms as u128);
        p128 as u32
    }
}

/// The contract between the player and an animation.
pub trait Animation {
    /// The animation's internal invariant; `update` keeps it and `render`
    /// relies on it.
    spec fn inv(&self) -> bool;

    /// Advance internal time by `delta_ms` milliseconds of measured
    /// inter-frame interval. Returns whether the animation wishes to keep
    /// running; the player may ignore the answer in time-bounded run modes.
    fn update(&mut self, delta_ms: u64) -> (keep: bool)
        requires
            old(self).inv(),
        ensures
            final(self).inv(),
    ;

    /// Draw the current state into `grid`. A pure read of the animation:
    /// it takes `&self` and may only add dots and colors to the canvas,
    /// never resize it.
    fn render(&self, grid: &mut BrailleGrid)
        requires
            self.inv(),
            old(grid).wf(),
        ensures
            final(grid).wf(),
            final(grid).spec_width() == old(grid).spec_width(),
            final(grid).spec_height() == old(grid).spec_height(),
    ;

    /// A short human-readable name.
    fn name(&self) -> &str;

    /// The total length in milliseconds, for animations that know it.
    fn duration_ms(&self) -> Option<u64>;
}

} // verus!
