//! State of the white-rabbit hop: a fixed-length timer. How the rabbit is
//! drawn is decorative content outside the library; the timing that decides
//! when the animation ends is verified here.

use crate::animation::progress_permille_of;
use crate::animation::sat_add64;
use vstd::prelude::*;

verus! {

/// A rabbit hopping across the screen for a fixed total duration.
pub struct RabbitAnimation {
    elapsed_ms: u64,
    total_duration_ms: u64,
}

impl RabbitAnimation {
    /// Time advanced so far.
    pub closed spec fn spec_elapsed(&self) -> u64 {
        self.elapsed_ms
    }

    /// The total length.
    pub closed spec fn spec_total(&self) -> u64 {
        self.total_duration_ms
    }

    /// A rabbit animation of the given length in milliseconds.
    pub fn new(duration_ms: u64) -> (a: RabbitAnimation)
        ensures
            a.spec_elapsed() == 0,
            a.spec_total() == duration_ms,
    {
        RabbitAnimation { elapsed_ms: 0, total_duration_ms: duration_ms }
    }

    /// Advance by `delta_ms`; returns whether the animation keeps running,
    /// which it does until its total duration has elapsed.
    pub fn update(&mut self, delta_ms: u64) -> (keep: bool)
        ensures
            final(self).spec_total() == old(self).spec_total(),
            final(self).spec_elapsed() == sat_add64(old(self).spec_elapsed(), delta_ms),
            keep == (final(self).spec_elapsed() < final(self).spec_total()),
    {
        self.elapsed_ms = if self.elapsed_ms <= u64::MAX - delta_ms {
            self.elapsed_ms + delta_ms
        } else {
            u64::MAX
        };
        self.elapsed_ms < self.total_duration_ms
    }

    /// The total length in milliseconds.
    pub fn duration_ms(&self) -> (d: Option<u64>)
        ensures
            d == Some(self.spec_total()),
    {
        Some(self.total_duration_ms)
    }

    /// How far the animation has come, in thousandths, capped at one.
    pub fn progress_permille(&self) -> (p: u32)
        ensures
            self.spec_total() > 0 ==> p == (if self.spec_elapsed() >= self.spec_total() {
                1000int
            } else {
                self.spec_elapsed() * 1000 / (self.spec_total() as int)
            }),
            self.spec_total() == 0 ==> p == 1000,
    {
        progress_permille_of(self.elapsed_ms, self.total_duration_ms)
    }
}

impl Default for RabbitAnimation {
    /// The standard rabbit hop runs for two seconds.
    fn default() -> (a: RabbitAnimation)
        ensures
            a.spec_elapsed() == 0,
            a.spec_total() == 2000,
    {
        RabbitAnimation::new(2000)
    }
}

} // verus!
