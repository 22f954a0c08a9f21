//! Decisions of the terminal surface.
//!
//! The terminal itself — raw mode, the alternate screen, cursor control —
//! is driven by an outside backend. What is verified here are the
//! decisions that backend executes: which render mode a player uses, how
//! tall an automatic inline region is, and exactly which rows an inline
//! release clears. The release guarantee itself (cursor restored, region
//! cleared, on every exit path) is carried by a guard object in the
//! unverified shell around the library.

use vstd::prelude::*;

verus! {

/// How a player occupies the terminal.
#[derive(Clone, Copy, Debug, PartialEq, Eq, Structural)]
pub enum RenderMode {
    /// Take over the whole terminal on an alternate screen.
    Fullscreen,
    /// Reserve a fixed-height region in the scrollback, keeping history.
    Inline { height: u16 },
}

impl Default for RenderMode {
    /// The default surface takes over the whole terminal.
    fn default() -> (m: RenderMode)
        ensures
            m is Fullscreen,
    {
        RenderMode::Fullscreen
    }
}

/// The height of an automatically sized inline region: a third of the
/// terminal height, but no fewer than 15 and no more than 40 rows.
pub fn inline_auto_height(terminal_height: u16) -> (h: u16)
    ensures
        h == (if terminal_height as int / 3 < 15 {
            15int
        } else if terminal_height as int / 3 > 40 {
            40int
        } else {
            terminal_height as int / 3
        }),
        15 <= h <= 40,
{
    let third = terminal_height / 3;
    if third < 15 {
        15
    } else if third > 40 {
        40
    } else {
        third
    }
}

/// The rows an inline region of `height` rows starting at `start_row`
/// occupies — exactly the rows a release clears: `height` consecutive rows
/// from `start_row`, and no others.
pub fn inline_region_rows(start_row: u16, height: u16) -> (rows: Vec<u16>)
    requires
        start_row + height <= u16::MAX,
    ensures
        rows@.len() == height,
        forall|i: int| 0 <= i < height ==> rows@[i] == start_row + i,
{
    let mut rows: Vec<u16> = Vec::new();
    let mut k: u16 = 0;
    while k < height
        invariant
            start_row + height <= u16::MAX,
            k <= height,
            rows@.len() == k,
            forall|i: int| 0 <= i < k ==> rows@[i] == start_row + i,
        decreases height - k,
    {
        rows.push(start_row + k);
        k = k + 1;
    }
    rows
}

} // verus!
