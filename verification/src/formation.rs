//! The formation generator: produces a pseudo-random elliptical orbit
//! descriptor for each newly spawned enemy.

use vstd::prelude::*;

use crate::components::{Formation, WinSize};
use crate::rng::rand_range_i64;

verus! {

/// Hands out fresh formation descriptors, one per enemy spawn. Each
/// draw is independent; the maker holds no state.
pub struct FormationMaker {}

impl FormationMaker {
    /// Creates the maker.
    pub fn new() -> (m: FormationMaker) {
        FormationMaker {}
    }

    /// Draws a fresh orbit descriptor for the given viewport.
    ///
    /// The start position is uniform over the viewport interior minus a
    /// fixed edge margin on both axes; the pivot lies within the middle
    /// half of the viewport; both semi-axes lie in their configured band,
    /// strictly positive and bounded away from zero; the initial phase is
    /// uniform over a full turn; the angular speed scalar is fixed.
    pub fn make(&self, win: &WinSize) -> (f: Formation)
        requires
            win.inv(),
        ensures
            f.inv(),
            -((win.w / 2) as int) + crate::SPAWN_MARGIN_MILLI <= f.start_x
                < (win.w / 2) as int - crate::SPAWN_MARGIN_MILLI,
            -((win.h / 2) as int) + crate::SPAWN_MARGIN_MILLI <= f.start_y
                < (win.h / 2) as int - crate::SPAWN_MARGIN_MILLI,
            f.speed == crate::FORMATION_SPEED_MILLI,
    {
        let w_span = (win.w / 2) as i64 - crate::SPAWN_MARGIN_MILLI;
        let h_span = (win.h / 2) as i64 - crate::SPAWN_MARGIN_MILLI;
        let start_x = rand_range_i64(-w_span, w_span);
        let start_y = rand_range_i64(-h_span, h_span);
        let pivot_w = (win.w / 4) as i64;
        let pivot_h = (win.h / 4) as i64;
        let pivot_x = rand_range_i64(-pivot_w, pivot_w);
        let pivot_y = rand_range_i64(-pivot_h, pivot_h);
        let radius_x = rand_range_i64(crate::RADIUS_MIN_MILLI, crate::RADIUS_MAX_MILLI + 1);
        let radius_y = rand_range_i64(crate::RADIUS_MIN_MILLI, crate::RADIUS_MAX_MILLI + 1);
        let angle = rand_range_i64(0, crate::TAU_MILLI);
        Formation {
            start_x,
            start_y,
            pivot_x,
            pivot_y,
            radius_x,
            radius_y,
            angle,
            speed: crate::FORMATION_SPEED_MILLI,
        }
    }
}

} // verus!
