//! Enemy flight-path parameters and the generator that issues them.

use vstd::prelude::*;
use crate::{WinSize, win_ok, BASE_SPEED, FORMATION_MEMBERS_MAX, POS_BOUND};
use crate::num::absi;
use crate::rng::{rand_in_range, rand_ratio};
use crate::trig::{atan2_milli, spec_atan2_milli, TWO_PI_MRAD};

verus! {

/// Per-enemy parametric description of an elliptical flight path whose
/// shape, centre and pace drift slowly over time.  Lengths are in
/// milli-pixels, the speed in milli-pixels per second, the angle in
/// milliradians, the drift rates per second, and the timer in
/// milliseconds.
#[derive(Clone, Copy, Debug, PartialEq, Eq)]
pub struct Formation {
    pub start: (i64, i64),
    pub radius: (i64, i64),
    pub pivot: (i64, i64),
    pub speed: i64,
    pub angle: i64,
    pub change_timer: i64,
    pub pivot_delta: (i64, i64),
    pub radius_delta: (i64, i64),
    pub speed_delta: i64,
}

/// The ranges every live formation obeys; established at creation and
/// re-established by clamping on every trajectory tick.
pub open spec fn formation_inv(f: Formation, win: WinSize) -> bool {
    &&& absi(f.start.0 as int) <= POS_BOUND
    &&& absi(f.start.1 as int) <= POS_BOUND
    &&& -(win.w / 4) <= f.pivot.0 <= win.w / 4
    &&& 0 <= f.pivot.1 <= win.h / 3 - 50_000
    &&& 50_000 <= f.radius.0 <= 200_000
    &&& 50_000 <= f.radius.1 <= 150_000
    &&& BASE_SPEED / 2 <= f.speed <= BASE_SPEED + BASE_SPEED / 2
    &&& 0 <= f.angle < TWO_PI_MRAD
    &&& 0 <= f.change_timer <= 500
    &&& absi(f.pivot_delta.0 as int) <= 20_000
    &&& absi(f.pivot_delta.1 as int) <= 20_000
    &&& absi(f.radius_delta.0 as int) <= 10_000
    &&& absi(f.radius_delta.1 as int) <= 10_000
    &&& absi(f.speed_delta as int) <= 10_000
}

/// What a freshly drawn template looks like: the start point sits on one
/// of the two vertical screen edges (padded by 100 pixels), the pivot in
/// the inner quarter-width of the upper band, the horizontal radius in
/// `[80, 150)` pixels with the vertical radius fixed at 100 pixels, the
/// speed at the base constant, the angle bearing from start to pivot,
/// and each drift rate in its small symmetric range.
pub open spec fn fresh_formation_ok(f: Formation, win: WinSize) -> bool {
    let w_span = win.w / 2 + 100_000;
    let h_span = win.h / 2 + 100_000;
    &&& (f.start.0 == w_span || f.start.0 == -w_span)
    &&& -h_span <= f.start.1 < h_span
    &&& -(win.w / 4) <= f.pivot.0 < win.w / 4
    &&& 0 <= f.pivot.1 < win.h / 3 - 50_000
    &&& 80_000 <= f.radius.0 < 150_000
    &&& f.radius.1 == 100_000
    &&& f.speed == BASE_SPEED
    &&& f.angle == spec_atan2_milli(f.start.1 - f.pivot.1, f.start.0 - f.pivot.0)
    &&& f.change_timer == 0
    &&& -20_000 <= f.pivot_delta.0 < 20_000
    &&& -20_000 <= f.pivot_delta.1 < 20_000
    &&& -10_000 <= f.radius_delta.0 < 10_000
    &&& -10_000 <= f.radius_delta.1 < 10_000
    &&& -10_000 <= f.speed_delta < 10_000
}

/// The generator's own well-formedness: a live template obeys the
/// formation invariant.
pub open spec fn maker_ok(m: FormationMaker, win: WinSize) -> bool {
    m.template matches Some(t) ==> formation_inv(t, win)
}

/// Produces flight paths for newly spawned enemies, reusing one template
/// for a whole batch before drawing a new one.
#[derive(Clone, Copy, Debug, PartialEq, Eq)]
pub struct FormationMaker {
    pub template: Option<Formation>,
    pub members: u32,
}

impl Default for FormationMaker {
    fn default() -> (r: FormationMaker)
        ensures
            r.template is None,
            r.members == 0,
    {
        FormationMaker { template: None, members: 0 }
    }
}

impl FormationMaker {
    /// Returns the flight path for the next enemy: a clone of the live
    /// template while the batch cap allows, otherwise a freshly drawn
    /// template whose issued count restarts at one.
    pub fn make(&mut self, win: &WinSize) -> (r: Formation)
        requires
            win_ok(*win),
            maker_ok(*old(self), *win),
        ensures
            old(self).template matches Some(t) ==> (old(self).members < FORMATION_MEMBERS_MAX
                ==> {
                &&& r == t
                &&& final(self).template == Some(t)
                &&& final(self).members == old(self).members + 1
            }),
            (old(self).template is None || old(self).members >= FORMATION_MEMBERS_MAX) ==> {
                &&& fresh_formation_ok(r, *win)
                &&& final(self).template == Some(r)
                &&& final(self).members == 1
            },
            formation_inv(r, *win),
            maker_ok(*final(self), *win),
    {
        if self.members < FORMATION_MEMBERS_MAX {
            if let Some(t) = self.template {
                self.members = self.members + 1;
                return t;
            }
        }
        let w_span = win.w / 2 + 100_000;
        let h_span = win.h / 2 + 100_000;
        let right = rand_ratio(1, 2);
        let x = if right {
            w_span
        } else {
            -w_span
        };
        let y = rand_in_range(-h_span, h_span);
        let pivot_x = rand_in_range(-(win.w / 4), win.w / 4);
        let pivot_y = rand_in_range(0, win.h / 3 - 50_000);
        let radius_x = rand_in_range(80_000, 150_000);
        let angle = atan2_milli(y - pivot_y, x - pivot_x);
        let pivot_dx = rand_in_range(-20_000, 20_000);
        let pivot_dy = rand_in_range(-20_000, 20_000);
        let radius_dx = rand_in_range(-10_000, 10_000);
        let radius_dy = rand_in_range(-10_000, 10_000);
        let speed_d = rand_in_range(-10_000, 10_000);
        let f = Formation {
            start: (x, y),
            radius: (radius_x, 100_000),
            pivot: (pivot_x, pivot_y),
            speed: BASE_SPEED,
            angle,
            change_timer: 0,
            pivot_delta: (pivot_dx, pivot_dy),
            radius_delta: (radius_dx, radius_dy),
            speed_delta: speed_d,
        };
        self.template = Some(f);
        self.members = 1;
        f
    }
}

} // verus!
