//! Linear motion: every velocity-driven entity advances by
//! `velocity * dt * BASE_SPEED`, and auto-despawning ones are destroyed
//! once they leave the playfield plus a fixed margin.

use vstd::prelude::*;
use crate::{WinSize, win_ok, BASE_SPEED, DESPAWN_MARGIN, DT_MAX_MS, POS_BOUND};
use crate::num::{absi, clamp_i64, lemma_muldiv_bound, muldiv, spec_clamp, spec_muldiv};
use crate::store::{wf_rec, wf_store, EntityRec, Store};

verus! {

/// The records the linear integrator touches: live, velocity-driven,
/// flagged movable.
pub open spec fn movable_applies(r: EntityRec) -> bool {
    r.alive && r.vel is Some && r.movable is Some
}

/// One axis of the linear step: the position advanced by
/// `v * dt * BASE_SPEED` (per-mille velocity, milliseconds, milli-pixels
/// per second), kept inside the carried box.
pub open spec fn spec_move_step(p: int, v: int, dt: int) -> int {
    spec_clamp(
        p + spec_muldiv(v, dt * (BASE_SPEED as int), 1_000_000),
        -(POS_BOUND as int),
        POS_BOUND as int,
    )
}

/// Outside the playfield rectangle expanded by the despawn margin.
pub open spec fn spec_out_of_bounds(x: int, y: int, win: WinSize) -> bool {
    ||| y > win.h / 2 + DESPAWN_MARGIN
    ||| y < -(win.h / 2) - DESPAWN_MARGIN
    ||| x > win.w / 2 + DESPAWN_MARGIN
    ||| x < -(win.w / 2) - DESPAWN_MARGIN
}

/// What one pass of the linear integrator makes of a record.
pub open spec fn moved_rec(r: EntityRec, win: WinSize, dt: int) -> EntityRec {
    if movable_applies(r) {
        match (r.vel, r.movable) {
            (Some(v), Some(m)) => {
                let nx = spec_move_step(r.pos.0 as int, v.x as int, dt);
                let ny = spec_move_step(r.pos.1 as int, v.y as int, dt);
                let gone = m.auto_despawn && spec_out_of_bounds(nx, ny, win);
                EntityRec { pos: (nx as i64, ny as i64, r.pos.2), alive: !gone, ..r }
            },
            _ => r,
        }
    } else {
        r
    }
}

fn out_of_bounds(x: i64, y: i64, win: &WinSize) -> (r: bool)
    requires
        win_ok(*win),
    ensures
        r == spec_out_of_bounds(x as int, y as int, *win),
{
    y > win.h / 2 + DESPAWN_MARGIN || y < -(win.h / 2) - DESPAWN_MARGIN || x > win.w / 2
        + DESPAWN_MARGIN || x < -(win.w / 2) - DESPAWN_MARGIN
}

fn move_step(p: i64, v: i64, dt: i64) -> (r: i64)
    requires
        absi(v as int) <= 1000,
        0 <= dt <= DT_MAX_MS,
        absi(p as int) <= POS_BOUND,
    ensures
        r == spec_move_step(p as int, v as int, dt as int),
{
    let vdt: i64 = dt * BASE_SPEED;
    proof {
        assert(absi(v as int) * absi((dt * BASE_SPEED) as int) <= 5_000_000_000_000)
            by (nonlinear_arith)
            requires
                absi(v as int) <= 1000,
                0 <= dt * BASE_SPEED <= 5_000_000_000,
        ;
        lemma_muldiv_bound(v as int, vdt as int, 1_000_000, 5_000_000_000_000);
    }
    let step: i64 = muldiv(v, vdt, 1_000_000);
    clamp_i64(p + step, -POS_BOUND, POS_BOUND)
}

/// Advances every live velocity-driven entity and destroys the
/// auto-despawning ones that left the padded playfield; every other
/// record is untouched.
pub fn movable_system(s: &mut Store, win: &WinSize, dt: i64)
    requires
        win_ok(*win),
        wf_store(*old(s), *win),
        0 <= dt <= DT_MAX_MS,
    ensures
        final(s).ents@.len() == old(s).ents@.len(),
        forall|i: int|
            0 <= i < old(s).ents@.len() ==> final(s).ents@[i] == moved_rec(
                old(s).ents@[i],
                *win,
                dt as int,
            ),
        final(s).next_id == old(s).next_id,
        wf_store(*final(s), *win),
{
    let ghost orig = s.ents@;
    let n = s.ents.len();
    let mut i: usize = 0;
    while i < n
        invariant
            win_ok(*win),
            0 <= dt <= DT_MAX_MS,
            i <= n,
            n == s.ents@.len(),
            n == orig.len(),
            s.next_id == old(s).next_id,
            forall|k: int| 0 <= k < i ==> s.ents@[k] == moved_rec(orig[k], *win, dt as int),
            forall|k: int| i <= k < n ==> s.ents@[k] == orig[k],
            forall|k: int| 0 <= k < n ==> wf_rec(#[trigger] s.ents@[k], *win),
            forall|k: int| 0 <= k < n ==> (#[trigger] s.ents@[k]).id == orig[k].id,
            forall|k: int| 0 <= k < n ==> wf_rec(#[trigger] orig[k], *win),
        decreases n - i,
    {
        let r = s.ents[i];
        if r.alive && r.vel.is_some() && r.movable.is_some() {
            let v = r.vel.unwrap();
            let m = r.movable.unwrap();
            let nx = move_step(r.pos.0, v.x, dt);
            let ny = move_step(r.pos.1, v.y, dt);
            let mut nr = r;
            nr.pos = (nx, ny, r.pos.2);
            if m.auto_despawn && out_of_bounds(nx, ny, win) {
                nr.alive = false;
            }
            s.ents[i] = nr;
        }
        i = i + 1;
    }
    proof {
        assert(orig == old(s).ents@);
    }
}

} // verus!
