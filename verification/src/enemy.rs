//! Enemy systems: spawning against the population cap, laser fire, and
//! the trajectory integrator that tracks each enemy toward a point on
//! its drifting ellipse.

use vstd::prelude::*;
use crate::{
    WinSize, win_ok, BASE_SPEED, DT_MAX_MS, ENEMY_LASER_SIZE_H, ENEMY_LASER_SIZE_W, ENEMY_MAX,
    ENEMY_SIZE_H, ENEMY_SIZE_W, POS_BOUND, SPRITE_SCALE,
};
use crate::components::{Enemy, FromEnemy, Laser, Movable, SpriteSize, Velocity};
use crate::formation::{formation_inv, fresh_formation_ok, maker_ok, Formation, FormationMaker};
use crate::num::{
    absi, clamp_i64, isqrt, lemma_mul_bound, lemma_muldiv_bound, muldiv, spec_clamp, spec_isqrt,
    spec_muldiv,
};
use crate::rng::{rand_in_range, rand_ratio};
use crate::store::{
    is_live_enemy, lemma_count_enemies_push, spec_blank_rec, wf_rec, wf_store, EnemyCount,
    EntityRec, Store, count_enemies, count_ok,
};
use crate::trig::{
    cos_milli, lemma_norm_angle_bounds, norm_angle, sin_milli, spec_cos_milli, spec_norm_angle,
    spec_sin_milli, HALF_PI_MRAD,
};

verus! {

/// Angular direction around the ellipse, fixed for the entity's
/// lifetime by its spawn side.
pub open spec fn dir_positive(f: Formation) -> bool {
    f.start.0 < 0
}

pub open spec fn min_radius(f: Formation) -> int {
    if f.radius.0 < f.radius.1 {
        f.radius.0 as int
    } else {
        f.radius.1 as int
    }
}

/// The candidate next angle: the locked angle advanced by
/// `speed * dt / (min_radius * pi/2)`, normalized to one turn.
pub open spec fn spec_candidate(g: Formation, dt: int) -> int {
    let delta = (g.speed * dt * 1000) / (min_radius(g) * (HALF_PI_MRAD as int));
    if dir_positive(g) {
        spec_norm_angle(g.angle + delta)
    } else {
        spec_norm_angle(g.angle - delta)
    }
}

/// The tracked point on the (possibly moved) ellipse at angle `cand`.
pub open spec fn spec_target_x(g: Formation, cand: int) -> int {
    g.pivot.0 + spec_muldiv(g.radius.0 as int, spec_cos_milli(cand), 1000)
}

pub open spec fn spec_target_y(g: Formation, cand: int) -> int {
    g.pivot.1 + spec_muldiv(g.radius.1 as int, spec_sin_milli(cand), 1000)
}

/// One axis of the capped step toward the target: the position moves by
/// the distance ratio, never past the target, and not at all when the
/// distance is zero.
pub open spec fn tracked_axis(org: int, tgt: int, maxd: int, dist: int) -> int {
    let d = org - tgt;
    let moved = if dist == 0 {
        org
    } else {
        org - spec_muldiv(d, maxd, dist)
    };
    if d > 0 {
        if moved > tgt {
            moved
        } else {
            tgt
        }
    } else {
        if moved < tgt {
            moved
        } else {
            tgt
        }
    }
}

/// How the drift pass relates a formation to its successor: the change
/// timer accumulates and re-rolls the three drift rates each time it
/// crosses half a second; pivot, radius and speed then advance by their
/// rates and are clamped back into the invariant ranges.  The start
/// point and the locked angle are untouched.
pub open spec fn drift_rel(f: Formation, g: Formation, win: WinSize, dt: int) -> bool {
    let rerolled = f.change_timer + dt > 500;
    &&& g.start == f.start
    &&& g.angle == f.angle
    &&& (if rerolled {
        &&& g.change_timer == 0
        &&& -20_000 <= g.pivot_delta.0 < 20_000
        &&& -20_000 <= g.pivot_delta.1 < 20_000
        &&& -10_000 <= g.radius_delta.0 < 10_000
        &&& -10_000 <= g.radius_delta.1 < 10_000
        &&& -10_000 <= g.speed_delta < 10_000
    } else {
        &&& g.change_timer == f.change_timer + dt
        &&& g.pivot_delta == f.pivot_delta
        &&& g.radius_delta == f.radius_delta
        &&& g.speed_delta == f.speed_delta
    })
    &&& g.pivot.0 == spec_clamp(
        f.pivot.0 + spec_muldiv(g.pivot_delta.0 as int, dt, 1000),
        -(win.w / 4),
        win.w / 4,
    )
    &&& g.pivot.1 == spec_clamp(
        f.pivot.1 + spec_muldiv(g.pivot_delta.1 as int, dt, 1000),
        0,
        win.h / 3 - 50_000,
    )
    &&& g.radius.0 == spec_clamp(
        f.radius.0 + spec_muldiv(g.radius_delta.0 as int, dt, 1000),
        50_000,
        200_000,
    )
    &&& g.radius.1 == spec_clamp(
        f.radius.1 + spec_muldiv(g.radius_delta.1 as int, dt, 1000),
        50_000,
        150_000,
    )
    &&& g.speed == spec_clamp(
        f.speed + spec_muldiv(g.speed_delta as int, dt, 1000),
        BASE_SPEED / 2,
        BASE_SPEED + BASE_SPEED / 2,
    )
}

/// What the tracking pass makes of an enemy record, given its drifted
/// formation `g`: position stepped toward the ellipse point at the
/// candidate angle, the angle locked in only when the entity is close
/// enough to the track.
pub open spec fn enemy_stepped(r: EntityRec, g: Formation, dt: int) -> EntityRec {
    let cand = spec_candidate(g, dt);
    let tx = spec_target_x(g, cand);
    let ty = spec_target_y(g, cand);
    let dx = r.pos.0 - tx;
    let dy = r.pos.1 - ty;
    let dist = spec_isqrt(dx * dx + dy * dy);
    let maxd = g.speed * dt / 1000;
    let nx = tracked_axis(r.pos.0 as int, tx, maxd, dist);
    let ny = tracked_axis(r.pos.1 as int, ty, maxd, dist);
    let locked = dist < maxd * g.speed / 20_000;
    EntityRec {
        pos: (nx as i64, ny as i64, r.pos.2),
        formation: Some(
            Formation {
                angle: if locked {
                    cand as i64
                } else {
                    g.angle
                },
                ..g
            },
        ),
        ..r
    }
}

/// One trajectory tick of one record: some admissible drift of its
/// formation, followed by the deterministic tracking step.
pub open spec fn enemy_step_rel(r: EntityRec, nr: EntityRec, win: WinSize, dt: int) -> bool {
    match (r.formation, nr.formation) {
        (Some(f), Some(ng)) => {
            let g = Formation { angle: f.angle, ..ng };
            drift_rel(f, g, win, dt) && nr == enemy_stepped(r, g, dt)
        },
        _ => false,
    }
}

/// Advances the drifting parameters of one formation: re-rolls the
/// drift rates on the half-second cadence, then applies and clamps
/// them.
fn drift_formation(f: Formation, win: &WinSize, dt: i64) -> (g: Formation)
    requires
        win_ok(*win),
        formation_inv(f, *win),
        0 <= dt <= DT_MAX_MS,
    ensures
        drift_rel(f, g, *win, dt as int),
        formation_inv(g, *win),
        g.angle == f.angle,
{
    let mut g = f;
    let nt = f.change_timer + dt;
    if nt > 500 {
        g.pivot_delta = (rand_in_range(-20_000, 20_000), rand_in_range(-20_000, 20_000));
        g.radius_delta = (rand_in_range(-10_000, 10_000), rand_in_range(-10_000, 10_000));
        g.speed_delta = rand_in_range(-10_000, 10_000);
        g.change_timer = 0;
    } else {
        g.change_timer = nt;
    }
    proof {
        lemma_mul_bound(absi(g.pivot_delta.0 as int), dt as int, 20_000, 10_000);
        lemma_mul_bound(absi(g.pivot_delta.1 as int), dt as int, 20_000, 10_000);
        lemma_mul_bound(absi(g.radius_delta.0 as int), dt as int, 10_000, 10_000);
        lemma_mul_bound(absi(g.radius_delta.1 as int), dt as int, 10_000, 10_000);
        lemma_mul_bound(absi(g.speed_delta as int), dt as int, 10_000, 10_000);
    }
    g.pivot = (
        clamp_i64(f.pivot.0 + muldiv(g.pivot_delta.0, dt, 1000), -(win.w / 4), win.w / 4),
        clamp_i64(f.pivot.1 + muldiv(g.pivot_delta.1, dt, 1000), 0, win.h / 3 - 50_000),
    );
    g.radius = (
        clamp_i64(f.radius.0 + muldiv(g.radius_delta.0, dt, 1000), 50_000, 200_000),
        clamp_i64(f.radius.1 + muldiv(g.radius_delta.1, dt, 1000), 50_000, 150_000),
    );
    g.speed = clamp_i64(
        f.speed + muldiv(g.speed_delta, dt, 1000),
        BASE_SPEED / 2,
        BASE_SPEED + BASE_SPEED / 2,
    );
    g
}

/// One trajectory tick of one live enemy record.
fn step_enemy(r: EntityRec, win: &WinSize, dt: i64) -> (nr: EntityRec)
    requires
        win_ok(*win),
        wf_rec(r, *win),
        r.alive,
        r.formation is Some,
        0 <= dt <= DT_MAX_MS,
    ensures
        enemy_step_rel(r, nr, *win, dt as int),
        wf_rec(nr, *win),
        nr.id == r.id,
        nr.alive,
{
    let f = r.formation.unwrap();
    let g = drift_formation(f, win, dt);
    proof {
        lemma_mul_bound(g.speed as int, dt as int, 750_000, 10_000);
        assert(forall|p: int, d: int| 0 <= p && 1 <= d ==> #[trigger] (p / d) <= p)
            by (nonlinear_arith);
    }
    let sdt: i64 = g.speed * dt;
    let num: i64 = sdt * 1000;
    let minr: i64 = if g.radius.0 < g.radius.1 {
        g.radius.0
    } else {
        g.radius.1
    };
    let den: i64 = minr * HALF_PI_MRAD;
    let delta: i64 = num / den;
    let cand: i64 = if f.start.0 < 0 {
        norm_angle(g.angle + delta)
    } else {
        norm_angle(g.angle - delta)
    };
    let cosv = cos_milli(cand);
    let sinv = sin_milli(cand);
    proof {
        lemma_mul_bound(g.radius.0 as int, absi(cosv as int), 200_000, 1000);
        lemma_mul_bound(g.radius.1 as int, absi(sinv as int), 200_000, 1000);
        lemma_muldiv_bound(g.radius.0 as int, cosv as int, 1000, 200_000_000);
        lemma_muldiv_bound(g.radius.1 as int, sinv as int, 1000, 200_000_000);
    }
    let tx: i64 = g.pivot.0 + muldiv(g.radius.0, cosv, 1000);
    let ty: i64 = g.pivot.1 + muldiv(g.radius.1, sinv, 1000);
    let dx: i64 = r.pos.0 - tx;
    let dy: i64 = r.pos.1 - ty;
    proof {
        assert(0 <= (dx as int) * (dx as int) <= 196_000_000_000_000_000) by (nonlinear_arith)
            requires
                -14_000_000 <= dx <= 14_000_000,
        ;
        assert(0 <= (dy as int) * (dy as int) <= 196_000_000_000_000_000) by (nonlinear_arith)
            requires
                -14_000_000 <= dy <= 14_000_000,
        ;
    }
    let d2: i64 = dx * dx + dy * dy;
    let dist: i64 = isqrt(d2);
    let maxd: i64 = sdt / 1000;
    let nx: i64 = tracked_step(r.pos.0, tx, maxd, dist);
    let ny: i64 = tracked_step(r.pos.1, ty, maxd, dist);
    proof {
        lemma_mul_bound(maxd as int, g.speed as int, 7_500_000, 750_000);
    }
    let thr: i64 = (maxd * g.speed) / 20_000;
    let locked: bool = dist < thr;
    let mut gf = g;
    if locked {
        gf.angle = cand;
    }
    let mut nr = r;
    nr.pos = (nx, ny, r.pos.2);
    nr.formation = Some(gf);
    nr
}

/// One axis of the capped step stays between the old position and the
/// target, and moves by at most the step budget, provided the distance
/// majorizes the axis gap (as the Euclidean distance does).
pub proof fn lemma_tracked_axis_capped(org: int, tgt: int, maxd: int, dist: int)
    requires
        0 <= maxd,
        0 <= dist,
        absi(org - tgt) <= dist,
    ensures
        absi(tracked_axis(org, tgt, maxd, dist) - org) <= maxd,
        org <= tgt ==> org <= tracked_axis(org, tgt, maxd, dist) <= tgt,
        tgt <= org ==> tgt <= tracked_axis(org, tgt, maxd, dist) <= org,
{
    let d = org - tgt;
    if dist == 0 {
        assert(d == 0);
    } else if d != 0 {
        let ad = absi(d);
        lemma_mul_bound(ad, maxd, dist, maxd);
        assert(0 <= ad * maxd / dist) by (nonlinear_arith)
            requires
                0 <= ad * maxd,
                0 < dist,
        ;
        vstd::arithmetic::div_mod::lemma_div_is_ordered(ad * maxd, dist * maxd, dist);
        assert((dist * maxd) / dist == maxd) by (nonlinear_arith)
            requires
                0 < dist,
                0 <= maxd,
        ;
    }
}

/// The records the trajectory integrator touches: live holders of a
/// formation.
pub open spec fn trajectory_applies(r: EntityRec) -> bool {
    r.alive && r.formation is Some
}

/// Advances every live enemy along its drifting elliptical trajectory;
/// every other record is untouched.
pub fn enemy_movement_system(s: &mut Store, win: &WinSize, dt: i64)
    requires
        win_ok(*win),
        wf_store(*old(s), *win),
        0 <= dt <= DT_MAX_MS,
    ensures
        final(s).ents@.len() == old(s).ents@.len(),
        forall|i: int|
            0 <= i < old(s).ents@.len() && trajectory_applies(old(s).ents@[i])
                ==> enemy_step_rel(old(s).ents@[i], #[trigger] final(s).ents@[i], *win, dt as int),
        forall|i: int|
            0 <= i < old(s).ents@.len() && !trajectory_applies(old(s).ents@[i])
                ==> #[trigger] final(s).ents@[i] == old(s).ents@[i],
        final(s).next_id == old(s).next_id,
        wf_store(*final(s), *win),
{
    let ghost orig = s.ents@;
    let n = s.ents.len();
    let mut i: usize = 0;
    while i < n
        invariant
            win_ok(*win),
            0 <= dt <= DT_MAX_MS,
            i <= n,
            n == s.ents@.len(),
            n == orig.len(),
            s.next_id == old(s).next_id,
            forall|k: int|
                0 <= k < i && trajectory_applies(orig[k]) ==> enemy_step_rel(
                    orig[k],
                    #[trigger] s.ents@[k],
                    *win,
                    dt as int,
                ),
            forall|k: int| 0 <= k < i && !trajectory_applies(orig[k]) ==> s.ents@[k] == orig[k],
            forall|k: int| i <= k < n ==> s.ents@[k] == orig[k],
            forall|k: int| 0 <= k < n ==> wf_rec(#[trigger] s.ents@[k], *win),
            forall|k: int| 0 <= k < n ==> (#[trigger] s.ents@[k]).id == orig[k].id,
            forall|k: int| 0 <= k < n ==> wf_rec(#[trigger] orig[k], *win),
        decreases n - i,
    {
        let r = s.ents[i];
        if r.alive && r.formation.is_some() {
            let nr = step_enemy(r, win, dt);
            s.ents[i] = nr;
        }
        i = i + 1;
    }
    proof {
        assert(orig == old(s).ents@);
    }
}

/// The formation invariant survives every trajectory tick: whatever
/// drift the tick drew, radius, speed, pivot and angle come out inside
/// their ranges.
pub proof fn lemma_trajectory_keeps_invariant(
    r: EntityRec,
    nr: EntityRec,
    win: WinSize,
    dt: int,
)
    requires
        win_ok(win),
        r.formation matches Some(f) && formation_inv(f, win),
        0 <= dt <= DT_MAX_MS,
        enemy_step_rel(r, nr, win, dt),
    ensures
        nr.formation is Some,
        formation_inv(nr.formation.unwrap(), win),
{
    let f = r.formation.unwrap();
    let ng = nr.formation.unwrap();
    let g = Formation { angle: f.angle, ..ng };
    let cand = spec_candidate(g, dt);
    lemma_norm_angle_bounds(g.angle + (g.speed * dt * 1000) / (min_radius(g) * (
    HALF_PI_MRAD as int)));
    lemma_norm_angle_bounds(g.angle - (g.speed * dt * 1000) / (min_radius(g) * (
    HALF_PI_MRAD as int)));
    assert(nr == enemy_stepped(r, g, dt));
}

/// The distance-ratio division guard: an enemy standing exactly on its
/// target point does not move at all in that tick (and no division by
/// zero takes place).
pub proof fn lemma_zero_distance_guard(r: EntityRec, g: Formation, dt: int)
    requires
        r.pos.0 == spec_target_x(g, spec_candidate(g, dt)),
        r.pos.1 == spec_target_y(g, spec_candidate(g, dt)),
    ensures
        enemy_stepped(r, g, dt).pos == r.pos,
{
    let cand = spec_candidate(g, dt);
    let dx = r.pos.0 - spec_target_x(g, cand);
    let dy = r.pos.1 - spec_target_y(g, cand);
    assert(dx == 0 && dy == 0);
    assert(dx * dx + dy * dy == 0) by (nonlinear_arith)
        requires
            dx == 0,
            dy == 0,
    ;
    assert(spec_isqrt(0) == 0);
}

/// A freshly spawned enemy craft: at its formation's start point, on
/// the enemy draw layer.
pub open spec fn spec_enemy_rec(id: u64, f: Formation) -> EntityRec {
    EntityRec {
        pos: (f.start.0, f.start.1, 10_000),
        scale: SPRITE_SCALE,
        size: Some(SpriteSize((ENEMY_SIZE_W, ENEMY_SIZE_H))),
        enemy: Some(Enemy),
        formation: Some(f),
        ..spec_blank_rec(id)
    }
}

/// On its fixed cadence, spawns one enemy with the next flight path
/// from the generator, unless the population cap is reached.  The
/// census follows the table.
pub fn enemy_spawn_system(
    s: &mut Store,
    c: &mut EnemyCount,
    maker: &mut FormationMaker,
    win: &WinSize,
)
    requires
        win_ok(*win),
        wf_store(*old(s), *win),
        count_ok(*old(s), *old(c)),
        maker_ok(*old(maker), *win),
        old(s).next_id < u64::MAX,
    ensures
        old(c).0 < ENEMY_MAX ==> {
            let nr = final(s).ents@.last();
            &&& final(s).ents@ == old(s).ents@.push(nr)
            &&& nr == spec_enemy_rec(old(s).next_id, nr.formation.unwrap())
            &&& formation_inv(nr.formation.unwrap(), *win)
            &&& final(s).next_id == old(s).next_id + 1
            &&& final(c).0 == old(c).0 + 1
            &&& (old(maker).template matches Some(t) ==> (old(maker).members
                < crate::FORMATION_MEMBERS_MAX ==> nr.formation == Some(t)
                && final(maker).members == old(maker).members + 1))
            &&& ((old(maker).template is None || old(maker).members
                >= crate::FORMATION_MEMBERS_MAX) ==> fresh_formation_ok(
                nr.formation.unwrap(),
                *win,
            ) && final(maker).members == 1)
        },
        old(c).0 >= ENEMY_MAX ==> {
            &&& final(s).ents@ == old(s).ents@
            &&& final(s).next_id == old(s).next_id
            &&& *final(c) == *old(c)
            &&& *final(maker) == *old(maker)
        },
        wf_store(*final(s), *win),
        count_ok(*final(s), *final(c)),
        maker_ok(*final(maker), *win),
{
    if c.0 < ENEMY_MAX {
        let f = maker.make(win);
        let id = s.next_id;
        let mut rec = crate::store::blank_rec(id);
        rec.pos = (f.start.0, f.start.1, 10_000);
        rec.scale = SPRITE_SCALE;
        rec.size = Some(SpriteSize((ENEMY_SIZE_W, ENEMY_SIZE_H)));
        rec.enemy = Some(Enemy);
        rec.formation = Some(f);
        s.spawn(rec);
        c.0 = c.0 + 1;
        proof {
            lemma_count_enemies_push(old(s).ents@, rec);
        }
    }
}

/// Whether the enemies fire this frame: a one-in-sixty chance drawn
/// once per frame.
pub fn enemy_fire_criteria() -> bool {
    rand_ratio(1, 60)
}

/// The fire points of the live enemies, in table order.
pub open spec fn enemy_fire_points(ents: Seq<EntityRec>) -> Seq<(i64, i64)>
    decreases ents.len(),
{
    if ents.len() == 0 {
        Seq::empty()
    } else {
        enemy_fire_points(ents.drop_last()) + (if is_live_enemy(ents.last()) {
            seq![(ents.last().pos.0, ents.last().pos.1)]
        } else {
            Seq::empty()
        })
    }
}

pub proof fn lemma_enemy_fire_points_len(ents: Seq<EntityRec>)
    ensures
        enemy_fire_points(ents).len() <= ents.len(),
    decreases ents.len(),
{
    if ents.len() > 0 {
        lemma_enemy_fire_points_len(ents.drop_last());
    }
}

pub proof fn lemma_enemy_fire_points_take(ents: Seq<EntityRec>, i: int)
    requires
        0 <= i < ents.len(),
    ensures
        enemy_fire_points(ents.take(i + 1)) == enemy_fire_points(ents.take(i)) + (
        if is_live_enemy(ents[i]) {
            seq![(ents[i].pos.0, ents[i].pos.1)]
        } else {
            Seq::empty()
        }),
{
    assert(ents.take(i + 1).drop_last() =~= ents.take(i));
    assert(ents.take(i + 1).last() == ents[i]);
}

/// A laser an enemy fires: spawned just below the craft, flying
/// straight down at base speed, destroyed once it leaves the padded
/// playfield.
pub open spec fn spec_enemy_laser_rec(id: u64, p: (i64, i64)) -> EntityRec {
    EntityRec {
        pos: (p.0, spec_clamp(p.1 - 15_000, -(POS_BOUND as int), POS_BOUND as int) as i64, 0),
        scale: SPRITE_SCALE,
        vel: Some(Velocity { x: 0, y: -1000i64 }),
        size: Some(SpriteSize((ENEMY_LASER_SIZE_W, ENEMY_LASER_SIZE_H))),
        movable: Some(Movable { auto_despawn: true }),
        laser: Some(Laser),
        from_enemy: Some(FromEnemy),
        ..spec_blank_rec(id)
    }
}

/// Spawns one downward laser per live enemy, at the enemy's muzzle.
pub fn enemy_fire_system(s: &mut Store, win: &WinSize)
    requires
        win_ok(*win),
        wf_store(*old(s), *win),
        old(s).next_id + old(s).ents@.len() < u64::MAX,
    ensures
        ({
            let orig = old(s).ents@;
            let pts = enemy_fire_points(orig);
            &&& final(s).ents@.len() == orig.len() + pts.len()
            &&& forall|i: int| 0 <= i < orig.len() ==> final(s).ents@[i] == orig[i]
            &&& forall|k: int|
                0 <= k < pts.len() ==> final(s).ents@[orig.len() + k] == spec_enemy_laser_rec(
                    (old(s).next_id + k) as u64,
                    pts[k],
                )
            &&& final(s).next_id == old(s).next_id + pts.len()
        }),
        wf_store(*final(s), *win),
{
    let ghost orig = s.ents@;
    let n = s.ents.len();
    let mut i: usize = 0;
    let mut pts: Vec<(i64, i64)> = Vec::new();
    while i < n
        invariant
            i <= n,
            n == s.ents@.len(),
            s.ents@ == orig,
            pts@ == enemy_fire_points(orig.take(i as int)),
            pts@.len() <= i,
            forall|p: int|
                0 <= p < pts@.len() ==> absi((#[trigger] pts@[p]).0 as int) <= POS_BOUND && absi(
                    pts@[p].1 as int,
                ) <= POS_BOUND,
            forall|k: int| 0 <= k < n ==> wf_rec(#[trigger] orig[k], *win),
        decreases n - i,
    {
        proof {
            lemma_enemy_fire_points_take(orig, i as int);
        }
        let r = &s.ents[i];
        if r.alive && r.enemy.is_some() {
            let spot = (r.pos.0, r.pos.1);
            pts.push(spot);
        }
        i = i + 1;
    }
    proof {
        assert(orig.take(n as int) =~= orig);
    }
    let m = pts.len();
    let mut k: usize = 0;
    while k < m
        invariant
            win_ok(*win),
            k <= m,
            m == pts@.len(),
            n == orig.len(),
            pts@ == enemy_fire_points(orig),
            s.ents@.len() == n + k,
            s.next_id == old(s).next_id + k,
            old(s).next_id + m < u64::MAX,
            forall|j: int| 0 <= j < n ==> s.ents@[j] == orig[j],
            forall|j: int|
                0 <= j < k ==> s.ents@[n + j] == spec_enemy_laser_rec(
                    (old(s).next_id + j) as u64,
                    pts@[j],
                ),
            forall|j: int| 0 <= j < s.ents@.len() ==> wf_rec(#[trigger] s.ents@[j], *win),
            forall|j: int| 0 <= j < s.ents@.len() ==> (#[trigger] s.ents@[j]).id < s.next_id,
            forall|j1: int, j2: int|
                0 <= j1 < j2 < s.ents@.len() ==> (#[trigger] s.ents@[j1]).id != (
                #[trigger] s.ents@[j2]).id,
            forall|p: int|
                0 <= p < pts@.len() ==> absi((#[trigger] pts@[p]).0 as int) <= POS_BOUND && absi(
                    pts@[p].1 as int,
                ) <= POS_BOUND,
        decreases m - k,
    {
        let id = s.next_id;
        let spot = pts[k];
        let mut rec = crate::store::blank_rec(id);
        rec.pos = (spot.0, clamp_i64(spot.1 - 15_000, -POS_BOUND, POS_BOUND), 0);
        rec.scale = SPRITE_SCALE;
        rec.vel = Some(Velocity { x: 0, y: -1000 });
        rec.size = Some(SpriteSize((ENEMY_LASER_SIZE_W, ENEMY_LASER_SIZE_H)));
        rec.movable = Some(Movable { auto_despawn: true });
        rec.laser = Some(Laser);
        rec.from_enemy = Some(FromEnemy);
        s.spawn(rec);
        k = k + 1;
    }
}

/// One axis of the capped tracking step.
fn tracked_step(org: i64, tgt: i64, maxd: i64, dist: i64) -> (r: i64)
    requires
        absi(org as int) <= POS_BOUND,
        absi(tgt as int) <= 3_600_000,
        0 <= maxd <= 7_500_000,
        0 <= dist,
    ensures
        r == tracked_axis(org as int, tgt as int, maxd as int, dist as int),
        absi(r as int) <= POS_BOUND,
{
    let d: i64 = org - tgt;
    proof {
        lemma_mul_bound(absi(d as int), maxd as int, 14_000_000, 7_500_000);
        assert(forall|p: int, q: int| 0 <= p && 1 <= q ==> #[trigger] (p / q) <= p)
            by (nonlinear_arith);
    }
    let moved: i64 = if dist == 0 {
        org
    } else {
        org - muldiv(d, maxd, dist)
    };
    if d > 0 {
        if moved > tgt {
            moved
        } else {
            tgt
        }
    } else {
        if moved < tgt {
            moved
        } else {
            tgt
        }
    }
}

} // verus!
