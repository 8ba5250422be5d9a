//! Player lifecycle and control: respawn timing, temporary
//! invincibility, steering, and laser fire.

use vstd::prelude::*;
use crate::{
    WinSize, win_ok, DT_MAX_MS, INVINCIBLE_MS, PLAYER_LASER_SIZE_H, PLAYER_LASER_SIZE_W,
    PLAYER_RESPAWN_DELAY_MS, PLAYER_SIZE_H, PLAYER_SIZE_W, PLAYER_SPEED, POS_BOUND, SPRITE_SCALE,
    TIME_MAX_MS,
};
use crate::components::{
    FromPlayer, Invincible, Laser, Movable, Player, SpriteSize, Velocity,
};
use crate::num::{absi, clamp_i64, lemma_muldiv_bound, muldiv, spec_clamp, spec_muldiv};
use crate::store::{
    count_players, find_single_player, first_player_from, spec_blank_rec, wf_rec, wf_store, EntityRec, Store,
};

verus! {

/// Process-wide player lifecycle state: whether the craft is on the
/// field, and when it was last shot down (milliseconds; `-1` while it
/// has never been shot).
#[derive(Clone, Copy, Debug, PartialEq, Eq)]
pub struct PlayerState {
    pub on: bool,
    pub last_shot: i64,
}

pub open spec fn player_state_ok(st: PlayerState) -> bool {
    st.last_shot == -1 || 0 <= st.last_shot <= TIME_MAX_MS
}

impl Default for PlayerState {
    fn default() -> (r: PlayerState)
        ensures
            !r.on,
            r.last_shot == -1,
    {
        PlayerState { on: false, last_shot: -1 }
    }
}

impl PlayerState {
    /// Records the player's death at `time`.
    pub fn shot(&mut self, time: i64)
        requires
            0 <= time <= TIME_MAX_MS,
        ensures
            !final(self).on,
            final(self).last_shot == time,
    {
        self.on = false;
        self.last_shot = time;
    }

    /// Records that a fresh player craft is on the field.
    pub fn spawned(&mut self)
        ensures
            final(self).on,
            final(self).last_shot == -1,
    {
        self.on = true;
        self.last_shot = -1;
    }
}

/// When the respawn check fires: the player is off the field and either
/// was never shot or the respawn delay has elapsed.
pub open spec fn respawn_due(st: PlayerState, now: int) -> bool {
    !st.on && (st.last_shot == -1 || now > st.last_shot + PLAYER_RESPAWN_DELAY_MS)
}

/// The freshly spawned player craft: bottom-centre of the playfield,
/// zero velocity, not auto-despawning, shielded for the fixed
/// invincibility window.
pub open spec fn spec_player_rec(id: u64, win: WinSize) -> EntityRec {
    EntityRec {
        pos: (
            0,
            (-(win.h / 2) + PLAYER_SIZE_H / 2 * SPRITE_SCALE / 1000 + 5_000) as i64,
            10_000,
        ),
        scale: SPRITE_SCALE,
        vel: Some(Velocity { x: 0, y: 0 }),
        size: Some(SpriteSize((PLAYER_SIZE_W, PLAYER_SIZE_H))),
        movable: Some(Movable { auto_despawn: false }),
        player: Some(Player),
        invincible: Some(Invincible { remaining_ms: INVINCIBLE_MS }),
        ..spec_blank_rec(id)
    }
}

/// On its fixed cadence, spawns a new player craft once the respawn
/// delay has passed (or at the very start of a game), and marks the
/// lifecycle state accordingly; otherwise changes nothing.
pub fn player_spawn_system(
    state: &mut PlayerState,
    s: &mut Store,
    win: &WinSize,
    now: i64,
)
    requires
        win_ok(*win),
        wf_store(*old(s), *win),
        player_state_ok(*old(state)),
        0 <= now <= TIME_MAX_MS,
        old(s).next_id < u64::MAX,
    ensures
        respawn_due(*old(state), now as int) ==> {
            &&& final(s).ents@ == old(s).ents@.push(spec_player_rec(old(s).next_id, *win))
            &&& final(s).next_id == old(s).next_id + 1
            &&& final(state).on
            &&& final(state).last_shot == -1
        },
        !respawn_due(*old(state), now as int) ==> {
            &&& final(s).ents@ == old(s).ents@
            &&& final(s).next_id == old(s).next_id
            &&& *final(state) == *old(state)
        },
        wf_store(*final(s), *win),
        player_state_ok(*final(state)),
{
    if !state.on && (state.last_shot == -1 || now > state.last_shot + PLAYER_RESPAWN_DELAY_MS) {
        let id = s.next_id;
        let mut rec = crate::store::blank_rec(id);
        rec.pos = (0, -(win.h / 2) + PLAYER_SIZE_H / 2 * SPRITE_SCALE / 1000 + 5_000, 10_000);
        rec.scale = SPRITE_SCALE;
        rec.vel = Some(Velocity { x: 0, y: 0 });
        rec.size = Some(SpriteSize((PLAYER_SIZE_W, PLAYER_SIZE_H)));
        rec.movable = Some(Movable { auto_despawn: false });
        rec.player = Some(Player);
        rec.invincible = Some(Invincible { remaining_ms: INVINCIBLE_MS });
        s.spawn(rec);
        state.spawned();
    }
}

/// What one tick of the invincibility pass makes of a record: a live
/// shielded entity loses `dt` from its shield, and the shield comes off
/// once it runs out.
pub open spec fn invincible_ticked(r: EntityRec, dt: int) -> EntityRec {
    match r.invincible {
        Some(iv) => if r.alive {
            if iv.remaining_ms <= dt {
                EntityRec { invincible: None, ..r }
            } else {
                EntityRec {
                    invincible: Some(Invincible { remaining_ms: (iv.remaining_ms - dt) as i64 }),
                    ..r
                }
            }
        } else {
            r
        },
        None => r,
    }
}

/// Counts down every live invincibility shield and removes the expired
/// ones.
pub fn invincible_timer_system(s: &mut Store, win: &WinSize, dt: i64)
    requires
        win_ok(*win),
        wf_store(*old(s), *win),
        0 <= dt <= DT_MAX_MS,
    ensures
        final(s).ents@.len() == old(s).ents@.len(),
        forall|i: int|
            0 <= i < old(s).ents@.len() ==> final(s).ents@[i] == invincible_ticked(
                old(s).ents@[i],
                dt as int,
            ),
        final(s).next_id == old(s).next_id,
        wf_store(*final(s), *win),
{
    let ghost orig = s.ents@;
    let n = s.ents.len();
    let mut i: usize = 0;
    while i < n
        invariant
            win_ok(*win),
            0 <= dt <= DT_MAX_MS,
            i <= n,
            n == s.ents@.len(),
            n == orig.len(),
            s.next_id == old(s).next_id,
            forall|k: int| 0 <= k < i ==> s.ents@[k] == invincible_ticked(orig[k], dt as int),
            forall|k: int| i <= k < n ==> s.ents@[k] == orig[k],
            forall|k: int| 0 <= k < n ==> wf_rec(#[trigger] s.ents@[k], *win),
            forall|k: int| 0 <= k < n ==> (#[trigger] s.ents@[k]).id == orig[k].id,
        decreases n - i,
    {
        let r = s.ents[i];
        if r.alive && r.invincible.is_some() {
            let iv = r.invincible.unwrap();
            let mut nr = r;
            if iv.remaining_ms <= dt {
                nr.invincible = None;
            } else {
                nr.invincible = Some(Invincible { remaining_ms: iv.remaining_ms - dt });
            }
            s.ents[i] = nr;
        }
        i = i + 1;
    }
    proof {
        assert(orig == old(s).ents@);
    }
}

/// The steering velocity the keyboard state maps to: a per-mille unit
/// vector (diagonals use 707 per axis) scaled by the player speed
/// factor.
pub open spec fn keyboard_velocity(left: bool, right: bool, up: bool, down: bool) -> Velocity {
    let ux: int = (if right { 1int } else { 0int }) - (if left { 1int } else { 0int });
    let uy: int = (if up { 1int } else { 0int }) - (if down { 1int } else { 0int });
    let unit_x: int = if ux != 0 && uy != 0 { 707 * ux } else { 1000 * ux };
    let unit_y: int = if ux != 0 && uy != 0 { 707 * uy } else { 1000 * uy };
    Velocity {
        x: spec_muldiv(unit_x, PLAYER_SPEED as int, 1000) as i64,
        y: spec_muldiv(unit_y, PLAYER_SPEED as int, 1000) as i64,
    }
}

/// Translates held arrow keys into the single live player's velocity,
/// normalizing diagonals so the pace is direction-independent.  With no
/// single live velocity-driven player this is a silent no-op.
pub fn player_keyboard_event_system(
    s: &mut Store,
    win: &WinSize,
    left: bool,
    right: bool,
    up: bool,
    down: bool,
)
    requires
        win_ok(*win),
        wf_store(*old(s), *win),
    ensures
        ({
            let ents = old(s).ents@;
            let pi = first_player_from(ents, 0);
            if count_players(ents) == 1 && ents[pi].vel is Some {
                final(s).ents@ == ents.update(
                    pi,
                    EntityRec { vel: Some(keyboard_velocity(left, right, up, down)), ..ents[pi] },
                )
            } else {
                final(s).ents@ == ents
            }
        }),
        final(s).next_id == old(s).next_id,
        wf_store(*final(s), *win),
{
    let target = find_single_player(s);
    if let Some(pi) = target {
        let r = s.ents[pi];
        if r.vel.is_some() {
            let ux: i64 = (if right { 1i64 } else { 0i64 }) - (if left { 1i64 } else { 0i64 });
            let uy: i64 = (if up { 1i64 } else { 0i64 }) - (if down { 1i64 } else { 0i64 });
            let unit_x: i64 = if ux != 0 && uy != 0 { 707 * ux } else { 1000 * ux };
            let unit_y: i64 = if ux != 0 && uy != 0 { 707 * uy } else { 1000 * uy };
            let vx = muldiv(unit_x, PLAYER_SPEED, 1000);
            let vy = muldiv(unit_y, PLAYER_SPEED, 1000);
            let mut nr = r;
            nr.vel = Some(Velocity { x: vx, y: vy });
            s.ents[pi] = nr;
        }
    }
}

/// What the steering pass makes of the player record: the position
/// advanced by `velocity * dt` (per-mille velocity, player speed
/// factor) and clamped so the scaled sprite stays inside the window.
pub open spec fn steered_rec(r: EntityRec, win: WinSize, dt: int) -> EntityRec {
    match (r.vel, r.size) {
        (Some(v), Some(sz)) => {
            let sw = sz.0.0 * (SPRITE_SCALE as int) / 1000;
            let sh = sz.0.1 * (SPRITE_SCALE as int) / 1000;
            let nx = spec_clamp(
                r.pos.0 + spec_muldiv(v.x as int, dt * (PLAYER_SPEED as int), 1_000_000),
                -(win.w / 2) + sw / 2,
                win.w / 2 - sw / 2,
            );
            let ny = spec_clamp(
                r.pos.1 + spec_muldiv(v.y as int, dt * (PLAYER_SPEED as int), 1_000_000),
                -(win.h / 2) + sh / 2,
                win.h / 2 - sh / 2,
            );
            EntityRec { pos: (nx as i64, ny as i64, r.pos.2), ..r }
        },
        _ => r,
    }
}

/// Moves the single live player by its steering velocity and keeps the
/// craft inside the window.  With no single live player, or one without
/// velocity and size, this is a silent no-op.
pub fn player_movement_system(s: &mut Store, win: &WinSize, dt: i64)
    requires
        win_ok(*win),
        wf_store(*old(s), *win),
        0 <= dt <= DT_MAX_MS,
    ensures
        ({
            let ents = old(s).ents@;
            let pi = first_player_from(ents, 0);
            if count_players(ents) == 1 && ents[pi].vel is Some && ents[pi].size is Some {
                final(s).ents@ == ents.update(pi, steered_rec(ents[pi], *win, dt as int))
            } else {
                final(s).ents@ == ents
            }
        }),
        final(s).next_id == old(s).next_id,
        wf_store(*final(s), *win),
{
    let target = find_single_player(s);
    if let Some(pi) = target {
        let r = s.ents[pi];
        if r.vel.is_some() && r.size.is_some() {
            let v = r.vel.unwrap();
            let sz = r.size.unwrap();
            let sw = sz.0.0 * SPRITE_SCALE / 1000;
            let sh = sz.0.1 * SPRITE_SCALE / 1000;
            proof {
                assert(absi(v.x as int) * absi((dt * PLAYER_SPEED) as int) <= 10_000_000_000)
                    by (nonlinear_arith)
                    requires
                        absi(v.x as int) <= 1000,
                        0 <= dt * PLAYER_SPEED <= 10_000_000,
                ;
                assert(absi(v.y as int) * absi((dt * PLAYER_SPEED) as int) <= 10_000_000_000)
                    by (nonlinear_arith)
                    requires
                        absi(v.y as int) <= 1000,
                        0 <= dt * PLAYER_SPEED <= 10_000_000,
                ;
                lemma_muldiv_bound(v.x as int, (dt * PLAYER_SPEED) as int, 1_000_000, 10_000_000_000);
                lemma_muldiv_bound(v.y as int, (dt * PLAYER_SPEED) as int, 1_000_000, 10_000_000_000);
            }
            let sx = muldiv(v.x, dt * PLAYER_SPEED, 1_000_000);
            let sy = muldiv(v.y, dt * PLAYER_SPEED, 1_000_000);
            let nx = clamp_i64(r.pos.0 + sx, -(win.w / 2) + sw / 2, win.w / 2 - sw / 2);
            let ny = clamp_i64(r.pos.1 + sy, -(win.h / 2) + sh / 2, win.h / 2 - sh / 2);
            let mut nr = r;
            nr.pos = (nx, ny, r.pos.2);
            s.ents[pi] = nr;
        }
    }
}

/// A laser the player fires: spawned just above the craft, offset to
/// one of its two cannons, flying straight up at base speed, destroyed
/// once it leaves the padded playfield.
pub open spec fn spec_player_laser_rec(id: u64, pos: (i64, i64, i64), off: int) -> EntityRec {
    EntityRec {
        pos: (
            spec_clamp(pos.0 + off, -(POS_BOUND as int), POS_BOUND as int) as i64,
            spec_clamp(pos.1 + 15_000, -(POS_BOUND as int), POS_BOUND as int) as i64,
            0,
        ),
        scale: SPRITE_SCALE,
        vel: Some(Velocity { x: 0, y: 1000 }),
        size: Some(SpriteSize((PLAYER_LASER_SIZE_W, PLAYER_LASER_SIZE_H))),
        movable: Some(Movable { auto_despawn: true }),
        laser: Some(Laser),
        from_player: Some(FromPlayer),
        ..spec_blank_rec(id)
    }
}

/// The horizontal cannon offset from the player's centre, in
/// milli-pixels.
pub const PLAYER_CANNON_OFF: i64 = 31_000;

/// On a fire edge, spawns one laser at each cannon of the single live
/// player.  With no single live player, or no fire press, this is a
/// silent no-op.
pub fn player_fire_system(s: &mut Store, win: &WinSize, fire: bool)
    requires
        win_ok(*win),
        wf_store(*old(s), *win),
        old(s).next_id < u64::MAX - 1,
    ensures
        ({
            let ents = old(s).ents@;
            let pi = first_player_from(ents, 0);
            if count_players(ents) == 1 && fire {
                &&& final(s).ents@ == ents.push(
                    spec_player_laser_rec(
                        old(s).next_id,
                        ents[pi].pos,
                        PLAYER_CANNON_OFF as int,
                    ),
                ).push(
                    spec_player_laser_rec(
                        (old(s).next_id + 1) as u64,
                        ents[pi].pos,
                        -(PLAYER_CANNON_OFF as int),
                    ),
                )
                &&& final(s).next_id == old(s).next_id + 2
            } else {
                final(s).ents@ == ents && final(s).next_id == old(s).next_id
            }
        }),
        wf_store(*final(s), *win),
{
    if !fire {
        return ;
    }
    let target = find_single_player(s);
    if let Some(pi) = target {
        let px = s.ents[pi].pos.0;
        let py = s.ents[pi].pos.1;
        let id0 = s.next_id;
        let mut rec = crate::store::blank_rec(id0);
        rec.pos = (
            clamp_i64(px + PLAYER_CANNON_OFF, -POS_BOUND, POS_BOUND),
            clamp_i64(py + 15_000, -POS_BOUND, POS_BOUND),
            0,
        );
        rec.scale = SPRITE_SCALE;
        rec.vel = Some(Velocity { x: 0, y: 1000 });
        rec.size = Some(SpriteSize((PLAYER_LASER_SIZE_W, PLAYER_LASER_SIZE_H)));
        rec.movable = Some(Movable { auto_despawn: true });
        rec.laser = Some(Laser);
        rec.from_player = Some(FromPlayer);
        s.spawn(rec);
        let id1 = s.next_id;
        let mut rec2 = crate::store::blank_rec(id1);
        rec2.pos = (
            clamp_i64(px - PLAYER_CANNON_OFF, -POS_BOUND, POS_BOUND),
            clamp_i64(py + 15_000, -POS_BOUND, POS_BOUND),
            0,
        );
        rec2.scale = SPRITE_SCALE;
        rec2.vel = Some(Velocity { x: 0, y: 1000 });
        rec2.size = Some(SpriteSize((PLAYER_LASER_SIZE_W, PLAYER_LASER_SIZE_H)));
        rec2.movable = Some(Movable { auto_despawn: true });
        rec2.laser = Some(Laser);
        rec2.from_player = Some(FromPlayer);
        s.spawn(rec2);
    }
}

} // verus!
