//! One simulated frame: the systems run to completion, once each, in a
//! fixed order — respawn check, input translation, linear motion,
//! trajectory tracking, collision resolution, then the explosion and
//! invincibility ticks — with enemy spawning on its own cadence driven
//! by the caller, and enemy fire on its own random criteria.

use vstd::prelude::*;
use crate::{WinSize, win_ok, DT_MAX_MS, ENEMY_MAX, TIME_MAX_MS};
use crate::collision::{
    enemy_laser_hit_player_system, player_laser_hit_enemy_system,
};
use crate::components::EnemyExplosionEvent;
use crate::enemy::{
    enemy_fire_criteria, enemy_fire_system, enemy_movement_system, enemy_spawn_system,
    enemy_step_rel, trajectory_applies,
};
use crate::explosion::{
    enemy_explosion_audio_system, explosion_animation_system, explosion_to_spawn_system,
};
use crate::formation::{maker_ok, FormationMaker};
use crate::motion::movable_system;
use crate::player::{
    invincible_timer_system, player_fire_system, player_keyboard_event_system,
    player_movement_system, player_spawn_system, player_state_ok, PlayerState,
};
use crate::store::{
    count_enemies, count_ok, has_shielded_player, is_live_enemy, lemma_count_enemies_append,
    lemma_count_enemies_nonneg, lemma_count_enemies_pointwise, lemma_count_enemies_push,
    lemma_count_enemies_update, lemma_count_enemies_zero, lemma_shielded_single_player,
    shielded_player_at, wf_store, EnemyCount, EntityRec, Store,
};

verus! {

/// The per-frame inputs the collaborators hand the core: the frame
/// delta and clock, the held arrow keys and the fire edge, and the
/// fixed cadences resolved by the scheduler.
#[derive(Clone, Copy, Debug, PartialEq, Eq)]
pub struct FrameInput {
    pub dt_ms: i64,
    pub now_ms: i64,
    pub left: bool,
    pub right: bool,
    pub up: bool,
    pub down: bool,
    pub fire: bool,
    pub respawn_check: bool,
    pub spawn_enemy: bool,
}

/// The whole simulation state a frame acts on.
pub struct Sim {
    pub store: Store,
    pub enemy_count: EnemyCount,
    pub maker: FormationMaker,
    pub player: PlayerState,
    pub events: Vec<EnemyExplosionEvent>,
}

/// The standing well-formedness of the simulation between frames: the
/// table and census agree, every record and the template obey their
/// invariants, and the kill-event queue has been drained.
pub open spec fn sim_ok(sim: Sim, win: WinSize) -> bool {
    &&& wf_store(sim.store, win)
    &&& count_ok(sim.store, sim.enemy_count)
    &&& maker_ok(sim.maker, win)
    &&& player_state_ok(sim.player)
    &&& sim.events@.len() == 0
}

/// Room to grow within machine limits; far beyond any population the
/// caps allow.
pub open spec fn sim_roomy(sim: Sim) -> bool {
    &&& sim.store.ents@.len() <= 0x1000_0000
    &&& sim.store.next_id <= 0x1000_0000_0000_0000
}

/// Whether this frame's enemy-spawn cadence adds one to the field: the
/// spawn step runs and the population cap still has room.
pub open spec fn spawn_add(inp: FrameInput, c: EnemyCount) -> int {
    if inp.spawn_enemy && c.0 < ENEMY_MAX {
        1int
    } else {
        0int
    }
}

/// A census argument used between systems: a pass that neither flips
/// an enemy's liveness nor adds enemies keeps the count agreed.
proof fn lemma_same_liveness(a: Seq<EntityRec>, b: Seq<EntityRec>)
    requires
        a.len() == b.len(),
        forall|i: int| 0 <= i < a.len() ==> is_live_enemy(#[trigger] a[i]) == is_live_enemy(b[i]),
    ensures
        count_enemies(a) == count_enemies(b),
{
    lemma_count_enemies_pointwise(a, b);
}

/// The respawn check, input translation and linear motion steps.
fn steer_phase(store: &mut Store, player: &mut PlayerState, win: &WinSize, inp: FrameInput)
    requires
        win_ok(*win),
        wf_store(*old(store), *win),
        player_state_ok(*old(player)),
        0 <= inp.dt_ms <= DT_MAX_MS,
        0 <= inp.now_ms <= TIME_MAX_MS,
        old(store).ents@.len() <= 0x1000_0000_0000,
        old(store).next_id <= 0x1000_0000_0000_0000,
    ensures
        wf_store(*final(store), *win),
        player_state_ok(*final(player)),
        count_enemies(final(store).ents@) == count_enemies(old(store).ents@),
        final(store).ents@.len() <= old(store).ents@.len() + 3,
        final(store).next_id <= old(store).next_id + 3,
        inp.respawn_check && crate::player::respawn_due(*old(player), inp.now_ms as int) ==> {
            &&& final(player).on
            &&& has_shielded_player(final(store).ents@)
        },
        !(inp.respawn_check && crate::player::respawn_due(*old(player), inp.now_ms as int))
            ==> *final(player) == *old(player),
{
    let ghost e0 = store.ents@;
    if inp.respawn_check {
        player_spawn_system(player, store, win, inp.now_ms);
        proof {
            if crate::player::respawn_due(*old(player), inp.now_ms as int) {
                lemma_count_enemies_push(
                    e0,
                    crate::player::spec_player_rec(old(store).next_id, *win),
                );
            }
        }
    }
    let ghost e1 = store.ents@;
    player_keyboard_event_system(store, win, inp.left, inp.right, inp.up, inp.down);
    proof {
        if crate::store::count_players(e1) == 1 {
            crate::store::lemma_single_player_index(e1);
        }
        lemma_same_liveness(e1, store.ents@);
    }
    let ghost e2 = store.ents@;
    player_movement_system(store, win, inp.dt_ms);
    proof {
        if crate::store::count_players(e2) == 1 {
            crate::store::lemma_single_player_index(e2);
        }
        lemma_same_liveness(e2, store.ents@);
    }
    let ghost e3 = store.ents@;
    let ghost id3 = store.next_id;
    player_fire_system(store, win, inp.fire);
    proof {
        if crate::store::count_players(e3) == 1 && inp.fire {
            crate::store::lemma_single_player_index(e3);
            let pi = crate::store::first_player_from(e3, 0);
            let r1 = crate::player::spec_player_laser_rec(
                id3,
                e3[pi].pos,
                crate::player::PLAYER_CANNON_OFF as int,
            );
            let r2 = crate::player::spec_player_laser_rec(
                (id3 + 1) as u64,
                e3[pi].pos,
                -(crate::player::PLAYER_CANNON_OFF as int),
            );
            lemma_count_enemies_push(e3, r1);
            lemma_count_enemies_push(e3.push(r1), r2);
        }
    }
    let ghost e4 = store.ents@;
    movable_system(store, win, inp.dt_ms);
    proof {
        assert forall|i: int|
            0 <= i < e4.len() implies is_live_enemy(#[trigger] e4[i]) == is_live_enemy(
            store.ents@[i],
        ) by {
            assert(crate::store::wf_rec(e4[i], *win));
            assert(store.ents@[i] == crate::motion::moved_rec(e4[i], *win, inp.dt_ms as int));
        }
        lemma_same_liveness(e4, store.ents@);
        if inp.respawn_check && crate::player::respawn_due(*old(player), inp.now_ms as int) {
            let w = e0.len() as int;
            assert(shielded_player_at(e1, w));
            assert(shielded_player_at(e2, w));
            assert(shielded_player_at(e3, w));
            assert(shielded_player_at(e4, w));
            assert(store.ents@[w] == crate::motion::moved_rec(e4[w], *win, inp.dt_ms as int));
            assert(shielded_player_at(store.ents@, w));
        }
    }
}

/// The enemy cadence steps and the two collision passes.
fn combat_phase(
    store: &mut Store,
    count: &mut EnemyCount,
    maker: &mut FormationMaker,
    player: &mut PlayerState,
    events: &mut Vec<EnemyExplosionEvent>,
    win: &WinSize,
    inp: FrameInput,
)
    requires
        win_ok(*win),
        wf_store(*old(store), *win),
        count_ok(*old(store), *old(count)),
        maker_ok(*old(maker), *win),
        player_state_ok(*old(player)),
        0 <= inp.dt_ms <= DT_MAX_MS,
        0 <= inp.now_ms <= TIME_MAX_MS,
        old(store).ents@.len() <= 0x1000_0000_0000,
        old(store).next_id <= 0x2000_0000_0000_0000,
    ensures
        wf_store(*final(store), *win),
        count_ok(*final(store), *final(count)),
        maker_ok(*final(maker), *win),
        player_state_ok(*final(player)),
        final(store).ents@.len() <= 4 * old(store).ents@.len() + 4,
        final(store).next_id <= old(store).next_id + 3 * old(store).ents@.len() + 4,
        old(player).on && has_shielded_player(old(store).ents@) ==> {
            &&& *final(player) == *old(player)
        },
        final(events)@.len() == old(events)@.len() + (old(count).0 + spawn_add(inp, *old(count))
            - final(count).0),
        final(count).0 <= old(count).0 + spawn_add(inp, *old(count)),
{
    if inp.spawn_enemy {
        enemy_spawn_system(store, count, maker, win);
    }
    let ghost e5 = store.ents@;
    let ghost id5 = store.next_id;
    if enemy_fire_criteria() {
        proof {
            crate::enemy::lemma_enemy_fire_points_len(e5);
        }
        enemy_fire_system(store, win);
        proof {
            let cur = store.ents@;
            let pts = crate::enemy::enemy_fire_points(e5);
            let tail = cur.subrange(e5.len() as int, cur.len() as int);
            assert(cur =~= e5 + tail);
            lemma_count_enemies_append(e5, tail);
            assert forall|k: int| 0 <= k < tail.len() implies !is_live_enemy(
                #[trigger] tail[k],
            ) by {
                assert(cur[e5.len() + k] == crate::enemy::spec_enemy_laser_rec(
                    (id5 + k) as u64,
                    pts[k],
                ));
                assert(tail[k] == cur[e5.len() + k]);
            }
            lemma_count_enemies_zero(tail);
        }
    }
    let ghost e6 = store.ents@;
    enemy_movement_system(store, win, inp.dt_ms);
    proof {
        assert forall|i: int|
            0 <= i < e6.len() implies is_live_enemy(#[trigger] e6[i]) == is_live_enemy(
            store.ents@[i],
        ) by {
            if trajectory_applies(e6[i]) {
                assert(enemy_step_rel(e6[i], store.ents@[i], *win, inp.dt_ms as int));
            } else {
                assert(store.ents@[i] == e6[i]);
            }
        }
        lemma_same_liveness(e6, store.ents@);
    }
    let ghost e6b = store.ents@;
    proof {
        crate::collision::lemma_resolve_shape(e6b, 0);
        lemma_count_enemies_nonneg(e6b);
        lemma_count_enemies_nonneg(crate::collision::resolve_from(e6b, 0).ents);
    }
    player_laser_hit_enemy_system(store, count, events, win);
    let ghost e7 = store.ents@;
    let ghost id7 = store.next_id;
    enemy_laser_hit_player_system(store, player, win, inp.now_ms);
    proof {
        let pi = crate::store::first_player_from(e7, 0);
        if crate::store::count_players(e7) == 1 && e7[pi].size is Some && e7[pi].invincible
            is None {
            crate::store::lemma_single_player_index(e7);
            let j = crate::collision::find_player_laser_hit(e7, pi, 0);
            crate::collision::lemma_find_player_laser_hit_props(e7, pi, 0);
            if 0 <= j < e7.len() {
                let u1 = e7.update(pi, crate::store::killed(e7[pi]));
                let u2 = u1.update(j, crate::store::killed(e7[j]));
                lemma_count_enemies_update(e7, pi, crate::store::killed(e7[pi]));
                lemma_count_enemies_update(u1, j, crate::store::killed(e7[j]));
                lemma_count_enemies_push(
                    u2,
                    crate::collision::spec_boom_marker_rec(id7, e7[pi].pos),
                );
            }
        }
        if old(player).on && has_shielded_player(old(store).ents@) {
            let w = choose|w: int| shielded_player_at(old(store).ents@, w);
            assert(shielded_player_at(e5, w));
            assert(shielded_player_at(e6, w));
            if trajectory_applies(e6[w]) {
                assert(enemy_step_rel(e6[w], e6b[w], *win, inp.dt_ms as int));
            } else {
                assert(e6b[w] == e6[w]);
            }
            assert(shielded_player_at(e6b, w));
            assert(e7[w] == crate::collision::resolve_from(e6b, 0).ents[w]);
            assert(shielded_player_at(e7, w));
            if crate::store::count_players(e7) == 1 {
                lemma_shielded_single_player(e7);
            }
        }
    }
}

/// The explosion materialization and animation steps, the
/// invincibility tick, and the sound-cue drain.
fn lifecycle_phase(
    store: &mut Store,
    events: &mut Vec<EnemyExplosionEvent>,
    win: &WinSize,
    dt: i64,
) -> (sounds: usize)
    requires
        win_ok(*win),
        wf_store(*old(store), *win),
        0 <= dt <= DT_MAX_MS,
        old(store).ents@.len() <= 0x1000_0000_0000,
        old(store).next_id <= 0x4000_0000_0000_0000,
    ensures
        wf_store(*final(store), *win),
        count_enemies(final(store).ents@) == count_enemies(old(store).ents@),
        final(events)@.len() == 0,
        sounds == old(events)@.len(),
        final(store).ents@.len() <= 2 * old(store).ents@.len(),
        final(store).next_id <= old(store).next_id + old(store).ents@.len(),
{
    let ghost e8 = store.ents@;
    let ghost id8 = store.next_id;
    proof {
        crate::explosion::lemma_boom_positions_len(e8);
    }
    explosion_to_spawn_system(store, win);
    proof {
        let cur = store.ents@;
        let booms = crate::explosion::boom_positions(e8);
        let head = cur.subrange(0, e8.len() as int);
        let tail = cur.subrange(e8.len() as int, cur.len() as int);
        assert(cur =~= head + tail);
        lemma_count_enemies_append(head, tail);
        assert forall|i: int|
            0 <= i < e8.len() implies is_live_enemy(#[trigger] e8[i]) == is_live_enemy(
            head[i],
        ) by {
            assert(head[i] == cur[i]);
            assert(cur[i] == crate::explosion::consumed_marker(e8[i]));
            assert(crate::store::wf_rec(e8[i], *win));
        }
        lemma_count_enemies_pointwise(e8, head);
        assert forall|k: int| 0 <= k < tail.len() implies !is_live_enemy(
            #[trigger] tail[k],
        ) by {
            assert(cur[e8.len() + k] == crate::explosion::spec_explosion_rec(
                (id8 + k) as u64,
                booms[k],
            ));
            assert(tail[k] == cur[e8.len() + k]);
        }
        lemma_count_enemies_zero(tail);
    }
    let ghost e9 = store.ents@;
    explosion_animation_system(store, win, dt);
    proof {
        assert forall|i: int|
            0 <= i < e9.len() implies is_live_enemy(#[trigger] e9[i]) == is_live_enemy(
            store.ents@[i],
        ) by {
            assert(store.ents@[i] == crate::explosion::explosion_ticked(e9[i], dt as int));
            assert(crate::store::wf_rec(e9[i], *win));
        }
        lemma_same_liveness(e9, store.ents@);
    }
    let ghost e10 = store.ents@;
    invincible_timer_system(store, win, dt);
    proof {
        assert forall|i: int|
            0 <= i < e10.len() implies is_live_enemy(#[trigger] e10[i]) == is_live_enemy(
            store.ents@[i],
        ) by {
            assert(store.ents@[i] == crate::player::invincible_ticked(e10[i], dt as int));
        }
        lemma_same_liveness(e10, store.ents@);
    }
    enemy_explosion_audio_system(events)
}

/// Runs one frame in the fixed system order and returns how many
/// explosion sound cues to play (one per confirmed enemy kill): the
/// number of enemies the spawn cadence added minus the change of the
/// enemy census is exactly the number of kills the collision pass
/// confirmed.  A respawn check that was due leaves the player on the
/// field at the end of the frame (the fresh craft spawns shielded, so
/// the collision pass cannot take it down the same frame), and the
/// table's growth is bounded so the caller can re-establish
/// `sim_roomy` before the next frame.
pub fn run_frame(sim: &mut Sim, win: &WinSize, inp: FrameInput) -> (sounds: usize)
    requires
        win_ok(*win),
        sim_ok(*old(sim), *win),
        sim_roomy(*old(sim)),
        0 <= inp.dt_ms <= DT_MAX_MS,
        0 <= inp.now_ms <= TIME_MAX_MS,
    ensures
        sim_ok(*final(sim), *win),
        inp.respawn_check && crate::player::respawn_due(old(sim).player, inp.now_ms as int)
            ==> final(sim).player.on,
        sounds as int == old(sim).enemy_count.0 + spawn_add(inp, old(sim).enemy_count)
            - final(sim).enemy_count.0,
        final(sim).store.ents@.len() <= 8 * old(sim).store.ents@.len() + 32,
        final(sim).store.next_id <= old(sim).store.next_id + 8 * old(sim).store.ents@.len()
            + 32,
{
    steer_phase(&mut sim.store, &mut sim.player, win, inp);
    combat_phase(
        &mut sim.store,
        &mut sim.enemy_count,
        &mut sim.maker,
        &mut sim.player,
        &mut sim.events,
        win,
        inp,
    );
    lifecycle_phase(&mut sim.store, &mut sim.events, win, inp.dt_ms)
}

} // verus!
