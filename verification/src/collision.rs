//! Collision resolution: axis-aligned box tests between projectiles and
//! their targets, destruction bookkeeping, and pending explosions.

use vstd::prelude::*;
use crate::{WinSize, win_ok, POS_BOUND, TIME_MAX_MS};
use crate::components::{EnemyExplosionEvent, ExplosionToSpawn};
use crate::num::absi;
use crate::player::{player_state_ok, PlayerState};
use crate::store::{
    count_enemies, count_ok, count_players, find_single_player, first_player_from, is_live_enemy,
    killed,
    lemma_count_enemies_nonneg, lemma_count_enemies_push, lemma_count_enemies_update,
    spec_blank_rec, wf_rec, wf_store, EnemyCount, EntityRec, Store,
};

verus! {

/// A live player-fired laser with a collision extent.
pub open spec fn pl_laser_q(r: EntityRec) -> bool {
    r.alive && r.laser is Some && r.from_player is Some && r.size is Some
}

/// A live enemy with a collision extent.
pub open spec fn enemy_q(r: EntityRec) -> bool {
    r.alive && r.enemy is Some && r.size is Some
}

/// A live enemy-fired laser with a collision extent.
pub open spec fn en_laser_q(r: EntityRec) -> bool {
    r.alive && r.laser is Some && r.from_enemy is Some && r.size is Some
}

/// Half of a record's scaled collision extent, per axis.
pub open spec fn half_w(r: EntityRec) -> int {
    r.size.unwrap().0.0 * r.scale / 1000 / 2
}

pub open spec fn half_h(r: EntityRec) -> int {
    r.size.unwrap().0.1 * r.scale / 1000 / 2
}

/// Axis-aligned boxes built from the centres and scaled half-extents
/// overlap (touching counts).
pub open spec fn overlap(a: EntityRec, b: EntityRec) -> bool {
    &&& absi(a.pos.0 - b.pos.0) <= half_w(a) + half_w(b)
    &&& absi(a.pos.1 - b.pos.1) <= half_h(a) + half_h(b)
}

fn overlap_rec(a: &EntityRec, b: &EntityRec) -> (r: bool)
    requires
        a.size is Some,
        b.size is Some,
        0 <= a.size.unwrap().0.0 <= 200_000,
        0 <= a.size.unwrap().0.1 <= 200_000,
        0 <= b.size.unwrap().0.0 <= 200_000,
        0 <= b.size.unwrap().0.1 <= 200_000,
        0 < a.scale <= 1000,
        0 < b.scale <= 1000,
        absi(a.pos.0 as int) <= POS_BOUND,
        absi(a.pos.1 as int) <= POS_BOUND,
        absi(b.pos.0 as int) <= POS_BOUND,
        absi(b.pos.1 as int) <= POS_BOUND,
    ensures
        r == overlap(*a, *b),
{
    proof {
        crate::num::lemma_mul_bound(a.size.unwrap().0.0 as int, a.scale as int, 200_000, 1000);
        crate::num::lemma_mul_bound(a.size.unwrap().0.1 as int, a.scale as int, 200_000, 1000);
        crate::num::lemma_mul_bound(b.size.unwrap().0.0 as int, b.scale as int, 200_000, 1000);
        crate::num::lemma_mul_bound(b.size.unwrap().0.1 as int, b.scale as int, 200_000, 1000);
    }
    let ahw = a.size.unwrap().0 .0 * a.scale / 1000 / 2;
    let ahh = a.size.unwrap().0 .1 * a.scale / 1000 / 2;
    let bhw = b.size.unwrap().0 .0 * b.scale / 1000 / 2;
    let bhh = b.size.unwrap().0 .1 * b.scale / 1000 / 2;
    let dx = a.pos.0 - b.pos.0;
    let dy = a.pos.1 - b.pos.1;
    let adx = if dx < 0 {
        -dx
    } else {
        dx
    };
    let ady = if dy < 0 {
        -dy
    } else {
        dy
    };
    adx <= ahw + bhw && ady <= ahh + bhh
}

/// Index of the first live enemy overlapping the laser at `li`, at or
/// after `j`; the length if there is none.
pub open spec fn find_enemy_hit(ents: Seq<EntityRec>, li: int, j: int) -> int
    decreases ents.len() - j
        when 0 <= j <= ents.len() && 0 <= li < ents.len()
{
    if j >= ents.len() {
        ents.len() as int
    } else if enemy_q(ents[j]) && overlap(ents[li], ents[j]) {
        j
    } else {
        find_enemy_hit(ents, li, j + 1)
    }
}

/// The scan's result is in range and, when it is a real index, names a
/// live overlapping enemy.
pub proof fn lemma_find_enemy_hit_props(ents: Seq<EntityRec>, li: int, from: int)
    requires
        0 <= li < ents.len(),
        0 <= from <= ents.len(),
    ensures
        from <= find_enemy_hit(ents, li, from) <= ents.len(),
        find_enemy_hit(ents, li, from) < ents.len() ==> enemy_q(
            ents[find_enemy_hit(ents, li, from)],
        ) && overlap(ents[li], ents[find_enemy_hit(ents, li, from)]),
    decreases ents.len() - from,
{
    if from < ents.len() && !(enemy_q(ents[from]) && overlap(ents[li], ents[from])) {
        lemma_find_enemy_hit_props(ents, li, from + 1);
    }
}

pub proof fn lemma_find_enemy_hit_char(ents: Seq<EntityRec>, li: int, from: int, j: int)
    requires
        0 <= li < ents.len(),
        0 <= from <= j <= ents.len(),
        forall|k: int| from <= k < j ==> !(enemy_q(#[trigger] ents[k]) && overlap(ents[li], ents[k])),
        j == ents.len() || (enemy_q(ents[j]) && overlap(ents[li], ents[j])),
    ensures
        find_enemy_hit(ents, li, from) == j,
    decreases j - from,
{
    if from < j {
        lemma_find_enemy_hit_char(ents, li, from + 1, j);
    }
}

/// The outcome of the laser-versus-enemy pass over a table: the table
/// with the victims destroyed, the positions where explosions are due,
/// and the number of confirmed kills.
pub struct HitOutcome {
    pub ents: Seq<EntityRec>,
    pub booms: Seq<(i64, i64, i64)>,
    pub kills: int,
}

/// The pass from laser index `li` on: each live player laser destroys
/// the first live enemy whose box it overlaps — both at most once, the
/// laser spent on the first hit — queueing one explosion at the enemy's
/// position and counting one kill.
pub open spec fn resolve_from(ents: Seq<EntityRec>, li: int) -> HitOutcome
    decreases ents.len() - li
        when 0 <= li <= ents.len()
{
    if li >= ents.len() {
        HitOutcome { ents, booms: Seq::empty(), kills: 0 }
    } else if pl_laser_q(ents[li]) {
        let j = find_enemy_hit(ents, li, 0);
        if 0 <= j < ents.len() {
            let ents2 = ents.update(li, killed(ents[li])).update(j, killed(ents[j]));
            let rest = resolve_from(ents2, li + 1);
            HitOutcome {
                ents: rest.ents,
                booms: seq![ents[j].pos] + rest.booms,
                kills: 1 + rest.kills,
            }
        } else {
            resolve_from(ents, li + 1)
        }
    } else {
        resolve_from(ents, li + 1)
    }
}

/// A pending-explosion marker at `pos`.
pub open spec fn spec_boom_marker_rec(id: u64, pos: (i64, i64, i64)) -> EntityRec {
    EntityRec { boom_at: Some(ExplosionToSpawn(pos)), ..spec_blank_rec(id) }
}

/// Shape of the pass: it never adds or reorders records, it only clears
/// liveness flags, it queues exactly one explosion per kill, and the
/// enemy census drops by exactly the number of kills (each victim is
/// destroyed at most once).  The census claim assumes no record is both
/// a player laser and an enemy, which holds of every record the
/// simulation spawns.
pub proof fn lemma_resolve_shape(ents: Seq<EntityRec>, li: int)
    requires
        0 <= li <= ents.len(),
        forall|i: int| 0 <= i < ents.len() ==> !(pl_laser_q(#[trigger] ents[i]) && ents[i].enemy is Some),
    ensures
        resolve_from(ents, li).ents.len() == ents.len(),
        forall|i: int|
            0 <= i < ents.len() ==> #[trigger] resolve_from(ents, li).ents[i] == ents[i]
                || resolve_from(ents, li).ents[i] == killed(ents[i]),
        forall|i: int|
            0 <= i < ents.len() && !(pl_laser_q(#[trigger] ents[i]) || enemy_q(ents[i]))
                ==> resolve_from(ents, li).ents[i] == ents[i],
        resolve_from(ents, li).booms.len() == resolve_from(ents, li).kills,
        resolve_from(ents, li).kills == count_enemies(ents) - count_enemies(
            resolve_from(ents, li).ents,
        ),
        0 <= resolve_from(ents, li).kills,
    decreases ents.len() - li,
{
    let out = resolve_from(ents, li);
    if li >= ents.len() {
    } else if pl_laser_q(ents[li]) {
        let j = find_enemy_hit(ents, li, 0);
        lemma_find_enemy_hit_props(ents, li, 0);
        if 0 <= j < ents.len() {
            let e1 = ents.update(li, killed(ents[li]));
            let ents2 = e1.update(j, killed(ents[j]));
            assert(enemy_q(ents[j]));
            assert(j != li);
            lemma_count_enemies_update(ents, li, killed(ents[li]));
            lemma_count_enemies_update(e1, j, killed(ents[j]));
            assert(!is_live_enemy(ents[li]));
            assert(!is_live_enemy(killed(ents[li])));
            assert(e1[j] == ents[j]);
            assert(is_live_enemy(e1[j]));
            assert(!is_live_enemy(killed(ents[j])));
            assert(count_enemies(ents2) == count_enemies(ents) - 1);
            assert(forall|i: int|
                0 <= i < ents2.len() ==> !(pl_laser_q(#[trigger] ents2[i]) && ents2[i].enemy
                    is Some));
            lemma_resolve_shape(ents2, li + 1);
        } else {
            lemma_resolve_shape(ents, li + 1);
        }
    } else {
        lemma_resolve_shape(ents, li + 1);
    }
}

/// Index of the first live enemy laser overlapping the player at `pi`,
/// at or after `j`; the length if there is none.
pub open spec fn find_player_laser_hit(ents: Seq<EntityRec>, pi: int, j: int) -> int
    decreases ents.len() - j
        when 0 <= j <= ents.len() && 0 <= pi < ents.len()
{
    if j >= ents.len() {
        ents.len() as int
    } else if en_laser_q(ents[j]) && overlap(ents[j], ents[pi]) {
        j
    } else {
        find_player_laser_hit(ents, pi, j + 1)
    }
}

/// The laser scan's result is in range and, when it is a real index,
/// names a live overlapping enemy laser.
pub proof fn lemma_find_player_laser_hit_props(ents: Seq<EntityRec>, pi: int, from: int)
    requires
        0 <= pi < ents.len(),
        0 <= from <= ents.len(),
    ensures
        from <= find_player_laser_hit(ents, pi, from) <= ents.len(),
        find_player_laser_hit(ents, pi, from) < ents.len() ==> en_laser_q(
            ents[find_player_laser_hit(ents, pi, from)],
        ) && overlap(ents[find_player_laser_hit(ents, pi, from)], ents[pi]),
    decreases ents.len() - from,
{
    if from < ents.len() && !(en_laser_q(ents[from]) && overlap(ents[from], ents[pi])) {
        lemma_find_player_laser_hit_props(ents, pi, from + 1);
    }
}

pub proof fn lemma_find_player_laser_hit_char(ents: Seq<EntityRec>, pi: int, from: int, j: int)
    requires
        0 <= pi < ents.len(),
        0 <= from <= j <= ents.len(),
        forall|k: int|
            from <= k < j ==> !(en_laser_q(#[trigger] ents[k]) && overlap(ents[k], ents[pi])),
        j == ents.len() || (en_laser_q(ents[j]) && overlap(ents[j], ents[pi])),
    ensures
        find_player_laser_hit(ents, pi, from) == j,
    decreases j - from,
{
    if from < j {
        lemma_find_player_laser_hit_char(ents, pi, from + 1, j);
    }
}

/// Tests every live enemy laser against the single live player: on the
/// first overlap the player and that laser are destroyed, the death
/// time is recorded, one pending explosion is queued at the player's
/// position, and the scan stops — the player dies at most once per
/// frame.  A player inside its invincibility window is excluded from
/// the test, as is any census other than exactly one live player.
pub fn enemy_laser_hit_player_system(
    s: &mut Store,
    state: &mut PlayerState,
    win: &WinSize,
    now: i64,
)
    requires
        win_ok(*win),
        wf_store(*old(s), *win),
        player_state_ok(*old(state)),
        0 <= now <= TIME_MAX_MS,
        old(s).next_id < u64::MAX,
    ensures
        ({
            let ents = old(s).ents@;
            let pi = first_player_from(ents, 0);
            if count_players(ents) == 1 && ents[pi].size is Some && ents[pi].invincible
                is None {
                let j = find_player_laser_hit(ents, pi, 0);
                if 0 <= j < ents.len() {
                    &&& final(s).ents@ == ents.update(pi, killed(ents[pi])).update(
                        j,
                        killed(ents[j]),
                    ).push(spec_boom_marker_rec(old(s).next_id, ents[pi].pos))
                    &&& final(s).next_id == old(s).next_id + 1
                    &&& !final(state).on
                    &&& final(state).last_shot == now
                } else {
                    &&& final(s).ents@ == ents
                    &&& final(s).next_id == old(s).next_id
                    &&& *final(state) == *old(state)
                }
            } else {
                &&& final(s).ents@ == ents
                &&& final(s).next_id == old(s).next_id
                &&& *final(state) == *old(state)
            }
        }),
        wf_store(*final(s), *win),
        player_state_ok(*final(state)),
{
    let target = find_single_player(s);
    if let Some(pi) = target {
        let prec = s.ents[pi];
        if prec.size.is_some() && prec.invincible.is_none() {
            let n = s.ents.len();
            let mut j: usize = 0;
            let mut hit: Option<usize> = None;
            while j < n && hit.is_none()
                invariant
                    pi < n,
                    j <= n,
                    n == s.ents@.len(),
                    win_ok(*win),
                    prec == s.ents@[pi as int],
                    prec.size is Some,
                    forall|k: int| 0 <= k < n ==> wf_rec(#[trigger] s.ents@[k], *win),
                    hit is None ==> forall|k: int|
                        0 <= k < j ==> !(en_laser_q(#[trigger] s.ents@[k]) && overlap(
                            s.ents@[k],
                            s.ents@[pi as int],
                        )),
                    hit matches Some(h) ==> h < n && h as int == find_player_laser_hit(
                        s.ents@,
                        pi as int,
                        0,
                    ),
                decreases n - j,
            {
                let e = s.ents[j];
                if e.alive && e.laser.is_some() && e.from_enemy.is_some() && e.size.is_some()
                    && overlap_rec(&e, &prec) {
                    proof {
                        lemma_find_player_laser_hit_char(s.ents@, pi as int, 0, j as int);
                    }
                    hit = Some(j);
                }
                j = j + 1;
            }
            proof {
                if hit is None {
                    lemma_find_player_laser_hit_char(s.ents@, pi as int, 0, n as int);
                }
            }
            if let Some(h) = hit {
                let mut killed_player = s.ents[pi];
                killed_player.alive = false;
                s.ents[pi] = killed_player;
                let mut killed_laser = s.ents[h];
                killed_laser.alive = false;
                s.ents[h] = killed_laser;
                state.shot(now);
                let id = s.next_id;
                let mut rec = crate::store::blank_rec(id);
                rec.boom_at = Some(ExplosionToSpawn(prec.pos));
                s.spawn(rec);
            }
        }
    }
}

/// Resolves player-fired lasers against enemies: on each overlap both
/// entities are destroyed (at most once per frame each), the census is
/// decremented per kill, one pending explosion is queued at the enemy's
/// position, and one kill event is emitted per confirmed kill.
pub fn player_laser_hit_enemy_system(
    s: &mut Store,
    c: &mut EnemyCount,
    events: &mut Vec<EnemyExplosionEvent>,
    win: &WinSize,
)
    requires
        win_ok(*win),
        wf_store(*old(s), *win),
        count_ok(*old(s), *old(c)),
        old(s).next_id + old(s).ents@.len() < u64::MAX,
    ensures
        ({
            let out = resolve_from(old(s).ents@, 0);
            &&& final(s).ents@.len() == old(s).ents@.len() + out.booms.len()
            &&& forall|i: int|
                0 <= i < old(s).ents@.len() ==> final(s).ents@[i] == out.ents[i]
            &&& forall|k: int|
                0 <= k < out.booms.len() ==> final(s).ents@[old(s).ents@.len() + k]
                    == spec_boom_marker_rec((old(s).next_id + k) as u64, out.booms[k])
            &&& final(s).next_id == old(s).next_id + out.booms.len()
            &&& final(c).0 == old(c).0 - out.kills
            &&& final(events)@.len() == old(events)@.len() + out.kills
        }),
        wf_store(*final(s), *win),
        count_ok(*final(s), *final(c)),
{
    let ghost orig = s.ents@;
    let ghost out = resolve_from(orig, 0);
    let n = s.ents.len();
    let mut li: usize = 0;
    let mut booms: Vec<(i64, i64, i64)> = Vec::new();
    while li < n
        invariant
            win_ok(*win),
            li <= n,
            n == s.ents@.len(),
            n == orig.len(),
            s.next_id == old(s).next_id,
            out == resolve_from(orig, 0),
            out.ents == resolve_from(s.ents@, li as int).ents,
            out.booms == booms@ + resolve_from(s.ents@, li as int).booms,
            out.kills == booms@.len() + resolve_from(s.ents@, li as int).kills,
            booms@.len() <= li,
            c.0 as int == count_enemies(s.ents@),
            c.0 as int == old(c).0 - booms@.len(),
            events@.len() == old(events)@.len() + booms@.len(),
            forall|k: int| 0 <= k < n ==> wf_rec(#[trigger] s.ents@[k], *win),
            forall|k: int| 0 <= k < n ==> (#[trigger] s.ents@[k]).id == orig[k].id,
            forall|p: int|
                0 <= p < booms@.len() ==> absi((#[trigger] booms@[p]).0 as int) <= POS_BOUND
                    && absi(booms@[p].1 as int) <= POS_BOUND && absi(booms@[p].2 as int)
                    <= POS_BOUND,
        decreases n - li,
    {
        let ghost cur0 = s.ents@;
        let lrec = s.ents[li];
        if lrec.alive && lrec.laser.is_some() && lrec.from_player.is_some()
            && lrec.size.is_some() {
            let mut j: usize = 0;
            let mut hit: Option<usize> = None;
            while j < n && hit.is_none()
                invariant
                    li < n,
                    j <= n,
                    n == s.ents@.len(),
                    lrec == s.ents@[li as int],
                    pl_laser_q(lrec),
                    win_ok(*win),
                    forall|k: int| 0 <= k < n ==> wf_rec(#[trigger] s.ents@[k], *win),
                    hit is None ==> forall|k: int|
                        0 <= k < j ==> !(enemy_q(#[trigger] s.ents@[k]) && overlap(
                            s.ents@[li as int],
                            s.ents@[k],
                        )),
                    hit matches Some(h) ==> h < n && h as int == find_enemy_hit(
                        s.ents@,
                        li as int,
                        0,
                    ) && enemy_q(s.ents@[h as int]),
                decreases n - j,
            {
                let e = s.ents[j];
                if e.alive && e.enemy.is_some() && e.size.is_some() && overlap_rec(&lrec, &e) {
                    proof {
                        lemma_find_enemy_hit_char(s.ents@, li as int, 0, j as int);
                    }
                    hit = Some(j);
                }
                j = j + 1;
            }
            proof {
                if hit is None {
                    lemma_find_enemy_hit_char(s.ents@, li as int, 0, n as int);
                }
            }
            if let Some(h) = hit {
                let epos = s.ents[h].pos;
                let mut killed_laser = s.ents[li];
                killed_laser.alive = false;
                s.ents[li] = killed_laser;
                let mut killed_enemy = s.ents[h];
                killed_enemy.alive = false;
                s.ents[h] = killed_enemy;
                proof {
                    let e1 = cur0.update(li as int, killed(cur0[li as int]));
                    let cur2 = e1.update(h as int, killed(cur0[h as int]));
                    assert(h != li);
                    assert(s.ents@ =~= cur2);
                    lemma_count_enemies_update(cur0, li as int, killed(cur0[li as int]));
                    lemma_count_enemies_update(e1, h as int, killed(cur0[h as int]));
                    lemma_count_enemies_nonneg(cur2);
                    let rest = resolve_from(cur2, li as int + 1);
                    assert(resolve_from(cur0, li as int).booms == seq![epos] + rest.booms);
                    assert(out.booms =~= (booms@.push(epos)) + rest.booms);
                }
                booms.push(epos);
                events.push(EnemyExplosionEvent);
                c.0 = c.0 - 1;
            }
        }
        li = li + 1;
    }
    proof {
        assert(resolve_from(s.ents@, n as int).booms =~= Seq::<(i64, i64, i64)>::empty());
        assert(out.booms =~= booms@);
        assert(orig == old(s).ents@);
    }
    let m = booms.len();
    let mut k: usize = 0;
    while k < m
        invariant
            win_ok(*win),
            k <= m,
            m == booms@.len(),
            n == orig.len(),
            s.ents@.len() == n + k,
            s.next_id == old(s).next_id + k,
            old(s).next_id + m < u64::MAX,
            c.0 as int == count_enemies(s.ents@),
            forall|j: int| 0 <= j < n ==> s.ents@[j] == out.ents[j],
            forall|j: int|
                0 <= j < k ==> s.ents@[n + j] == spec_boom_marker_rec(
                    (old(s).next_id + j) as u64,
                    booms@[j],
                ),
            forall|j: int| 0 <= j < s.ents@.len() ==> wf_rec(#[trigger] s.ents@[j], *win),
            forall|j: int| 0 <= j < s.ents@.len() ==> (#[trigger] s.ents@[j]).id < s.next_id,
            forall|j1: int, j2: int|
                0 <= j1 < j2 < s.ents@.len() ==> (#[trigger] s.ents@[j1]).id != (
                #[trigger] s.ents@[j2]).id,
            forall|p: int|
                0 <= p < booms@.len() ==> absi((#[trigger] booms@[p]).0 as int) <= POS_BOUND
                    && absi(booms@[p].1 as int) <= POS_BOUND && absi(booms@[p].2 as int)
                    <= POS_BOUND,
        decreases m - k,
    {
        let id = s.next_id;
        let spot = booms[k];
        let mut rec = crate::store::blank_rec(id);
        rec.boom_at = Some(ExplosionToSpawn(spot));
        proof {
            lemma_count_enemies_push(s.ents@, rec);
        }
        s.spawn(rec);
        k = k + 1;
    }
}

} // verus!
