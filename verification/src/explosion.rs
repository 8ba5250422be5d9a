//! Explosion lifecycle: pending markers become animated explosion
//! entities, the animation advances on a repeating timer and the entity
//! destroys itself after the last sheet frame, and each confirmed kill
//! yields one sound cue.

use vstd::prelude::*;
use crate::{WinSize, win_ok, DT_MAX_MS, EXPLOSION_LEN, EXPLOSION_TICK_MS};
use crate::components::{EnemyExplosionEvent, Explosion, ExplosionTimer};
use crate::store::{killed, spec_blank_rec, wf_rec, wf_store, EntityRec, Store};

verus! {

/// A live pending-explosion marker.
pub open spec fn is_boom_marker(r: EntityRec) -> bool {
    r.alive && r.boom_at is Some
}

/// The positions of the live pending-explosion markers, in table order.
pub open spec fn boom_positions(ents: Seq<EntityRec>) -> Seq<(i64, i64, i64)>
    decreases ents.len(),
{
    if ents.len() == 0 {
        Seq::empty()
    } else {
        boom_positions(ents.drop_last()) + (if is_boom_marker(ents.last()) {
            seq![ents.last().boom_at.unwrap().0]
        } else {
            Seq::empty()
        })
    }
}

pub proof fn lemma_boom_positions_len(ents: Seq<EntityRec>)
    ensures
        boom_positions(ents).len() <= ents.len(),
    decreases ents.len(),
{
    if ents.len() > 0 {
        lemma_boom_positions_len(ents.drop_last());
    }
}

pub proof fn lemma_boom_positions_take(ents: Seq<EntityRec>, i: int)
    requires
        0 <= i < ents.len(),
    ensures
        boom_positions(ents.take(i + 1)) == boom_positions(ents.take(i)) + (if is_boom_marker(
            ents[i],
        ) {
            seq![ents[i].boom_at.unwrap().0]
        } else {
            Seq::empty()
        }),
{
    assert(ents.take(i + 1).drop_last() =~= ents.take(i));
    assert(ents.take(i + 1).last() == ents[i]);
}

/// A marker whose explosion has been materialized is destroyed; every
/// other record is untouched.
pub open spec fn consumed_marker(r: EntityRec) -> EntityRec {
    if is_boom_marker(r) {
        killed(r)
    } else {
        r
    }
}

/// A freshly materialized explosion entity: the animation at frame
/// zero, its repeating timer just started.
pub open spec fn spec_explosion_rec(id: u64, pos: (i64, i64, i64)) -> EntityRec {
    EntityRec {
        pos,
        explosion: Some(Explosion),
        boom_timer: Some(ExplosionTimer { elapsed_ms: 0 }),
        ..spec_blank_rec(id)
    }
}

/// Replaces every live pending-explosion marker with an animated
/// explosion entity at the marker's position.
pub fn explosion_to_spawn_system(s: &mut Store, win: &WinSize)
    requires
        win_ok(*win),
        wf_store(*old(s), *win),
        old(s).next_id + old(s).ents@.len() < u64::MAX,
    ensures
        ({
            let orig = old(s).ents@;
            let booms = boom_positions(orig);
            &&& final(s).ents@.len() == orig.len() + booms.len()
            &&& forall|i: int|
                0 <= i < orig.len() ==> final(s).ents@[i] == consumed_marker(orig[i])
            &&& forall|k: int|
                0 <= k < booms.len() ==> final(s).ents@[orig.len() + k] == spec_explosion_rec(
                    (old(s).next_id + k) as u64,
                    booms[k],
                )
            &&& final(s).next_id == old(s).next_id + booms.len()
        }),
        wf_store(*final(s), *win),
{
    let ghost orig = s.ents@;
    let n = s.ents.len();
    let mut i: usize = 0;
    let mut spots: Vec<(i64, i64, i64)> = Vec::new();
    while i < n
        invariant
            win_ok(*win),
            i <= n,
            n == s.ents@.len(),
            n == orig.len(),
            s.next_id == old(s).next_id,
            spots@ == boom_positions(orig.take(i as int)),
            spots@.len() <= i,
            forall|p: int| 0 <= p < spots@.len() ==> wf_pos(#[trigger] spots@[p]),
            forall|k: int| 0 <= k < i ==> s.ents@[k] == consumed_marker(orig[k]),
            forall|k: int| i <= k < n ==> s.ents@[k] == orig[k],
            forall|k: int| 0 <= k < n ==> wf_rec(#[trigger] s.ents@[k], *win),
            forall|k: int| 0 <= k < n ==> (#[trigger] s.ents@[k]).id == orig[k].id,
        decreases n - i,
    {
        proof {
            lemma_boom_positions_take(orig, i as int);
        }
        let r = s.ents[i];
        if r.alive && r.boom_at.is_some() {
            let spot = r.boom_at.unwrap().0;
            spots.push(spot);
            let mut nr = r;
            nr.alive = false;
            s.ents[i] = nr;
        }
        i = i + 1;
    }
    proof {
        assert(orig.take(n as int) =~= orig);
        assert(orig == old(s).ents@);
    }
    let m = spots.len();
    let mut k: usize = 0;
    while k < m
        invariant
            win_ok(*win),
            k <= m,
            m == spots@.len(),
            n == orig.len(),
            spots@ == boom_positions(orig),
            s.ents@.len() == n + k,
            s.next_id == old(s).next_id + k,
            old(s).next_id + m < u64::MAX,
            forall|j: int| 0 <= j < n ==> s.ents@[j] == consumed_marker(orig[j]),
            forall|j: int|
                0 <= j < k ==> s.ents@[n + j] == spec_explosion_rec(
                    (old(s).next_id + j) as u64,
                    spots@[j],
                ),
            forall|j: int| 0 <= j < s.ents@.len() ==> wf_rec(#[trigger] s.ents@[j], *win),
            forall|j: int| 0 <= j < s.ents@.len() ==> (#[trigger] s.ents@[j]).id < s.next_id,
            forall|j1: int, j2: int|
                0 <= j1 < j2 < s.ents@.len() ==> (#[trigger] s.ents@[j1]).id != (
                #[trigger] s.ents@[j2]).id,
            forall|p: int| 0 <= p < spots@.len() ==> wf_pos(#[trigger] spots@[p]),
        decreases m - k,
    {
        let id = s.next_id;
        let spot = spots[k];
        let mut rec = crate::store::blank_rec(id);
        rec.pos = spot;
        rec.explosion = Some(Explosion);
        rec.boom_timer = Some(ExplosionTimer { elapsed_ms: 0 });
        s.spawn(rec);
        k = k + 1;
    }
}

/// A position inside the carried box.
pub open spec fn wf_pos(p: (i64, i64, i64)) -> bool {
    &&& crate::num::absi(p.0 as int) <= crate::POS_BOUND
    &&& crate::num::absi(p.1 as int) <= crate::POS_BOUND
    &&& crate::num::absi(p.2 as int) <= crate::POS_BOUND
}

/// What one animation tick makes of a record: a live explosion
/// accumulates time, advances a frame whenever the repeating timer
/// fires, and destroys itself once the frame index reaches the sheet
/// length.
pub open spec fn explosion_ticked(r: EntityRec, dt: int) -> EntityRec {
    match (r.explosion, r.boom_timer) {
        (Some(_), Some(t)) => if r.alive {
            let e = t.elapsed_ms + dt;
            if e >= EXPLOSION_TICK_MS {
                let nr = EntityRec {
                    boom_timer: Some(
                        ExplosionTimer { elapsed_ms: (e % (EXPLOSION_TICK_MS as int)) as i64 },
                    ),
                    anim_frame: (r.anim_frame + 1) as u32,
                    ..r
                };
                if r.anim_frame + 1 >= EXPLOSION_LEN {
                    killed(nr)
                } else {
                    nr
                }
            } else {
                EntityRec { boom_timer: Some(ExplosionTimer { elapsed_ms: e as i64 }), ..r }
            }
        } else {
            r
        },
        _ => r,
    }
}

/// A record ticked `n` times with the same frame delta.
pub open spec fn explosion_ticked_n(r: EntityRec, dt: int, n: nat) -> EntityRec
    decreases n,
{
    if n == 0 {
        r
    } else {
        explosion_ticked(explosion_ticked_n(r, dt, (n - 1) as nat), dt)
    }
}

proof fn lemma_explosion_progress(r: EntityRec, k: nat)
    requires
        r.alive,
        r.explosion is Some,
        r.boom_timer == (Some(ExplosionTimer { elapsed_ms: 0 })),
        r.anim_frame == 0,
        k < EXPLOSION_LEN,
    ensures
        explosion_ticked_n(r, EXPLOSION_TICK_MS as int, k) == (EntityRec {
            anim_frame: k as u32,
            ..r
        }),
    decreases k,
{
    if k == 0 {
        assert(explosion_ticked_n(r, EXPLOSION_TICK_MS as int, 0) == EntityRec {
            anim_frame: 0u32,
            ..r
        });
    } else {
        lemma_explosion_progress(r, (k - 1) as nat);
    }
}

/// The explosion lifecycle: an explosion ticked once per timer interval
/// still exists after one tick fewer than the sheet length, showing the
/// last valid frame, and has destroyed itself after exactly the sheet
/// length of ticks.  It never loops.
pub proof fn lemma_explosion_lifecycle(r: EntityRec)
    requires
        r.alive,
        r.explosion is Some,
        r.boom_timer == (Some(ExplosionTimer { elapsed_ms: 0 })),
        r.anim_frame == 0,
    ensures
        explosion_ticked_n(r, EXPLOSION_TICK_MS as int, (EXPLOSION_LEN - 1) as nat).alive,
        explosion_ticked_n(r, EXPLOSION_TICK_MS as int, (EXPLOSION_LEN - 1) as nat).anim_frame
            == EXPLOSION_LEN - 1,
        !explosion_ticked_n(r, EXPLOSION_TICK_MS as int, EXPLOSION_LEN as nat).alive,
{
    lemma_explosion_progress(r, (EXPLOSION_LEN - 1) as nat);
}

/// Advances every live explosion animation and destroys the ones whose
/// sheet has run out.
pub fn explosion_animation_system(s: &mut Store, win: &WinSize, dt: i64)
    requires
        win_ok(*win),
        wf_store(*old(s), *win),
        0 <= dt <= DT_MAX_MS,
    ensures
        final(s).ents@.len() == old(s).ents@.len(),
        forall|i: int|
            0 <= i < old(s).ents@.len() ==> final(s).ents@[i] == explosion_ticked(
                old(s).ents@[i],
                dt as int,
            ),
        final(s).next_id == old(s).next_id,
        wf_store(*final(s), *win),
{
    let ghost orig = s.ents@;
    let n = s.ents.len();
    let mut i: usize = 0;
    while i < n
        invariant
            win_ok(*win),
            0 <= dt <= DT_MAX_MS,
            i <= n,
            n == s.ents@.len(),
            n == orig.len(),
            s.next_id == old(s).next_id,
            forall|k: int| 0 <= k < i ==> s.ents@[k] == explosion_ticked(orig[k], dt as int),
            forall|k: int| i <= k < n ==> s.ents@[k] == orig[k],
            forall|k: int| 0 <= k < n ==> wf_rec(#[trigger] s.ents@[k], *win),
            forall|k: int| 0 <= k < n ==> (#[trigger] s.ents@[k]).id == orig[k].id,
        decreases n - i,
    {
        let r = s.ents[i];
        if r.alive && r.explosion.is_some() && r.boom_timer.is_some() {
            let t = r.boom_timer.unwrap();
            let e = t.elapsed_ms + dt;
            let mut nr = r;
            if e >= EXPLOSION_TICK_MS {
                nr.boom_timer = Some(ExplosionTimer { elapsed_ms: e % EXPLOSION_TICK_MS });
                nr.anim_frame = r.anim_frame + 1;
                if nr.anim_frame >= EXPLOSION_LEN {
                    nr.alive = false;
                }
            } else {
                nr.boom_timer = Some(ExplosionTimer { elapsed_ms: e });
            }
            s.ents[i] = nr;
        }
        i = i + 1;
    }
    proof {
        assert(orig == old(s).ents@);
    }
}

/// Drains the kill-event queue and says how many explosion sound cues
/// to play: one per confirmed enemy kill, never coalesced.
pub fn enemy_explosion_audio_system(events: &mut Vec<EnemyExplosionEvent>) -> (n: usize)
    ensures
        n == old(events)@.len(),
        final(events)@.len() == 0,
{
    let n = events.len();
    events.clear();
    n
}

} // verus!
