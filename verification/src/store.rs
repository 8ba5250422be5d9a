//! The entity arena: a table of entity records with open component
//! sets, keyed by a stable numeric id.
//!
//! Each record carries every component the simulation knows, as an
//! `Option`; "has component X" is `Some`.  Destruction clears the
//! `alive` flag, so ids stay stable for the whole frame and a destroyed
//! entity can never be processed twice.

use vstd::prelude::*;
use crate::{WinSize, EXPLOSION_LEN, EXPLOSION_TICK_MS, INVINCIBLE_MS, POS_BOUND};
use crate::components::{
    Enemy, Explosion, ExplosionTimer, ExplosionToSpawn, FromEnemy, FromPlayer, Invincible, Laser,
    Movable, Player, SpriteSize, Velocity,
};
use crate::formation::{formation_inv, Formation};
use crate::num::absi;

verus! {

/// One entity: an id, a liveness flag, and its components.
/// `pos` is the translation in milli-pixels (the third coordinate is the
/// draw-order depth), `scale` the uniform sprite scale in per-mille, and
/// `anim_frame` the sprite-sheet frame index of an explosion.
#[derive(Clone, Copy, Debug, PartialEq, Eq)]
pub struct EntityRec {
    pub id: u64,
    pub alive: bool,
    pub pos: (i64, i64, i64),
    pub scale: i64,
    pub vel: Option<Velocity>,
    pub size: Option<SpriteSize>,
    pub movable: Option<Movable>,
    pub formation: Option<Formation>,
    pub laser: Option<Laser>,
    pub player: Option<Player>,
    pub from_player: Option<FromPlayer>,
    pub enemy: Option<Enemy>,
    pub from_enemy: Option<FromEnemy>,
    pub explosion: Option<Explosion>,
    pub boom_at: Option<ExplosionToSpawn>,
    pub boom_timer: Option<ExplosionTimer>,
    pub invincible: Option<Invincible>,
    pub anim_frame: u32,
}

/// A live record with no components: the starting point of every spawn.
pub open spec fn spec_blank_rec(id: u64) -> EntityRec {
    EntityRec {
        id,
        alive: true,
        pos: (0, 0, 0),
        scale: 1000,
        vel: None,
        size: None,
        movable: None,
        formation: None,
        laser: None,
        player: None,
        from_player: None,
        enemy: None,
        from_enemy: None,
        explosion: None,
        boom_at: None,
        boom_timer: None,
        invincible: None,
        anim_frame: 0,
    }
}

pub fn blank_rec(id: u64) -> (r: EntityRec)
    ensures
        r == spec_blank_rec(id),
{
    EntityRec {
        id,
        alive: true,
        pos: (0, 0, 0),
        scale: 1000,
        vel: None,
        size: None,
        movable: None,
        formation: None,
        laser: None,
        player: None,
        from_player: None,
        enemy: None,
        from_enemy: None,
        explosion: None,
        boom_at: None,
        boom_timer: None,
        invincible: None,
        anim_frame: 0,
    }
}

/// The same record with the liveness flag cleared.
pub open spec fn killed(r: EntityRec) -> EntityRec {
    EntityRec { alive: false, ..r }
}

/// Well-formedness of one record: positions inside the carried box,
/// scales and component payloads in their ranges, the two integrators
/// mutually exclusive (a formation or enemy entity is never also
/// velocity-driven), and the role markers never combined on one
/// record.
pub open spec fn wf_rec(r: EntityRec, win: WinSize) -> bool {
    &&& absi(r.pos.0 as int) <= POS_BOUND
    &&& absi(r.pos.1 as int) <= POS_BOUND
    &&& absi(r.pos.2 as int) <= POS_BOUND
    &&& 0 < r.scale <= 1000
    &&& r.vel matches Some(v) ==> absi(v.x as int) <= 1000 && absi(v.y as int) <= 1000
    &&& r.size matches Some(s) ==> 0 <= s.0.0 <= 200_000 && 0 <= s.0.1 <= 200_000
    &&& r.formation matches Some(f) ==> formation_inv(f, win) && r.vel is None && r.movable
        is None
    &&& r.boom_at matches Some(b) ==> absi(b.0.0 as int) <= POS_BOUND && absi(b.0.1 as int)
        <= POS_BOUND && absi(b.0.2 as int) <= POS_BOUND
    &&& r.boom_timer matches Some(t) ==> 0 <= t.elapsed_ms < EXPLOSION_TICK_MS
    &&& r.alive && r.explosion is Some ==> r.anim_frame < EXPLOSION_LEN
    &&& r.invincible matches Some(iv) ==> 0 < iv.remaining_ms <= INVINCIBLE_MS
    &&& r.anim_frame <= EXPLOSION_LEN
    &&& !(r.laser is Some && r.enemy is Some)
    &&& !(r.laser is Some && r.player is Some)
    &&& !(r.player is Some && r.enemy is Some)
    &&& !(r.explosion is Some && r.enemy is Some)
    &&& !(r.boom_at is Some && r.enemy is Some)
    &&& r.enemy is Some ==> r.vel is None && r.movable is None
}

/// The shared table of entities.  Ids are issued in increasing order and
/// never reused.
pub struct Store {
    pub ents: Vec<EntityRec>,
    pub next_id: u64,
}

pub open spec fn wf_store(s: Store, win: WinSize) -> bool {
    &&& forall|i: int| 0 <= i < s.ents@.len() ==> wf_rec(#[trigger] s.ents@[i], win)
    &&& forall|i: int| 0 <= i < s.ents@.len() ==> (#[trigger] s.ents@[i]).id < s.next_id
    &&& forall|i: int, j: int|
        0 <= i < j < s.ents@.len() ==> (#[trigger] s.ents@[i]).id != (#[trigger] s.ents@[j]).id
}

impl Store {
    pub fn new() -> (s: Store)
        ensures
            s.ents@.len() == 0,
            s.next_id == 0,
    {
        Store { ents: Vec::new(), next_id: 0 }
    }

    /// Appends a record carrying the next fresh id.
    pub fn spawn(&mut self, r: EntityRec)
        requires
            r.id == old(self).next_id,
            old(self).next_id < u64::MAX,
        ensures
            final(self).ents@ == old(self).ents@.push(r),
            final(self).next_id == old(self).next_id + 1,
    {
        self.ents.push(r);
        self.next_id = self.next_id + 1;
    }
}

/// A live enemy craft.
pub open spec fn is_live_enemy(r: EntityRec) -> bool {
    r.alive && r.enemy is Some
}

/// A live player craft.
pub open spec fn is_live_player(r: EntityRec) -> bool {
    r.alive && r.player is Some
}

/// Number of live enemies in the table.
pub open spec fn count_enemies(ents: Seq<EntityRec>) -> int
    decreases ents.len(),
{
    if ents.len() == 0 {
        0
    } else {
        count_enemies(ents.drop_last()) + if is_live_enemy(ents.last()) {
            1int
        } else {
            0int
        }
    }
}

/// Number of live players in the table.
pub open spec fn count_players(ents: Seq<EntityRec>) -> int
    decreases ents.len(),
{
    if ents.len() == 0 {
        0
    } else {
        count_players(ents.drop_last()) + if is_live_player(ents.last()) {
            1int
        } else {
            0int
        }
    }
}

pub proof fn lemma_count_enemies_nonneg(ents: Seq<EntityRec>)
    ensures
        0 <= count_enemies(ents) <= ents.len(),
    decreases ents.len(),
{
    if ents.len() > 0 {
        lemma_count_enemies_nonneg(ents.drop_last());
    }
}

/// How one replaced record moves the enemy census.
pub proof fn lemma_count_enemies_update(ents: Seq<EntityRec>, j: int, r: EntityRec)
    requires
        0 <= j < ents.len(),
    ensures
        count_enemies(ents.update(j, r)) == count_enemies(ents) - (if is_live_enemy(ents[j]) {
            1int
        } else {
            0int
        }) + (if is_live_enemy(r) {
            1int
        } else {
            0int
        }),
    decreases ents.len(),
{
    let upd = ents.update(j, r);
    if j == ents.len() - 1 {
        assert(upd.drop_last() =~= ents.drop_last());
    } else {
        assert(upd.drop_last() =~= ents.drop_last().update(j, r));
        lemma_count_enemies_update(ents.drop_last(), j, r);
    }
}

pub proof fn lemma_count_enemies_push(ents: Seq<EntityRec>, r: EntityRec)
    ensures
        count_enemies(ents.push(r)) == count_enemies(ents) + (if is_live_enemy(r) {
            1int
        } else {
            0int
        }),
{
    assert(ents.push(r).drop_last() =~= ents);
}

/// Two tables whose records agree on enemy liveness index by index
/// have the same census.
pub proof fn lemma_count_enemies_pointwise(a: Seq<EntityRec>, b: Seq<EntityRec>)
    requires
        a.len() == b.len(),
        forall|i: int| 0 <= i < a.len() ==> is_live_enemy(#[trigger] a[i]) == is_live_enemy(b[i]),
    ensures
        count_enemies(a) == count_enemies(b),
    decreases a.len(),
{
    if a.len() > 0 {
        assert(is_live_enemy(a[a.len() - 1]) == is_live_enemy(b[a.len() - 1]));
        lemma_count_enemies_pointwise(a.drop_last(), b.drop_last());
    }
}

/// The census adds over concatenation.
pub proof fn lemma_count_enemies_append(a: Seq<EntityRec>, b: Seq<EntityRec>)
    ensures
        count_enemies(a + b) == count_enemies(a) + count_enemies(b),
    decreases b.len(),
{
    if b.len() == 0 {
        assert(a + b =~= a);
    } else {
        assert((a + b).drop_last() =~= a + b.drop_last());
        assert((a + b).last() == b.last());
        lemma_count_enemies_append(a, b.drop_last());
    }
}

/// A table with no live enemy has census zero.
pub proof fn lemma_count_enemies_zero(b: Seq<EntityRec>)
    requires
        forall|i: int| 0 <= i < b.len() ==> !is_live_enemy(#[trigger] b[i]),
    ensures
        count_enemies(b) == 0,
    decreases b.len(),
{
    if b.len() > 0 {
        lemma_count_enemies_zero(b.drop_last());
    }
}

/// Index of the first live player at or after `from`, or the length if
/// there is none.
pub open spec fn first_player_from(ents: Seq<EntityRec>, from: int) -> int
    recommends
        0 <= from <= ents.len(),
    decreases ents.len() - from
        when 0 <= from <= ents.len()
{
    if from >= ents.len() {
        ents.len() as int
    } else if is_live_player(ents[from]) {
        from
    } else {
        first_player_from(ents, from + 1)
    }
}

pub proof fn lemma_first_player_char(ents: Seq<EntityRec>, from: int, j: int)
    requires
        0 <= from <= j <= ents.len(),
        forall|k: int| from <= k < j ==> !is_live_player(#[trigger] ents[k]),
        j == ents.len() || is_live_player(ents[j]),
    ensures
        first_player_from(ents, from) == j,
    decreases j - from,
{
    if from < j {
        lemma_first_player_char(ents, from + 1, j)
    }
}

proof fn lemma_first_player_props(ents: Seq<EntityRec>, from: int)
    requires
        0 <= from <= ents.len(),
    ensures
        from <= first_player_from(ents, from) <= ents.len(),
        first_player_from(ents, from) < ents.len() ==> is_live_player(
            ents[first_player_from(ents, from)],
        ),
        first_player_from(ents, from) == ents.len() ==> forall|k: int|
            from <= k < ents.len() ==> !is_live_player(#[trigger] ents[k]),
        forall|k: int|
            from <= k < first_player_from(ents, from) ==> !is_live_player(#[trigger] ents[k]),
    decreases ents.len() - from,
{
    if from < ents.len() && !is_live_player(ents[from]) {
        lemma_first_player_props(ents, from + 1);
    }
}

proof fn lemma_count_players_zero(ents: Seq<EntityRec>)
    requires
        forall|k: int| 0 <= k < ents.len() ==> !is_live_player(#[trigger] ents[k]),
    ensures
        count_players(ents) == 0,
    decreases ents.len(),
{
    if ents.len() > 0 {
        lemma_count_players_zero(ents.drop_last());
    }
}

proof fn lemma_count_players_nonneg(ents: Seq<EntityRec>)
    ensures
        0 <= count_players(ents) <= ents.len(),
    decreases ents.len(),
{
    if ents.len() > 0 {
        lemma_count_players_nonneg(ents.drop_last());
    }
}

proof fn lemma_count_players_lower(ents: Seq<EntityRec>, k: int)
    requires
        0 <= k < ents.len(),
        is_live_player(ents[k]),
    ensures
        count_players(ents) >= 1,
    decreases ents.len(),
{
    if k == ents.len() - 1 {
        lemma_count_players_nonneg(ents.drop_last());
    } else {
        lemma_count_players_lower(ents.drop_last(), k);
    }
}

proof fn lemma_two_players(ents: Seq<EntityRec>, i: int, j: int)
    requires
        0 <= i < j < ents.len(),
        is_live_player(ents[i]),
        is_live_player(ents[j]),
    ensures
        count_players(ents) >= 2,
    decreases ents.len(),
{
    if j == ents.len() - 1 {
        lemma_count_players_lower(ents.drop_last(), i);
    } else {
        lemma_two_players(ents.drop_last(), i, j);
    }
}

/// With exactly one live player, any live player index is the one the
/// front scan names.
pub proof fn lemma_single_player_at(ents: Seq<EntityRec>, w: int)
    requires
        count_players(ents) == 1,
        0 <= w < ents.len(),
        is_live_player(ents[w]),
    ensures
        first_player_from(ents, 0) == w,
{
    lemma_single_player_index(ents);
    lemma_first_player_props(ents, 0);
    let f = first_player_from(ents, 0);
    if f < w {
        lemma_two_players(ents, f, w);
    }
}

/// A live player craft that its shield still covers and that the
/// linear integrator can never despawn: what a fresh respawn leaves on
/// the field.
pub open spec fn shielded_player_at(ents: Seq<EntityRec>, w: int) -> bool {
    &&& 0 <= w < ents.len()
    &&& is_live_player(ents[w])
    &&& ents[w].invincible is Some
    &&& (ents[w].movable matches Some(m) ==> !m.auto_despawn)
}

pub open spec fn has_shielded_player(ents: Seq<EntityRec>) -> bool {
    exists|w: int| shielded_player_at(ents, w)
}

/// While some live player is shielded, the single-player laser test
/// finds a shielded player and must stand down.
pub proof fn lemma_shielded_single_player(ents: Seq<EntityRec>)
    requires
        has_shielded_player(ents),
        count_players(ents) == 1,
    ensures
        ents[first_player_from(ents, 0)].invincible is Some,
{
    let w = choose|w: int| shielded_player_at(ents, w);
    lemma_single_player_at(ents, w);
}

/// With exactly one live player, the front scan names it.
pub proof fn lemma_single_player_index(ents: Seq<EntityRec>)
    requires
        count_players(ents) == 1,
    ensures
        0 <= first_player_from(ents, 0) < ents.len(),
        is_live_player(ents[first_player_from(ents, 0)]),
{
    lemma_first_player_props(ents, 0);
    if first_player_from(ents, 0) == ents.len() {
        lemma_count_players_zero(ents);
    }
}

/// The census of one more record, seen from the front.
pub proof fn lemma_count_players_take(ents: Seq<EntityRec>, i: int)
    requires
        0 <= i < ents.len(),
    ensures
        count_players(ents.take(i + 1)) == count_players(ents.take(i)) + (if is_live_player(
            ents[i],
        ) {
            1int
        } else {
            0int
        }),
{
    assert(ents.take(i + 1).drop_last() =~= ents.take(i));
    assert(ents.take(i + 1).last() == ents[i]);
}

/// The index of the single live player, if there is exactly one.
/// Queries that expect one live player treat any other census as a
/// silent no-op.
pub fn find_single_player(s: &Store) -> (r: Option<usize>)
    ensures
        r is Some <==> count_players(s.ents@) == 1,
        r matches Some(pi) ==> pi < s.ents@.len() && pi as int == first_player_from(s.ents@, 0)
            && is_live_player(s.ents@[pi as int]),
{
    let n = s.ents.len();
    let mut i: usize = 0;
    let mut cnt: usize = 0;
    let mut found: usize = 0;
    while i < n
        invariant
            i <= n,
            n == s.ents@.len(),
            cnt == count_players(s.ents@.take(i as int)),
            cnt <= i,
            cnt == 0 ==> forall|k: int| 0 <= k < i ==> !is_live_player(#[trigger] s.ents@[k]),
            cnt > 0 ==> found < i && is_live_player(s.ents@[found as int]) && forall|k: int|
                0 <= k < found ==> !is_live_player(#[trigger] s.ents@[k]),
        decreases n - i,
    {
        proof {
            lemma_count_players_take(s.ents@, i as int);
        }
        let r = &s.ents[i];
        if r.alive && r.player.is_some() {
            if cnt == 0 {
                found = i;
            }
            cnt = cnt + 1;
        }
        i = i + 1;
    }
    proof {
        assert(s.ents@.take(n as int) =~= s.ents@);
        if cnt == 1 {
            lemma_first_player_char(s.ents@, 0, found as int);
        }
    }
    if cnt == 1 {
        Some(found)
    } else {
        None
    }
}

/// Process-wide census of live enemies; spawn is gated on it.
#[derive(Clone, Copy, Debug, PartialEq, Eq)]
pub struct EnemyCount(pub u32);

/// The census agrees with the table.
pub open spec fn count_ok(s: Store, c: EnemyCount) -> bool {
    c.0 as int == count_enemies(s.ents@)
}

} // verus!
