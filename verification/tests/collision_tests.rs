use invaders_core::collision::{enemy_laser_hit_player_system, player_laser_hit_enemy_system};
use invaders_core::components::{
    Enemy, FromEnemy, FromPlayer, Invincible, Laser, Player, SpriteSize, Velocity,
};
use invaders_core::explosion::{enemy_explosion_audio_system, explosion_to_spawn_system};
use invaders_core::player::PlayerState;
use invaders_core::store::{blank_rec, EnemyCount, EntityRec, Store};
use invaders_core::WinSize;

fn win() -> WinSize {
    WinSize { w: 598_000, h: 676_000 }
}

fn enemy_at(id: u64, x: i64, y: i64) -> EntityRec {
    let mut r = blank_rec(id);
    r.pos = (x, y, 10_000);
    r.scale = 500;
    r.enemy = Some(Enemy);
    r.size = Some(SpriteSize((144_000, 75_000)));
    r
}

fn player_laser_at(id: u64, x: i64, y: i64) -> EntityRec {
    let mut r = blank_rec(id);
    r.pos = (x, y, 0);
    r.scale = 500;
    r.laser = Some(Laser);
    r.from_player = Some(FromPlayer);
    r.size = Some(SpriteSize((9_000, 54_000)));
    r
}

fn enemy_laser_at(id: u64, x: i64, y: i64) -> EntityRec {
    let mut r = blank_rec(id);
    r.pos = (x, y, 0);
    r.scale = 500;
    r.laser = Some(Laser);
    r.from_enemy = Some(FromEnemy);
    r.size = Some(SpriteSize((17_000, 55_000)));
    r
}

fn player_at(id: u64, x: i64, y: i64) -> EntityRec {
    let mut r = blank_rec(id);
    r.pos = (x, y, 10_000);
    r.scale = 500;
    r.player = Some(Player);
    r.vel = Some(Velocity { x: 0, y: 0 });
    r.size = Some(SpriteSize((144_000, 75_000)));
    r
}

#[test]
fn laser_kill_end_to_end() {
    let w = win();
    let mut s = Store::new();
    s.ents.push(enemy_at(0, 0, 0));
    s.ents.push(player_laser_at(1, 0, 0));
    s.next_id = 2;
    let mut count = EnemyCount(1);
    let mut events = Vec::new();
    player_laser_hit_enemy_system(&mut s, &mut count, &mut events, &w);
    assert_eq!(count.0, 0);
    assert!(!s.ents[0].alive);
    assert!(!s.ents[1].alive);
    assert_eq!(s.ents.len(), 3);
    let marker = &s.ents[2];
    assert!(marker.alive);
    assert_eq!(marker.boom_at.map(|b| b.0), Some((0, 0, 10_000)));
    assert_eq!(events.len(), 1);
    // the pending explosion materializes as an animated entity
    explosion_to_spawn_system(&mut s, &w);
    assert_eq!(s.ents.len(), 4);
    assert!(!s.ents[2].alive);
    let boom = &s.ents[3];
    assert!(boom.alive && boom.explosion.is_some());
    assert_eq!(boom.pos, (0, 0, 10_000));
    assert_eq!(boom.anim_frame, 0);
    // one sound cue per confirmed kill
    assert_eq!(enemy_explosion_audio_system(&mut events), 1);
    assert_eq!(events.len(), 0);
}

#[test]
fn enemy_destroyed_at_most_once() {
    let w = win();
    let mut s = Store::new();
    s.ents.push(player_laser_at(0, -10_000, 0));
    s.ents.push(player_laser_at(1, 10_000, 0));
    s.ents.push(enemy_at(2, 0, 0));
    s.next_id = 3;
    let mut count = EnemyCount(1);
    let mut events = Vec::new();
    player_laser_hit_enemy_system(&mut s, &mut count, &mut events, &w);
    assert_eq!(count.0, 0);
    assert!(!s.ents[0].alive);
    assert!(s.ents[1].alive);
    assert!(!s.ents[2].alive);
    assert_eq!(events.len(), 1);
    assert_eq!(s.ents.len(), 4);
}

#[test]
fn laser_spent_on_first_enemy() {
    let w = win();
    let mut s = Store::new();
    s.ents.push(player_laser_at(0, 0, 0));
    s.ents.push(enemy_at(1, -20_000, 0));
    s.ents.push(enemy_at(2, 20_000, 0));
    s.next_id = 3;
    let mut count = EnemyCount(2);
    let mut events = Vec::new();
    player_laser_hit_enemy_system(&mut s, &mut count, &mut events, &w);
    assert_eq!(count.0, 1);
    assert!(!s.ents[0].alive);
    assert!(!s.ents[1].alive);
    assert!(s.ents[2].alive);
}

#[test]
fn separated_boxes_do_not_collide() {
    let w = win();
    let mut s = Store::new();
    s.ents.push(enemy_at(0, 0, 0));
    // half extents: enemy 36 x 18.75 px, laser 2.25 x 13.5 px
    s.ents.push(player_laser_at(1, 0, 33_000));
    s.ents.push(player_laser_at(2, 39_000, 0));
    s.next_id = 3;
    let mut count = EnemyCount(1);
    let mut events = Vec::new();
    player_laser_hit_enemy_system(&mut s, &mut count, &mut events, &w);
    assert_eq!(count.0, 1);
    assert!(s.ents[0].alive);
    assert!(s.ents[1].alive);
    assert!(s.ents[2].alive);
}

#[test]
fn player_dies_once_per_frame() {
    let w = win();
    let mut s = Store::new();
    s.ents.push(player_at(0, 0, -300_000));
    s.ents.push(enemy_laser_at(1, 0, -300_000));
    s.ents.push(enemy_laser_at(2, 1_000, -300_000));
    s.next_id = 3;
    let mut state = PlayerState::default();
    state.spawned();
    enemy_laser_hit_player_system(&mut s, &mut state, &w, 42_000);
    assert!(!s.ents[0].alive);
    assert!(!s.ents[1].alive);
    assert!(s.ents[2].alive);
    assert!(!state.on);
    assert_eq!(state.last_shot, 42_000);
    assert_eq!(s.ents.len(), 4);
    assert_eq!(s.ents[3].boom_at.map(|b| b.0), Some((0, -300_000, 10_000)));
}

#[test]
fn invincible_player_is_immune() {
    let w = win();
    let mut s = Store::new();
    let mut p = player_at(0, 0, -300_000);
    p.invincible = Some(Invincible { remaining_ms: 1_500 });
    s.ents.push(p);
    s.ents.push(enemy_laser_at(1, 0, -300_000));
    s.next_id = 2;
    let mut state = PlayerState::default();
    state.spawned();
    enemy_laser_hit_player_system(&mut s, &mut state, &w, 42_000);
    assert!(s.ents[0].alive);
    assert!(s.ents[1].alive);
    assert!(state.on);
    assert_eq!(s.ents.len(), 2);
}

#[test]
fn no_player_is_a_silent_noop() {
    let w = win();
    let mut s = Store::new();
    s.ents.push(enemy_laser_at(0, 0, 0));
    s.next_id = 1;
    let mut state = PlayerState::default();
    enemy_laser_hit_player_system(&mut s, &mut state, &w, 1_000);
    assert!(s.ents[0].alive);
    assert_eq!(s.ents.len(), 1);
}
