use invaders_core::components::{SpriteSize, Velocity};
use invaders_core::player::{
    invincible_timer_system, player_fire_system, player_keyboard_event_system,
    player_spawn_system, PlayerState,
};
use invaders_core::store::{blank_rec, EntityRec, Store};
use invaders_core::components::{Invincible, Player};
use invaders_core::WinSize;

fn win() -> WinSize {
    WinSize { w: 598_000, h: 676_000 }
}

fn player_rec(id: u64, x: i64, y: i64) -> EntityRec {
    let mut r = blank_rec(id);
    r.pos = (x, y, 10_000);
    r.scale = 500;
    r.player = Some(Player);
    r.vel = Some(Velocity { x: 0, y: 0 });
    r.size = Some(SpriteSize((144_000, 75_000)));
    r
}

#[test]
fn respawn_not_due_before_delay() {
    let w = win();
    let mut s = Store::new();
    let mut state = PlayerState::default();
    state.spawned();
    state.shot(5_000);
    player_spawn_system(&mut state, &mut s, &w, 6_999);
    assert_eq!(s.ents.len(), 0);
    assert!(!state.on);
}

#[test]
fn respawn_after_delay_at_bottom_centre() {
    let w = win();
    let mut s = Store::new();
    let mut state = PlayerState::default();
    state.spawned();
    state.shot(5_000);
    player_spawn_system(&mut state, &mut s, &w, 7_001);
    assert_eq!(s.ents.len(), 1);
    let r = &s.ents[0];
    // (0, -h/2 + size.y/2 * scale + 5px, depth 10px), in milli-pixels
    assert_eq!(r.pos, (0, -338_000 + 18_750 + 5_000, 10_000));
    assert_eq!(r.vel, Some(Velocity { x: 0, y: 0 }));
    assert_eq!(r.invincible, Some(Invincible { remaining_ms: 2_000 }));
    assert!(state.on);
    assert_eq!(state.last_shot, -1);
}

#[test]
fn first_spawn_needs_no_delay() {
    let w = win();
    let mut s = Store::new();
    let mut state = PlayerState::default();
    player_spawn_system(&mut state, &mut s, &w, 0);
    assert_eq!(s.ents.len(), 1);
    assert!(state.on);
}

#[test]
fn no_respawn_while_alive() {
    let w = win();
    let mut s = Store::new();
    let mut state = PlayerState::default();
    state.spawned();
    player_spawn_system(&mut state, &mut s, &w, 100_000);
    assert_eq!(s.ents.len(), 0);
}

#[test]
fn invincibility_expires_on_schedule() {
    let w = win();
    let mut s = Store::new();
    let mut r = player_rec(0, 0, 0);
    r.invincible = Some(Invincible { remaining_ms: 2_000 });
    s.ents.push(r);
    s.next_id = 1;
    invincible_timer_system(&mut s, &w, 1_999);
    assert_eq!(s.ents[0].invincible, Some(Invincible { remaining_ms: 1 }));
    invincible_timer_system(&mut s, &w, 1);
    assert_eq!(s.ents[0].invincible, None);
}

#[test]
fn keyboard_sets_unit_velocity() {
    let w = win();
    let mut s = Store::new();
    s.ents.push(player_rec(0, 0, 0));
    s.next_id = 1;
    player_keyboard_event_system(&mut s, &w, false, true, false, false);
    assert_eq!(s.ents[0].vel, Some(Velocity { x: 1000, y: 0 }));
    player_keyboard_event_system(&mut s, &w, false, true, true, false);
    assert_eq!(s.ents[0].vel, Some(Velocity { x: 707, y: 707 }));
    player_keyboard_event_system(&mut s, &w, true, false, false, true);
    assert_eq!(s.ents[0].vel, Some(Velocity { x: -707, y: -707 }));
    player_keyboard_event_system(&mut s, &w, false, false, false, false);
    assert_eq!(s.ents[0].vel, Some(Velocity { x: 0, y: 0 }));
}

#[test]
fn fire_spawns_two_lasers_at_cannons() {
    let w = win();
    let mut s = Store::new();
    s.ents.push(player_rec(0, 10_000, -300_000));
    s.next_id = 1;
    player_fire_system(&mut s, &w, true);
    assert_eq!(s.ents.len(), 3);
    let l1 = &s.ents[1];
    let l2 = &s.ents[2];
    assert_eq!(l1.pos, (10_000 + 31_000, -285_000, 0));
    assert_eq!(l2.pos, (10_000 - 31_000, -285_000, 0));
    assert!(l1.laser.is_some() && l1.from_player.is_some());
    assert!(l2.laser.is_some() && l2.from_player.is_some());
    assert_eq!(l1.vel, Some(Velocity { x: 0, y: 1000 }));
}

#[test]
fn no_fire_without_press_or_player() {
    let w = win();
    let mut s = Store::new();
    s.ents.push(player_rec(0, 0, 0));
    s.next_id = 1;
    player_fire_system(&mut s, &w, false);
    assert_eq!(s.ents.len(), 1);
    let mut empty = Store::new();
    player_fire_system(&mut empty, &w, true);
    assert_eq!(empty.ents.len(), 0);
}
