use invaders_core::components::{Movable, SpriteSize, Velocity};
use invaders_core::motion::movable_system;
use invaders_core::player::player_movement_system;
use invaders_core::store::{blank_rec, EntityRec, Store};
use invaders_core::components::Player;
use invaders_core::WinSize;

fn win() -> WinSize {
    WinSize { w: 598_000, h: 676_000 }
}

fn laser_like(id: u64, x: i64, y: i64) -> EntityRec {
    let mut r = blank_rec(id);
    r.pos = (x, y, 0);
    r.scale = 500;
    r.vel = Some(Velocity { x: 0, y: 1000 });
    r.movable = Some(Movable { auto_despawn: true });
    r
}

#[test]
fn linear_step_advances_by_base_speed() {
    let w = win();
    let mut s = Store::new();
    s.ents.push(laser_like(0, 0, 0));
    s.next_id = 1;
    movable_system(&mut s, &w, 1_000);
    assert_eq!(s.ents[0].pos, (0, 500_000, 0));
    assert!(s.ents[0].alive);
}

#[test]
fn auto_despawn_outside_margin() {
    let w = win();
    let mut s = Store::new();
    s.ents.push(laser_like(0, 0, 500_000));
    s.next_id = 1;
    movable_system(&mut s, &w, 1_000);
    assert_eq!(s.ents[0].pos.1, 1_000_000);
    assert!(!s.ents[0].alive);
}

#[test]
fn no_auto_despawn_keeps_entity() {
    let w = win();
    let mut s = Store::new();
    let mut r = laser_like(0, 0, 500_000);
    r.movable = Some(Movable { auto_despawn: false });
    s.ents.push(r);
    s.next_id = 1;
    movable_system(&mut s, &w, 1_000);
    assert!(s.ents[0].alive);
}

#[test]
fn entities_without_velocity_stay_put() {
    let w = win();
    let mut s = Store::new();
    let mut r = blank_rec(0);
    r.pos = (7, 8, 9);
    s.ents.push(r);
    s.next_id = 1;
    movable_system(&mut s, &w, 1_000);
    assert_eq!(s.ents[0].pos, (7, 8, 9));
}

#[test]
fn steering_clamps_to_window() {
    let w = win();
    let mut s = Store::new();
    let mut r = blank_rec(0);
    r.pos = (-290_000, 0, 10_000);
    r.scale = 500;
    r.player = Some(Player);
    r.vel = Some(Velocity { x: -1000, y: 0 });
    r.size = Some(SpriteSize((144_000, 75_000)));
    s.ents.push(r);
    s.next_id = 1;
    player_movement_system(&mut s, &w, 1_000);
    // scaled width 72; the craft may not leave -w/2 + 36 pixels
    assert_eq!(s.ents[0].pos.0, -263_000);
}
