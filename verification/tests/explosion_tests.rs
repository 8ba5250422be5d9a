use invaders_core::components::{Explosion, ExplosionTimer};
use invaders_core::explosion::explosion_animation_system;
use invaders_core::store::{blank_rec, EntityRec, Store};
use invaders_core::{WinSize, EXPLOSION_LEN};

fn win() -> WinSize {
    WinSize { w: 598_000, h: 676_000 }
}

fn explosion_rec(id: u64) -> EntityRec {
    let mut r = blank_rec(id);
    r.pos = (1_000, 2_000, 10_000);
    r.explosion = Some(Explosion);
    r.boom_timer = Some(ExplosionTimer { elapsed_ms: 0 });
    r
}

#[test]
fn explosion_survives_until_last_frame() {
    let w = win();
    let mut s = Store::new();
    s.ents.push(explosion_rec(0));
    s.next_id = 1;
    for _ in 0..(EXPLOSION_LEN - 1) {
        explosion_animation_system(&mut s, &w, 50);
    }
    assert!(s.ents[0].alive);
    assert_eq!(s.ents[0].anim_frame, EXPLOSION_LEN - 1);
}

#[test]
fn explosion_self_destroys_after_sheet() {
    let w = win();
    let mut s = Store::new();
    s.ents.push(explosion_rec(0));
    s.next_id = 1;
    for _ in 0..EXPLOSION_LEN {
        explosion_animation_system(&mut s, &w, 50);
    }
    assert!(!s.ents[0].alive);
    assert_eq!(s.ents[0].anim_frame, EXPLOSION_LEN);
}

#[test]
fn short_ticks_accumulate_before_a_frame() {
    let w = win();
    let mut s = Store::new();
    s.ents.push(explosion_rec(0));
    s.next_id = 1;
    explosion_animation_system(&mut s, &w, 49);
    assert_eq!(s.ents[0].anim_frame, 0);
    assert_eq!(s.ents[0].boom_timer, Some(ExplosionTimer { elapsed_ms: 49 }));
    explosion_animation_system(&mut s, &w, 1);
    assert_eq!(s.ents[0].anim_frame, 1);
    assert_eq!(s.ents[0].boom_timer, Some(ExplosionTimer { elapsed_ms: 0 }));
}

#[test]
fn dead_explosions_do_not_tick() {
    let w = win();
    let mut s = Store::new();
    let mut r = explosion_rec(0);
    r.alive = false;
    s.ents.push(r);
    s.next_id = 1;
    explosion_animation_system(&mut s, &w, 50);
    assert_eq!(s.ents[0].anim_frame, 0);
}
