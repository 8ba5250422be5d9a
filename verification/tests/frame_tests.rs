use invaders_core::enemy::{enemy_fire_system, enemy_movement_system, enemy_spawn_system};
use invaders_core::formation::{Formation, FormationMaker};
use invaders_core::frame::{run_frame, FrameInput, Sim};
use invaders_core::player::PlayerState;
use invaders_core::store::{blank_rec, EnemyCount, EntityRec, Store};
use invaders_core::components::Enemy;
use invaders_core::{WinSize, BASE_SPEED, ENEMY_MAX};

fn win() -> WinSize {
    WinSize { w: 598_000, h: 676_000 }
}

fn calm_formation() -> Formation {
    Formation {
        start: (-399_000, 100_000),
        radius: (100_000, 100_000),
        pivot: (0, 0),
        speed: BASE_SPEED,
        angle: 0,
        change_timer: 0,
        pivot_delta: (0, 0),
        radius_delta: (0, 0),
        speed_delta: 0,
    }
}

fn enemy_with(id: u64, f: Formation, x: i64, y: i64) -> EntityRec {
    let mut r = blank_rec(id);
    r.pos = (x, y, 10_000);
    r.scale = 500;
    r.enemy = Some(Enemy);
    r.formation = Some(f);
    r.size = Some(invaders_core::components::SpriteSize((144_000, 75_000)));
    r
}

#[test]
fn formation_invariant_holds_over_many_ticks() {
    let w = win();
    let mut s = Store::new();
    s.ents.push(enemy_with(0, calm_formation(), -399_000, 100_000));
    s.next_id = 1;
    for _ in 0..400 {
        enemy_movement_system(&mut s, &w, 16);
    }
    let f = s.ents[0].formation.unwrap();
    assert!(50_000 <= f.radius.0 && f.radius.0 <= 200_000);
    assert!(50_000 <= f.radius.1 && f.radius.1 <= 150_000);
    assert!(BASE_SPEED / 2 <= f.speed && f.speed <= BASE_SPEED + BASE_SPEED / 2);
    assert!(0 <= f.angle && f.angle < 6_283);
    assert!(-(w.w / 4) <= f.pivot.0 && f.pivot.0 <= w.w / 4);
    assert!(0 <= f.pivot.1 && f.pivot.1 <= w.h / 3 - 50_000);
}

#[test]
fn zero_distance_step_stays_put() {
    // the enemy stands exactly on its target point; with a zero frame
    // delta the drift leaves the ellipse alone and the step must not
    // move it (and must not divide by zero)
    let w = win();
    let mut s = Store::new();
    // target at angle 0: pivot.x + radius.x * cos(0) / 1000 = 99_900
    s.ents.push(enemy_with(0, calm_formation(), 99_900, 0));
    s.next_id = 1;
    enemy_movement_system(&mut s, &w, 0);
    assert_eq!(s.ents[0].pos, (99_900, 0, 10_000));
}

#[test]
fn enemy_step_is_capped_and_aimed() {
    let w = win();
    let mut s = Store::new();
    s.ents.push(enemy_with(0, calm_formation(), -399_000, 100_000));
    s.next_id = 1;
    let before = s.ents[0].pos;
    enemy_movement_system(&mut s, &w, 16);
    let after = s.ents[0].pos;
    // at most speed * dt = 8 px of travel per axis
    assert!((after.0 - before.0).abs() <= 8_000);
    assert!((after.1 - before.1).abs() <= 8_000);
    // headed toward the ellipse: rightward and downward from spawn
    assert!(after.0 > before.0);
    assert!(after.1 < before.1);
}

#[test]
fn spawn_respects_population_cap() {
    let w = win();
    let mut s = Store::new();
    let mut count = EnemyCount(0);
    let mut maker = FormationMaker::default();
    for _ in 0..5 {
        enemy_spawn_system(&mut s, &mut count, &mut maker, &w);
    }
    assert_eq!(count.0, ENEMY_MAX);
    assert_eq!(s.ents.len(), ENEMY_MAX as usize);
    let r = &s.ents[0];
    let f = r.formation.unwrap();
    assert_eq!(r.pos, (f.start.0, f.start.1, 10_000));
    assert!(r.enemy.is_some());
}

#[test]
fn every_live_enemy_fires_one_laser() {
    let w = win();
    let mut s = Store::new();
    s.ents.push(enemy_with(0, calm_formation(), -100_000, 50_000));
    let mut dead = enemy_with(1, calm_formation(), 0, 0);
    dead.alive = false;
    s.ents.push(dead);
    s.ents.push(enemy_with(2, calm_formation(), 100_000, 50_000));
    s.next_id = 3;
    enemy_fire_system(&mut s, &w);
    assert_eq!(s.ents.len(), 5);
    assert_eq!(s.ents[3].pos, (-100_000, 35_000, 0));
    assert_eq!(s.ents[4].pos, (100_000, 35_000, 0));
    assert!(s.ents[3].from_enemy.is_some() && s.ents[3].laser.is_some());
    assert_eq!(s.ents[3].movable.map(|m| m.auto_despawn), Some(true));
}

#[test]
fn run_frame_reports_one_cue_per_kill() {
    let w = win();
    let mut s = Store::new();
    let mut e = blank_rec(0);
    e.pos = (0, 0, 10_000);
    e.scale = 500;
    e.enemy = Some(Enemy);
    e.size = Some(invaders_core::components::SpriteSize((144_000, 75_000)));
    s.ents.push(e);
    let mut l = blank_rec(1);
    l.pos = (0, 0, 0);
    l.scale = 500;
    l.laser = Some(invaders_core::components::Laser);
    l.from_player = Some(invaders_core::components::FromPlayer);
    l.size = Some(invaders_core::components::SpriteSize((9_000, 54_000)));
    l.vel = Some(invaders_core::components::Velocity { x: 0, y: 1000 });
    l.movable = Some(invaders_core::components::Movable { auto_despawn: true });
    s.ents.push(l);
    s.next_id = 2;
    let mut sim = Sim {
        store: s,
        enemy_count: EnemyCount(1),
        maker: FormationMaker::default(),
        player: PlayerState::default(),
        events: Vec::new(),
    };
    let inp = FrameInput {
        dt_ms: 16,
        now_ms: 0,
        left: false,
        right: false,
        up: false,
        down: false,
        fire: false,
        respawn_check: false,
        spawn_enemy: false,
    };
    let sounds = run_frame(&mut sim, &w, inp);
    assert_eq!(sounds, 1);
    assert_eq!(sim.enemy_count.0, 0);
    assert!(!sim.store.ents[0].alive);
    assert!(!sim.store.ents[1].alive);
    // the queued explosion was materialized within the same frame
    assert!(sim.store.ents.iter().any(|r| r.alive && r.explosion.is_some()));
    assert_eq!(sim.events.len(), 0);
}

#[test]
fn frames_spawn_player_and_enemies() {
    let w = win();
    let mut sim = Sim {
        store: Store::new(),
        enemy_count: EnemyCount(0),
        maker: FormationMaker::default(),
        player: PlayerState::default(),
        events: Vec::new(),
    };
    let inp = FrameInput {
        dt_ms: 16,
        now_ms: 0,
        left: false,
        right: false,
        up: false,
        down: false,
        fire: false,
        respawn_check: true,
        spawn_enemy: true,
    };
    let sounds = run_frame(&mut sim, &w, inp);
    assert_eq!(sounds, 0);
    assert!(sim.player.on);
    assert_eq!(sim.enemy_count.0, 1);
    let mut inp2 = inp;
    inp2.now_ms = 16;
    inp2.fire = true;
    run_frame(&mut sim, &w, inp2);
    assert_eq!(sim.enemy_count.0, 2);
    assert!(sim.store.ents.len() >= 4);
}
