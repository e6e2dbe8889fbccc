use robbo::components::{GunType, Kind, ShootingDir};
use robbo::damage::damage_system;
use robbo::events::DamageEvent;
use robbo::frame_cnt::FrameCnt;
use robbo::input::{keyboard_system, InputDir, InputState};
use robbo::movement::{move_robbo, move_system};
use robbo::shots::{fire_one, fires, shot_system};
use robbo::tick;
use robbo::world::{setup, World};

fn world() -> World {
    World::new(GunType::Burst)
}

#[test]
fn push_moves_robbo_and_box() {
    let mut w = world();
    assert!(w.spawn(Kind::Robbo, 4, 4, 1, 0, false, false, 60));
    assert!(w.spawn(Kind::MovingBox, 5, 4, 0, 0, true, false, 6));
    move_robbo(&mut w);
    assert_eq!((w.ents[0].x, w.ents[0].y), (5, 4));
    assert_eq!((w.ents[1].x, w.ents[1].y), (6, 4));
    assert!(w.events.is_empty());
}

#[test]
fn push_blocked_by_wall_moves_nobody() {
    let mut w = world();
    assert!(w.spawn(Kind::Robbo, 4, 4, 1, 0, false, false, 60));
    assert!(w.spawn(Kind::MovingBox, 5, 4, 0, 0, true, false, 6));
    assert!(w.spawn(Kind::Wall, 6, 4, 0, 0, false, false, 3));
    move_robbo(&mut w);
    assert_eq!((w.ents[0].x, w.ents[0].y), (4, 4));
    assert_eq!((w.ents[1].x, w.ents[1].y), (5, 4));
    assert_eq!((w.ents[2].x, w.ents[2].y), (6, 4));
}

#[test]
fn push_blocked_by_creature_moves_nobody() {
    let mut w = world();
    assert!(w.spawn(Kind::Robbo, 4, 4, 1, 0, false, false, 60));
    assert!(w.spawn(Kind::MovingBox, 5, 4, 0, 0, true, false, 6));
    assert!(w.spawn(Kind::Bird, 6, 4, 0, 0, false, true, 15));
    move_robbo(&mut w);
    assert_eq!((w.ents[0].x, w.ents[0].y), (4, 4));
    assert_eq!((w.ents[1].x, w.ents[1].y), (5, 4));
}

#[test]
fn robbo_cannot_push_wall() {
    let mut w = world();
    assert!(w.spawn(Kind::Robbo, 4, 4, 1, 0, false, false, 60));
    assert!(w.spawn(Kind::Wall, 5, 4, 0, 0, false, false, 3));
    move_robbo(&mut w);
    assert_eq!((w.ents[0].x, w.ents[0].y), (4, 4));
}

#[test]
fn solid_gun_spawns_laser_head_on_shooting_tick() {
    let mut w = world();
    assert!(w.spawn(Kind::Robbo, 4, 4, 0, 0, false, false, 60));
    assert!(w.set_shooting(0, ShootingDir { dx: 1, dy: 0, prob: 1000, gun: GunType::Solid }));
    let frame = FrameCnt::new();
    assert!(frame.do_shooting());
    shot_system(&mut w, &frame);
    assert_eq!(w.ents.len(), 2);
    assert_eq!(w.ents[1].kind, Kind::LaserHead);
    assert_eq!((w.ents[1].x, w.ents[1].y), (5, 4));
    assert_eq!((w.ents[1].dx, w.ents[1].dy), (1, 0));
    assert!(w.ents[1].destroyable);
    assert!(w.ents[1].alive);
    assert!(w.events.is_empty());
    // the player's firing intent is consumed in the tick that evaluated it
    assert!(w.ents[0].shooting.is_none());
}

#[test]
fn no_spawn_on_non_shooting_tick() {
    let mut w = world();
    assert!(w.spawn(Kind::Robbo, 4, 4, 0, 0, false, false, 60));
    assert!(w.set_shooting(0, ShootingDir { dx: 1, dy: 0, prob: 1000, gun: GunType::Solid }));
    let mut frame = FrameCnt::new();
    frame.step();
    assert!(!frame.do_shooting());
    shot_system(&mut w, &frame);
    assert_eq!(w.ents.len(), 1);
    assert!(w.events.is_empty());
    // the intent was not evaluated, so it survives
    assert!(w.ents[0].shooting.is_some());
}

#[test]
fn burst_gun_spawns_bullet() {
    let mut w = world();
    assert!(w.spawn(Kind::Robbo, 4, 4, 0, 0, false, false, 60));
    assert!(w.set_shooting(0, ShootingDir { dx: 0, dy: 1, prob: 1000, gun: GunType::Burst }));
    let frame = FrameCnt::new();
    shot_system(&mut w, &frame);
    assert_eq!(w.ents.len(), 2);
    assert_eq!(w.ents[1].kind, Kind::Bullet);
    assert_eq!((w.ents[1].x, w.ents[1].y), (4, 5));
}

#[test]
fn zero_probability_gun_never_fires() {
    let mut w = world();
    assert!(w.spawn(Kind::Robbo, 4, 4, 0, 0, false, false, 60));
    assert!(w.set_shooting(0, ShootingDir { dx: 1, dy: 0, prob: 0, gun: GunType::Burst }));
    let frame = FrameCnt::new();
    shot_system(&mut w, &frame);
    assert_eq!(w.ents.len(), 1);
    assert!(w.events.is_empty());
}

#[test]
fn firing_into_occupied_cell_raises_one_event_and_flush_destroys_target() {
    let mut w = world();
    assert!(w.spawn(Kind::Robbo, 4, 4, 0, 0, false, false, 60));
    assert!(w.spawn(Kind::Bird, 5, 4, 0, 0, false, true, 15));
    assert!(w.set_shooting(0, ShootingDir { dx: 1, dy: 0, prob: 1000, gun: GunType::Burst }));
    let frame = FrameCnt::new();
    shot_system(&mut w, &frame);
    assert_eq!(w.ents.len(), 2, "no projectile is spawned into an occupied cell");
    assert_eq!(w.events.len(), 1);
    assert_eq!(w.events[0], DamageEvent { x: 5, y: 4, from_projectile: false });
    damage_system(&mut w);
    assert!(!w.ents[1].alive, "the destroyable occupant is destroyed");
    assert!(w.ents[0].alive, "the firer is unaffected");
    assert!(w.events.is_empty());
}

#[test]
fn firing_into_wall_damages_nothing() {
    let mut w = world();
    assert!(w.spawn(Kind::Robbo, 4, 4, 0, 0, false, false, 60));
    assert!(w.spawn(Kind::Wall, 5, 4, 0, 0, false, false, 3));
    assert!(w.set_shooting(0, ShootingDir { dx: 1, dy: 0, prob: 1000, gun: GunType::Burst }));
    let frame = FrameCnt::new();
    shot_system(&mut w, &frame);
    assert_eq!(w.events.len(), 1);
    damage_system(&mut w);
    assert!(w.ents[1].alive, "walls are immune to damage");
    assert!(w.events.is_empty());
}

#[test]
fn flushing_events_against_vacant_cell_destroys_nothing() {
    let mut w = world();
    assert!(w.spawn(Kind::Robbo, 4, 4, 0, 0, false, false, 60));
    assert!(w.spawn(Kind::Bird, 7, 7, 0, 0, false, true, 15));
    w.events.push(DamageEvent { x: 3, y: 3, from_projectile: false });
    w.events.push(DamageEvent { x: 3, y: 3, from_projectile: true });
    damage_system(&mut w);
    assert!(w.ents[0].alive);
    assert!(w.ents[1].alive);
    assert!(w.events.is_empty());
}

#[test]
fn fires_thresholds() {
    assert!(fires(0, 1000));
    assert!(fires(999, 1000));
    assert!(fires(123_456_789, 1000));
    assert!(!fires(0, 0));
    assert!(!fires(999, 0));
    assert!(fires(1000, 500));
    assert!(!fires(500, 500));
    assert!(fires(499, 500));
}

#[test]
fn fire_one_is_deterministic_under_a_given_draw() {
    let mut w = world();
    assert!(w.spawn(Kind::Bird, 4, 4, 0, 0, false, true, 15));
    assert!(w.set_shooting(0, ShootingDir { dx: 0, dy: -1, prob: 500, gun: GunType::Burst }));
    fire_one(&mut w, 0, 499);
    assert_eq!(w.ents.len(), 2, "a draw below the probability fires");
    assert_eq!(w.ents[1].kind, Kind::Bullet);
    assert_eq!((w.ents[1].x, w.ents[1].y), (4, 3));

    let mut w2 = world();
    assert!(w2.spawn(Kind::Bird, 4, 4, 0, 0, false, true, 15));
    assert!(w2.set_shooting(0, ShootingDir { dx: 0, dy: -1, prob: 500, gun: GunType::Burst }));
    fire_one(&mut w2, 0, 500);
    assert_eq!(w2.ents.len(), 1, "a draw at or above the probability skips");
    assert!(w2.events.is_empty());
}

#[test]
fn creature_reverses_when_blocked_by_wall() {
    let mut w = world();
    assert!(w.spawn(Kind::Bird, 2, 2, 1, 0, false, true, 15));
    assert!(w.spawn(Kind::Wall, 3, 2, 0, 0, false, false, 3));
    move_system(&mut w);
    assert_eq!((w.ents[0].x, w.ents[0].y), (2, 2));
    assert_eq!((w.ents[0].dx, w.ents[0].dy), (-1, 0));
}

#[test]
fn creature_reverses_at_grid_edge() {
    let mut w = world();
    assert!(w.spawn(Kind::LBear, 0, 5, -1, 0, false, true, 13));
    move_system(&mut w);
    assert_eq!((w.ents[0].x, w.ents[0].y), (0, 5));
    assert_eq!((w.ents[0].dx, w.ents[0].dy), (1, 0));
}

#[test]
fn creature_moves_into_clear_cell() {
    let mut w = world();
    assert!(w.spawn(Kind::Bird, 2, 2, 0, 1, false, true, 15));
    move_system(&mut w);
    assert_eq!((w.ents[0].x, w.ents[0].y), (2, 3));
}

#[test]
fn bullet_impact_destroys_bullet_and_target() {
    let mut w = world();
    assert!(w.spawn(Kind::Bullet, 2, 2, 1, 0, false, true, 36));
    assert!(w.spawn(Kind::Bird, 3, 2, 0, 0, false, true, 15));
    move_system(&mut w);
    assert_eq!((w.ents[0].x, w.ents[0].y), (2, 2), "a bullet never moves into an occupied cell");
    assert_eq!(w.events.len(), 2);
    assert_eq!(w.events[0], DamageEvent { x: 3, y: 2, from_projectile: true });
    assert_eq!(w.events[1], DamageEvent { x: 2, y: 2, from_projectile: true });
    damage_system(&mut w);
    assert!(!w.ents[0].alive, "the bullet is consumed by its own impact");
    assert!(!w.ents[1].alive, "the destroyable target is destroyed");
}

#[test]
fn laser_head_keeps_damaging_blocker_and_survives() {
    let mut w = world();
    assert!(w.spawn(Kind::LaserHead, 2, 2, 1, 0, false, true, 37));
    assert!(w.spawn(Kind::Bird, 3, 2, 0, 0, false, true, 15));
    move_system(&mut w);
    assert_eq!(w.events.len(), 1);
    assert_eq!(w.events[0], DamageEvent { x: 3, y: 2, from_projectile: true });
    damage_system(&mut w);
    assert!(w.ents[0].alive, "the armor-piercing head is not consumed by a blocked cell");
    assert!(!w.ents[1].alive);
}

#[test]
fn bullet_flies_into_clear_cell() {
    let mut w = world();
    assert!(w.spawn(Kind::Bullet, 2, 2, 1, 0, false, true, 36));
    move_system(&mut w);
    assert_eq!((w.ents[0].x, w.ents[0].y), (3, 2));
    assert!(w.events.is_empty());
}

#[test]
fn bullet_leaving_the_grid_is_consumed() {
    let mut w = world();
    assert!(w.spawn(Kind::Bullet, 31, 2, 1, 0, false, true, 36));
    move_system(&mut w);
    assert_eq!(w.events.len(), 1);
    assert_eq!(w.events[0], DamageEvent { x: 31, y: 2, from_projectile: true });
    damage_system(&mut w);
    assert!(!w.ents[0].alive);
}

#[test]
fn keyboard_sets_direction_and_certain_firing_intent() {
    let mut w = world();
    assert!(w.spawn(Kind::Robbo, 4, 4, 0, 0, false, false, 60));
    keyboard_system(&mut w, InputState { dir: InputDir::Right, fire: true });
    assert_eq!((w.ents[0].dx, w.ents[0].dy), (1, 0));
    let s = w.ents[0].shooting.expect("the fire signal attaches an intent");
    assert_eq!((s.dx, s.dy), (1, 0));
    assert_eq!(s.prob, 1000);
    assert_eq!(s.gun, GunType::Burst);
}

#[test]
fn keyboard_without_fire_leaves_no_intent() {
    let mut w = world();
    assert!(w.spawn(Kind::Robbo, 4, 4, 0, 0, false, false, 60));
    keyboard_system(&mut w, InputState { dir: InputDir::Up, fire: false });
    assert_eq!((w.ents[0].dx, w.ents[0].dy), (0, 1));
    assert!(w.ents[0].shooting.is_none());
}

#[test]
fn keyboard_touches_only_the_player() {
    let mut w = world();
    assert!(w.spawn(Kind::Robbo, 4, 4, 0, 0, false, false, 60));
    assert!(w.spawn(Kind::Bird, 7, 7, 1, 0, false, true, 15));
    keyboard_system(&mut w, InputState { dir: InputDir::Left, fire: false });
    assert_eq!((w.ents[1].dx, w.ents[1].dy), (1, 0));
    assert!(w.ents[1].shooting.is_none());
}

#[test]
fn two_shooters_contesting_one_cell_spawn_one_projectile() {
    // first come, first served: the first shooter in creation order spawns
    // into the clear cell; the second finds it occupied and raises damage
    let mut w = world();
    assert!(w.spawn(Kind::Bird, 4, 4, 0, 0, false, true, 15));
    assert!(w.spawn(Kind::Bird, 6, 4, 0, 0, false, true, 15));
    assert!(w.set_shooting(0, ShootingDir { dx: 1, dy: 0, prob: 1000, gun: GunType::Burst }));
    assert!(w.set_shooting(1, ShootingDir { dx: -1, dy: 0, prob: 1000, gun: GunType::Burst }));
    let frame = FrameCnt::new();
    shot_system(&mut w, &frame);
    assert_eq!(w.ents.len(), 3, "exactly one projectile stands in the contested cell");
    assert_eq!((w.ents[2].x, w.ents[2].y), (5, 4));
    assert_eq!(w.events.len(), 1);
    assert_eq!(w.events[0], DamageEvent { x: 5, y: 4, from_projectile: false });
}

#[test]
fn a_flushed_queue_flushes_again_as_a_noop() {
    let mut w = world();
    assert!(w.spawn(Kind::Bird, 5, 4, 0, 0, false, true, 15));
    w.events.push(DamageEvent { x: 5, y: 4, from_projectile: false });
    damage_system(&mut w);
    assert!(!w.ents[0].alive);
    damage_system(&mut w);
    assert!(!w.ents[0].alive);
    assert_eq!(w.ents.len(), 1);
    assert!(w.events.is_empty());
}

#[test]
fn moving_box_moves_on_its_own_direction() {
    let mut w = world();
    assert!(w.spawn(Kind::MovingBox, 5, 5, 1, 0, true, false, 6));
    move_system(&mut w);
    assert_eq!((w.ents[0].x, w.ents[0].y), (6, 5));
}

#[test]
fn cadence_marks_every_fourth_tick() {
    let mut frame = FrameCnt::new();
    assert!(frame.do_shooting());
    frame.step();
    assert!(!frame.do_shooting());
    frame.step();
    assert!(!frame.do_shooting());
    frame.step();
    assert!(!frame.do_shooting());
    frame.step();
    assert!(frame.do_shooting());
}

#[test]
fn setup_populates_level_with_wall_ring() {
    let w = setup();
    assert_eq!(w.ents.len(), 7 + 2 * 32 + 2 * 14);
    assert_eq!(w.ents[0].kind, Kind::Robbo);
    assert_eq!((w.ents[0].x, w.ents[0].y), (10, 10));
    assert_eq!((w.ents[0].dx, w.ents[0].dy), (0, 0));
    assert_eq!(w.ents[0].tile, 60);
    assert!(w.ents[0].shooting.is_none());
    assert_eq!(
        w.ents.iter().filter(|e| e.kind == Kind::Robbo).count(),
        1,
        "exactly one player entity"
    );
    assert!(w.is_occupied(0, 0));
    assert!(w.is_occupied(31, 15));
    assert!(w.is_occupied(31, 7));
    assert!(w.is_occupied(17, 0));
    assert!(w.is_occupied(5, 5));
    assert!(w.is_occupied(4, 4));
    assert!(w.is_occupied(10, 5));
    assert!(!w.is_occupied(20, 8));
}

#[test]
fn setup_wall_ring_is_exact() {
    let w = setup();
    let walls: Vec<&robbo::components::Entity> =
        w.ents.iter().filter(|e| e.kind == Kind::Wall).collect();
    assert_eq!(walls.len(), 92, "one wall per perimeter cell of the 32x16 grid");
    for e in &walls {
        assert!(
            e.x == 0 || e.x == 31 || e.y == 0 || e.y == 15,
            "no wall stands on an interior cell"
        );
        assert!(e.alive && !e.moveable && !e.destroyable);
        assert_eq!((e.dx, e.dy), (0, 0));
        assert_eq!(e.tile, 3);
    }
    // every perimeter cell holds exactly one wall
    for x in 0..32 {
        for y in [0, 15] {
            assert_eq!(walls.iter().filter(|e| e.x == x && e.y == y).count(), 1);
        }
    }
    for y in 1..15 {
        for x in [0, 31] {
            assert_eq!(walls.iter().filter(|e| e.x == x && e.y == y).count(), 1);
        }
    }
    // the seven scripted entities precede the ring
    assert_eq!(w.ents[1].kind, Kind::Bird);
    assert_eq!((w.ents[1].x, w.ents[1].y, w.ents[1].dx, w.ents[1].dy), (10, 5, 1, 0));
    assert_eq!(w.ents[2].kind, Kind::Bird);
    assert_eq!((w.ents[2].x, w.ents[2].y, w.ents[2].dx, w.ents[2].dy), (10, 7, 0, 1));
    assert_eq!(w.ents[3].kind, Kind::LBear);
    assert_eq!((w.ents[3].x, w.ents[3].y, w.ents[3].dx, w.ents[3].dy), (1, 5, 0, -1));
    assert_eq!(w.ents[4].kind, Kind::LBear);
    assert_eq!((w.ents[4].x, w.ents[4].y, w.ents[4].dx, w.ents[4].dy), (1, 10, 0, -1));
    assert_eq!(w.ents[5].kind, Kind::MovingBox);
    assert!((w.ents[5].x, w.ents[5].y) == (5, 5) && w.ents[5].moveable);
    assert_eq!(w.ents[6].kind, Kind::StaticBox);
    assert!((w.ents[6].x, w.ents[6].y) == (4, 4) && w.ents[6].moveable);
}

#[test]
fn no_two_live_entities_share_a_cell_after_ticks() {
    let mut w = setup();
    let mut frame = FrameCnt::new();
    let script = [
        InputState { dir: InputDir::Right, fire: true },
        InputState { dir: InputDir::Up, fire: false },
        InputState { dir: InputDir::Up, fire: true },
        InputState { dir: InputDir::Left, fire: false },
        InputState { dir: InputDir::Still, fire: false },
        InputState { dir: InputDir::Down, fire: true },
        InputState { dir: InputDir::Right, fire: false },
        InputState { dir: InputDir::Right, fire: true },
    ];
    for inp in script.iter().cycle().take(64) {
        tick(&mut w, &mut frame, *inp);
        let live: Vec<(i32, i32)> =
            w.ents.iter().filter(|e| e.alive).map(|e| (e.x, e.y)).collect();
        let mut sorted = live.clone();
        sorted.sort();
        sorted.dedup();
        assert_eq!(sorted.len(), live.len(), "two live entities share a cell");
    }
}

#[test]
fn player_intent_never_survives_a_shooting_tick() {
    let mut w = setup();
    let mut frame = FrameCnt::new();
    for n in 0..32 {
        let shooting_tick = frame.do_shooting();
        tick(&mut w, &mut frame, InputState { dir: InputDir::Right, fire: true });
        if shooting_tick {
            assert!(
                w.ents[0].shooting.is_none(),
                "the player's firing intent survived the tick that evaluated it (tick {n})"
            );
        }
    }
}

#[test]
fn tick_advances_the_frame_counter() {
    let mut w = world();
    assert!(w.spawn(Kind::Robbo, 4, 4, 0, 0, false, false, 60));
    let mut frame = FrameCnt::new();
    tick(&mut w, &mut frame, InputState { dir: InputDir::Still, fire: false });
    assert_eq!(frame.frame, 1);
}

#[test]
fn damage_raised_in_a_tick_is_flushed_at_the_start_of_the_next() {
    let mut w = world();
    assert!(w.spawn(Kind::Robbo, 4, 4, 0, 0, false, false, 60));
    assert!(w.spawn(Kind::Bird, 5, 4, 0, 0, false, true, 15));
    let mut frame = FrameCnt::new();
    // shooting tick: the blocked shot raises damage against the bird's cell
    tick(&mut w, &mut frame, InputState { dir: InputDir::Still, fire: false });
    assert!(w.ents[1].alive);
    keyboard_then_fire(&mut w);
    shot_via_tick_sequence(&mut w, &mut frame);
    assert!(!w.ents[1].alive, "the event raised in tick N is applied before tick N+1 runs");
}

fn keyboard_then_fire(w: &mut World) {
    // attach a certain rightward intent directly, as the translator would
    assert!(w.set_shooting(0, ShootingDir { dx: 1, dy: 0, prob: 1000, gun: GunType::Burst }));
}

fn shot_via_tick_sequence(w: &mut World, frame: &mut FrameCnt) {
    // run ticks without input until a shooting tick evaluated the intent and
    // the following tick flushed the raised event
    let mut fired = false;
    for _ in 0..8 {
        let shooting = frame.do_shooting();
        tick(w, frame, InputState { dir: InputDir::Still, fire: false });
        if shooting {
            fired = true;
        }
        if fired {
            break;
        }
    }
    // one more tick so the damage flush at tick start applies the event
    tick(w, frame, InputState { dir: InputDir::Still, fire: false });
}
