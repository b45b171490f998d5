use highway_run::collision::resolve_player;
use highway_run::game::Game;
use highway_run::geom::{Vec2, AABB};
use highway_run::player::Player;

/// The session's wall set: left boundary, right boundary, floor.
fn session_walls() -> Vec<AABB> {
    let g = Game::new();
    let mut walls = Vec::new();
    for i in 0..g.wall_count() {
        walls.push(g.wall_at(i));
    }
    walls
}

/// The player's resting height on the floor: floor top plus half the
/// player's height.
const REST_Y: i64 = 11733;

fn no_wall_overlap(pos: Vec2, walls: &Vec<AABB>) -> bool {
    let player_box = AABB { center: pos, size: Vec2 { x: 7680, y: 17066 } };
    walls.iter().all(|w| !w.overlap(&player_box))
}

#[test]
fn resolver_idempotent_on_separated_player() {
    let walls = session_walls();
    let rest = Vec2 { x: 75732, y: REST_Y };
    assert!(no_wall_overlap(rest, &walls));
    assert_eq!(resolve_player(rest, &walls), rest);
    let airborne = Vec2 { x: 60000, y: 50000 };
    assert!(no_wall_overlap(airborne, &walls));
    assert_eq!(resolve_player(airborne, &walls), airborne);
}

#[test]
fn resolver_lifts_player_out_of_floor() {
    let walls = session_walls();
    let start = Vec2 { x: 75732, y: 4800 };
    let out = resolve_player(start, &walls);
    assert_eq!(out, Vec2 { x: 75732, y: REST_Y });
    assert!(no_wall_overlap(out, &walls));
}

#[test]
fn resolver_separates_assorted_placements() {
    // A spread of overlapping and free placements against the three static
    // walls; after the bounded passes none may still overlap a wall.
    let walls = session_walls();
    let placements = [
        (75732, 4800),
        (40000, 2000),
        (100000, 9000),
        (28000, 40000),
        (124000, 40000),
        (10000, 2000),
        (145000, 2500),
        (1600, 11733),
        (76800, 300),
        (33000, 500),
    ];
    for (x, y) in placements {
        let out = resolve_player(Vec2 { x, y }, &walls);
        assert!(no_wall_overlap(out, &walls), "still overlapping from ({x}, {y})");
    }
}

#[test]
fn run_speed_accumulates_exactly() {
    let mut g = Game::new();
    g.set_spawn_timers(1_000_000, 1_000_000);
    for _ in 0..10 {
        g.update_with_random(1, false, 0, -300, 50, -300, 50);
    }
    // 10 ticks at full axis: x advances by exactly 10 * 800.
    assert_eq!(g.player().pos.x, 75732 + 10 * 800);
    assert!(!g.is_game_over());
}

#[test]
fn jump_press_while_grounded_launches() {
    let mut p = Player {
        pos: Vec2 { x: 0, y: 4800 },
        is_jumping: false,
        jump_velocity: 0,
    };
    p.jump_step(true);
    // The press set the flag and stored the launch velocity (then one tick
    // of arc ran: flat ascent, one decay step, landing check).
    assert_eq!(p.pos.y, 4800 + 20000);
    assert_eq!(p.jump_velocity, 1600 - 40);
    assert!(!p.is_jumping, "landed: the ascent put the player above floor height");
}

#[test]
fn jump_press_while_jumping_does_not_retrigger() {
    let mut p = Player {
        pos: Vec2 { x: 0, y: -30000 },
        is_jumping: true,
        jump_velocity: 1000,
    };
    p.jump_step(true);
    // No re-launch: the stored velocity only decays.
    assert_eq!(p.jump_velocity, 1000 - 40);
    assert_eq!(p.pos.y, -30000 + 20000);
    assert!(p.is_jumping);
}

#[test]
fn spawner_exact_first_spawn() {
    let mut g = Game::new();
    // Both timers start expired: the first tick spawns one car and one coin
    // in the drawn lane, which both kinds share.
    g.update_with_random(0, false, 2, -250, 40, -400, 60);
    assert_eq!(g.car_count(), 1);
    assert_eq!(g.coin_count(), 1);
    let car = g.car_at(0);
    // Spawned just above the screen, then moved once by its velocity.
    assert_eq!(car.pos, Vec2 { x: 99200, y: 257600 - 250 });
    assert_eq!(car.vel, Vec2 { x: 0, y: -250 });
    assert_eq!(g.car_timer(), 40);
    let coin = g.coin_at(0);
    assert_eq!(coin.pos, Vec2 { x: 99200, y: 257600 - 400 });
    assert_eq!(coin.vel, Vec2 { x: 0, y: -400 });
    assert_eq!(g.coin_timer(), 60);
}

#[test]
fn spawner_running_timer_only_counts_down() {
    let mut g = Game::new();
    g.set_spawn_timers(3, 5);
    g.update_with_random(0, false, 0, -300, 50, -300, 50);
    assert_eq!(g.car_count(), 0);
    assert_eq!(g.coin_count(), 0);
    assert_eq!(g.car_timer(), 2);
    assert_eq!(g.coin_timer(), 4);
}

#[test]
fn spawner_cap_never_exceeded() {
    let mut g = Game::new();
    for i in 0..200u32 {
        g.update_with_random(0, false, (i % 3) as usize, -300, 30, -350, 30);
        assert!(g.car_count() <= 8);
        assert!(g.coin_count() <= 8);
    }
}

#[test]
fn culling_removes_at_threshold_and_not_before() {
    let mut g = Game::new();
    g.set_spawn_timers(1_000_000, 1_000_000);
    assert!(g.set_player_position(Vec2 { x: 75732, y: REST_Y }));
    // One car will land exactly on the threshold, one below it, one above.
    assert!(g.place_car(Vec2 { x: 52266, y: -1400 }, Vec2 { x: 0, y: -200 }));
    assert!(g.place_car(Vec2 { x: 52266, y: -1500 }, Vec2 { x: 0, y: -200 }));
    assert!(g.place_car(Vec2 { x: 52266, y: -1300 }, Vec2 { x: 0, y: -200 }));
    g.update_with_random(0, false, 0, -300, 50, -300, 50);
    // -1600 and -1700 are at or below the threshold -1600: culled on this
    // tick.  -1500 is still above it: kept.
    assert_eq!(g.car_count(), 1);
    assert_eq!(g.car_at(0).pos, Vec2 { x: 52266, y: -1500 });
    assert!(!g.is_game_over());
}

#[test]
fn coin_culling_matches_car_culling() {
    let mut g = Game::new();
    g.set_spawn_timers(1_000_000, 1_000_000);
    assert!(g.set_player_position(Vec2 { x: 75732, y: REST_Y }));
    assert!(g.place_coin(Vec2 { x: 99200, y: -1550 }, Vec2 { x: 0, y: -100 }));
    assert!(g.place_coin(Vec2 { x: 99200, y: -1400 }, Vec2 { x: 0, y: -100 }));
    g.update_with_random(0, false, 0, -300, 50, -300, 50);
    assert_eq!(g.coin_count(), 1);
    assert_eq!(g.coin_at(0).pos, Vec2 { x: 99200, y: -1500 });
}

#[test]
fn catch_at_exact_threshold_distance() {
    let mut g = Game::new();
    g.set_spawn_timers(1_000_000, 1_000_000);
    assert!(g.set_player_position(Vec2 { x: 75732, y: REST_Y }));
    // A motionless car exactly the catch distance away on the x-axis.
    assert!(g.place_car(Vec2 { x: 75732 + 1600, y: REST_Y }, Vec2 { x: 0, y: 0 }));
    g.update_with_random(0, false, 0, -300, 50, -300, 50);
    assert!(g.is_game_over());
    // The caught car is not removed and the score does not change.
    assert_eq!(g.car_count(), 1);
    assert_eq!(g.score(), 0);
}

#[test]
fn no_catch_strictly_beyond_threshold() {
    let mut g = Game::new();
    g.set_spawn_timers(1_000_000, 1_000_000);
    assert!(g.set_player_position(Vec2 { x: 75732, y: REST_Y }));
    assert!(g.place_car(Vec2 { x: 75732 + 1601, y: REST_Y }, Vec2 { x: 0, y: 0 }));
    g.update_with_random(0, false, 0, -300, 50, -300, 50);
    assert!(!g.is_game_over());
}

#[test]
fn place_car_refuses_out_of_bounds_and_overflow() {
    let mut g = Game::new();
    // Upward velocity is not a spawnable car.
    assert!(!g.place_car(Vec2 { x: 0, y: 0 }, Vec2 { x: 0, y: 5 }));
    // Sideways drift is not a spawnable car.
    assert!(!g.place_car(Vec2 { x: 0, y: 0 }, Vec2 { x: 1, y: 0 }));
    // Far outside the world.
    assert!(!g.place_car(Vec2 { x: 1 << 40, y: 0 }, Vec2 { x: 0, y: 0 }));
    assert_eq!(g.car_count(), 0);
    // The cap refuses a ninth car.
    for i in 0..8 {
        assert!(g.place_car(Vec2 { x: 1000 * i, y: 0 }, Vec2 { x: 0, y: -10 }));
    }
    assert!(!g.place_car(Vec2 { x: 9000, y: 0 }, Vec2 { x: 0, y: -10 }));
    assert_eq!(g.car_count(), 8);
}

#[test]
fn set_player_position_refuses_out_of_bounds() {
    let mut g = Game::new();
    let before = g.player().pos;
    assert!(!g.set_player_position(Vec2 { x: i64::MAX, y: 0 }));
    assert_eq!(g.player().pos, before);
    assert!(g.set_player_position(Vec2 { x: 100, y: 200 }));
    assert_eq!(g.player().pos, Vec2 { x: 100, y: 200 });
}
