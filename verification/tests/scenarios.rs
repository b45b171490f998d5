use highway_run::game::Game;
use highway_run::geom::Vec2;

#[test]
fn idle_session_comes_to_rest_and_never_ends() {
    let mut g = Game::new();
    // Arm both spawn timers far beyond the run so that nothing spawns.
    g.set_spawn_timers(1_000_000, 1_000_000);
    let start_x = g.player().pos.x;
    for _ in 0..200 {
        g.update_with_random(0, false, 0, -300, 50, -300, 50);
    }
    let p = g.player();
    // No input: x never moves; the floor push settles y at the resting
    // height on the very first tick and it stays there.
    assert_eq!(p.pos.x, start_x);
    assert_eq!(p.pos.y, 11733);
    assert!(!p.is_jumping);
    assert!(!g.is_game_over());
    assert_eq!(g.car_count(), 0);
    assert_eq!(g.coin_count(), 0);
    assert_eq!(g.score(), 0);
}

#[test]
fn car_on_player_ends_session_in_one_tick() {
    let mut g = Game::new();
    g.set_spawn_timers(1_000_000, 1_000_000);
    // Settle the player on the floor first, then put a motionless car at
    // its exact position.
    g.update_with_random(0, false, 0, -300, 50, -300, 50);
    let p = g.player().pos;
    assert!(g.place_car(p, Vec2 { x: 0, y: 0 }));
    assert!(!g.is_game_over());
    g.update_with_random(0, false, 0, -300, 50, -300, 50);
    assert!(g.is_game_over());
}

#[test]
fn game_over_is_one_shot() {
    let mut g = Game::new();
    g.set_spawn_timers(1_000_000, 1_000_000);
    g.update_with_random(0, false, 0, -300, 50, -300, 50);
    let p = g.player().pos;
    assert!(g.place_car(p, Vec2 { x: 0, y: 0 }));
    g.update_with_random(0, false, 0, -300, 50, -300, 50);
    assert!(g.is_game_over());
    for _ in 0..20 {
        g.update_with_random(1, true, 1, -300, 50, -300, 50);
        assert!(g.is_game_over());
    }
}

#[test]
fn random_tick_draws_stay_in_their_ranges() {
    // Both spawn timers start expired, so the first randomized tick spawns
    // one car and one coin from the drawn values.
    let mut g = Game::new();
    g.update(0, false);
    assert_eq!(g.car_count(), 1);
    assert_eq!(g.coin_count(), 1);
    let car = g.car_at(0);
    let coin = g.coin_at(0);
    let lanes = [52266, 75732, 99200];
    assert!(lanes.contains(&car.pos.x));
    // Cars and coins share the one lane draw of the tick.
    assert_eq!(coin.pos.x, car.pos.x);
    assert!((-800..=-201).contains(&car.vel.y));
    assert!((-800..=-201).contains(&coin.vel.y));
    assert_eq!(car.vel.x, 0);
    assert_eq!(coin.vel.x, 0);
    assert!((30..=89).contains(&g.car_timer()));
    assert!((30..=89).contains(&g.coin_timer()));
    // Spawned just above the screen and moved once by the drawn velocity.
    assert_eq!(car.pos.y, 257600 + car.vel.y);
    assert_eq!(coin.pos.y, 257600 + coin.vel.y);
}

#[test]
fn randomized_session_respects_caps_and_walls() {
    let mut g = Game::new();
    for i in 0..300u32 {
        let axis = match i % 4 {
            0 => -1,
            1 => 1,
            _ => 0,
        };
        g.update(axis, i % 7 == 0);
        assert!(g.car_count() <= 8);
        assert!(g.coin_count() <= 8);
        if g.is_game_over() {
            break;
        }
    }
}
