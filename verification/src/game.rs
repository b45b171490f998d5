//! The session: walls, player, cars and coins with their spawn timers, the
//! score and the terminal flag, and the per-tick entry point.

use vstd::prelude::*;
use crate::collision::{resolve_player, walls_ok, walls_view};
use crate::entity::{
    check_catch, cull_entities, ent_near, ent_ok, ents_near, ents_ok, ents_view, move_entities,
    spawn_step, Entity,
};
use crate::geom::{iabs, AABB, Vec2};
use crate::model::{
    ent_kept, ents_culled, ents_moved, initial_model, initial_walls, lane_x, spec_jump,
    spec_lane_x, spec_move_ent, spec_resolve, spec_run, spec_spawn_list, spec_update, tick_in,
    tick_in_valid, EntM, GameModel, PlayerM, TickIn, COLLISION_STEPS, ENTITY_CAP,
    PLAYER_START_X, PLAYER_START_Y, POS_LIMIT, SPAWN_VY_MAX, SPAWN_VY_MIN, TIMER_RESET_MAX,
    TIMER_RESET_MIN, VEL_LIMIT, WORLD_LIMIT,
};
use crate::player::{player_in_range, Player};
use crate::rng::{random_i64_in, random_lane, random_u32_in};

verus! {

/// The live cars and coins never exceed their cap.
pub open spec fn counts_ok(m: GameModel) -> bool {
    &&& m.cars.len() <= ENTITY_CAP as int
    &&& m.coins.len() <= ENTITY_CAP as int
}

/// A well-formed session: bounded walls, well-formed entity lists, both
/// below the cap.
pub open spec fn session_ok(m: GameModel) -> bool {
    &&& walls_ok(m.walls)
    &&& ents_ok(m.cars)
    &&& ents_ok(m.coins)
    &&& counts_ok(m)
}

/// Moving then culling well-formed entities keeps them well formed and
/// cannot grow the list.
proof fn lemma_move_cull_ok(s: Seq<EntM>)
    requires
        ents_ok(s),
    ensures
        ents_ok(ents_culled(ents_moved(s))),
        ents_culled(ents_moved(s)).len() <= s.len(),
    decreases s.len(),
{
    let ms = ents_moved(s);
    if s.len() == 0 {
        assert(ms =~= Seq::<EntM>::empty());
    } else {
        let t = s.drop_last();
        assert(ents_ok(t)) by {
            assert(forall|i: int| 0 <= i < t.len() ==> t[i] == s[i]);
        }
        lemma_move_cull_ok(t);
        assert(ms.drop_last() =~= ents_moved(t));
        assert(ms.last() == spec_move_ent(s.last()));
        let culled = ents_culled(ms);
        let prev = ents_culled(ents_moved(t));
        if ent_kept(ms.last()) {
            assert(culled == prev.push(ms.last()));
            assert(ent_ok(ms.last())) by {
                assert(ent_ok(s.last()));
            }
            assert(forall|i: int| 0 <= i < culled.len() ==> ent_ok(#[trigger] culled[i])) by {
                assert(forall|i: int| 0 <= i < prev.len() ==> culled[i] == prev[i]);
                assert(culled[culled.len() - 1] == ms.last());
            }
        } else {
            assert(culled == prev);
        }
    }
}

/// A spawn step on a well-formed list keeps it well formed and below the
/// cap, given an in-range lane and velocity.
proof fn lemma_spawn_ok(timer: int, s: Seq<EntM>, lx: int, vy: int)
    requires
        ents_ok(s),
        s.len() <= ENTITY_CAP as int,
        iabs(lx) <= WORLD_LIMIT as int,
        -VEL_LIMIT as int <= vy <= 0,
    ensures
        ents_ok(spec_spawn_list(timer, s, lx, vy)),
        spec_spawn_list(timer, s, lx, vy).len() <= ENTITY_CAP as int,
{
    let out = spec_spawn_list(timer, s, lx, vy);
    if timer <= 0 && s.len() < ENTITY_CAP as int {
        let e = EntM { px: lx, py: crate::model::SPAWN_Y as int, vx: 0, vy };
        assert(ent_ok(e));
        assert(forall|i: int| 0 <= i < out.len() ==> ent_ok(#[trigger] out[i])) by {
            assert(forall|i: int| 0 <= i < s.len() ==> out[i] == s[i]);
            assert(out[out.len() - 1] == e);
        }
    }
}

/// One tick of a well-formed session with in-range inputs is well formed
/// again.
pub proof fn lemma_update_ok(m: GameModel, t: TickIn)
    requires
        session_ok(m),
        tick_in_valid(t),
    ensures
        session_ok(spec_update(m, t)),
{
    let lx = spec_lane_x(t.lane);
    lemma_spawn_ok(m.car_timer, m.cars, lx, t.car_vy);
    lemma_move_cull_ok(spec_spawn_list(m.car_timer, m.cars, lx, t.car_vy));
    lemma_spawn_ok(m.coin_timer, m.coins, lx, t.coin_vy);
    lemma_move_cull_ok(spec_spawn_list(m.coin_timer, m.coins, lx, t.coin_vy));
}

/// The session state.  The walls are set once at construction and never
/// change; every other field advances tick by tick.
pub struct Game {
    walls: Vec<AABB>,
    player: Player,
    cars: Vec<Entity>,
    car_timer: u32,
    coins: Vec<Entity>,
    coin_timer: u32,
    score: u32,
    game_over: bool,
}

impl View for Game {
    type V = GameModel;

    closed spec fn view(&self) -> GameModel {
        GameModel {
            walls: walls_view(self.walls@),
            player: self.player@,
            cars: ents_view(self.cars@),
            car_timer: self.car_timer as int,
            coins: ents_view(self.coins@),
            coin_timer: self.coin_timer as int,
            score: self.score as int,
            game_over: self.game_over,
        }
    }
}

impl Game {
    /// A fresh session: three walls (left boundary, right boundary, floor),
    /// the player at its start position, no cars or coins, expired spawn
    /// timers, score zero, not over.
    pub fn new() -> (g: Game)
        ensures
            g@ == initial_model(),
            session_ok(g@),
            player_in_range(g@.player),
    {
        let left = AABB {
            center: Vec2 { x: 1600, y: 128000 },
            size: Vec2 { x: 57600, y: 256000 },
        };
        let right = AABB {
            center: Vec2 { x: 152000, y: 128000 },
            size: Vec2 { x: 57600, y: 256000 },
        };
        let floor = AABB {
            center: Vec2 { x: 76800, y: 1600 },
            size: Vec2 { x: 153600, y: 3200 },
        };
        let mut walls: Vec<AABB> = Vec::new();
        walls.push(left);
        walls.push(right);
        walls.push(floor);
        let g = Game {
            walls,
            player: Player {
                pos: Vec2 { x: PLAYER_START_X, y: PLAYER_START_Y },
                is_jumping: false,
                jump_velocity: 0,
            },
            cars: Vec::new(),
            car_timer: 0,
            coins: Vec::new(),
            coin_timer: 0,
            score: 0,
            game_over: false,
        };
        proof {
            assert(walls_view(g.walls@) =~= initial_walls());
            assert(ents_view(g.cars@) =~= Seq::<EntM>::empty());
            assert(ents_view(g.coins@) =~= Seq::<EntM>::empty());
            assert(g@ =~= initial_model());
        }
        g
    }

    /// Whether the session has ended.
    pub fn is_game_over(&self) -> (r: bool)
        ensures
            r == self@.game_over,
    {
        self.game_over
    }

    /// The current score.
    pub fn score(&self) -> (r: u32)
        ensures
            r as int == self@.score,
    {
        self.score
    }

    /// One full simulation tick with the randomly drawn values passed in:
    /// kinematics, collision resolution, car spawning, car movement, the
    /// catch test, car culling, and the same spawn, move and cull steps for
    /// coins.  Cars and coins share the one lane draw.
    pub fn update_with_random(
        &mut self,
        axis: i64,
        jump_pressed: bool,
        lane: usize,
        car_vy: i64,
        car_reset: u32,
        coin_vy: i64,
        coin_reset: u32,
    )
        requires
            session_ok(old(self)@),
            player_in_range(old(self)@.player),
            -1 <= axis <= 1,
            lane < 3,
            SPAWN_VY_MIN <= car_vy < SPAWN_VY_MAX,
            SPAWN_VY_MIN <= coin_vy < SPAWN_VY_MAX,
            TIMER_RESET_MIN <= car_reset < TIMER_RESET_MAX,
            TIMER_RESET_MIN <= coin_reset < TIMER_RESET_MAX,
        ensures
            final(self)@ == spec_update(
                old(self)@,
                tick_in(
                    axis as int,
                    jump_pressed,
                    lane as int,
                    car_vy as int,
                    car_reset as int,
                    coin_vy as int,
                    coin_reset as int,
                ),
            ),
            session_ok(final(self)@),
            old(self)@.game_over ==> final(self)@.game_over,
    {
        let ghost m0 = self@;
        let ghost t = tick_in(
            axis as int,
            jump_pressed,
            lane as int,
            car_vy as int,
            car_reset as int,
            coin_vy as int,
            coin_reset as int,
        );
        // Kinematics, then the collision resolver.
        self.player.run(axis);
        self.player.jump_step(jump_pressed);
        let resolved = resolve_player(self.player.pos, &self.walls);
        self.player.pos = resolved;
        proof {
            let p2 = spec_jump(spec_run(m0.player, axis as int), jump_pressed);
            let rp = spec_resolve(m0.walls, p2.px, p2.py, COLLISION_STEPS as nat);
            assert(self.player@ == PlayerM {
                px: rp.x,
                py: rp.y,
                jumping: p2.jumping,
                jv: p2.jv,
            });
        }
        // Cars: spawn, move, catch test, cull.
        let lx = lane_x(lane);
        spawn_step(&mut self.car_timer, &mut self.cars, lx, car_vy, car_reset);
        proof {
            lemma_spawn_ok(m0.car_timer, m0.cars, lx as int, car_vy as int);
        }
        move_entities(&mut self.cars);
        proof {
            let moved = ents_view(self.cars@);
            assert(ents_near(moved)) by {
                let src = spec_spawn_list(m0.car_timer, m0.cars, lx as int, car_vy as int);
                assert(forall|i: int| 0 <= i < moved.len() ==> ent_near(#[trigger] moved[i]))
                    by {
                    assert(forall|i: int|
                        0 <= i < src.len() ==> moved[i] == spec_move_ent(#[trigger] src[i]));
                }
            }
        }
        let caught_now = check_catch(&self.cars, self.player.pos);
        if caught_now {
            self.game_over = true;
        }
        cull_entities(&mut self.cars);
        // Coins: spawn from the same lane draw, move, cull.
        spawn_step(&mut self.coin_timer, &mut self.coins, lx, coin_vy, coin_reset);
        proof {
            lemma_spawn_ok(m0.coin_timer, m0.coins, lx as int, coin_vy as int);
        }
        move_entities(&mut self.coins);
        cull_entities(&mut self.coins);
        proof {
            lemma_update_ok(m0, t);
            assert(self@ =~= spec_update(m0, t));
        }
    }

    /// One full simulation tick: the lane, the two downward velocities and
    /// the two timer resets are drawn at random from their fixed ranges,
    /// and the rest of the tick is exactly `spec_update` on them.
    pub fn update(&mut self, axis: i64, jump_pressed: bool)
        requires
            session_ok(old(self)@),
            player_in_range(old(self)@.player),
            -1 <= axis <= 1,
        ensures
            session_ok(final(self)@),
            exists|t: TickIn|
                #[trigger] tick_in_valid(t) && t.axis == axis as int && t.jump == jump_pressed
                    && final(self)@ == spec_update(old(self)@, t),
            old(self)@.game_over ==> final(self)@.game_over,
    {
        let lane = random_lane();
        let car_vy = random_i64_in(SPAWN_VY_MIN, SPAWN_VY_MAX);
        let car_reset = random_u32_in(TIMER_RESET_MIN, TIMER_RESET_MAX);
        let coin_vy = random_i64_in(SPAWN_VY_MIN, SPAWN_VY_MAX);
        let coin_reset = random_u32_in(TIMER_RESET_MIN, TIMER_RESET_MAX);
        self.update_with_random(
            axis,
            jump_pressed,
            lane,
            car_vy,
            car_reset,
            coin_vy,
            coin_reset,
        );
        proof {
            let t = tick_in(
                axis as int,
                jump_pressed,
                lane as int,
                car_vy as int,
                car_reset as int,
                coin_vy as int,
                coin_reset as int,
            );
            assert(tick_in_valid(t) && t.axis == axis as int && t.jump == jump_pressed && self@
                == spec_update(old(self)@, t));
        }
    }

    /// How many walls the session has.
    pub fn wall_count(&self) -> (r: usize)
        ensures
            r as int == self@.walls.len(),
    {
        self.walls.len()
    }

    /// The wall at an index.
    pub fn wall_at(&self, i: usize) -> (r: AABB)
        requires
            i < self@.walls.len(),
        ensures
            r@ == self@.walls[i as int],
    {
        proof {
            assert(self@.walls[i as int] == self.walls@[i as int]@);
        }
        self.walls[i]
    }

    /// A snapshot of the player.
    pub fn player(&self) -> (r: Player)
        ensures
            r@ == self@.player,
    {
        self.player
    }

    /// How many cars are alive.
    pub fn car_count(&self) -> (r: usize)
        ensures
            r as int == self@.cars.len(),
    {
        self.cars.len()
    }

    /// The car at an index.
    pub fn car_at(&self, i: usize) -> (r: Entity)
        requires
            i < self@.cars.len(),
        ensures
            r@ == self@.cars[i as int],
    {
        proof {
            assert(self@.cars[i as int] == self.cars@[i as int]@);
        }
        self.cars[i]
    }

    /// How many coins are alive.
    pub fn coin_count(&self) -> (r: usize)
        ensures
            r as int == self@.coins.len(),
    {
        self.coins.len()
    }

    /// The coin at an index.
    pub fn coin_at(&self, i: usize) -> (r: Entity)
        requires
            i < self@.coins.len(),
        ensures
            r@ == self@.coins[i as int],
    {
        proof {
            assert(self@.coins[i as int] == self.coins@[i as int]@);
        }
        self.coins[i]
    }

    /// The car spawn timer.
    pub fn car_timer(&self) -> (r: u32)
        ensures
            r as int == self@.car_timer,
    {
        self.car_timer
    }

    /// The coin spawn timer.
    pub fn coin_timer(&self) -> (r: u32)
        ensures
            r as int == self@.coin_timer,
    {
        self.coin_timer
    }

    /// Arm both spawn timers, for drivers and tests that want to schedule
    /// or suppress spawning.
    pub fn set_spawn_timers(&mut self, car: u32, coin: u32)
        ensures
            final(self)@ == (GameModel {
                car_timer: car as int,
                coin_timer: coin as int,
                ..old(self)@
            }),
            session_ok(old(self)@) ==> session_ok(final(self)@),
    {
        self.car_timer = car;
        self.coin_timer = coin;
    }

    /// Move the player to a position within the simulation bounds; out of
    /// bounds the session is left untouched and `false` comes back.
    pub fn set_player_position(&mut self, pos: Vec2) -> (ok: bool)
        ensures
            ok == (iabs(pos.x as int) <= POS_LIMIT as int && iabs(pos.y as int)
                <= POS_LIMIT as int),
            ok ==> final(self)@ == (GameModel {
                player: PlayerM {
                    px: pos.x as int,
                    py: pos.y as int,
                    jumping: old(self)@.player.jumping,
                    jv: old(self)@.player.jv,
                },
                ..old(self)@
            }),
            !ok ==> final(self)@ == old(self)@,
            session_ok(old(self)@) ==> session_ok(final(self)@),
            player_in_range(old(self)@.player) && ok ==> player_in_range(final(self)@.player),
    {
        if pos.x >= -POS_LIMIT && pos.x <= POS_LIMIT && pos.y >= -POS_LIMIT && pos.y
            <= POS_LIMIT {
            self.player.pos = pos;
            true
        } else {
            false
        }
    }

    /// Add a car with the given position and velocity, for drivers and
    /// tests that stage a scene.  Out-of-bounds values or a full list leave
    /// the session untouched and `false` comes back.
    pub fn place_car(&mut self, pos: Vec2, vel: Vec2) -> (ok: bool)
        ensures
            ok == (ent_ok(EntM {
                px: pos.x as int,
                py: pos.y as int,
                vx: vel.x as int,
                vy: vel.y as int,
            }) && old(self)@.cars.len() < ENTITY_CAP as int),
            ok ==> final(self)@ == (GameModel {
                cars: old(self)@.cars.push(
                    EntM { px: pos.x as int, py: pos.y as int, vx: vel.x as int, vy: vel.y as int },
                ),
                ..old(self)@
            }),
            !ok ==> final(self)@ == old(self)@,
            session_ok(old(self)@) ==> session_ok(final(self)@),
    {
        let within = pos.x >= -WORLD_LIMIT && pos.x <= WORLD_LIMIT && pos.y >= -WORLD_LIMIT
            && pos.y <= WORLD_LIMIT && vel.x == 0 && vel.y >= -VEL_LIMIT && vel.y <= 0;
        if within && self.cars.len() < ENTITY_CAP {
            let ghost before = ents_view(self.cars@);
            self.cars.push(Entity { pos, vel });
            proof {
                assert(ents_view(self.cars@) =~= before.push(
                    EntM { px: pos.x as int, py: pos.y as int, vx: vel.x as int, vy: vel.y as int },
                ));
                if session_ok(old(self)@) {
                    let out = ents_view(self.cars@);
                    assert(forall|i: int| 0 <= i < out.len() ==> ent_ok(#[trigger] out[i]))
                        by {
                        assert(forall|i: int| 0 <= i < before.len() ==> out[i] == before[i]);
                    }
                }
            }
            true
        } else {
            false
        }
    }

    /// Add a coin with the given position and velocity, under the same
    /// rules as `place_car`.
    pub fn place_coin(&mut self, pos: Vec2, vel: Vec2) -> (ok: bool)
        ensures
            ok == (ent_ok(EntM {
                px: pos.x as int,
                py: pos.y as int,
                vx: vel.x as int,
                vy: vel.y as int,
            }) && old(self)@.coins.len() < ENTITY_CAP as int),
            ok ==> final(self)@ == (GameModel {
                coins: old(self)@.coins.push(
                    EntM { px: pos.x as int, py: pos.y as int, vx: vel.x as int, vy: vel.y as int },
                ),
                ..old(self)@
            }),
            !ok ==> final(self)@ == old(self)@,
            session_ok(old(self)@) ==> session_ok(final(self)@),
    {
        let within = pos.x >= -WORLD_LIMIT && pos.x <= WORLD_LIMIT && pos.y >= -WORLD_LIMIT
            && pos.y <= WORLD_LIMIT && vel.x == 0 && vel.y >= -VEL_LIMIT && vel.y <= 0;
        if within && self.coins.len() < ENTITY_CAP {
            let ghost before = ents_view(self.coins@);
            self.coins.push(Entity { pos, vel });
            proof {
                assert(ents_view(self.coins@) =~= before.push(
                    EntM { px: pos.x as int, py: pos.y as int, vx: vel.x as int, vy: vel.y as int },
                ));
                if session_ok(old(self)@) {
                    let out = ents_view(self.coins@);
                    assert(forall|i: int| 0 <= i < out.len() ==> ent_ok(#[trigger] out[i]))
                        by {
                        assert(forall|i: int| 0 <= i < before.len() ==> out[i] == before[i]);
                    }
                }
            }
            true
        } else {
            false
        }
    }
}

} // verus!
