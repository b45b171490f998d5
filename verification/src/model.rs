//! The mathematical model of one simulation tick.
//!
//! Every executable step of the simulation is specified against the spec
//! functions in this module: `spec_update` maps the model of a session state
//! and one tick's inputs (the input axis, the jump edge, and the values the
//! spawner draws at random) to the model of the next state.  The laws the
//! library proves are stated over these functions.

use vstd::prelude::*;
use crate::geom::{BoxM, V2M, iabs};

verus! {

// --- World constants, in integer sub-units (200 sub-units = 1 world unit) ---

/// Screen width.
pub const SCREEN_W: i64 = 153600;

/// Screen height.
pub const SCREEN_H: i64 = 256000;

/// Horizontal distance the player covers per tick at full axis deflection.
pub const RUN_SPEED: i64 = 800;

/// A car at most this far from the player catches it and ends the session.
pub const CATCH_DISTANCE: i64 = 1600;

/// Number of passes of the iterative collision resolver.
pub const COLLISION_STEPS: u32 = 3;

/// Full width of the player's bounding box.
pub const PLAYER_W: i64 = 7680;

/// Full height of the player's bounding box.
pub const PLAYER_H: i64 = 17066;

/// Player spawn position.
pub const PLAYER_START_X: i64 = 75732;

/// Player spawn position.
pub const PLAYER_START_Y: i64 = 4800;

/// Height at or above which a jumping player counts as landed.
pub const FLOOR_HEIGHT: i64 = 3200;

/// Vertical velocity stored when a jump starts.
pub const JUMP_LAUNCH: i64 = 1600;

/// Flat vertical ascent applied per tick while jumping.
pub const JUMP_STEP: i64 = 20000;

/// Per-tick decay of the stored jump velocity.
pub const GRAVITY_DECAY: i64 = 40;

/// Lane center x-coordinates where cars and coins spawn.
pub const LANE_LEFT: i64 = 52266;

/// Lane center x-coordinates where cars and coins spawn.
pub const LANE_MIDDLE: i64 = 75732;

/// Lane center x-coordinates where cars and coins spawn.
pub const LANE_RIGHT: i64 = 99200;

/// Cars and coins spawn just above the top of the screen.
pub const SPAWN_Y: i64 = 257600;

/// Inclusive lower bound of the downward spawn velocity.
pub const SPAWN_VY_MIN: i64 = -800;

/// Exclusive upper bound of the downward spawn velocity.
pub const SPAWN_VY_MAX: i64 = -200;

/// Inclusive lower bound of a freshly drawn spawn timer.
pub const TIMER_RESET_MIN: u32 = 30;

/// Exclusive upper bound of a freshly drawn spawn timer.
pub const TIMER_RESET_MAX: u32 = 90;

/// Entities whose y-coordinate falls to this threshold or below are culled.
pub const CULL_Y: i64 = -1600;

/// Most cars (and, separately, coins) alive at once.
pub const ENTITY_CAP: usize = 8;

// --- Bounds that keep the executable i64 arithmetic exact ---

/// The player's position components stay far below this bound in any real
/// session; the executable tick requires it so that its arithmetic is exact.
pub const POS_LIMIT: i64 = 0x2000_0000_0000;

/// Bound on the stored jump velocity accepted by the executable tick.
pub const JV_LIMIT: i64 = 0x2000_0000_0000;

/// Bound on wall and entity coordinates.
pub const WORLD_LIMIT: i64 = 0x10_0000;

/// Bound on entity velocity components.
pub const VEL_LIMIT: i64 = 1024;

/// Most walls a session may carry.
pub const MAX_WALLS: usize = 8;

// --- Player model and kinematics ---

/// Mathematical image of the player: position, jump flag, stored velocity.
pub ghost struct PlayerM {
    pub px: int,
    pub py: int,
    pub jumping: bool,
    pub jv: int,
}

/// Horizontal run control: the position advances by the axis value times the
/// run speed.
pub open spec fn spec_run(p: PlayerM, axis: int) -> PlayerM {
    PlayerM { px: p.px + axis * RUN_SPEED as int, py: p.py, jumping: p.jumping, jv: p.jv }
}

/// A jump press while grounded sets the jump flag and stores the launch
/// velocity; a press while already jumping changes nothing.
pub open spec fn spec_jump_start(p: PlayerM, pressed: bool) -> PlayerM {
    if pressed && !p.jumping {
        PlayerM { px: p.px, py: p.py, jumping: true, jv: JUMP_LAUNCH as int }
    } else {
        p
    }
}

/// While jumping the position rises by the flat jump step and the stored
/// velocity decays; reaching the floor height resets the jump flag without
/// clamping the position back down.
pub open spec fn spec_jump_advance(p: PlayerM) -> PlayerM {
    if p.jumping {
        let py2 = p.py + JUMP_STEP as int;
        PlayerM {
            px: p.px,
            py: py2,
            jumping: !(py2 >= FLOOR_HEIGHT as int),
            jv: p.jv - GRAVITY_DECAY as int,
        }
    } else {
        p
    }
}

/// One tick of vertical kinematics: the jump edge is taken first, then the
/// jump arc advances.
pub open spec fn spec_jump(p: PlayerM, pressed: bool) -> PlayerM {
    spec_jump_advance(spec_jump_start(p, pressed))
}

// --- Collision resolution ---

/// The player's bounding box at a given position.
pub open spec fn guy_box_at(px: int, py: int) -> BoxM {
    BoxM { cx: px, cy: py, sx: PLAYER_W as int, sy: PLAYER_H as int }
}

/// A wall the player currently penetrates, with the displacement recorded
/// when the contact was collected and its squared magnitude as sort key.
pub ghost struct ContactM {
    pub wbox: BoxM,
    pub dx: int,
    pub dy: int,
    pub key: int,
}

/// The contact entry for wall `i` against the player at `(px, py)`.
pub open spec fn wall_contact(walls: Seq<BoxM>, i: int, px: int, py: int) -> ContactM {
    let d = crate::geom::spec_overlap_depth(walls[i], guy_box_at(px, py));
    ContactM { wbox: walls[i], dx: d.x, dy: d.y, key: d.x * d.x + d.y * d.y }
}

/// Contacts against the first `n` walls, in wall order.
pub open spec fn contacts_upto(walls: Seq<BoxM>, px: int, py: int, n: int) -> Seq<ContactM>
    decreases n,
{
    if n <= 0 {
        Seq::empty()
    } else {
        let rest = contacts_upto(walls, px, py, n - 1);
        if crate::geom::spec_overlap(walls[n - 1], guy_box_at(px, py)) {
            rest.push(wall_contact(walls, n - 1, px, py))
        } else {
            rest
        }
    }
}

/// All contacts of the player at `(px, py)`, in wall order.
pub open spec fn contacts_of(walls: Seq<BoxM>, px: int, py: int) -> Seq<ContactM> {
    contacts_upto(walls, px, py, walls.len() as int)
}

/// Insert a contact into a descending-key sequence, after any earlier
/// contact of at least the same key, so that sorting stays stable.
pub open spec fn insert_desc(c: ContactM, s: Seq<ContactM>) -> Seq<ContactM>
    decreases s.len(),
{
    if s.len() == 0 {
        seq![c]
    } else if s[0].key > c.key {
        seq![s[0]] + insert_desc(c, s.drop_first())
    } else {
        seq![c] + s
    }
}

/// Stable sort by descending squared displacement magnitude: the contact
/// with the deepest penetration is resolved first.
pub open spec fn sort_desc(s: Seq<ContactM>) -> Seq<ContactM>
    decreases s.len(),
{
    if s.len() == 0 {
        Seq::empty()
    } else {
        insert_desc(s[0], sort_desc(s.drop_first()))
    }
}

/// Work through the sorted contacts: recompute the displacement against each
/// wall at the current position, stop for the pass when a displacement
/// component has vanished, otherwise push the player away from the wall
/// center along the axis of smaller displacement.
pub open spec fn apply_contacts(order: Seq<ContactM>, px: int, py: int) -> V2M
    decreases order.len(),
{
    if order.len() == 0 {
        V2M { x: px, y: py }
    } else {
        let w = order[0].wbox;
        let g = guy_box_at(px, py);
        let d = if crate::geom::spec_overlap(w, g) {
            crate::geom::spec_overlap_depth(w, g)
        } else {
            V2M { x: 0, y: 0 }
        };
        if d.x == 0 || d.y == 0 {
            V2M { x: px, y: py }
        } else {
            let ddx = if px < w.cx { -d.x } else { d.x };
            let ddy = if py < w.cy { -d.y } else { d.y };
            if iabs(ddx) <= iabs(ddy) {
                apply_contacts(order.drop_first(), px + ddx, py)
            } else {
                apply_contacts(order.drop_first(), px, py + ddy)
            }
        }
    }
}

/// One pass of the resolver: collect the contacts, order them by descending
/// penetration, and work through them.
pub open spec fn resolve_pass(walls: Seq<BoxM>, px: int, py: int) -> V2M {
    apply_contacts(sort_desc(contacts_of(walls, px, py)), px, py)
}

/// The bounded fixed-point iteration: up to `passes` passes, stopping early
/// once no wall is in contact.
pub open spec fn spec_resolve(walls: Seq<BoxM>, px: int, py: int, passes: nat) -> V2M
    decreases passes,
{
    if passes == 0 {
        V2M { x: px, y: py }
    } else if contacts_of(walls, px, py).len() == 0 {
        V2M { x: px, y: py }
    } else {
        let p = resolve_pass(walls, px, py);
        spec_resolve(walls, p.x, p.y, (passes - 1) as nat)
    }
}

// --- Moving entities: cars and coins ---

/// Mathematical image of a car or coin: position and velocity.
pub ghost struct EntM {
    pub px: int,
    pub py: int,
    pub vx: int,
    pub vy: int,
}

/// One movement step: position advances by velocity, velocity is constant.
pub open spec fn spec_move_ent(e: EntM) -> EntM {
    EntM { px: e.px + e.vx, py: e.py + e.vy, vx: e.vx, vy: e.vy }
}

/// All entities advanced by their velocity.
pub open spec fn ents_moved(s: Seq<EntM>) -> Seq<EntM> {
    s.map_values(|e: EntM| spec_move_ent(e))
}

/// An entity stays alive while it is strictly above the culling threshold.
pub open spec fn ent_kept(e: EntM) -> bool {
    e.py > CULL_Y as int
}

/// The entities that survive culling, in their original order.
pub open spec fn ents_culled(s: Seq<EntM>) -> Seq<EntM>
    decreases s.len(),
{
    if s.len() == 0 {
        Seq::empty()
    } else {
        let rest = ents_culled(s.drop_last());
        if ent_kept(s.last()) {
            rest.push(s.last())
        } else {
            rest
        }
    }
}

/// An entity within the catch distance of the player, measured by exact
/// squared Euclidean distance.
pub open spec fn caught(e: EntM, px: int, py: int) -> bool {
    (e.px - px) * (e.px - px) + (e.py - py) * (e.py - py) <= (CATCH_DISTANCE as int) * (
    CATCH_DISTANCE as int)
}

/// Whether any entity of the sequence has caught the player.
pub open spec fn any_caught(s: Seq<EntM>, px: int, py: int) -> bool {
    exists|i: int| 0 <= i < s.len() && caught(s[i], px, py)
}

// --- Spawner ---

/// A running timer only counts down; an expired timer is re-armed to the
/// drawn reset value exactly when a spawn happens.
pub open spec fn spec_spawn_timer(timer: int, count: int, reset: int) -> int {
    if timer > 0 {
        timer - 1
    } else if count < ENTITY_CAP as int {
        reset
    } else {
        timer
    }
}

/// When the timer has expired and the live count is below the cap, a new
/// entity appears at the drawn lane, just above the screen, falling with the
/// drawn velocity.
pub open spec fn spec_spawn_list(timer: int, s: Seq<EntM>, lane_x: int, vy: int) -> Seq<EntM> {
    if timer > 0 {
        s
    } else if s.len() < ENTITY_CAP as int {
        s.push(EntM { px: lane_x, py: SPAWN_Y as int, vx: 0, vy: vy })
    } else {
        s
    }
}

/// The x-coordinate of a spawn lane.
pub open spec fn spec_lane_x(lane: int) -> int {
    if lane == 0 {
        LANE_LEFT as int
    } else if lane == 1 {
        LANE_MIDDLE as int
    } else {
        LANE_RIGHT as int
    }
}

// --- The whole session and one tick ---

/// Mathematical image of a session: static walls, the player, cars and
/// coins with their spawn timers, the score and the terminal flag.
#[verifier::ext_equal]
pub ghost struct GameModel {
    pub walls: Seq<BoxM>,
    pub player: PlayerM,
    pub cars: Seq<EntM>,
    pub car_timer: int,
    pub coins: Seq<EntM>,
    pub coin_timer: int,
    pub score: int,
    pub game_over: bool,
}

/// One tick's inputs: the input axis, the jump edge, and the five values the
/// spawner draws at random.  Cars and coins share the one lane draw.
pub ghost struct TickIn {
    pub axis: int,
    pub jump: bool,
    pub lane: int,
    pub car_vy: int,
    pub car_reset: int,
    pub coin_vy: int,
    pub coin_reset: int,
}

/// Build a tick input from its parts.
pub open spec fn tick_in(
    axis: int,
    jump: bool,
    lane: int,
    car_vy: int,
    car_reset: int,
    coin_vy: int,
    coin_reset: int,
) -> TickIn {
    TickIn { axis, jump, lane, car_vy, car_reset, coin_vy, coin_reset }
}

/// The ranges the input axis and the random draws come from.
pub open spec fn tick_in_valid(t: TickIn) -> bool {
    &&& -1 <= t.axis <= 1
    &&& 0 <= t.lane < 3
    &&& SPAWN_VY_MIN as int <= t.car_vy < SPAWN_VY_MAX as int
    &&& SPAWN_VY_MIN as int <= t.coin_vy < SPAWN_VY_MAX as int
    &&& TIMER_RESET_MIN as int <= t.car_reset < TIMER_RESET_MAX as int
    &&& TIMER_RESET_MIN as int <= t.coin_reset < TIMER_RESET_MAX as int
}

/// One full simulation tick: kinematics, collision resolution, car spawning,
/// car movement, the catch test, car culling, then the same spawn, move and
/// cull steps for coins.  The catch only sets the terminal flag; the caught
/// car is not removed and the score does not change.
pub open spec fn spec_update(m: GameModel, t: TickIn) -> GameModel {
    let p1 = spec_run(m.player, t.axis);
    let p2 = spec_jump(p1, t.jump);
    let rp = spec_resolve(m.walls, p2.px, p2.py, COLLISION_STEPS as nat);
    let p3 = PlayerM { px: rp.x, py: rp.y, jumping: p2.jumping, jv: p2.jv };
    let lx = spec_lane_x(t.lane);
    let car_timer2 = spec_spawn_timer(m.car_timer, m.cars.len() as int, t.car_reset);
    let cars1 = spec_spawn_list(m.car_timer, m.cars, lx, t.car_vy);
    let cars2 = ents_moved(cars1);
    let go2 = m.game_over || any_caught(cars2, p3.px, p3.py);
    let cars3 = ents_culled(cars2);
    let coin_timer2 = spec_spawn_timer(m.coin_timer, m.coins.len() as int, t.coin_reset);
    let coins1 = spec_spawn_list(m.coin_timer, m.coins, lx, t.coin_vy);
    let coins2 = ents_moved(coins1);
    let coins3 = ents_culled(coins2);
    GameModel {
        walls: m.walls,
        player: p3,
        cars: cars3,
        car_timer: car_timer2,
        coins: coins3,
        coin_timer: coin_timer2,
        score: m.score,
        game_over: go2,
    }
}

/// The three walls of a fresh session: left boundary, right boundary,
/// floor.
pub open spec fn initial_walls() -> Seq<BoxM> {
    seq![
        BoxM { cx: 1600, cy: 128000, sx: 57600, sy: 256000 },
        BoxM { cx: 152000, cy: 128000, sx: 57600, sy: 256000 },
        BoxM { cx: 76800, cy: 1600, sx: 153600, sy: 3200 },
    ]
}

/// A fresh session: the player at its start position, grounded, no cars, no
/// coins, both spawn timers expired, score zero, not over.
pub open spec fn initial_model() -> GameModel {
    GameModel {
        walls: initial_walls(),
        player: PlayerM {
            px: PLAYER_START_X as int,
            py: PLAYER_START_Y as int,
            jumping: false,
            jv: 0,
        },
        cars: Seq::empty(),
        car_timer: 0,
        coins: Seq::empty(),
        coin_timer: 0,
        score: 0,
        game_over: false,
    }
}

/// The x-coordinate of a spawn lane, as executable code.
pub fn lane_x(lane: usize) -> (r: i64)
    requires
        lane < 3,
    ensures
        r as int == spec_lane_x(lane as int),
{
    if lane == 0 {
        LANE_LEFT
    } else if lane == 1 {
        LANE_MIDDLE
    } else {
        LANE_RIGHT
    }
}

/// A whole run: the ticks of `ins` applied in order.
pub open spec fn run_ticks(m: GameModel, ins: Seq<TickIn>) -> GameModel
    decreases ins.len(),
{
    if ins.len() == 0 {
        m
    } else {
        run_ticks(spec_update(m, ins[0]), ins.drop_first())
    }
}

} // verus!
