//! Cars and coins: movement, culling, spawning and the catch test.

use vstd::prelude::*;
use crate::geom::{Vec2, iabs};
use crate::model::{
    EntM, any_caught, caught, ents_culled, ents_moved, spec_move_ent, spec_spawn_list,
    spec_spawn_timer, CATCH_DISTANCE, CULL_Y, ENTITY_CAP, POS_LIMIT, SPAWN_Y, VEL_LIMIT,
    WORLD_LIMIT,
};

verus! {

/// A moving entity (a car or a coin): position and per-tick velocity.
#[derive(Clone, Copy, PartialEq, Eq, Structural, Debug)]
pub struct Entity {
    pub pos: Vec2,
    pub vel: Vec2,
}

impl View for Entity {
    type V = EntM;

    open spec fn view(&self) -> EntM {
        EntM {
            px: self.pos.x as int,
            py: self.pos.y as int,
            vx: self.vel.x as int,
            vy: self.vel.y as int,
        }
    }
}

/// The models of a sequence of entities.
pub open spec fn ents_view(s: Seq<Entity>) -> Seq<EntM> {
    s.map_values(|e: Entity| e@)
}

/// A well-formed entity: bounded position, no sideways drift, bounded
/// non-upward velocity.
pub open spec fn ent_ok(e: EntM) -> bool {
    &&& iabs(e.px) <= WORLD_LIMIT as int
    &&& iabs(e.py) <= WORLD_LIMIT as int
    &&& e.vx == 0
    &&& -VEL_LIMIT as int <= e.vy <= 0
}

/// All entities of the sequence are well formed.
pub open spec fn ents_ok(s: Seq<EntM>) -> bool {
    forall|i: int| 0 <= i < s.len() ==> ent_ok(#[trigger] s[i])
}

/// An entity position within one movement step of the world bound, as it
/// can be right after the move and before the cull.
pub open spec fn ent_near(e: EntM) -> bool {
    &&& iabs(e.px) <= WORLD_LIMIT as int + VEL_LIMIT as int
    &&& iabs(e.py) <= WORLD_LIMIT as int + VEL_LIMIT as int
}

/// All entities of the sequence are near the world.
pub open spec fn ents_near(s: Seq<EntM>) -> bool {
    forall|i: int| 0 <= i < s.len() ==> ent_near(#[trigger] s[i])
}

/// Advance every entity by its velocity; velocities do not change.
pub fn move_entities(list: &mut Vec<Entity>)
    requires
        ents_ok(ents_view(old(list)@)),
    ensures
        ents_view(final(list)@) == ents_moved(ents_view(old(list)@)),
{
    let ghost orig = list@;
    let mut i: usize = 0;
    while i < list.len()
        invariant
            i <= list@.len(),
            list@.len() == orig.len(),
            ents_ok(ents_view(orig)),
            forall|j: int| 0 <= j < i ==> (#[trigger] list@[j])@ == spec_move_ent(orig[j]@),
            forall|j: int| i <= j < orig.len() ==> #[trigger] list@[j] == orig[j],
        decreases list@.len() - i,
    {
        let e = list[i];
        proof {
            assert(ents_view(orig)[i as int] == orig[i as int]@);
        }
        let moved = Entity {
            pos: Vec2 { x: e.pos.x + e.vel.x, y: e.pos.y + e.vel.y },
            vel: e.vel,
        };
        list.set(i, moved);
        i = i + 1;
    }
    proof {
        assert(ents_view(list@) =~= ents_moved(ents_view(orig)));
    }
}

/// Remove every entity whose y-coordinate has fallen to the culling
/// threshold or below, keeping the rest in order.
pub fn cull_entities(list: &mut Vec<Entity>)
    ensures
        ents_view(final(list)@) == ents_culled(ents_view(old(list)@)),
{
    let ghost orig = list@;
    let mut kept: Vec<Entity> = Vec::new();
    let mut i: usize = 0;
    while i < list.len()
        invariant
            i <= list@.len(),
            list@ == orig,
            ents_view(kept@) == ents_culled(ents_view(orig).take(i as int)),
        decreases list@.len() - i,
    {
        let e = list[i];
        let ghost before = ents_view(kept@);
        let ghost prefix = ents_view(orig).take(i as int);
        if e.pos.y > CULL_Y {
            kept.push(e);
        }
        proof {
            let next = ents_view(orig).take(i + 1);
            assert(next.drop_last() =~= prefix);
            assert(next.last() == orig[i as int]@);
            if orig[i as int]@.py > CULL_Y as int {
                assert(ents_view(kept@) =~= before.push(orig[i as int]@));
            } else {
                assert(ents_view(kept@) =~= before);
            }
        }
        i = i + 1;
    }
    proof {
        assert(ents_view(orig).take(orig.len() as int) =~= ents_view(orig));
    }
    *list = kept;
}

/// Whether any entity of the list is within the catch distance of the
/// player, by exact squared Euclidean distance.
pub fn check_catch(list: &Vec<Entity>, player_pos: Vec2) -> (r: bool)
    requires
        ents_near(ents_view(list@)),
        iabs(player_pos.x as int) <= 2 * POS_LIMIT as int,
        iabs(player_pos.y as int) <= 2 * POS_LIMIT as int,
    ensures
        r == any_caught(ents_view(list@), player_pos.x as int, player_pos.y as int),
{
    let mut i: usize = 0;
    while i < list.len()
        invariant
            i <= list@.len(),
            ents_near(ents_view(list@)),
            iabs(player_pos.x as int) <= 2 * POS_LIMIT as int,
            iabs(player_pos.y as int) <= 2 * POS_LIMIT as int,
            forall|j: int| 0 <= j < i ==> !caught(
                #[trigger] ents_view(list@)[j],
                player_pos.x as int,
                player_pos.y as int,
            ),
        decreases list@.len() - i,
    {
        let e = list[i];
        proof {
            assert(ents_view(list@)[i as int] == list@[i as int]@);
            assert(ent_near(ents_view(list@)[i as int]));
        }
        proof {
            crate::geom::lemma_square_bound(CATCH_DISTANCE as int, CATCH_DISTANCE as int);
        }
        let d2 = e.pos.distance_squared(&player_pos);
        if d2 <= (CATCH_DISTANCE as i128) * (CATCH_DISTANCE as i128) {
            proof {
                assert(caught(
                    ents_view(list@)[i as int],
                    player_pos.x as int,
                    player_pos.y as int,
                ));
            }
            return true;
        }
        i = i + 1;
    }
    false
}

/// One spawner step for one entity kind.  A running timer counts down and
/// nothing else happens; an expired timer spawns a new entity at the drawn
/// lane with the drawn downward velocity, provided the live count is below
/// the cap, and is re-armed to the drawn reset value.
pub fn spawn_step(timer: &mut u32, list: &mut Vec<Entity>, lane_x: i64, vy: i64, reset: u32)
    requires
        iabs(lane_x as int) <= WORLD_LIMIT as int,
        -VEL_LIMIT <= vy <= 0,
    ensures
        *final(timer) == spec_spawn_timer(
            *old(timer) as int,
            old(list)@.len() as int,
            reset as int,
        ),
        ents_view(final(list)@) == spec_spawn_list(
            *old(timer) as int,
            ents_view(old(list)@),
            lane_x as int,
            vy as int,
        ),
{
    let ghost orig = ents_view(list@);
    if *timer > 0 {
        *timer = *timer - 1;
    } else if list.len() < ENTITY_CAP {
        list.push(Entity { pos: Vec2 { x: lane_x, y: SPAWN_Y }, vel: Vec2 { x: 0, y: vy } });
        *timer = reset;
        proof {
            assert(ents_view(list@) =~= orig.push(
                EntM { px: lane_x as int, py: SPAWN_Y as int, vx: 0, vy: vy as int },
            ));
        }
    }
}

} // verus!
