//! The laws the simulation obeys, proved once and for all against the
//! mathematical model of the tick.

use vstd::prelude::*;
use crate::game::{lemma_update_ok, session_ok};
use crate::geom::{iabs, spec_overlap, spec_overlap_depth, v2m, BoxM};
use crate::model::{
    any_caught, apply_contacts, caught, contacts_of, contacts_upto, ent_kept, ents_culled,
    ents_moved, guy_box_at, resolve_pass, run_ticks, sort_desc, wall_contact,
    spec_jump, spec_jump_start, spec_lane_x, spec_move_ent, spec_resolve, spec_run,
    insert_desc, spec_spawn_list, spec_update, tick_in_valid, ContactM, EntM, GameModel,
    PlayerM, TickIn, CATCH_DISTANCE, CULL_Y, ENTITY_CAP, JUMP_LAUNCH, RUN_SPEED,
};

verus! {

proof fn lemma_no_contacts(walls: Seq<BoxM>, px: int, py: int, n: int)
    requires
        0 <= n <= walls.len(),
        forall|i: int|
            0 <= i < walls.len() ==> !spec_overlap(#[trigger] walls[i], guy_box_at(px, py)),
    ensures
        contacts_upto(walls, px, py, n).len() == 0,
    decreases n,
{
    if n > 0 {
        lemma_no_contacts(walls, px, py, n - 1);
    }
}

/// Idempotence of the collision resolver: a player whose box is already
/// free of every wall is returned exactly in place, whatever the number of
/// passes.
pub proof fn lemma_resolver_idempotent(walls: Seq<BoxM>, px: int, py: int, passes: nat)
    requires
        forall|i: int|
            0 <= i < walls.len() ==> !spec_overlap(#[trigger] walls[i], guy_box_at(px, py)),
    ensures
        spec_resolve(walls, px, py, passes) == v2m(px, py),
{
    lemma_no_contacts(walls, px, py, walls.len() as int);
}

/// Applying the horizontal run control `n` ticks in a row at a fixed axis.
pub open spec fn run_n(p: PlayerM, axis: int, n: nat) -> PlayerM
    decreases n,
{
    if n == 0 {
        p
    } else {
        spec_run(run_n(p, axis, (n - 1) as nat), axis)
    }
}

/// Kinematics law: `n` ticks of run control at a fixed axis advance the
/// player's x-coordinate by exactly `n` times the axis times the run
/// speed, and change nothing else.
pub proof fn lemma_run_accumulates(p: PlayerM, axis: int, n: nat)
    ensures
        run_n(p, axis, n).px == p.px + n * axis * RUN_SPEED as int,
        run_n(p, axis, n).py == p.py,
        run_n(p, axis, n).jumping == p.jumping,
        run_n(p, axis, n).jv == p.jv,
    decreases n,
{
    if n > 0 {
        lemma_run_accumulates(p, axis, (n - 1) as nat);
        let m = n as int;
        assert((m - 1) * axis * RUN_SPEED as int + axis * RUN_SPEED as int == m * axis
            * RUN_SPEED as int) by (nonlinear_arith);
    }
}

/// Kinematics law: a jump press while grounded starts the jump, setting
/// the flag and storing the launch velocity before the arc advances.
pub proof fn lemma_jump_starts(p: PlayerM)
    requires
        !p.jumping,
    ensures
        spec_jump_start(p, true).jumping,
        spec_jump_start(p, true).jv == JUMP_LAUNCH as int,
{
}

/// Kinematics law: a jump press while already jumping does not re-trigger
/// the jump; the tick proceeds exactly as if the press had not happened.
pub proof fn lemma_jump_no_retrigger(p: PlayerM)
    requires
        p.jumping,
    ensures
        spec_jump(p, true) == spec_jump(p, false),
{
}

/// Spawner-cap law: from any well-formed session, however many ticks run
/// with whatever in-range inputs, the live car count and the live coin
/// count never exceed the cap.
pub proof fn lemma_entity_cap(m: GameModel, ins: Seq<TickIn>)
    requires
        session_ok(m),
        forall|i: int| 0 <= i < ins.len() ==> tick_in_valid(#[trigger] ins[i]),
    ensures
        session_ok(run_ticks(m, ins)),
        run_ticks(m, ins).cars.len() <= ENTITY_CAP as int,
        run_ticks(m, ins).coins.len() <= ENTITY_CAP as int,
    decreases ins.len(),
{
    if ins.len() > 0 {
        lemma_update_ok(m, ins[0]);
        let rest = ins.drop_first();
        assert(forall|i: int| 0 <= i < rest.len() ==> tick_in_valid(#[trigger] rest[i])) by {
            assert(forall|i: int| 0 <= i < rest.len() ==> rest[i] == ins[i + 1]);
        }
        lemma_entity_cap(spec_update(m, ins[0]), rest);
    }
}

proof fn lemma_culled_elements(s: Seq<EntM>)
    ensures
        forall|j: int| 0 <= j < ents_culled(s).len() ==> ent_kept(#[trigger] ents_culled(s)[j]),
        forall|j: int| 0 <= j < ents_culled(s).len() ==> s.contains(#[trigger] ents_culled(s)[j]),
        forall|i: int|
            0 <= i < s.len() && ent_kept(#[trigger] s[i]) ==> ents_culled(s).contains(s[i]),
    decreases s.len(),
{
    if s.len() > 0 {
        let t = s.drop_last();
        lemma_culled_elements(t);
        let culled = ents_culled(s);
        let prev = ents_culled(t);
        assert(forall|j: int| 0 <= j < culled.len() ==> s.contains(#[trigger] culled[j])) by {
            assert forall|j: int| 0 <= j < culled.len() implies s.contains(#[trigger] culled[j]) by {
                if j < prev.len() {
                    assert(culled[j] == prev[j]);
                    let w = choose|w: int| 0 <= w < t.len() && t[w] == prev[j];
                    assert(s[w] == culled[j]);
                } else {
                    assert(culled[j] == s.last());
                    assert(s[s.len() - 1] == culled[j]);
                }
            }
        }
        assert(forall|i: int|
            0 <= i < s.len() && ent_kept(#[trigger] s[i]) ==> culled.contains(s[i])) by {
            assert forall|i: int| 0 <= i < s.len() && ent_kept(#[trigger] s[i]) implies
                culled.contains(s[i]) by {
                if i < s.len() - 1 {
                    assert(t[i] == s[i]);
                    let w = choose|w: int| 0 <= w < prev.len() && prev[w] == t[i];
                    assert(culled[w] == prev[w]);
                } else {
                    assert(culled[culled.len() - 1] == s.last());
                }
            }
        }
    }
}

/// Culling law: after the move step, an entity survives exactly when its
/// new y-coordinate is still strictly above the threshold: one that falls
/// to the threshold or below is removed on that very tick, one still above
/// it is kept.
pub proof fn lemma_cull_exact(s: Seq<EntM>)
    ensures
        forall|i: int|
            0 <= i < s.len() && spec_move_ent(#[trigger] s[i]).py > CULL_Y as int
                ==> ents_culled(ents_moved(s)).contains(spec_move_ent(s[i])),
        forall|i: int|
            0 <= i < s.len() && spec_move_ent(#[trigger] s[i]).py <= CULL_Y as int
                ==> !ents_culled(ents_moved(s)).contains(spec_move_ent(s[i])),
{
    let ms = ents_moved(s);
    lemma_culled_elements(ms);
    assert(forall|i: int| 0 <= i < s.len() ==> ms[i] == spec_move_ent(#[trigger] s[i]));
    assert forall|i: int|
        0 <= i < s.len() && spec_move_ent(#[trigger] s[i]).py <= CULL_Y as int implies
        !ents_culled(ms).contains(spec_move_ent(s[i])) by {
        let e = spec_move_ent(s[i]);
        if ents_culled(ms).contains(e) {
            let j = choose|j: int| 0 <= j < ents_culled(ms).len() && ents_culled(ms)[j] == e;
            assert(ent_kept(ents_culled(ms)[j]));
        }
    }
}

/// Catch law: an obstacle is caught exactly when its squared Euclidean
/// distance from the player is at most the catch threshold squared, so a
/// distance of exactly the threshold catches and anything strictly beyond
/// it does not.
pub proof fn lemma_catch_threshold(e: EntM, px: int, py: int)
    ensures
        caught(e, px, py) == ((e.px - px) * (e.px - px) + (e.py - py) * (e.py - py)
            <= CATCH_DISTANCE as int * CATCH_DISTANCE as int),
{
}

/// A single obstacle within the threshold makes the catch test fire.
pub proof fn lemma_catch_witness(s: Seq<EntM>, px: int, py: int, i: int)
    requires
        0 <= i < s.len(),
        caught(s[i], px, py),
    ensures
        any_caught(s, px, py),
{
}

/// Catch law over a tick: the terminal flag after a tick is the old flag,
/// or the catch test on the moved car list against the resolved player
/// position; nothing else changes it.
pub proof fn lemma_tick_game_over(m: GameModel, t: TickIn)
    ensures
        spec_update(m, t).game_over == (m.game_over || any_caught(
            ents_moved(spec_spawn_list(m.car_timer, m.cars, spec_lane_x(t.lane), t.car_vy)),
            spec_update(m, t).player.px,
            spec_update(m, t).player.py,
        )),
{
}

/// Convergence, shown for a single wall: one pass of the resolver pushes
/// the player exactly to the wall's edge on the chosen axis, so after the
/// passes the player's box no longer overlaps the wall.
pub proof fn lemma_single_wall_separates(w: BoxM, px: int, py: int)
    ensures
        !spec_overlap(
            w,
            guy_box_at(
                spec_resolve(seq![w], px, py, 3).x,
                spec_resolve(seq![w], px, py, 3).y,
            ),
        ),
{
    let walls = seq![w];
    let g0 = guy_box_at(px, py);
    if !spec_overlap(w, g0) {
        lemma_resolver_idempotent(walls, px, py, 3);
    } else {
        let c = wall_contact(walls, 0, px, py);
        let contacts = contacts_of(walls, px, py);
        assert(contacts_upto(walls, px, py, 0) =~= Seq::<ContactM>::empty());
        assert(contacts =~= seq![c]);
        let order = sort_desc(contacts);
        assert(order =~= seq![c]) by {
            assert(contacts.drop_first() =~= Seq::<ContactM>::empty());
            assert(sort_desc(Seq::<ContactM>::empty()) =~= Seq::<ContactM>::empty());
            assert(insert_desc(c, Seq::<ContactM>::empty()) =~= seq![c]);
        }
        let d = spec_overlap_depth(w, g0);
        assert(d.x > 0 && d.y > 0);
        let hx = w.sx / 2 + (crate::model::PLAYER_W as int) / 2;
        let hy = w.sy / 2 + (crate::model::PLAYER_H as int) / 2;
        assert(d.x == hx - iabs(w.cx - px));
        assert(d.y == hy - iabs(w.cy - py));
        let ddx: int = if px < w.cx { -d.x } else { d.x };
        let ddy: int = if py < w.cy { -d.y } else { d.y };
        let p1 = apply_contacts(order, px, py);
        assert(order.drop_first() =~= Seq::<ContactM>::empty());
        // The push lands the player exactly on the wall's edge along the
        // chosen axis: the center distance there becomes the half-extent
        // sum, which is no longer an overlap.
        if d.x <= d.y {
            let nx = px + ddx;
            assert(apply_contacts(order.drop_first(), nx, py) == v2m(nx, py));
            assert(p1 == v2m(nx, py));
            assert(iabs(w.cx - nx) == hx);
            assert(!spec_overlap(w, guy_box_at(p1.x, p1.y)));
        } else {
            let ny = py + ddy;
            assert(apply_contacts(order.drop_first(), px, ny) == v2m(px, ny));
            assert(p1 == v2m(px, ny));
            assert(iabs(w.cy - ny) == hy);
            assert(!spec_overlap(w, guy_box_at(p1.x, p1.y)));
        }
        assert(resolve_pass(walls, px, py) == p1);
        lemma_no_contacts(walls, p1.x, p1.y, 1);
        assert(spec_resolve(walls, p1.x, p1.y, 2) == v2m(p1.x, p1.y));
        assert(spec_resolve(walls, px, py, 3) == v2m(p1.x, p1.y));
    }
}

/// The terminal flag is one-shot: once the session is over it stays over,
/// whatever further ticks bring.
pub proof fn lemma_game_over_monotone(m: GameModel, ins: Seq<TickIn>)
    requires
        m.game_over,
    ensures
        run_ticks(m, ins).game_over,
    decreases ins.len(),
{
    if ins.len() > 0 {
        lemma_game_over_monotone(spec_update(m, ins[0]), ins.drop_first());
    }
}

} // verus!
