//! Iterative multi-contact penetration resolution of the player against the
//! static walls.
//!
//! Each pass collects every wall the player's box currently penetrates,
//! orders the contacts by descending squared penetration, and works through
//! them, pushing the player away from each wall center along the axis of
//! smaller displacement.  Up to `COLLISION_STEPS` passes run, stopping early
//! once no wall is in contact.

use vstd::prelude::*;
use crate::geom::{AABB, BoxM, V2M, Vec2, abs64, box_bounded, iabs, lemma_square_bound, v2m};
use crate::model::{
    apply_contacts, contacts_of, contacts_upto, guy_box_at, insert_desc, resolve_pass, sort_desc,
    spec_resolve, ContactM, COLLISION_STEPS, MAX_WALLS, PLAYER_H, PLAYER_W, POS_LIMIT,
    WORLD_LIMIT,
};

verus! {

/// How far one resolver call can move the player in either axis.
pub const RESOLVE_DRIFT: i64 = 0x200_0000;

/// How far one resolver pass can move the player in either axis: at most
/// `MAX_WALLS` pushes, each bounded by `WORLD_LIMIT`.
pub const PASS_DRIFT: i64 = 0x80_0000;

/// A contact: the penetrated wall's box, the displacement recorded when the
/// contacts were collected, and its squared magnitude as the sort key.
#[derive(Clone, Copy)]
pub struct Contact {
    pub wall_box: AABB,
    pub dx: i64,
    pub dy: i64,
    pub key: i64,
}

impl View for Contact {
    type V = ContactM;

    open spec fn view(&self) -> ContactM {
        ContactM {
            wbox: self.wall_box@,
            dx: self.dx as int,
            dy: self.dy as int,
            key: self.key as int,
        }
    }
}

/// The models of a sequence of contacts.
pub open spec fn contacts_view(s: Seq<Contact>) -> Seq<ContactM> {
    s.map_values(|c: Contact| c@)
}

/// A well-formed wall: coordinates and sizes within the world bound.
pub open spec fn wall_ok(b: BoxM) -> bool {
    box_bounded(b, WORLD_LIMIT as int)
}

/// A well-formed wall set: at most `MAX_WALLS` walls, all bounded.
pub open spec fn walls_ok(s: Seq<BoxM>) -> bool {
    &&& s.len() <= MAX_WALLS as int
    &&& forall|i: int| 0 <= i < s.len() ==> wall_ok(#[trigger] s[i])
}

/// The models of a sequence of wall boxes.
pub open spec fn walls_view(s: Seq<AABB>) -> Seq<BoxM> {
    s.map_values(|w: AABB| w@)
}

/// A contact the resolver can work with: a bounded wall and a strictly
/// positive, bounded displacement.
pub open spec fn contact_ok(c: ContactM) -> bool {
    &&& wall_ok(c.wbox)
    &&& 0 < c.dx <= WORLD_LIMIT as int
    &&& 0 < c.dy <= WORLD_LIMIT as int
}

/// All contacts of the sequence are well formed.
pub open spec fn contacts_ok(s: Seq<ContactM>) -> bool {
    forall|i: int| 0 <= i < s.len() ==> contact_ok(#[trigger] s[i])
}

/// The player's box at a position.
fn guy_box(px: i64, py: i64) -> (r: AABB)
    ensures
        r@ == guy_box_at(px as int, py as int),
{
    AABB { center: Vec2 { x: px, y: py }, size: Vec2 { x: PLAYER_W, y: PLAYER_H } }
}

/// Collect the contacts of the player at `(px, py)` against every wall, in
/// wall order, each carrying its displacement and sort key.
fn collect_contacts(walls: &Vec<AABB>, px: i64, py: i64) -> (r: Vec<Contact>)
    requires
        walls_ok(walls_view(walls@)),
        iabs(px as int) <= 2 * POS_LIMIT as int,
        iabs(py as int) <= 2 * POS_LIMIT as int,
    ensures
        contacts_view(r@) == contacts_of(walls_view(walls@), px as int, py as int),
        r@.len() <= walls@.len(),
        contacts_ok(contacts_view(r@)),
{
    let g = guy_box(px, py);
    let mut r: Vec<Contact> = Vec::new();
    let mut i: usize = 0;
    while i < walls.len()
        invariant
            i <= walls@.len(),
            walls_ok(walls_view(walls@)),
            iabs(px as int) <= 2 * POS_LIMIT as int,
            iabs(py as int) <= 2 * POS_LIMIT as int,
            g@ == guy_box_at(px as int, py as int),
            contacts_view(r@) == contacts_upto(walls_view(walls@), px as int, py as int, i as int),
            r@.len() <= i,
            contacts_ok(contacts_view(r@)),
        decreases walls@.len() - i,
    {
        proof {
            assert(walls_view(walls@)[i as int] == walls@[i as int]@);
        }
        let w = walls[i];
        let ghost before = contacts_view(r@);
        match w.displacement(&g) {
            Some(d) => {
                proof {
                    lemma_square_bound(d.x as int, WORLD_LIMIT as int);
                    lemma_square_bound(d.y as int, WORLD_LIMIT as int);
                }
                let key = d.x * d.x + d.y * d.y;
                r.push(Contact { wall_box: w, dx: d.x, dy: d.y, key });
                proof {
                    assert(contacts_view(r@) =~= before.push(
                        crate::model::wall_contact(
                            walls_view(walls@),
                            i as int,
                            px as int,
                            py as int,
                        ),
                    ));
                }
            },
            None => {},
        }
        i = i + 1;
    }
    r
}

/// `insert_desc` splits the sequence at the first index whose key does not
/// exceed the inserted key.
proof fn lemma_insert_desc_at(c: ContactM, s: Seq<ContactM>, j: int)
    requires
        0 <= j <= s.len(),
        forall|k: int| 0 <= k < j ==> (#[trigger] s[k]).key > c.key,
        j < s.len() ==> !(s[j].key > c.key),
    ensures
        insert_desc(c, s) == s.take(j) + seq![c] + s.skip(j),
    decreases j,
{
    if j == 0 {
        assert(insert_desc(c, s) =~= s.take(0) + seq![c] + s.skip(0));
    } else {
        let t = s.drop_first();
        assert(forall|k: int| 0 <= k < j - 1 ==> (#[trigger] t[k]).key > c.key) by {
            assert(forall|k: int| 0 <= k < j - 1 ==> t[k] == s[k + 1]);
        }
        lemma_insert_desc_at(c, t, j - 1);
        assert(insert_desc(c, s) == seq![s[0]] + (t.take(j - 1) + seq![c] + t.skip(j - 1)));
        assert(seq![s[0]] + (t.take(j - 1) + seq![c] + t.skip(j - 1)) =~= s.take(j) + seq![c]
            + s.skip(j));
    }
}

/// Insert a contact into a vector sorted by descending key, after any
/// contact of at least the same key.
fn insert_contact(r: &mut Vec<Contact>, c: Contact)
    requires
        contacts_ok(contacts_view(old(r)@)),
        contact_ok(c@),
    ensures
        contacts_view(final(r)@) == insert_desc(c@, contacts_view(old(r)@)),
        final(r)@.len() == old(r)@.len() + 1,
        contacts_ok(contacts_view(final(r)@)),
{
    let ghost orig = contacts_view(r@);
    let mut j: usize = 0;
    while j < r.len() && r[j].key > c.key
        invariant
            j <= r@.len(),
            contacts_view(r@) == orig,
            forall|k: int| 0 <= k < j ==> (#[trigger] orig[k]).key > c@.key,
        decreases r@.len() - j,
    {
        proof {
            assert(orig[j as int] == r@[j as int]@);
        }
        j = j + 1;
    }
    proof {
        assert(j < r@.len() ==> !(orig[j as int].key > c@.key)) by {
            if j < r@.len() {
                assert(orig[j as int] == r@[j as int]@);
            }
        }
        lemma_insert_desc_at(c@, orig, j as int);
    }
    r.insert(j, c);
    proof {
        assert(contacts_view(r@) =~= orig.take(j as int) + seq![c@] + orig.skip(j as int));
        assert(contacts_ok(contacts_view(r@))) by {
            let out = contacts_view(r@);
            assert(forall|k: int| 0 <= k < out.len() ==> contact_ok(#[trigger] out[k])) by {
                assert(forall|k: int| 0 <= k < j ==> out[k] == orig[k]);
                assert(out[j as int] == c@);
                assert(forall|k: int|
                    j < k < out.len() ==> out[k] == orig[k - 1]);
            }
        }
    }
}

/// Sort the contacts by descending squared displacement magnitude, keeping
/// the wall order among equal keys.
fn sort_contacts(v: &Vec<Contact>) -> (r: Vec<Contact>)
    requires
        contacts_ok(contacts_view(v@)),
    ensures
        contacts_view(r@) == sort_desc(contacts_view(v@)),
        r@.len() == v@.len(),
        contacts_ok(contacts_view(r@)),
{
    let mut r: Vec<Contact> = Vec::new();
    let mut i: usize = v.len();
    while i > 0
        invariant
            i <= v@.len(),
            contacts_ok(contacts_view(v@)),
            r@.len() == v@.len() - i,
            contacts_view(r@) == sort_desc(contacts_view(v@).skip(i as int)),
            contacts_ok(contacts_view(r@)),
        decreases i,
    {
        i = i - 1;
        proof {
            assert(contacts_view(v@)[i as int] == v@[i as int]@);
        }
        insert_contact(&mut r, v[i]);
        proof {
            let s = contacts_view(v@);
            assert(s.skip(i as int).drop_first() =~= s.skip(i as int + 1));
            assert(s.skip(i as int)[0] == s[i as int]);
        }
    }
    proof {
        assert(contacts_view(v@).skip(0) =~= contacts_view(v@));
    }
    r
}

/// Work through the sorted contacts once: recompute the displacement
/// against each wall at the current position, stop for the pass when a
/// displacement component has vanished, otherwise push the player away from
/// the wall center along the axis of smaller displacement.
fn apply_pass(order: &Vec<Contact>, px0: i64, py0: i64) -> (r: (i64, i64))
    requires
        contacts_ok(contacts_view(order@)),
        order@.len() <= MAX_WALLS as int,
        iabs(px0 as int) <= 2 * POS_LIMIT as int,
        iabs(py0 as int) <= 2 * POS_LIMIT as int,
    ensures
        v2m(r.0 as int, r.1 as int) == apply_contacts(
            contacts_view(order@),
            px0 as int,
            py0 as int,
        ),
        iabs(r.0 as int) <= iabs(px0 as int) + PASS_DRIFT as int,
        iabs(r.1 as int) <= iabs(py0 as int) + PASS_DRIFT as int,
{
    let ghost ov = contacts_view(order@);
    let mut px = px0;
    let mut py = py0;
    let mut done = false;
    let mut k: usize = 0;
    proof {
        assert(ov.skip(0) =~= ov);
    }
    while k < order.len() && !done
        invariant
            k <= order@.len(),
            order@.len() <= MAX_WALLS as int,
            ov == contacts_view(order@),
            contacts_ok(ov),
            iabs(px as int) <= iabs(px0 as int) + k as int * WORLD_LIMIT as int,
            iabs(py as int) <= iabs(py0 as int) + k as int * WORLD_LIMIT as int,
            iabs(px0 as int) <= 2 * POS_LIMIT as int,
            iabs(py0 as int) <= 2 * POS_LIMIT as int,
            apply_contacts(ov, px0 as int, py0 as int) == (if done {
                v2m(px as int, py as int)
            } else {
                apply_contacts(ov.skip(k as int), px as int, py as int)
            }),
        decreases order@.len() - k as int + (if done {
            0int
        } else {
            1int
        }),
    {
        proof {
            assert(ov[k as int] == order@[k as int]@);
            assert(contact_ok(ov[k as int]));
        }
        let c = order[k];
        let g = guy_box(px, py);
        let d = match c.wall_box.displacement(&g) {
            Some(v) => v,
            None => Vec2 { x: 0, y: 0 },
        };
        if d.x == 0 || d.y == 0 {
            done = true;
        } else {
            let ddx = if px < c.wall_box.center.x {
                -d.x
            } else {
                d.x
            };
            let ddy = if py < c.wall_box.center.y {
                -d.y
            } else {
                d.y
            };
            let ghost prev = ov.skip(k as int);
            proof {
                assert(prev.drop_first() =~= ov.skip(k as int + 1));
            }
            let ax = abs64(ddx);
            let ay = abs64(ddy);
            if ax <= ay {
                px = px + ddx;
            } else {
                py = py + ddy;
            }
            k = k + 1;
        }
    }
    proof {
        if !done {
            assert(ov.skip(k as int) =~= Seq::<ContactM>::empty());
        }
    }
    (px, py)
}

/// Push the player fully out of every wall it penetrates, in up to
/// `COLLISION_STEPS` passes of contact collection, descending-penetration
/// ordering and per-contact resolution, stopping early once no wall is in
/// contact.  Best effort: pathological geometry may stay partially resolved
/// when the passes run out.
pub fn resolve_player(pos: Vec2, walls: &Vec<AABB>) -> (r: Vec2)
    requires
        walls_ok(walls_view(walls@)),
        iabs(pos.x as int) <= POS_LIMIT as int + RESOLVE_DRIFT as int,
        iabs(pos.y as int) <= POS_LIMIT as int + RESOLVE_DRIFT as int,
    ensures
        r@ == spec_resolve(
            walls_view(walls@),
            pos.x as int,
            pos.y as int,
            COLLISION_STEPS as nat,
        ),
        iabs(r.x as int) <= iabs(pos.x as int) + RESOLVE_DRIFT as int,
        iabs(r.y as int) <= iabs(pos.y as int) + RESOLVE_DRIFT as int,
{
    let ghost wv = walls_view(walls@);
    let mut px = pos.x;
    let mut py = pos.y;
    let mut pass: u32 = 0;
    let mut done = false;
    while pass < COLLISION_STEPS && !done
        invariant
            pass <= COLLISION_STEPS,
            wv == walls_view(walls@),
            walls_ok(wv),
            iabs(pos.x as int) <= POS_LIMIT as int + RESOLVE_DRIFT as int,
            iabs(pos.y as int) <= POS_LIMIT as int + RESOLVE_DRIFT as int,
            iabs(px as int) <= iabs(pos.x as int) + pass as int * PASS_DRIFT as int,
            iabs(py as int) <= iabs(pos.y as int) + pass as int * PASS_DRIFT as int,
            spec_resolve(wv, pos.x as int, pos.y as int, COLLISION_STEPS as nat) == spec_resolve(
                wv,
                px as int,
                py as int,
                (COLLISION_STEPS - pass) as nat,
            ),
            done ==> contacts_of(wv, px as int, py as int).len() == 0,
        decreases COLLISION_STEPS - pass as int + (if done {
            0int
        } else {
            1int
        }),
    {
        let contacts = collect_contacts(walls, px, py);
        if contacts.len() == 0 {
            done = true;
        } else {
            let sorted = sort_contacts(&contacts);
            let next = apply_pass(&sorted, px, py);
            proof {
                assert(resolve_pass(wv, px as int, py as int) == V2M {
                    x: next.0 as int,
                    y: next.1 as int,
                });
            }
            px = next.0;
            py = next.1;
            pass = pass + 1;
        }
    }
    proof {
        if !done {
            assert(COLLISION_STEPS - pass == 0);
        }
    }
    Vec2 { x: px, y: py }
}

} // verus!
