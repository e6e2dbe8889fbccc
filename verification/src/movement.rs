//! Movement resolver: for each entity carrying a direction intent, validates
//! the destination against grid bounds and the occupancy of live entities,
//! and either commits the move or blocks it under the per-kind blocking
//! policy. The player may push a `Moveable` occupant whose own destination is
//! clear; autonomous creatures reverse on a block; projectiles raise damage
//! events on impact.

use vstd::prelude::*;

use crate::components::{
    ent_wf, in_bounds, is_autonomous, moved_to, reversed, Entity, Kind,
};
use crate::events::DamageEvent;
use crate::world::{distinct_positions, ents_wf, occupant_of, occupied_at, World};

verus! {

/// The outcome of a blocked move for the entity at index `i` whose
/// destination was `(dstx, dsty)`. Autonomous creatures reverse their
/// direction; a projectile is consumed, raising impact damage against the
/// blocking cell when one blocked it (`hit_occupied`) and damage against its
/// own cell to remove itself (a laser head is armor-piercing: it is consumed
/// only when it leaves the grid, and otherwise keeps damaging the blocker);
/// every other kind simply stays.
pub open spec fn blocked_outcome(
    pre: World,
    post: World,
    i: int,
    dstx: int,
    dsty: int,
    hit_occupied: bool,
) -> bool {
    let s = pre.ents@;
    let e = s[i];
    if is_autonomous(e.kind) {
        post.ents@ == s.update(i, reversed(e)) && post.events@ == pre.events@
    } else if e.kind == Kind::Bullet {
        post.ents@ == s && post.events@ == (if hit_occupied {
            pre.events@.push(
                (DamageEvent { x: dstx as i32, y: dsty as i32, from_projectile: true }),
            ).push((DamageEvent { x: e.x, y: e.y, from_projectile: true }))
        } else {
            pre.events@.push((DamageEvent { x: e.x, y: e.y, from_projectile: true }))
        })
    } else if e.kind == Kind::LaserHead {
        post.ents@ == s && post.events@ == (if hit_occupied {
            pre.events@.push(
                (DamageEvent { x: dstx as i32, y: dsty as i32, from_projectile: true }),
            )
        } else {
            pre.events@.push((DamageEvent { x: e.x, y: e.y, from_projectile: true }))
        })
    } else {
        post == pre
    }
}

/// The full transition relation of the movement resolver for the single
/// entity at index `i`: stationary or destroyed entities do nothing; an
/// out-of-bounds destination blocks; a clear destination commits the move; an
/// occupied destination is pushed through when the mover is the player and
/// the occupant is `Moveable` with a clear cell behind it, and blocks
/// otherwise.
pub open spec fn step_entity(pre: World, post: World, i: int) -> bool {
    let s = pre.ents@;
    let e = s[i];
    let dstx = e.x + e.dx;
    let dsty = e.y + e.dy;
    post.player_gun == pre.player_gun && if !e.alive || (e.dx == 0 && e.dy == 0) {
        post == pre
    } else if !in_bounds(dstx, dsty) {
        blocked_outcome(pre, post, i, dstx, dsty, false)
    } else if !occupied_at(s, dstx, dsty) {
        post.ents@ == s.update(i, moved_to(e, dstx, dsty)) && post.events@ == pre.events@
    } else {
        let j = occupant_of(s, dstx, dsty);
        let d2x = dstx + e.dx;
        let d2y = dsty + e.dy;
        if e.kind == Kind::Robbo && s[j].moveable && in_bounds(d2x, d2y) && !occupied_at(
            s,
            d2x,
            d2y,
        ) {
            post.ents@ == s.update(j, moved_to(s[j], d2x, d2y)).update(
                i,
                moved_to(e, dstx, dsty),
            ) && post.events@ == pre.events@
        } else {
            blocked_outcome(pre, post, i, dstx, dsty, true)
        }
    }
}

/// Resolve the movement intent of the entity at index `i`.
pub fn move_one(w: &mut World, i: usize)
    requires
        old(w).wf(),
        i < old(w).ents@.len(),
    ensures
        final(w).wf(),
        final(w).ents@.len() == old(w).ents@.len(),
        step_entity(*old(w), *final(w), i as int),
{
    let e = w.ents[i];
    proof {
        assert(ent_wf(old(w).ents@[i as int]));
    }
    if !e.alive || (e.dx == 0 && e.dy == 0) {
        return ;
    }
    let dstx = e.x + e.dx;
    let dsty = e.y + e.dy;
    if !(0 <= dstx && dstx < crate::components::WIDTH && 0 <= dsty && dsty
        < crate::components::HEIGHT) {
        blocked(w, i, dstx, dsty, false);
        return ;
    }
    match w.find_at(dstx, dsty) {
        None => {
            let e2 = Entity { x: dstx, y: dsty, ..e };
            w.ents[i] = e2;
            proof {
                lemma_move_to_clear_keeps_wf(old(w).ents@, w.ents@, i as int);
            }
        },
        Some(j) => {
            proof {
                assert(occupied_at(old(w).ents@, dstx as int, dsty as int));
            }
            let occ = w.ents[j];
            let d2x = dstx + e.dx;
            let d2y = dsty + e.dy;
            let ghost s = old(w).ents@;
            proof {
                // The chosen occupant index is exactly `j`: the witness `j`
                // satisfies the occupancy predicate, and distinctness makes
                // the live occupant of a cell unique.
                let jj = occupant_of(s, dstx as int, dsty as int);
                assert(0 <= jj < s.len() && s[jj].alive && s[jj].x == dstx && s[jj].y == dsty);
                assert(jj == j);
            }
            if e.kind == Kind::Robbo && occ.moveable && 0 <= d2x && d2x
                < crate::components::WIDTH && 0 <= d2y && d2y < crate::components::HEIGHT
                && !w.is_occupied(d2x, d2y) {
                let o2 = Entity { x: d2x, y: d2y, ..occ };
                w.ents[j] = o2;
                let e2 = Entity { x: dstx, y: dsty, ..e };
                w.ents[i] = e2;
                proof {
                    assert(j != i) by {
                        assert(s[j as int].x == dstx && s[j as int].y == dsty);
                        assert(s[i as int].x == e.x && s[i as int].y == e.y);
                        assert(!(e.dx == 0 && e.dy == 0));
                    }
                    assert(w.ents@ == s.update(j as int, moved_to(s[j as int], d2x as int, d2y as int)).update(
                        i as int,
                        moved_to(s[i as int], dstx as int, dsty as int),
                    ));
                    lemma_push_keeps_wf(s, w.ents@, i as int, j as int);
                }
            } else {
                blocked(w, i, dstx, dsty, true);
            }
        },
    }
}

/// Apply the per-kind blocked-move policy to the entity at index `i`.
fn blocked(w: &mut World, i: usize, dstx: i32, dsty: i32, hit_occupied: bool)
    requires
        old(w).wf(),
        i < old(w).ents@.len(),
        old(w).ents@[i as int].alive,
    ensures
        final(w).wf(),
        final(w).ents@.len() == old(w).ents@.len(),
        final(w).player_gun == old(w).player_gun,
        blocked_outcome(*old(w), *final(w), i as int, dstx as int, dsty as int, hit_occupied),
{
    let e = w.ents[i];
    if matches!(e.kind, Kind::Bird | Kind::LBear) {
        let e2 = Entity { dx: -e.dx, dy: -e.dy, ..e };
        proof {
            assert(ent_wf(old(w).ents@[i as int]));
        }
        w.ents[i] = e2;
        proof {
            assert(w.ents@ == old(w).ents@.update(i as int, reversed(e)));
            lemma_reverse_keeps_wf(old(w).ents@, w.ents@, i as int);
        }
    } else if matches!(e.kind, Kind::Bullet) {
        if hit_occupied {
            w.events.push(DamageEvent { x: dstx, y: dsty, from_projectile: true });
        }
        w.events.push(DamageEvent { x: e.x, y: e.y, from_projectile: true });
    } else if matches!(e.kind, Kind::LaserHead) {
        if hit_occupied {
            w.events.push(DamageEvent { x: dstx, y: dsty, from_projectile: true });
        } else {
            w.events.push(DamageEvent { x: e.x, y: e.y, from_projectile: true });
        }
    }
}

/// A live entity carrying the player tag.
pub open spec fn live_robbo(e: Entity) -> bool {
    e.alive && e.kind == Kind::Robbo
}

/// Some live player entity exists.
pub open spec fn has_robbo(s: Seq<Entity>) -> bool {
    exists|i: int| 0 <= i < s.len() && live_robbo(#[trigger] s[i])
}

/// `i` is the first live player entity in creation order.
pub open spec fn is_first_robbo(s: Seq<Entity>, i: int) -> bool {
    0 <= i < s.len() && live_robbo(s[i]) && forall|k: int|
        0 <= k < i ==> !live_robbo(#[trigger] s[k])
}

/// The transition relation of the player-movement phase: a world without a
/// live player is untouched, and otherwise the first live player entity in
/// creation order takes one `step_entity` transition.
pub open spec fn robbo_phase_rel(pre: World, post: World) -> bool {
    post.ents@.len() == pre.ents@.len() && (!has_robbo(pre.ents@) ==> post == pre) && (forall|
        r: int,
    |
        is_first_robbo(pre.ents@, r) ==> step_entity(pre, post, r))
}

/// Resolve the player's movement intent: find the first live player entity
/// in creation order and put it through the movement resolver (the branch of
/// the resolver that may push a `Moveable` occupant). A world without a live
/// player is left untouched.
pub fn move_robbo(w: &mut World)
    requires
        old(w).wf(),
    ensures
        final(w).wf(),
        robbo_phase_rel(*old(w), *final(w)),
        forall|k: int|
            0 <= k < old(w).ents@.len() ==> same_but_motion(
                old(w).ents@[k],
                #[trigger] final(w).ents@[k],
            ),
{
    let n = w.ents.len();
    let mut i: usize = 0;
    while i < n
        invariant
            i <= n,
            n == w.ents@.len(),
            *w == *old(w),
            old(w).wf(),
            forall|k: int| 0 <= k < i ==> !live_robbo(#[trigger] w.ents@[k]),
        decreases n - i,
    {
        let e = &w.ents[i];
        if e.alive && matches!(e.kind, Kind::Robbo) {
            proof {
                assert(is_first_robbo(old(w).ents@, i as int));
                assert forall|r: int| is_first_robbo(old(w).ents@, r) implies r == i as int by {
                    if r < i as int {
                        assert(!live_robbo(old(w).ents@[r]));
                    } else if r > i as int {
                        assert(!live_robbo(old(w).ents@[i as int]));
                    }
                }
            }
            move_one(w, i);
            return ;
        }
        i = i + 1;
    }
    proof {
        assert(!has_robbo(w.ents@));
    }
}

/// The component frame of the movement phase: movement changes only
/// positions and direction intents, never an entity's kind, liveness,
/// markers, tile or firing intent.
pub open spec fn same_but_motion(a: Entity, b: Entity) -> bool {
    b.kind == a.kind && b.alive == a.alive && b.moveable == a.moveable && b.destroyable
        == a.destroyable && b.tile == a.tile && b.shooting == a.shooting
}

/// The whole movement phase as a relation: a chain of worlds, one per
/// entity index in creation order, where the player's index is skipped and
/// every other index takes one `step_entity` transition. First come, first
/// served on contested cells is exactly this chain order.
pub open spec fn move_phase_rel(pre: World, post: World) -> bool {
    exists|states: Seq<World>|
        states.len() == pre.ents@.len() + 1 && states[0] == pre && states[pre.ents@.len() as int]
            == post && forall|k: int|
            0 <= k < pre.ents@.len() ==> (if (#[trigger] states[k]).ents@[k].kind == Kind::Robbo {
                states[k + 1] == states[k]
            } else {
                step_entity(states[k], states[k + 1], k)
            })
}

/// Resolve the movement intents of every non-player entity, in creation
/// order (first come, first served on contested cells). Beyond preserving
/// well-formedness, the phase keeps every player entity untouched, changes
/// nothing but positions and direction intents, and only appends
/// projectile-impact damage events.
pub fn move_system(w: &mut World)
    requires
        old(w).wf(),
    ensures
        final(w).wf(),
        move_phase_rel(*old(w), *final(w)),
        final(w).ents@.len() == old(w).ents@.len(),
        final(w).player_gun == old(w).player_gun,
        forall|k: int|
            0 <= k < old(w).ents@.len() ==> same_but_motion(
                old(w).ents@[k],
                #[trigger] final(w).ents@[k],
            ),
        forall|k: int|
            0 <= k < old(w).ents@.len() && (#[trigger] old(w).ents@[k]).kind == Kind::Robbo
                ==> final(w).ents@[k] == old(w).ents@[k],
        old(w).events@.len() <= final(w).events@.len(),
        forall|n: int|
            0 <= n < old(w).events@.len() ==> final(w).events@[n] == old(w).events@[n],
        forall|n: int|
            old(w).events@.len() <= n < final(w).events@.len()
                ==> (#[trigger] final(w).events@[n]).from_projectile,
{
    let n = w.ents.len();
    let mut i: usize = 0;
    let ghost mut st: Seq<World> = seq![*old(w)];
    while i < n
        invariant
            i <= n,
            n == old(w).ents@.len(),
            w.wf(),
            w.ents@.len() == n,
            w.player_gun == old(w).player_gun,
            st.len() == i + 1,
            st[0] == *old(w),
            st[i as int] == *w,
            forall|k: int|
                0 <= k < i ==> (if (#[trigger] st[k]).ents@[k].kind == Kind::Robbo {
                    st[k + 1] == st[k]
                } else {
                    step_entity(st[k], st[k + 1], k)
                }),
            forall|k: int|
                0 <= k < n ==> same_but_motion(old(w).ents@[k], #[trigger] w.ents@[k]),
            forall|k: int|
                0 <= k < n && (#[trigger] old(w).ents@[k]).kind == Kind::Robbo ==> w.ents@[k]
                    == old(w).ents@[k],
            old(w).events@.len() <= w.events@.len(),
            forall|m: int| 0 <= m < old(w).events@.len() ==> w.events@[m] == old(w).events@[m],
            forall|m: int|
                old(w).events@.len() <= m < w.events@.len() ==> (#[trigger] w.events@[m]).from_projectile,
        decreases n - i,
    {
        let skip = matches!(w.ents[i].kind, Kind::Robbo);
        if !skip {
            let ghost prev = *w;
            move_one(w, i);
            proof {
                assert(step_entity(prev, *w, i as int));
            }
        }
        proof {
            st = st.push(*w);
        }
        i = i + 1;
    }
    proof {
        assert(move_phase_rel(*old(w), *w)) by {
            assert(st.len() == old(w).ents@.len() + 1 && st[0] == *old(w) && st[old(
                w,
            ).ents@.len() as int] == *w && forall|k: int|
                0 <= k < old(w).ents@.len() ==> (if (#[trigger] st[k]).ents@[k].kind
                    == Kind::Robbo {
                    st[k + 1] == st[k]
                } else {
                    step_entity(st[k], st[k + 1], k)
                }));
        }
    }
}

/// Moving one entity to a clear in-bounds cell preserves well-formedness.
proof fn lemma_move_to_clear_keeps_wf(s: Seq<Entity>, t: Seq<Entity>, i: int)
    requires
        ents_wf(s),
        distinct_positions(s),
        0 <= i < s.len(),
        t == s.update(i, moved_to(s[i], t[i].x as int, t[i].y as int)),
        in_bounds(t[i].x as int, t[i].y as int),
        !occupied_at(s, t[i].x as int, t[i].y as int),
    ensures
        ents_wf(t),
        distinct_positions(t),
{
    assert forall|k: int| 0 <= k < t.len() implies ent_wf(#[trigger] t[k]) by {
        if k != i {
            assert(t[k] == s[k]);
        }
    }
    assert forall|a: int, b: int|
        0 <= a < t.len() && 0 <= b < t.len() && a != b && (#[trigger] t[a]).alive && (
        #[trigger] t[b]).alive implies !(t[a].x == t[b].x && t[a].y == t[b].y) by {
        if a != i && b != i {
            assert(t[a] == s[a] && t[b] == s[b]);
        } else if a == i {
            assert(t[b] == s[b]);
            assert(!(s[b].alive && s[b].x == t[i].x && s[b].y == t[i].y));
        } else {
            assert(t[a] == s[a]);
            assert(!(s[a].alive && s[a].x == t[i].x && s[a].y == t[i].y));
        }
    }
}

/// Reversing a direction intent preserves well-formedness: the position and
/// liveness are untouched and the reversed vector is still one of the five
/// allowed values.
proof fn lemma_reverse_keeps_wf(s: Seq<Entity>, t: Seq<Entity>, i: int)
    requires
        ents_wf(s),
        distinct_positions(s),
        0 <= i < s.len(),
        t == s.update(i, reversed(s[i])),
    ensures
        ents_wf(t),
        distinct_positions(t),
{
    assert(ent_wf(s[i]));
    assert forall|k: int| 0 <= k < t.len() implies ent_wf(#[trigger] t[k]) by {
        if k != i {
            assert(t[k] == s[k]);
        }
    }
    assert forall|a: int, b: int|
        0 <= a < t.len() && 0 <= b < t.len() && a != b && (#[trigger] t[a]).alive && (
        #[trigger] t[b]).alive implies !(t[a].x == t[b].x && t[a].y == t[b].y) by {
        assert(t[a].x == s[a].x && t[a].y == s[a].y && t[a].alive == s[a].alive);
        assert(t[b].x == s[b].x && t[b].y == s[b].y && t[b].alive == s[b].alive);
    }
}

/// A committed push preserves well-formedness: the occupant `j` leaves for a
/// clear cell and the mover `i` takes the cell `j` vacated, which only `j`
/// occupied.
proof fn lemma_push_keeps_wf(s: Seq<Entity>, t: Seq<Entity>, i: int, j: int)
    requires
        ents_wf(s),
        distinct_positions(s),
        0 <= i < s.len(),
        0 <= j < s.len(),
        i != j,
        s[i].alive,
        s[j].alive,
        t == s.update(j, moved_to(s[j], t[j].x as int, t[j].y as int)).update(
            i,
            moved_to(s[i], s[j].x as int, s[j].y as int),
        ),
        in_bounds(t[j].x as int, t[j].y as int),
        in_bounds(s[j].x as int, s[j].y as int),
        !occupied_at(s, t[j].x as int, t[j].y as int),
    ensures
        ents_wf(t),
        distinct_positions(t),
{
    assert forall|k: int| 0 <= k < t.len() implies ent_wf(#[trigger] t[k]) by {
        if k != i && k != j {
            assert(t[k] == s[k]);
        }
    }
    assert(!(s[j].alive && s[j].x == t[j].x && s[j].y == t[j].y));
    assert forall|a: int, b: int|
        0 <= a < t.len() && 0 <= b < t.len() && a != b && (#[trigger] t[a]).alive && (
        #[trigger] t[b]).alive implies !(t[a].x == t[b].x && t[a].y == t[b].y) by {
        if a != i && a != j && b != i && b != j {
            assert(t[a] == s[a] && t[b] == s[b]);
        } else if a == i && b != j || a == j && b != i || b == i && a != j || b == j && a != i {
            // One end moved: `i` stands where only `j` stood, and `j` stands
            // on a cell no live entity occupied.
            if a == i && b != j {
                assert(t[b] == s[b]);
                assert(s[b].x == s[j].x && s[b].y == s[j].y ==> b == j);
            } else if a == j && b != i {
                assert(t[b] == s[b]);
                assert(!(s[b].alive && s[b].x == t[j].x && s[b].y == t[j].y));
            } else if b == i && a != j {
                assert(t[a] == s[a]);
                assert(s[a].x == s[j].x && s[a].y == s[j].y ==> a == j);
            } else {
                assert(t[a] == s[a]);
                assert(!(s[a].alive && s[a].x == t[j].x && s[a].y == t[j].y));
            }
        } else {
            // a and b are i and j: i stands at j's old cell, j at the clear
            // cell, and the clear cell was not j's old cell.
            assert(!(s[j].alive && s[j].x == t[j].x && s[j].y == t[j].y));
        }
    }
}

} // verus!
