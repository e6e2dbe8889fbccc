//! Damage event pipeline: an ordered queue of damage events, drained
//! completely in a dedicated phase before the next tick's movement and
//! firing. Applying an event destroys every live `Destroyable` entity at its
//! target cell; other occupants (walls among them) are immune.

use vstd::prelude::*;

use crate::components::{ent_wf, Entity};
use crate::events::DamageEvent;
use crate::world::{distinct_positions, ents_wf, occupied_at, World};

verus! {

/// Some event in `evs` targets the cell the entity stands on.
pub open spec fn hit_by(e: Entity, evs: Seq<DamageEvent>) -> bool {
    exists|n: int| 0 <= n < evs.len() && (#[trigger] evs[n]).x == e.x && evs[n].y == e.y
}

/// The entity record after destruction: the slot is kept, only liveness is
/// withdrawn.
pub open spec fn killed(e: Entity) -> Entity {
    Entity { alive: false, ..e }
}

/// The transition relation of one damage flush: the queue is fully drained,
/// and an entity is destroyed exactly when it was live, `Destroyable`, and
/// some queued event targeted its cell; every other entity is untouched.
pub open spec fn damage_rel(pre: World, post: World) -> bool {
    post.events@.len() == 0 && post.player_gun == pre.player_gun && post.ents@.len()
        == pre.ents@.len() && forall|k: int|
        0 <= k < pre.ents@.len() ==> #[trigger] post.ents@[k] == (if pre.ents@[k].alive
            && pre.ents@[k].destroyable && hit_by(pre.ents@[k], pre.events@) {
            killed(pre.ents@[k])
        } else {
            pre.ents@[k]
        })
}

/// Apply one damage event against every entity: destroy the live
/// `Destroyable` entities standing at `(ev.x, ev.y)`.
fn apply_event(w: &mut World, ev: DamageEvent)
    requires
        old(w).wf(),
    ensures
        final(w).wf(),
        final(w).events@ == old(w).events@,
        final(w).player_gun == old(w).player_gun,
        final(w).ents@.len() == old(w).ents@.len(),
        forall|k: int|
            0 <= k < old(w).ents@.len() ==> #[trigger] final(w).ents@[k] == (if old(w).ents@[k].alive && old(w).ents@[k].destroyable && old(w).ents@[k].x == ev.x && old(w).ents@[k].y == ev.y {
                killed(old(w).ents@[k])
            } else {
                old(w).ents@[k]
            }),
{
    let n = w.ents.len();
    let mut i: usize = 0;
    while i < n
        invariant
            i <= n,
            n == old(w).ents@.len(),
            w.ents@.len() == n,
            w.events@ == old(w).events@,
            w.player_gun == old(w).player_gun,
            ents_wf(old(w).ents@),
            distinct_positions(old(w).ents@),
            forall|k: int|
                i <= k < n ==> #[trigger] w.ents@[k] == old(w).ents@[k],
            forall|k: int|
                0 <= k < i ==> #[trigger] w.ents@[k] == (if old(w).ents@[k].alive && old(w).ents@[k].destroyable && old(w).ents@[k].x == ev.x && old(w).ents@[k].y == ev.y {
                    killed(old(w).ents@[k])
                } else {
                    old(w).ents@[k]
                }),
        decreases n - i,
    {
        let e = w.ents[i];
        if e.alive && e.destroyable && e.x == ev.x && e.y == ev.y {
            let e2 = Entity { alive: false, ..e };
            w.ents[i] = e2;
        }
        i = i + 1;
    }
    proof {
        lemma_only_deaths_keep_wf(old(w).ents@, w.ents@);
    }
}

/// Flush the queue: apply every queued event in order, then leave the queue
/// empty. No event survives a flush.
pub fn damage_system(w: &mut World)
    requires
        old(w).wf(),
    ensures
        final(w).wf(),
        damage_rel(*old(w), *final(w)),
{
    let m = w.events.len();
    let mut v: usize = 0;
    while v < m
        invariant
            v <= m,
            m == old(w).events@.len(),
            w.events@ == old(w).events@,
            w.player_gun == old(w).player_gun,
            w.wf(),
            ents_wf(old(w).ents@),
            distinct_positions(old(w).ents@),
            w.ents@.len() == old(w).ents@.len(),
            forall|k: int|
                0 <= k < old(w).ents@.len() ==> #[trigger] w.ents@[k] == (if old(w).ents@[k].alive && old(w).ents@[k].destroyable && hit_by(
                    old(w).ents@[k],
                    old(w).events@.take(v as int),
                ) {
                    killed(old(w).ents@[k])
                } else {
                    old(w).ents@[k]
                }),
        decreases m - v,
    {
        let ev = w.events[v];
        let ghost mid = w.ents@;
        apply_event(w, ev);
        proof {
            let s = old(w).ents@;
            let evs = old(w).events@;
            assert forall|k: int| 0 <= k < s.len() implies #[trigger] w.ents@[k] == (if s[k].alive
                && s[k].destroyable && hit_by(s[k], evs.take(v as int + 1)) {
                killed(s[k])
            } else {
                s[k]
            }) by {
                lemma_hit_by_take_step(s[k], evs, v as int);
                assert(mid[k] == (if s[k].alive && s[k].destroyable && hit_by(
                    s[k],
                    evs.take(v as int),
                ) {
                    killed(s[k])
                } else {
                    s[k]
                }));
            }
        }
        v = v + 1;
    }
    proof {
        assert(old(w).events@.take(m as int) == old(w).events@);
    }
    w.events.clear();
}

/// Extending the applied prefix of the queue by one event hits an entity
/// exactly when the prefix already hit it or the new event targets its cell.
proof fn lemma_hit_by_take_step(e: Entity, evs: Seq<DamageEvent>, v: int)
    requires
        0 <= v < evs.len(),
    ensures
        hit_by(e, evs.take(v + 1)) == (hit_by(e, evs.take(v)) || (evs[v].x == e.x && evs[v].y
            == e.y)),
{
    let pre = evs.take(v);
    let ext = evs.take(v + 1);
    assert(ext[v] == evs[v]);
    if hit_by(e, pre) {
        let n = choose|n: int| 0 <= n < pre.len() && (#[trigger] pre[n]).x == e.x && pre[n].y
            == e.y;
        assert(ext[n] == pre[n]);
        assert(hit_by(e, ext));
    }
    if evs[v].x == e.x && evs[v].y == e.y {
        assert(hit_by(e, ext));
    }
    if hit_by(e, ext) {
        let n = choose|n: int| 0 <= n < ext.len() && (#[trigger] ext[n]).x == e.x && ext[n].y
            == e.y;
        if n < v {
            assert(pre[n] == ext[n]);
            assert(hit_by(e, pre));
        }
    }
}

/// A transition that only withdraws liveness (and otherwise keeps every
/// record) preserves well-formedness.
proof fn lemma_only_deaths_keep_wf(s: Seq<Entity>, t: Seq<Entity>)
    requires
        ents_wf(s),
        distinct_positions(s),
        t.len() == s.len(),
        forall|k: int|
            0 <= k < s.len() ==> #[trigger] t[k] == s[k] || t[k] == killed(s[k]),
    ensures
        ents_wf(t),
        distinct_positions(t),
{
    assert forall|k: int| 0 <= k < t.len() implies ent_wf(#[trigger] t[k]) by {
        assert(t[k] == s[k] || t[k] == killed(s[k]));
    }
    assert forall|a: int, b: int|
        0 <= a < t.len() && 0 <= b < t.len() && a != b && (#[trigger] t[a]).alive && (
        #[trigger] t[b]).alive implies !(t[a].x == t[b].x && t[a].y == t[b].y) by {
        assert(t[a] == s[a] || t[a] == killed(s[a]));
        assert(t[b] == s[b] || t[b] == killed(s[b]));
    }
}

/// Flushing an empty queue changes nothing, so a second flush directly
/// after a first one is always a no-op: the first flush leaves the queue
/// empty.
pub proof fn lemma_flush_of_empty_queue_is_noop(pre: World, post: World)
    requires
        pre.events@.len() == 0,
        damage_rel(pre, post),
    ensures
        post.ents@ == pre.ents@,
{
    assert forall|k: int| 0 <= k < pre.ents@.len() implies #[trigger] post.ents@[k]
        == pre.ents@[k] by {
        assert(!hit_by(pre.ents@[k], pre.events@));
    }
    assert(post.ents@ =~= pre.ents@);
}

/// Flushing a queue whose events all target one vacant cell destroys
/// nothing: every entity record comes out of the flush exactly as it went
/// in. The law holds for any number of queued events, so repeated events
/// against an already-vacant cell are idempotent no-ops.
pub proof fn lemma_damage_vacant_noop(pre: World, post: World, cx: int, cy: int)
    requires
        pre.wf(),
        damage_rel(pre, post),
        !occupied_at(pre.ents@, cx, cy),
        forall|n: int|
            0 <= n < pre.events@.len() ==> (#[trigger] pre.events@[n]).x == cx
                && pre.events@[n].y == cy,
    ensures
        post.ents@ == pre.ents@,
        forall|k: int|
            0 <= k < pre.ents@.len() ==> (#[trigger] post.ents@[k]).alive
                == pre.ents@[k].alive,
{
    assert forall|k: int| 0 <= k < pre.ents@.len() implies #[trigger] post.ents@[k]
        == pre.ents@[k] by {
        let e = pre.ents@[k];
        if e.alive && e.destroyable && hit_by(e, pre.events@) {
            let n = choose|n: int| 0 <= n < pre.events@.len() && (#[trigger] pre.events@[n]).x
                == e.x && pre.events@[n].y == e.y;
            assert(e.x == cx && e.y == cy);
            assert(occupied_at(pre.ents@, cx, cy));
        }
    }
    assert(post.ents@ =~= pre.ents@);
}

} // verus!
