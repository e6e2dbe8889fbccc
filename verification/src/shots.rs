//! Firing / projectile spawner: on a shooting tick, every entity carrying a
//! firing intent draws an independent Bernoulli trial; a fired shot either
//! spawns a projectile in the target cell or, when the cell is occupied,
//! raises blocked-shot damage against it. Afterwards every player entity's
//! firing intent is consumed.

use vstd::prelude::*;

use crate::components::{
    in_bounds, Entity, GunType, Kind, ShootingDir, PROB_MAX,
};
use crate::events::DamageEvent;
use crate::frame_cnt::FrameCnt;
use crate::world::{occupied_at, World};

verus! {

/// Relies on rand::random: one uniform draw through the thread-local
/// generator. Nothing can be promised of a random value, so no clause is
/// stated, and every caller handles every outcome.
#[verifier::external_body]
fn random_u32() -> (r: u32) {
    rand::random()
}

/// The Bernoulli trial: a uniform draw fires a gun of probability `prob`
/// (a fraction of [`PROB_MAX`]) exactly when its residue falls below `prob`.
/// A gun of probability [`PROB_MAX`] fires on every draw; one of probability
/// zero never fires.
pub open spec fn fires_spec(draw: u32, prob: u16) -> bool {
    (draw as int) % (PROB_MAX as int) < prob as int
}

/// Whether this draw fires a gun of probability `prob`.
pub fn fires(draw: u32, prob: u16) -> (r: bool)
    ensures
        r == fires_spec(draw, prob),
{
    (draw % (PROB_MAX as u32)) < (prob as u32)
}

/// The projectile entity a fired gun spawns in the clear target cell
/// `(tx, ty)`: a laser head for a `Solid` gun, an ordinary bullet otherwise,
/// moving in the firing direction and destroyable.
pub open spec fn projectile_from(sd: ShootingDir, tx: int, ty: int) -> Entity {
    Entity {
        kind: if sd.gun == GunType::Solid {
            Kind::LaserHead
        } else {
            Kind::Bullet
        },
        x: tx as i32,
        y: ty as i32,
        dx: sd.dx,
        dy: sd.dy,
        moveable: false,
        destroyable: true,
        shooting: None,
        tile: if sd.gun == GunType::Solid {
            37
        } else {
            36
        },
        alive: true,
    }
}

/// The transition relation of one firing evaluation for the entity at index
/// `i` under draw `draw`: a skipped trial or an off-grid target changes
/// nothing; a fired shot spawns a projectile when the target cell is clear
/// and raises one blocked-shot damage event against it when it is occupied.
/// The firing intent itself is consumed separately, at the end of the
/// firing phase.
pub open spec fn fire_step(pre: World, post: World, i: int, draw: u32) -> bool {
    let s = pre.ents@;
    let e = s[i];
    let sd = e.shooting.unwrap();
    let tx = e.x + sd.dx;
    let ty = e.y + sd.dy;
    post.player_gun == pre.player_gun && if !fires_spec(draw, sd.prob) || !in_bounds(tx, ty) {
        post == pre
    } else if !occupied_at(s, tx, ty) {
        post.ents@ == s.push(projectile_from(sd, tx, ty)) && post.events@ == pre.events@
    } else {
        post.ents@ == s && post.events@ == pre.events@.push(
            (DamageEvent { x: tx as i32, y: ty as i32, from_projectile: false }),
        )
    }
}

/// Evaluate one firing intent under the given draw.
pub fn fire_one(w: &mut World, i: usize, draw: u32)
    requires
        old(w).wf(),
        i < old(w).ents@.len(),
        old(w).ents@[i as int].alive,
        old(w).ents@[i as int].shooting is Some,
    ensures
        final(w).wf(),
        fire_step(*old(w), *final(w), i as int, draw),
        old(w).ents@.len() <= final(w).ents@.len(),
{
    let e = w.ents[i];
    proof {
        assert(crate::components::ent_wf(old(w).ents@[i as int]));
    }
    let sd = e.shooting.unwrap();
    if !fires(draw, sd.prob) {
        return ;
    }
    let tx = e.x + sd.dx;
    let ty = e.y + sd.dy;
    if !(0 <= tx && tx < crate::components::WIDTH && 0 <= ty && ty
        < crate::components::HEIGHT) {
        return ;
    }
    if !w.is_occupied(tx, ty) {
        let p = Entity {
            kind: if matches!(sd.gun, GunType::Solid) {
                Kind::LaserHead
            } else {
                Kind::Bullet
            },
            x: tx,
            y: ty,
            dx: sd.dx,
            dy: sd.dy,
            moveable: false,
            destroyable: true,
            shooting: None,
            tile: if matches!(sd.gun, GunType::Solid) {
                37
            } else {
                36
            },
            alive: true,
        };
        w.ents.push(p);
        proof {
            let s = old(w).ents@;
            let t = w.ents@;
            assert(t == s.push(projectile_from(sd, tx as int, ty as int)));
            assert forall|a: int, b: int|
                0 <= a < t.len() && 0 <= b < t.len() && a != b && (#[trigger] t[a]).alive && (
                #[trigger] t[b]).alive implies !(t[a].x == t[b].x && t[a].y == t[b].y) by {
                if a < s.len() && b < s.len() {
                    assert(t[a] == s[a] && t[b] == s[b]);
                } else if a == s.len() {
                    assert(t[b] == s[b]);
                } else if b == s.len() {
                    assert(t[a] == s[a]);
                }
            }
        }
    } else {
        w.events.push(DamageEvent { x: tx, y: ty, from_projectile: false });
    }
}

/// All components of the two records agree except possibly the firing
/// intent: the frame condition of the firing phase on pre-existing entities.
pub open spec fn same_but_firing(a: Entity, b: Entity) -> bool {
    b.kind == a.kind && b.x == a.x && b.y == a.y && b.dx == a.dx && b.dy == a.dy && b.moveable
        == a.moveable && b.destroyable == a.destroyable && b.tile == a.tile && b.alive == a.alive
}

/// A record the firing phase may append: a live, destroyable, non-moveable
/// projectile without a firing intent of its own.
pub open spec fn spawned_projectile(e: Entity) -> bool {
    e.alive && e.destroyable && !e.moveable && (e.kind == Kind::Bullet || e.kind
        == Kind::LaserHead) && e.shooting is None
}

/// A shooter whose gun cannot skip: live, carrying an intent of probability
/// [`PROB_MAX`] with an on-grid target cell.
pub open spec fn certain_shooter(s: Seq<Entity>, k: int) -> bool {
    let e = s[k];
    let sd = e.shooting.unwrap();
    e.alive && e.shooting is Some && sd.prob == PROB_MAX && in_bounds(e.x + sd.dx, e.y + sd.dy)
}

/// The firing phase resolved the shot of the entity at index `k`: after the
/// phase its target cell holds a live entity (the spawned projectile, or the
/// occupant the shot hit), or a blocked-shot damage event against the target
/// was appended.
pub open spec fn shot_resolved(pre: World, post: World, k: int) -> bool {
    let e = pre.ents@[k];
    let sd = e.shooting.unwrap();
    let tx = e.x + sd.dx;
    let ty = e.y + sd.dy;
    (exists|n: int|
        0 <= n < post.ents@.len() && (#[trigger] post.ents@[n]).alive && post.ents@[n].x == tx
            && post.ents@[n].y == ty) || (exists|n: int|
        pre.events@.len() <= n < post.events@.len() && #[trigger] post.events@[n] == (DamageEvent {
            x: tx as i32,
            y: ty as i32,
            from_projectile: false,
        }))
}

/// The evaluation pass of the firing phase as a relation: a chain of
/// worlds, one per pre-existing entity index in creation order, where every
/// index carrying a live firing intent takes one `fire_step` transition
/// under some draw, and every other index changes nothing. The draws are
/// existential because they come from the random source.
pub open spec fn fire_phase_rel(pre: World, post: World) -> bool {
    exists|states: Seq<World>, draws: Seq<u32>|
        #![trigger states.len(), draws.len()]
        states.len() == pre.ents@.len() + 1 && draws.len() == pre.ents@.len() && states[0] == pre
            && states[pre.ents@.len() as int] == post && forall|k: int|
            0 <= k < pre.ents@.len() ==> (if pre.ents@[k].alive && pre.ents@[k].shooting is Some {
                fire_step(#[trigger] states[k], states[k + 1], k, draws[k])
            } else {
                states[k + 1] == states[k]
            })
}

/// The intent-clearing pass of the firing phase as a relation: every player
/// entity's firing intent is detached, and nothing else changes. The scope
/// is deliberately per-kind: a non-player shooter keeps its intent across
/// ticks (and so fires on every shooting tick its probability allows),
/// while the player's intent lives only until the tick that evaluates it.
pub open spec fn clear_rel(pre: World, post: World) -> bool {
    post.events@ == pre.events@ && post.player_gun == pre.player_gun && post.ents@.len()
        == pre.ents@.len() && forall|k: int|
        0 <= k < pre.ents@.len() ==> #[trigger] post.ents@[k] == (if pre.ents@[k].kind
            == Kind::Robbo {
            Entity { shooting: None, ..pre.ents@[k] }
        } else {
            pre.ents@[k]
        })
}

/// The transition relation of the whole firing phase: a non-shooting tick
/// changes nothing; a shooting tick is the evaluation pass followed by the
/// intent-clearing pass.
pub open spec fn shot_phase_rel(pre: World, post: World, shooting_tick: bool) -> bool {
    if !shooting_tick {
        post == pre
    } else {
        exists|mid: World| #[trigger] fire_phase_rel(pre, mid) && clear_rel(mid, post)
    }
}

/// The firing phase. On a non-shooting tick it does nothing. On a shooting
/// tick it evaluates every firing intent with an independent draw, appends
/// only projectile entities and blocked-shot events, leaves every
/// pre-existing component except the player's firing intent untouched,
/// consumes every player entity's firing intent, and never skips a
/// certain-probability shot.
pub fn shot_system(w: &mut World, frame_cnt: &FrameCnt)
    requires
        old(w).wf(),
    ensures
        final(w).wf(),
        final(w).player_gun == old(w).player_gun,
        !frame_cnt.do_shooting_spec() ==> *final(w) == *old(w),
        shot_phase_rel(*old(w), *final(w), frame_cnt.do_shooting_spec()),
        old(w).ents@.len() <= final(w).ents@.len(),
        old(w).events@.len() <= final(w).events@.len(),
        forall|n: int|
            0 <= n < old(w).events@.len() ==> final(w).events@[n] == old(w).events@[n],
        forall|n: int|
            old(w).events@.len() <= n < final(w).events@.len()
                ==> !(#[trigger] final(w).events@[n]).from_projectile,
        forall|k: int|
            0 <= k < old(w).ents@.len() ==> same_but_firing(
                old(w).ents@[k],
                #[trigger] final(w).ents@[k],
            ),
        forall|k: int|
            0 <= k < old(w).ents@.len() && (#[trigger] old(w).ents@[k]).kind != Kind::Robbo
                ==> final(w).ents@[k] == old(w).ents@[k],
        frame_cnt.do_shooting_spec() ==> forall|k: int|
            0 <= k < final(w).ents@.len() && (#[trigger] final(w).ents@[k]).kind == Kind::Robbo
                ==> final(w).ents@[k].shooting is None,
        forall|k: int|
            old(w).ents@.len() <= k < final(w).ents@.len() ==> spawned_projectile(
                #[trigger] final(w).ents@[k],
            ),
        frame_cnt.do_shooting_spec() ==> forall|k: int|
            0 <= k < old(w).ents@.len() && certain_shooter(old(w).ents@, k) ==> shot_resolved(
                *old(w),
                *final(w),
                k,
            ),
{
    if !frame_cnt.do_shooting() {
        return ;
    }
    let n = w.ents.len();
    let mut i: usize = 0;
    let ghost mut st: Seq<World> = seq![*old(w)];
    let ghost mut draws: Seq<u32> = Seq::empty();
    while i < n
        invariant
            i <= n,
            n == old(w).ents@.len(),
            w.wf(),
            n <= w.ents@.len(),
            w.player_gun == old(w).player_gun,
            st.len() == i + 1,
            draws.len() == i,
            st[0] == *old(w),
            st[i as int] == *w,
            forall|k: int|
                0 <= k < i ==> (if old(w).ents@[k].alive && old(w).ents@[k].shooting is Some {
                    fire_step(#[trigger] st[k], st[k + 1], k, draws[k])
                } else {
                    st[k + 1] == st[k]
                }),
            forall|k: int| 0 <= k < n ==> #[trigger] w.ents@[k] == old(w).ents@[k],
            old(w).events@.len() <= w.events@.len(),
            forall|m: int|
                0 <= m < old(w).events@.len() ==> w.events@[m] == old(w).events@[m],
            forall|m: int|
                old(w).events@.len() <= m < w.events@.len()
                    ==> !(#[trigger] w.events@[m]).from_projectile,
            forall|k: int|
                n <= k < w.ents@.len() ==> spawned_projectile(#[trigger] w.ents@[k]),
            forall|k: int|
                0 <= k < i && certain_shooter(old(w).ents@, k) ==> shot_resolved(
                    *old(w),
                    *w,
                    k,
                ),
        decreases n - i,
    {
        let e = w.ents[i];
        if e.alive && e.shooting.is_some() {
            let draw: u32 = random_u32();
            let ghost prev = *w;
            fire_one(w, i, draw);
            proof {
                assert(fire_step(prev, *w, i as int, draw));
                assert forall|k: int|
                    0 <= k < i + 1 && certain_shooter(old(w).ents@, k) implies shot_resolved(
                    *old(w),
                    *w,
                    k,
                ) by {
                    if k < i {
                        lemma_shot_resolved_grows(*old(w), prev, *w, k);
                    } else {
                        let ent = old(w).ents@[k];
                        let sd = ent.shooting.unwrap();
                        assert(prev.ents@[k] == ent);
                        assert(fires_spec(draw, sd.prob)) by {
                            assert(0 <= (draw as int) % (PROB_MAX as int) < PROB_MAX as int);
                        }
                        let tx = ent.x + sd.dx;
                        let ty = ent.y + sd.dy;
                        if !occupied_at(prev.ents@, tx, ty) {
                            let m = prev.ents@.len() as int;
                            assert(w.ents@[m] == projectile_from(sd, tx, ty));
                            assert(w.ents@[m].alive && w.ents@[m].x == tx && w.ents@[m].y == ty);
                        } else {
                            let m = prev.events@.len() as int;
                            assert(w.events@[m] == (DamageEvent {
                                x: tx as i32,
                                y: ty as i32,
                                from_projectile: false,
                            }));
                        }
                    }
                }
            }
            proof {
                st = st.push(*w);
                draws = draws.push(draw);
            }
        } else {
            proof {
                st = st.push(*w);
                draws = draws.push(0u32);
            }
        }
        i = i + 1;
    }
    let ghost mid = *w;
    proof {
        assert(fire_phase_rel(*old(w), mid)) by {
            assert(st.len() == old(w).ents@.len() + 1 && draws.len() == old(w).ents@.len()
                && st[0] == *old(w) && st[old(w).ents@.len() as int] == mid && forall|k: int|
                0 <= k < old(w).ents@.len() ==> (if old(w).ents@[k].alive
                    && old(w).ents@[k].shooting is Some {
                    fire_step(#[trigger] st[k], st[k + 1], k, draws[k])
                } else {
                    st[k + 1] == st[k]
                }));
        }
    }
    let len = w.ents.len();
    let mut j: usize = 0;
    while j < len
        invariant
            j <= len,
            len == mid.ents@.len(),
            w.wf(),
            w.ents@.len() == len,
            w.events@ == mid.events@,
            w.player_gun == mid.player_gun,
            forall|k: int| j <= k < len ==> #[trigger] w.ents@[k] == mid.ents@[k],
            forall|k: int|
                0 <= k < j ==> #[trigger] w.ents@[k] == (if mid.ents@[k].kind == Kind::Robbo {
                    Entity { shooting: None, ..mid.ents@[k] }
                } else {
                    mid.ents@[k]
                }),
        decreases len - j,
    {
        let is_robbo = matches!(w.ents[j].kind, Kind::Robbo);
        if is_robbo {
            w.remove_shooting(j);
        }
        j = j + 1;
    }
    proof {
        assert(clear_rel(mid, *w));
        assert forall|k: int| 0 <= k < n implies same_but_firing(
            old(w).ents@[k],
            #[trigger] w.ents@[k],
        ) by {
            assert(mid.ents@[k] == old(w).ents@[k]);
            assert(w.ents@[k] == mid.ents@[k] || w.ents@[k] == (Entity {
                shooting: None,
                ..mid.ents@[k]
            }));
        }
        assert forall|k: int|
            0 <= k < n && (#[trigger] old(w).ents@[k]).kind != Kind::Robbo implies w.ents@[k]
            == old(w).ents@[k] by {
            assert(mid.ents@[k] == old(w).ents@[k]);
        }
        assert forall|k: int| n <= k < w.ents@.len() implies spawned_projectile(
            #[trigger] w.ents@[k],
        ) by {
            assert(spawned_projectile(mid.ents@[k]));
            assert(mid.ents@[k].kind != Kind::Robbo);
        }
        assert forall|k: int|
            0 <= k < w.ents@.len() && (#[trigger] w.ents@[k]).kind == Kind::Robbo implies w
            .ents@[k].shooting is None by {
            assert(mid.ents@[k].kind == Kind::Robbo);
        }
        assert forall|k: int|
            0 <= k < n && certain_shooter(old(w).ents@, k) implies shot_resolved(
            *old(w),
            *w,
            k,
        ) by {
            lemma_shot_resolved_after_clear(*old(w), mid, *w, k);
        }
    }
}

/// A resolved shot stays resolved when the firing phase moves on: entities
/// and events are only appended, never moved or withdrawn.
proof fn lemma_shot_resolved_grows(pre: World, a: World, b: World, k: int)
    requires
        0 <= k < pre.ents@.len(),
        shot_resolved(pre, a, k),
        a.ents@.len() <= b.ents@.len(),
        forall|n: int| 0 <= n < a.ents@.len() ==> #[trigger] b.ents@[n] == a.ents@[n],
        pre.events@.len() <= a.events@.len(),
        a.events@.len() <= b.events@.len(),
        forall|n: int| 0 <= n < a.events@.len() ==> #[trigger] b.events@[n] == a.events@[n],
    ensures
        shot_resolved(pre, b, k),
{
    let e = pre.ents@[k];
    let sd = e.shooting.unwrap();
    let tx = e.x + sd.dx;
    let ty = e.y + sd.dy;
    if exists|n: int|
        0 <= n < a.ents@.len() && (#[trigger] a.ents@[n]).alive && a.ents@[n].x == tx
            && a.ents@[n].y == ty {
        let n = choose|n: int|
            0 <= n < a.ents@.len() && (#[trigger] a.ents@[n]).alive && a.ents@[n].x == tx
                && a.ents@[n].y == ty;
        assert(b.ents@[n] == a.ents@[n]);
    } else {
        let n = choose|n: int|
            pre.events@.len() <= n < a.events@.len() && #[trigger] a.events@[n] == (DamageEvent {
                x: tx as i32,
                y: ty as i32,
                from_projectile: false,
            });
        assert(b.events@[n] == a.events@[n]);
    }
}

/// A resolved shot stays resolved through the intent-clearing pass: that
/// pass changes only firing intents, never a position, liveness or the
/// event queue.
proof fn lemma_shot_resolved_after_clear(pre: World, a: World, b: World, k: int)
    requires
        0 <= k < pre.ents@.len(),
        shot_resolved(pre, a, k),
        b.ents@.len() == a.ents@.len(),
        b.events@ == a.events@,
        forall|n: int|
            0 <= n < a.ents@.len() ==> (#[trigger] b.ents@[n] == a.ents@[n] || b.ents@[n]
                == (Entity { shooting: None, ..a.ents@[n] })),
    ensures
        shot_resolved(pre, b, k),
{
    let e = pre.ents@[k];
    let sd = e.shooting.unwrap();
    let tx = e.x + sd.dx;
    let ty = e.y + sd.dy;
    if exists|n: int|
        0 <= n < a.ents@.len() && (#[trigger] a.ents@[n]).alive && a.ents@[n].x == tx
            && a.ents@[n].y == ty {
        let n = choose|n: int|
            0 <= n < a.ents@.len() && (#[trigger] a.ents@[n]).alive && a.ents@[n].x == tx
                && a.ents@[n].y == ty;
        assert(b.ents@[n].alive && b.ents@[n].x == tx && b.ents@[n].y == ty);
    }
}

} // verus!
