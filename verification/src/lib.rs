//! A tile-grid arcade-puzzle simulation engine: a player-controlled agent and
//! autonomous creatures move on a bounded grid, entities fire projectiles
//! along cardinal directions, and impacts destroy entities through a deferred
//! damage-event pipeline. Every state transition is a verified function, and
//! each tick preserves the central invariant that no two live entities share
//! a grid cell.

pub mod components;
pub mod damage;
pub mod events;
pub mod frame_cnt;
pub mod input;
pub mod movement;
pub mod shots;
pub mod world;

use vstd::prelude::*;

use crate::components::Kind;
use crate::damage::{damage_rel, damage_system};
use crate::frame_cnt::FrameCnt;
use crate::input::{keyboard_rel, keyboard_system, InputState};
use crate::movement::{move_phase_rel, move_robbo, move_system, robbo_phase_rel};
use crate::shots::{shot_phase_rel, shot_system};
use crate::world::World;

verus! {

/// One simulation step: flush the damage events raised during the previous
/// tick, translate the player's input into intents, resolve the player's
/// and then every other entity's movement, run the cadence-gated firing
/// phase, and advance the tick counter. Well-formedness — every live entity
/// in bounds and no two live entities sharing a cell — holds at every tick
/// end; on a shooting tick no player firing intent survives the tick in
/// which it was evaluated; a tick never changes an entity's archetype and
/// never spawns a player entity, so at most one player entity ever exists.
pub fn tick(w: &mut World, frame: &mut FrameCnt, inp: InputState)
    requires
        old(w).wf(),
        old(frame).frame < u64::MAX,
    ensures
        final(w).wf(),
        crate::world::distinct_positions(final(w).ents@),
        final(frame).frame == old(frame).frame + 1,
        old(frame).do_shooting_spec() ==> forall|k: int|
            0 <= k < final(w).ents@.len() && (#[trigger] final(w).ents@[k]).kind == Kind::Robbo
                ==> final(w).ents@[k].shooting is None,
        old(w).ents@.len() <= final(w).ents@.len(),
        forall|k: int|
            0 <= k < old(w).ents@.len() ==> (#[trigger] final(w).ents@[k]).kind == old(w).ents@[k].kind,
        forall|k: int|
            old(w).ents@.len() <= k < final(w).ents@.len() ==> (#[trigger] final(w).ents@[k]).kind != Kind::Robbo,
        crate::world::at_most_one_robbo(old(w).ents@) ==> crate::world::at_most_one_robbo(
            final(w).ents@,
        ),
        exists|w1: World, w2: World, w3: World, w4: World|
            #![trigger damage_rel(*old(w), w1), keyboard_rel(w1, w2, inp), robbo_phase_rel(w2, w3), move_phase_rel(w3, w4)]
            damage_rel(*old(w), w1) && keyboard_rel(w1, w2, inp) && robbo_phase_rel(w2, w3)
                && move_phase_rel(w3, w4) && shot_phase_rel(
                w4,
                *final(w),
                old(frame).do_shooting_spec(),
            ),
{
    let ghost w0 = *old(w);
    damage_system(w);
    let ghost w1 = *w;
    keyboard_system(w, inp);
    let ghost w2 = *w;
    move_robbo(w);
    let ghost w3 = *w;
    move_system(w);
    let ghost w4 = *w;
    shot_system(w, frame);
    proof {
        assert forall|k: int|
            0 <= k < w0.ents@.len() implies (#[trigger] w.ents@[k]).kind == w0.ents@[k].kind by {
            assert(w1.ents@[k].kind == w0.ents@[k].kind);
            assert(w2.ents@[k].kind == w1.ents@[k].kind);
            assert(w3.ents@[k].kind == w2.ents@[k].kind);
            assert(w4.ents@[k].kind == w3.ents@[k].kind);
            assert(w.ents@[k].kind == w4.ents@[k].kind);
        }
        assert forall|k: int|
            w0.ents@.len() <= k < w.ents@.len() implies (#[trigger] w.ents@[k]).kind
            != Kind::Robbo by {
            assert(crate::shots::spawned_projectile(w.ents@[k]));
        }
        if crate::world::at_most_one_robbo(w0.ents@) {
            assert forall|a: int, b: int|
                0 <= a < w.ents@.len() && 0 <= b < w.ents@.len() && a != b implies !((
            #[trigger] w.ents@[a]).kind == Kind::Robbo && (#[trigger] w.ents@[b]).kind
                == Kind::Robbo) by {
                if a < w0.ents@.len() && b < w0.ents@.len() {
                    assert(w.ents@[a].kind == w0.ents@[a].kind);
                    assert(w.ents@[b].kind == w0.ents@[b].kind);
                }
            }
        }
    }
    frame.step();
}

} // verus!
