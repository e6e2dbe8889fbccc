//! Player intent translator: maps the per-tick directional input signal to
//! the player entity's movement intent, and the fire signal to a firing
//! intent with probability fixed at certain and the gun type taken from the
//! player's current state.

use vstd::prelude::*;

use crate::components::{Entity, Kind, ShootingDir, PROB_MAX};
use crate::movement::{has_robbo, is_first_robbo};
use crate::world::World;

verus! {

/// The directional input signal for one tick.
#[derive(Clone, Copy, PartialEq, Eq, Structural, Debug)]
pub enum InputDir {
    Still,
    Up,
    Down,
    Left,
    Right,
}

/// Horizontal component of an input direction.
pub open spec fn input_dx(d: InputDir) -> int {
    match d {
        InputDir::Left => -1,
        InputDir::Right => 1,
        _ => 0,
    }
}

/// Vertical component of an input direction; the grid's y axis grows
/// upward, so `Up` is `+1`.
pub open spec fn input_dy(d: InputDir) -> int {
    match d {
        InputDir::Down => -1,
        InputDir::Up => 1,
        _ => 0,
    }
}

/// The whole input signal for one tick: a direction (or none) and whether
/// the fire key is held.
#[derive(Clone, Copy, PartialEq, Eq, Structural, Debug)]
pub struct InputState {
    pub dir: InputDir,
    pub fire: bool,
}

/// The player entity's record after the translator ran on it under input
/// `inp` and gun state `gun`: the movement intent follows the direction
/// signal, and a fire signal with a direction attaches a certain-probability
/// firing intent.
pub open spec fn translated(e: Entity, inp: InputState, gun: crate::components::GunType) -> Entity {
    Entity {
        dx: input_dx(inp.dir) as i32,
        dy: input_dy(inp.dir) as i32,
        shooting: if inp.fire && inp.dir != InputDir::Still {
            Some(
                ShootingDir {
                    dx: input_dx(inp.dir) as i32,
                    dy: input_dy(inp.dir) as i32,
                    prob: PROB_MAX,
                    gun,
                },
            )
        } else {
            e.shooting
        },
        ..e
    }
}

/// The component frame of the intent translator: it writes only intents
/// (movement direction and firing), never an archetype, position, marker,
/// tile or liveness.
pub open spec fn same_but_intent(a: Entity, b: Entity) -> bool {
    b.kind == a.kind && b.x == a.x && b.y == a.y && b.moveable == a.moveable && b.destroyable
        == a.destroyable && b.tile == a.tile && b.alive == a.alive
}

/// The transition relation of the intent translator: a world without a live
/// player is untouched, and otherwise exactly the first live player entity
/// is rewritten by [`translated`].
pub open spec fn keyboard_rel(pre: World, post: World, inp: InputState) -> bool {
    post.ents@.len() == pre.ents@.len() && post.events@ == pre.events@ && post.player_gun
        == pre.player_gun && (!has_robbo(pre.ents@) ==> post == pre) && (forall|r: int|
        is_first_robbo(pre.ents@, r) ==> post.ents@ == pre.ents@.update(
            r,
            translated(pre.ents@[r], inp, pre.player_gun),
        ))
}

/// Translate the input signal into the player entity's intents: exactly the
/// first live player entity is mutated; every other entity, the event queue
/// and the gun state are untouched.
pub fn keyboard_system(w: &mut World, inp: InputState)
    requires
        old(w).wf(),
    ensures
        final(w).wf(),
        keyboard_rel(*old(w), *final(w), inp),
        forall|k: int|
            0 <= k < old(w).ents@.len() ==> same_but_intent(
                old(w).ents@[k],
                #[trigger] final(w).ents@[k],
            ),
{
    let n = w.ents.len();
    let mut i: usize = 0;
    while i < n
        invariant
            i <= n,
            n == w.ents@.len(),
            *w == *old(w),
            old(w).wf(),
            forall|k: int|
                0 <= k < i ==> !crate::movement::live_robbo(#[trigger] w.ents@[k]),
        decreases n - i,
    {
        let e = w.ents[i];
        if e.alive && matches!(e.kind, Kind::Robbo) {
            proof {
                assert(is_first_robbo(old(w).ents@, i as int));
                assert forall|r: int| is_first_robbo(old(w).ents@, r) implies r == i as int by {
                    if r < i as int {
                        assert(!crate::movement::live_robbo(old(w).ents@[r]));
                    } else if r > i as int {
                        assert(!crate::movement::live_robbo(old(w).ents@[i as int]));
                    }
                }
            }
            let (ddx, ddy): (i32, i32) = match inp.dir {
                InputDir::Still => (0, 0),
                InputDir::Up => (0, 1),
                InputDir::Down => (0, -1),
                InputDir::Left => (-1, 0),
                InputDir::Right => (1, 0),
            };
            let shooting: Option<ShootingDir> = if inp.fire && !matches!(
                inp.dir,
                InputDir::Still,
            ) {
                Some(ShootingDir { dx: ddx, dy: ddy, prob: PROB_MAX, gun: w.player_gun })
            } else {
                e.shooting
            };
            let e2 = Entity { dx: ddx, dy: ddy, shooting, ..e };
            w.ents[i] = e2;
            proof {
                assert(w.ents@[i as int] == translated(
                    old(w).ents@[i as int],
                    inp,
                    old(w).player_gun,
                ));
                crate::world::lemma_same_cells_keep_wf(old(w).ents@, w.ents@, i as int);
            }
            return ;
        }
        i = i + 1;
    }
    proof {
        assert(!has_robbo(w.ents@));
    }
}

} // verus!
