//! Damage events: deferred records naming a target cell, queued during the
//! movement and firing phases and applied by the damage pipeline before the
//! next tick begins.

use vstd::prelude::*;

verus! {

/// One damage event. `from_projectile` distinguishes a moving-projectile
/// impact from blocked-shot damage (a shot fired directly into an occupied
/// cell).
#[derive(Clone, Copy, PartialEq, Eq, Structural, Debug)]
pub struct DamageEvent {
    pub x: i32,
    pub y: i32,
    pub from_projectile: bool,
}

} // verus!
