//! Component data attached to entities: grid positions, movement and firing
//! intents, archetype tags, and the per-entity well-formedness conditions.

use vstd::prelude::*;

verus! {

/// Grid width in cells; every position satisfies `0 <= x < WIDTH`.
pub const WIDTH: i32 = 32;

/// Grid height in cells; every position satisfies `0 <= y < HEIGHT`.
pub const HEIGHT: i32 = 16;

/// Firing probabilities are fractions with this denominator, so `PROB_MAX`
/// stands for a certain shot and `0` for one that never fires.
pub const PROB_MAX: u16 = 1000;

/// Closed archetype tag. It drives the blocking policy of the movement
/// resolver (creatures bounce, projectiles impact) and identifies the single
/// player entity (`Robbo`).
#[derive(Clone, Copy, PartialEq, Eq, Structural, Debug)]
pub enum Kind {
    Robbo,
    Bird,
    LBear,
    MovingBox,
    StaticBox,
    Wall,
    Bullet,
    LaserHead,
}

/// Which projectile a gun emits: `Solid` spawns a laser head, `Burst` an
/// ordinary bullet.
#[derive(Clone, Copy, PartialEq, Eq, Structural, Debug)]
pub enum GunType {
    Solid,
    Burst,
}

/// Transient firing intent: a cardinal direction, a firing probability as a
/// fraction of [`PROB_MAX`], and the gun type. Present only for the tick in
/// which firing is evaluated for the player entity.
#[derive(Clone, Copy, PartialEq, Eq, Structural, Debug)]
pub struct ShootingDir {
    pub dx: i32,
    pub dy: i32,
    pub prob: u16,
    pub gun: GunType,
}

/// One entity: an archetype tag plus its independently attached component
/// fields. A record with `alive == false` is a destroyed entity whose slot is
/// kept so that handles (indices) stay stable within a tick.
#[derive(Clone, Copy, Debug)]
pub struct Entity {
    pub kind: Kind,
    pub x: i32,
    pub y: i32,
    pub dx: i32,
    pub dy: i32,
    pub moveable: bool,
    pub destroyable: bool,
    pub shooting: Option<ShootingDir>,
    pub tile: u16,
    pub alive: bool,
}

/// A cell lies on the grid.
pub open spec fn in_bounds(x: int, y: int) -> bool {
    0 <= x && x < WIDTH && 0 <= y && y < HEIGHT
}

/// A direction vector is one of the five allowed values:
/// (-1,0), (1,0), (0,-1), (0,1) or (0,0).
pub open spec fn dir_ok(dx: int, dy: int) -> bool {
    (dx == 0 || dy == 0) && -1 <= dx && dx <= 1 && -1 <= dy && dy <= 1
}

/// A firing intent is well formed: a non-zero cardinal direction and a
/// probability within the fraction range.
pub open spec fn shooting_ok(s: ShootingDir) -> bool {
    dir_ok(s.dx as int, s.dy as int) && !(s.dx == 0 && s.dy == 0) && s.prob <= PROB_MAX
}

/// Per-entity well-formedness: a valid movement direction, an in-bounds
/// position while the entity is live, and a well-formed firing intent if one
/// is attached.
pub open spec fn ent_wf(e: Entity) -> bool {
    dir_ok(e.dx as int, e.dy as int) && (e.alive ==> in_bounds(e.x as int, e.y as int)) && (
    e.shooting matches Some(s) ==> shooting_ok(s))
}

/// Autonomous creatures, which reverse their direction when a move is
/// blocked.
pub open spec fn is_autonomous(k: Kind) -> bool {
    k == Kind::Bird || k == Kind::LBear
}

/// The entity as it stands after a committed move to `(x, y)`; every other
/// component is kept.
pub open spec fn moved_to(e: Entity, x: int, y: int) -> Entity {
    Entity { x: x as i32, y: y as i32, ..e }
}

/// The entity with its movement direction reversed (the bounce policy of
/// autonomous creatures).
pub open spec fn reversed(e: Entity) -> Entity {
    Entity { dx: (0 - e.dx) as i32, dy: (0 - e.dy) as i32, ..e }
}

} // verus!
