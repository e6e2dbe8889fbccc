//! The world: an arena of entities (creation order gives each entity its
//! stable handle), the queued damage events, and the player's gun state.
//! Well-formedness bundles the central invariants: every live entity stands
//! in bounds and no two live entities share a cell.

use vstd::prelude::*;

use crate::components::{
    dir_ok, ent_wf, in_bounds, shooting_ok, Entity, GunType, Kind, ShootingDir, HEIGHT, PROB_MAX,
    WIDTH,
};
use crate::events::DamageEvent;

verus! {

/// A live entity stands at cell `(x, y)`.
pub open spec fn occupied_at(s: Seq<Entity>, x: int, y: int) -> bool {
    exists|j: int|
        0 <= j < s.len() && (#[trigger] s[j]).alive && s[j].x == x && s[j].y == y
}

/// No two live entities share a cell.
pub open spec fn distinct_positions(s: Seq<Entity>) -> bool {
    forall|i: int, j: int|
        0 <= i < s.len() && 0 <= j < s.len() && i != j && (#[trigger] s[i]).alive && (
        #[trigger] s[j]).alive ==> !(s[i].x == s[j].x && s[i].y == s[j].y)
}

/// Every entity record is well formed.
pub open spec fn ents_wf(s: Seq<Entity>) -> bool {
    forall|i: int| 0 <= i < s.len() ==> ent_wf(#[trigger] s[i])
}

/// At most one entity carries the player archetype: the uniqueness
/// invariant of the player tag. Destroyed player records keep their kind,
/// so the bound covers dead records too.
pub open spec fn at_most_one_robbo(s: Seq<Entity>) -> bool {
    forall|a: int, b: int|
        0 <= a < s.len() && 0 <= b < s.len() && a != b ==> !((#[trigger] s[a]).kind
            == Kind::Robbo && (#[trigger] s[b]).kind == Kind::Robbo)
}

/// The index of the live entity standing at `(x, y)`; meaningful only where
/// `occupied_at` holds, and unique under `distinct_positions`.
pub open spec fn occupant_of(s: Seq<Entity>, x: int, y: int) -> int {
    choose|j: int| 0 <= j < s.len() && (#[trigger] s[j]).alive && s[j].x == x && s[j].y == y
}

/// The simulation state between ticks.
pub struct World {
    pub ents: Vec<Entity>,
    pub events: Vec<DamageEvent>,
    pub player_gun: GunType,
}

impl World {
    /// Well-formedness of the whole world: every entity record is well
    /// formed, and no two live entities share a cell.
    pub open spec fn wf(self) -> bool {
        ents_wf(self.ents@) && distinct_positions(self.ents@)
    }

    /// An empty world with no queued events.
    pub fn new(player_gun: GunType) -> (w: World)
        ensures
            w.wf(),
            w.ents@.len() == 0,
            w.events@.len() == 0,
            w.player_gun == player_gun,
    {
        World { ents: Vec::new(), events: Vec::new(), player_gun }
    }

    /// Grid occupancy query: whether any live entity blocks cell `(x, y)`.
    /// Presence alone is answered; kind-specific blocking exceptions are the
    /// caller's business.
    pub fn is_occupied(&self, x: i32, y: i32) -> (r: bool)
        ensures
            r == occupied_at(self.ents@, x as int, y as int),
    {
        let n = self.ents.len();
        let mut i: usize = 0;
        while i < n
            invariant
                i <= n,
                n == self.ents@.len(),
                forall|j: int|
                    0 <= j < i ==> !((#[trigger] self.ents@[j]).alive && self.ents@[j].x == x
                        && self.ents@[j].y == y),
            decreases n - i,
        {
            let e = &self.ents[i];
            if e.alive && e.x == x && e.y == y {
                return true;
            }
            i = i + 1;
        }
        false
    }

    /// The handle of the live entity at `(x, y)`, if the cell is occupied.
    pub fn find_at(&self, x: i32, y: i32) -> (r: Option<usize>)
        ensures
            match r {
                Some(j) => j < self.ents@.len() && self.ents@[j as int].alive
                    && self.ents@[j as int].x == x && self.ents@[j as int].y == y,
                None => !occupied_at(self.ents@, x as int, y as int),
            },
    {
        let n = self.ents.len();
        let mut i: usize = 0;
        while i < n
            invariant
                i <= n,
                n == self.ents@.len(),
                forall|j: int|
                    0 <= j < i ==> !((#[trigger] self.ents@[j]).alive && self.ents@[j].x == x
                        && self.ents@[j].y == y),
            decreases n - i,
        {
            let e = &self.ents[i];
            if e.alive && e.x == x && e.y == y {
                return Some(i);
            }
            i = i + 1;
        }
        None
    }

    /// Create a live entity at `(x, y)` unless the cell is out of bounds,
    /// the direction is not one of the five allowed vectors, or the cell is
    /// already occupied; reports whether the entity was created.
    pub fn spawn(
        &mut self,
        kind: Kind,
        x: i32,
        y: i32,
        dx: i32,
        dy: i32,
        moveable: bool,
        destroyable: bool,
        tile: u16,
    ) -> (ok: bool)
        requires
            old(self).wf(),
        ensures
            final(self).wf(),
            final(self).events@ == old(self).events@,
            final(self).player_gun == old(self).player_gun,
            ok == (in_bounds(x as int, y as int) && dir_ok(dx as int, dy as int) && !occupied_at(
                old(self).ents@,
                x as int,
                y as int,
            )),
            ok ==> final(self).ents@ == old(self).ents@.push(
                (Entity {
                    kind,
                    x,
                    y,
                    dx,
                    dy,
                    moveable,
                    destroyable,
                    shooting: None,
                    tile,
                    alive: true,
                }),
            ),
            !ok ==> final(self).ents@ == old(self).ents@,
    {
        if !(0 <= x && x < WIDTH && 0 <= y && y < HEIGHT) {
            return false;
        }
        if !((dx == 0 || dy == 0) && -1 <= dx && dx <= 1 && -1 <= dy && dy <= 1) {
            return false;
        }
        if self.is_occupied(x, y) {
            return false;
        }
        let e = Entity {
            kind,
            x,
            y,
            dx,
            dy,
            moveable,
            destroyable,
            shooting: None,
            tile,
            alive: true,
        };
        self.ents.push(e);
        proof {
            let s = old(self).ents@;
            let t = self.ents@;
            assert forall|i: int, j: int|
                0 <= i < t.len() && 0 <= j < t.len() && i != j && (#[trigger] t[i]).alive && (
                #[trigger] t[j]).alive implies !(t[i].x == t[j].x && t[i].y == t[j].y) by {
                if i < s.len() && j < s.len() {
                    assert(t[i] == s[i] && t[j] == s[j]);
                } else if i == s.len() {
                    assert(t[j] == s[j]);
                } else if j == s.len() {
                    assert(t[i] == s[i]);
                }
            }
        }
        true
    }

    /// Attach a firing intent to entity `i` unless the handle is stale or
    /// the intent is malformed; reports whether the intent was attached.
    pub fn set_shooting(&mut self, i: usize, s: ShootingDir) -> (ok: bool)
        requires
            old(self).wf(),
        ensures
            final(self).wf(),
            final(self).events@ == old(self).events@,
            final(self).player_gun == old(self).player_gun,
            ok == (i < old(self).ents@.len() && old(self).ents@[i as int].alive && shooting_ok(s)),
            ok ==> final(self).ents@ == old(self).ents@.update(
                i as int,
                (Entity { shooting: Some(s), ..old(self).ents@[i as int] }),
            ),
            !ok ==> final(self).ents@ == old(self).ents@,
    {
        if !(i < self.ents.len()) {
            return false;
        }
        let e = self.ents[i];
        if !e.alive {
            return false;
        }
        if !((s.dx == 0 || s.dy == 0) && -1 <= s.dx && s.dx <= 1 && -1 <= s.dy && s.dy <= 1 && !(
        s.dx == 0 && s.dy == 0) && s.prob <= PROB_MAX) {
            return false;
        }
        let e2 = Entity { shooting: Some(s), ..e };
        self.ents[i] = e2;
        proof {
            lemma_same_cells_keep_wf(old(self).ents@, self.ents@, i as int);
        }
        true
    }

    /// Detach the firing intent of entity `i` (a consumed intent).
    pub fn remove_shooting(&mut self, i: usize)
        requires
            old(self).wf(),
            i < old(self).ents@.len(),
        ensures
            final(self).wf(),
            final(self).events@ == old(self).events@,
            final(self).player_gun == old(self).player_gun,
            final(self).ents@ == old(self).ents@.update(
                i as int,
                (Entity { shooting: None, ..old(self).ents@[i as int] }),
            ),
    {
        let e = self.ents[i];
        let e2 = Entity { shooting: None, ..e };
        self.ents[i] = e2;
        proof {
            lemma_same_cells_keep_wf(old(self).ents@, self.ents@, i as int);
        }
    }
}

/// A cell on the bounding ring of the grid.
pub open spec fn perimeter_cell(x: int, y: int) -> bool {
    in_bounds(x, y) && (x == 0 || x == WIDTH - 1 || y == 0 || y == HEIGHT - 1)
}

/// A wall of the bounding ring: a live, stationary, immovable and
/// indestructible `Wall` without intents, standing on a perimeter cell.
pub open spec fn ring_wall(e: Entity) -> bool {
    e.kind == Kind::Wall && e.alive && e.dx == 0 && e.dy == 0 && !e.moveable && !e.destroyable
        && e.shooting is None && e.tile == 3 && perimeter_cell(e.x as int, e.y as int)
}

/// The seven scripted entities of the initial population, in creation
/// order: the player, two birds, two bears, and the two boxes.
pub open spec fn initial_cast(s: Seq<Entity>) -> bool {
    s.len() >= 7 && s[0] == (Entity {
        kind: Kind::Robbo,
        x: 10,
        y: 10,
        dx: 0,
        dy: 0,
        moveable: false,
        destroyable: false,
        shooting: None,
        tile: 60,
        alive: true,
    }) && s[1] == (Entity {
        kind: Kind::Bird,
        x: 10,
        y: 5,
        dx: 1,
        dy: 0,
        moveable: false,
        destroyable: true,
        shooting: None,
        tile: 15,
        alive: true,
    }) && s[2] == (Entity {
        kind: Kind::Bird,
        x: 10,
        y: 7,
        dx: 0,
        dy: 1,
        moveable: false,
        destroyable: true,
        shooting: None,
        tile: 16,
        alive: true,
    }) && s[3] == (Entity {
        kind: Kind::LBear,
        x: 1,
        y: 5,
        dx: 0,
        dy: (-1) as i32,
        moveable: false,
        destroyable: true,
        shooting: None,
        tile: 13,
        alive: true,
    }) && s[4] == (Entity {
        kind: Kind::LBear,
        x: 1,
        y: 10,
        dx: 0,
        dy: (-1) as i32,
        moveable: false,
        destroyable: true,
        shooting: None,
        tile: 13,
        alive: true,
    }) && s[5] == (Entity {
        kind: Kind::MovingBox,
        x: 5,
        y: 5,
        dx: 0,
        dy: 0,
        moveable: true,
        destroyable: false,
        shooting: None,
        tile: 6,
        alive: true,
    }) && s[6] == (Entity {
        kind: Kind::StaticBox,
        x: 4,
        y: 4,
        dx: 0,
        dy: 0,
        moveable: true,
        destroyable: false,
        shooting: None,
        tile: 20,
        alive: true,
    })
}

/// Populate the initial world: the seven scripted entities, the player
/// first, then the bounding wall ring, rows before columns. The contract
/// pins the whole population: the exact record of each scripted entity,
/// that every later entity is a ring wall whose cell is determined by its
/// index, that every perimeter cell of the grid is occupied (under
/// `distinct_positions` that occupant is unique, and under the `ring_wall`
/// clause it is a wall), and the player-uniqueness invariant — no entity
/// but the first carries the player tag.
#[verifier::rlimit(100)]
pub fn setup() -> (w: World)
    ensures
        w.wf(),
        w.events@.len() == 0,
        w.player_gun == GunType::Burst,
        w.ents@.len() == 7 + 2 * WIDTH + 2 * (HEIGHT - 2),
        initial_cast(w.ents@),
        forall|j: int| 7 <= j < w.ents@.len() ==> ring_wall(#[trigger] w.ents@[j]),
        forall|j: int|
            7 <= j < 7 + 2 * WIDTH ==> (#[trigger] w.ents@[j]).x == (j - 7) / 2 && w.ents@[j].y
                == (if (j - 7) % 2 == 0 {
                0int
            } else {
                HEIGHT - 1
            }),
        forall|j: int|
            7 + 2 * WIDTH <= j < w.ents@.len() ==> (#[trigger] w.ents@[j]).x == (if (j - (7 + 2
                * WIDTH)) % 2 == 0 {
                0int
            } else {
                WIDTH - 1
            }) && w.ents@[j].y == (j - (7 + 2 * WIDTH)) / 2 + 1,
        forall|j: int| 1 <= j < w.ents@.len() ==> (#[trigger] w.ents@[j]).kind != Kind::Robbo,
        forall|x: int|
            0 <= x < WIDTH ==> occupied_at(w.ents@, x, 0) && occupied_at(
                w.ents@,
                x,
                HEIGHT - 1,
            ),
        forall|y: int|
            1 <= y < HEIGHT - 1 ==> occupied_at(w.ents@, 0, y) && occupied_at(
                w.ents@,
                WIDTH - 1,
                y,
            ),
{
    let mut w = World::new(GunType::Burst);
    let ok0 = w.spawn(Kind::Robbo, 10, 10, 0, 0, false, false, 60);
    proof {
        assert(ok0);
    }
    let ok1 = w.spawn(Kind::Bird, 10, 5, 1, 0, false, true, 15);
    proof {
        assert(ok1);
    }
    let ok2 = w.spawn(Kind::Bird, 10, 7, 0, 1, false, true, 16);
    proof {
        assert(ok2);
    }
    let ok3 = w.spawn(Kind::LBear, 1, 5, 0, -1, false, true, 13);
    proof {
        assert(ok3);
    }
    let ok4 = w.spawn(Kind::LBear, 1, 10, 0, -1, false, true, 13);
    proof {
        assert(ok4);
    }
    let ok5 = w.spawn(Kind::MovingBox, 5, 5, 0, 0, true, false, 6);
    proof {
        assert(ok5);
    }
    let ok6 = w.spawn(Kind::StaticBox, 4, 4, 0, 0, true, false, 20);
    proof {
        assert(ok6);
        assert(initial_cast(w.ents@));
    }
    let mut x: i32 = 0;
    while x < WIDTH
        invariant
            0 <= x <= WIDTH,
            w.wf(),
            w.events@.len() == 0,
            w.player_gun == GunType::Burst,
            w.ents@.len() == 7 + 2 * x,
            initial_cast(w.ents@),
            forall|j: int|
                7 <= j < w.ents@.len() ==> ring_wall(#[trigger] w.ents@[j]) && w.ents@[j].x == (j
                    - 7) / 2 && w.ents@[j].y == (if (j - 7) % 2 == 0 {
                    0int
                } else {
                    HEIGHT - 1
                }),
        decreases WIDTH - x,
    {
        let ghost s0 = w.ents@;
        let oka = w.spawn(Kind::Wall, x, 0, 0, 0, false, false, 3);
        proof {
            assert(!occupied_at(s0, x as int, 0)) by {
                assert forall|j: int|
                    0 <= j < s0.len() implies !((#[trigger] s0[j]).alive && s0[j].x == x
                    && s0[j].y == 0) by {
                    if 7 <= j {
                        assert(s0[j].x == (j - 7) / 2);
                        assert(j - 7 < 2 * x);
                        assert((j - 7) / 2 < x);
                    }
                }
            }
            assert(oka);
        }
        let ghost s1 = w.ents@;
        let okb = w.spawn(Kind::Wall, x, HEIGHT - 1, 0, 0, false, false, 3);
        proof {
            assert(!occupied_at(s1, x as int, HEIGHT - 1)) by {
                assert forall|j: int|
                    0 <= j < s1.len() implies !((#[trigger] s1[j]).alive && s1[j].x == x
                    && s1[j].y == HEIGHT - 1) by {
                    if 7 <= j && j < s0.len() {
                        assert(s1[j] == s0[j]);
                        assert(s0[j].x == (j - 7) / 2);
                        assert((j - 7) / 2 < x);
                    }
                }
            }
            assert(okb);
            assert forall|j: int| 0 <= j < s0.len() implies #[trigger] w.ents@[j] == s0[j] by {}
            assert(initial_cast(w.ents@));
            assert forall|j: int|
                7 <= j < w.ents@.len() implies ring_wall(#[trigger] w.ents@[j]) && w.ents@[j].x
                == (j - 7) / 2 && w.ents@[j].y == (if (j - 7) % 2 == 0 {
                0int
            } else {
                HEIGHT - 1
            }) by {
                if j < s0.len() {
                    assert(w.ents@[j] == s0[j]);
                } else if j == s0.len() {
                    assert(j - 7 == 2 * (x as int));
                    assert((j - 7) % 2 == 0 && (j - 7) / 2 == x);
                } else {
                    assert(j - 7 == 2 * (x as int) + 1);
                    assert((j - 7) % 2 == 1 && (j - 7) / 2 == x);
                }
            }
        }
        x = x + 1;
    }
    let mut y: i32 = 1;
    while y < HEIGHT - 1
        invariant
            1 <= y <= HEIGHT - 1,
            w.wf(),
            w.events@.len() == 0,
            w.player_gun == GunType::Burst,
            w.ents@.len() == 7 + 2 * WIDTH + 2 * (y - 1),
            initial_cast(w.ents@),
            forall|j: int|
                7 <= j < 7 + 2 * WIDTH ==> ring_wall(#[trigger] w.ents@[j]) && w.ents@[j].x == (j
                    - 7) / 2 && w.ents@[j].y == (if (j - 7) % 2 == 0 {
                    0int
                } else {
                    HEIGHT - 1
                }),
            forall|j: int|
                7 + 2 * WIDTH <= j < w.ents@.len() ==> ring_wall(#[trigger] w.ents@[j])
                    && w.ents@[j].x == (if (j - (7 + 2 * WIDTH)) % 2 == 0 {
                    0int
                } else {
                    WIDTH - 1
                }) && w.ents@[j].y == (j - (7 + 2 * WIDTH)) / 2 + 1 && w.ents@[j].y < y,
        decreases HEIGHT - 1 - y,
    {
        let ghost s0 = w.ents@;
        let oka = w.spawn(Kind::Wall, 0, y, 0, 0, false, false, 3);
        proof {
            assert(!occupied_at(s0, 0, y as int)) by {
                assert forall|j: int|
                    0 <= j < s0.len() implies !((#[trigger] s0[j]).alive && s0[j].x == 0
                    && s0[j].y == y) by {
                    if 7 <= j && j < 7 + 2 * WIDTH {
                        assert(s0[j].y == 0 || s0[j].y == HEIGHT - 1);
                    } else if 7 + 2 * WIDTH <= j {
                        assert(s0[j].y < y);
                    }
                }
            }
            assert(oka);
        }
        let ghost s1 = w.ents@;
        let okb = w.spawn(Kind::Wall, WIDTH - 1, y, 0, 0, false, false, 3);
        proof {
            assert(!occupied_at(s1, WIDTH - 1, y as int)) by {
                assert forall|j: int|
                    0 <= j < s1.len() implies !((#[trigger] s1[j]).alive && s1[j].x == WIDTH - 1
                    && s1[j].y == y) by {
                    if 7 <= j && j < 7 + 2 * WIDTH {
                        assert(s1[j] == s0[j]);
                        assert(s0[j].y == 0 || s0[j].y == HEIGHT - 1);
                    } else if 7 + 2 * WIDTH <= j && j < s0.len() {
                        assert(s1[j] == s0[j]);
                        assert(s0[j].y < y);
                    }
                }
            }
            assert(okb);
            assert forall|j: int| 0 <= j < s0.len() implies #[trigger] w.ents@[j] == s0[j] by {}
            assert(initial_cast(w.ents@));
            assert forall|j: int|
                7 + 2 * WIDTH <= j < w.ents@.len() implies ring_wall(#[trigger] w.ents@[j])
                && w.ents@[j].x == (if (j - (7 + 2 * WIDTH)) % 2 == 0 {
                0int
            } else {
                WIDTH - 1
            }) && w.ents@[j].y == (j - (7 + 2 * WIDTH)) / 2 + 1 && w.ents@[j].y < y + 1 by {
                if j < s0.len() {
                    assert(w.ents@[j] == s0[j]);
                } else if j == s0.len() {
                    assert(j - (7 + 2 * WIDTH) == 2 * (y as int - 1));
                    assert((j - (7 + 2 * WIDTH)) % 2 == 0 && (j - (7 + 2 * WIDTH)) / 2 == y - 1);
                } else {
                    assert(j - (7 + 2 * WIDTH) == 2 * (y as int - 1) + 1);
                    assert((j - (7 + 2 * WIDTH)) % 2 == 1 && (j - (7 + 2 * WIDTH)) / 2 == y - 1);
                }
            }
        }
        y = y + 1;
    }
    proof {
        assert forall|x2: int|
            0 <= x2 < WIDTH implies occupied_at(w.ents@, x2, 0) && occupied_at(
            w.ents@,
            x2,
            HEIGHT - 1,
        ) by {
            let j0: int = 7 + 2 * x2;
            assert(ring_wall(w.ents@[j0]));
            assert((j0 - 7) % 2 == 0 && (j0 - 7) / 2 == x2);
            assert(w.ents@[j0].alive && w.ents@[j0].x == x2 && w.ents@[j0].y == 0);
            assert(occupied_at(w.ents@, x2, 0));
            let j1: int = j0 + 1;
            assert(ring_wall(w.ents@[j1]));
            assert((j1 - 7) % 2 == 1 && (j1 - 7) / 2 == x2);
            assert(w.ents@[j1].alive && w.ents@[j1].x == x2 && w.ents@[j1].y == HEIGHT - 1);
            assert(occupied_at(w.ents@, x2, HEIGHT - 1));
        }
        assert forall|y2: int|
            1 <= y2 < HEIGHT - 1 implies occupied_at(w.ents@, 0, y2) && occupied_at(
            w.ents@,
            WIDTH - 1,
            y2,
        ) by {
            let j0: int = 7 + 2 * WIDTH + 2 * (y2 - 1);
            assert(ring_wall(w.ents@[j0]));
            assert((j0 - (7 + 2 * WIDTH)) % 2 == 0 && (j0 - (7 + 2 * WIDTH)) / 2 == y2 - 1);
            assert(w.ents@[j0].alive && w.ents@[j0].x == 0 && w.ents@[j0].y == y2);
            assert(occupied_at(w.ents@, 0, y2));
            let j1: int = j0 + 1;
            assert(ring_wall(w.ents@[j1]));
            assert((j1 - (7 + 2 * WIDTH)) % 2 == 1 && (j1 - (7 + 2 * WIDTH)) / 2 == y2 - 1);
            assert(w.ents@[j1].alive && w.ents@[j1].x == WIDTH - 1 && w.ents@[j1].y == y2);
            assert(occupied_at(w.ents@, WIDTH - 1, y2));
        }
        assert forall|j: int| 1 <= j < w.ents@.len() implies (#[trigger] w.ents@[j]).kind
            != Kind::Robbo by {
            if 7 <= j {
                assert(ring_wall(w.ents@[j]));
            }
        }
    }
    w
}

/// Replacing an entity by one that keeps its position, liveness, and a valid
/// direction and intent preserves world well-formedness.
pub proof fn lemma_same_cells_keep_wf(s: Seq<Entity>, t: Seq<Entity>, i: int)
    requires
        ents_wf(s),
        distinct_positions(s),
        0 <= i < s.len(),
        t.len() == s.len(),
        forall|k: int| 0 <= k < s.len() && k != i ==> t[k] == s[k],
        t[i].x == s[i].x,
        t[i].y == s[i].y,
        t[i].alive == s[i].alive,
        ent_wf(t[i]),
    ensures
        ents_wf(t),
        distinct_positions(t),
{
    assert forall|k: int| 0 <= k < t.len() implies ent_wf(#[trigger] t[k]) by {
        if k != i {
            assert(t[k] == s[k]);
        }
    }
    assert forall|a: int, b: int|
        0 <= a < t.len() && 0 <= b < t.len() && a != b && (#[trigger] t[a]).alive && (
        #[trigger] t[b]).alive implies !(t[a].x == t[b].x && t[a].y == t[b].y) by {
        assert(t[a].x == s[a].x && t[a].y == s[a].y && t[a].alive == s[a].alive);
        assert(t[b].x == s[b].x && t[b].y == s[b].y && t[b].alive == s[b].alive);
    }
}

} // verus!
