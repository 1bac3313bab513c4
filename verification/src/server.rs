use vstd::prelude::*;

use crate::misc::{half_toward_zero, ICoord};
use crate::rect::Rect;
use crate::states::{DijkstraState, Passability, Transparency};

verus! {

/// A behavior that actors may have.
pub trait Behavior {}

/// The basic behavior.
pub struct BasicBehavior;

impl Behavior for BasicBehavior {}

/// The intention of an actor to keep away from the player when it has nothing else to do.
pub struct BasicAvoidPlayerIntention;

/// The intention of an actor to chase the player when it has nothing else to do.
pub struct BasicChasePlayerIntention;

/// A thing in the game world: whether it lets actors and sight through, and how it looks.
/// The look is whatever tile type the caller draws with.
#[derive(Clone, Copy, Debug, Default)]
pub struct Thing<T> {
    /// Passability of the thing.
    pub passability: Passability,
    /// Transparency of the thing.
    pub transparency: Transparency,
    /// Visual tile of the thing.
    pub tile: T,
}

/// A single discrete point in the game world and the things in it.
#[derive(Clone, Debug, Default)]
pub struct Cell<T> {
    /// The things in the cell.
    pub things: Vec<Thing<T>>,
}

/// Whether every thing lets actors through.
pub open spec fn all_passable<T>(things: Seq<Thing<T>>) -> bool {
    forall|i: int| 0 <= i < things.len() ==> #[trigger] things[i].passability == Passability::Passable
}

/// Whether every thing lets sight through.
pub open spec fn all_transparent<T>(things: Seq<Thing<T>>) -> bool {
    forall|i: int|
        0 <= i < things.len() ==> #[trigger] things[i].transparency == Transparency::Transparent
}

impl<T> Cell<T> {
    /// The cell is passable when every thing in it is (an empty cell is passable).
    pub fn passability(&self) -> (r: Passability)
        ensures
            r == (if all_passable(self.things@) {
                Passability::Passable
            } else {
                Passability::Blocked
            }),
    {
        let mut i: usize = 0;
        while i < self.things.len()
            invariant
                i <= self.things.len(),
                all_passable(self.things@.take(i as int)),
            decreases self.things.len() - i,
        {
            if self.things[i].passability != Passability::Passable {
                return Passability::Blocked;
            }
            assert(all_passable(self.things@.take(i as int + 1))) by {
                assert forall|j: int| 0 <= j < i + 1 implies #[trigger] self.things@.take(
                    i as int + 1,
                )[j].passability == Passability::Passable by {
                    if j < i {
                        assert(self.things@.take(i as int)[j] == self.things@[j]);
                    }
                }
            }
            i += 1;
        }
        assert(self.things@.take(i as int) =~= self.things@);
        Passability::Passable
    }

    /// The cell is transparent when every thing in it is (an empty cell is transparent).
    pub fn transparency(&self) -> (r: Transparency)
        ensures
            r == (if all_transparent(self.things@) {
                Transparency::Transparent
            } else {
                Transparency::Opaque
            }),
    {
        let mut i: usize = 0;
        while i < self.things.len()
            invariant
                i <= self.things.len(),
                all_transparent(self.things@.take(i as int)),
            decreases self.things.len() - i,
        {
            if self.things[i].transparency != Transparency::Transparent {
                return Transparency::Opaque;
            }
            assert(all_transparent(self.things@.take(i as int + 1))) by {
                assert forall|j: int| 0 <= j < i + 1 implies #[trigger] self.things@.take(
                    i as int + 1,
                )[j].transparency == Transparency::Transparent by {
                    if j < i {
                        assert(self.things@.take(i as int)[j] == self.things@[j]);
                    }
                }
            }
            i += 1;
        }
        assert(self.things@.take(i as int) =~= self.things@);
        Transparency::Transparent
    }
}

/// What path finding and sight need to know of a cell.
#[derive(Clone, Copy, Debug, PartialEq, Eq, Structural)]
pub struct PathingProperties {
    /// The cell's state for distance maps.
    pub dijkstra_state: DijkstraState,
    /// Whether the cell lets sight through.
    pub transparency: Transparency,
}

/// What the pathing of a cell needs to know of the actor in it: how many turns it has not
/// moved, and whether it lets actors and sight through.
#[derive(Clone, Copy, Debug, PartialEq, Eq, Structural)]
pub struct ActorPresence {
    /// Turns in a row that the actor has not moved.
    pub stationary: u32,
    /// Passability of the actor.
    pub passability: Passability,
    /// Transparency of the actor.
    pub transparency: Transparency,
}

/// The pathing properties of a cell with its things and, if any, the actor in it: it is blocked
/// when the actor has stood still for two turns or more or blocks, or when a thing blocks; it
/// takes the actor's transparency, and is opaque when a thing is.
pub open spec fn spec_pathing<T>(things: Seq<Thing<T>>, actor: Option<ActorPresence>) -> PathingProperties {
    let actor_blocks = match actor {
        Some(a) => a.stationary >= 2 || a.passability != Passability::Passable,
        None => false,
    };
    let blocked = actor_blocks || !all_passable(things);
    let transparency = if !all_transparent(things) {
        Transparency::Opaque
    } else {
        match actor {
            Some(a) => a.transparency,
            None => Transparency::Transparent,
        }
    };
    PathingProperties {
        dijkstra_state: if blocked {
            DijkstraState::Blocked
        } else {
            DijkstraState::Passable
        },
        transparency,
    }
}

impl Default for PathingProperties {
    fn default() -> (r: PathingProperties)
        ensures
            r == (PathingProperties {
                dijkstra_state: DijkstraState::Passable,
                transparency: Transparency::Transparent,
            }),
    {
        PathingProperties {
            dijkstra_state: DijkstraState::Passable,
            transparency: Transparency::Transparent,
        }
    }
}

impl PathingProperties {
    /// Returns whether the cell can be walked through: only a blocked state blocks.
    pub fn passable(&self) -> (r: bool)
        ensures
            r == (self.dijkstra_state != DijkstraState::Blocked),
    {
        Passability::from_dijkstra_state(self.dijkstra_state).passable()
    }

    /// The cell's state for distance maps.
    pub fn to_dijkstra_state(&self) -> (r: DijkstraState)
        ensures
            r == self.dijkstra_state,
    {
        self.dijkstra_state
    }

    /// The cell's passability.
    pub fn to_passability(&self) -> (r: Passability)
        ensures
            r == (if self.dijkstra_state == DijkstraState::Blocked {
                Passability::Blocked
            } else {
                Passability::Passable
            }),
    {
        Passability::from_dijkstra_state(self.dijkstra_state)
    }

    /// The cell's transparency.
    pub fn to_transparency(&self) -> (r: Transparency)
        ensures
            r == self.transparency,
    {
        self.transparency
    }

    /// The pathing properties of a cell and the actor in it, if any.
    pub fn of_cell<T>(cell: &Cell<T>, actor: Option<ActorPresence>) -> (r: PathingProperties)
        ensures
            r == spec_pathing(cell.things@, actor),
    {
        let mut passability = Passability::Passable;
        let mut transparency = Transparency::Transparent;
        match actor {
            Some(a) => {
                if a.stationary >= 2 || a.passability != Passability::Passable {
                    passability = Passability::Blocked;
                }
                transparency = a.transparency;
            },
            None => {},
        }
        let cell_passability = cell.passability();
        let cell_transparency = cell.transparency();
        if cell_passability != Passability::Passable {
            passability = Passability::Blocked;
        }
        if cell_transparency != Transparency::Transparent {
            transparency = Transparency::Opaque;
        }
        PathingProperties {
            dijkstra_state: DijkstraState::from_passability(passability),
            transparency,
        }
    }
}

/// The state of a goal.
#[derive(Clone, Copy, Debug, PartialEq, Eq, Structural)]
pub enum GoalState {
    /// The goal has been completed.
    Complete,
    /// The goal cannot be completed.
    Failed,
    /// The goal is in progress.
    InProgress,
}

/// The goal of keeping away from the player.
pub struct AvoidPlayerGoal;

/// The goal of chasing the player.
pub struct ChasePlayerGoal;

/// The goal of doing nothing for a number of turns.
pub struct IdleGoal {
    /// Turns left to idle.
    turns: i32,
}

impl IdleGoal {
    /// The turns left to idle.
    pub closed spec fn spec_turns(&self) -> i32 {
        self.turns
    }

    /// Creates a goal of idling for a number of turns.
    pub fn new(turns: i32) -> (r: Self)
        ensures
            r.spec_turns() == turns,
    {
        IdleGoal { turns }
    }

    /// Spends one turn idling: the goal is complete once no turns are left, and in progress
    /// (with one turn less left) before.
    pub fn update(&mut self) -> (r: GoalState)
        requires
            old(self).spec_turns() != i32::MIN,
        ensures
            old(self).spec_turns() == 0 ==> r == GoalState::Complete && final(self).spec_turns()
                == 0,
            old(self).spec_turns() != 0 ==> r == GoalState::InProgress && final(self).spec_turns()
                == old(self).spec_turns() - 1,
    {
        if self.turns == 0 {
            return GoalState::Complete;
        }
        self.turns -= 1;
        GoalState::InProgress
    }
}

/// The goal of moving to a coordinate.
pub struct MoveToGoal {
    /// The coordinate to reach.
    pub xy: ICoord,
    /// The path found to it.
    pub path: Vec<ICoord>,
}

/// The goal of roaming randomly within a radius for a number of turns.
pub struct RoamGoal {
    /// Turns to roam.
    pub turns: i32,
    /// Radius of the roamed area.
    pub radius: i32,
}

/// The base stats of an actor.
#[allow(non_snake_case)]
#[derive(Clone, Copy, Debug, Default, PartialEq, Eq, Structural)]
pub struct ActorStats {
    /// Strength.
    pub STR: u8,
    /// Dexterity.
    pub DEX: u8,
    /// Constitution.
    pub CON: u8,
    /// Wisdom.
    pub WIS: u8,
    /// Intelligence.
    pub INT: u8,
    /// Charisma.
    pub CHA: u8,
}

/// Index of the intention of actors that keep away from the player.
pub const BASIC_AVOID_PLAYER_INDEX: usize = 0;

/// Index of the intention of actors that chase the player.
pub const BASIC_CHASE_PLAYER_INDEX: usize = 1;

/// Whether a request of the player succeeded.
#[derive(Clone, Copy, Debug, PartialEq, Eq, Structural)]
pub enum ServerResult {
    Fail,
    Success,
}

/// The start of a span of a size moved, if needed, to lie within a bound's span: to the bound's
/// start when it starts before it, else to end at the bound's end when it ends after it.
pub open spec fn fit_axis(start: int, size: int, bound_start: int, bound_size: int) -> int {
    if start < bound_start {
        bound_start
    } else if start + size > bound_start + bound_size {
        bound_start + bound_size - size
    } else {
        start
    }
}

/// The area of a zone of some dimensions to show around a center: a rect of the given
/// dimensions centered on it, moved to lie within the zone.
pub fn centered_view(center: ICoord, dimensions: ICoord, zone_dimensions: ICoord) -> (r: Rect)
    requires
        i32::MIN <= center.0 - half_toward_zero(dimensions.0 as int) <= i32::MAX,
        i32::MIN <= center.1 - half_toward_zero(dimensions.1 as int) <= i32::MAX,
        i32::MIN <= center.0 - half_toward_zero(dimensions.0 as int) + dimensions.0 <= i32::MAX,
        i32::MIN <= center.1 - half_toward_zero(dimensions.1 as int) + dimensions.1 <= i32::MAX,
        i32::MIN <= zone_dimensions.0 - dimensions.0 <= i32::MAX,
        i32::MIN <= zone_dimensions.1 - dimensions.1 <= i32::MAX,
    ensures
        r.width == dimensions.0,
        r.height == dimensions.1,
        r.x == fit_axis(
            center.0 - half_toward_zero(dimensions.0 as int),
            dimensions.0 as int,
            0,
            zone_dimensions.0 as int,
        ),
        r.y == fit_axis(
            center.1 - half_toward_zero(dimensions.1 as int),
            dimensions.1 as int,
            0,
            zone_dimensions.1 as int,
        ),
{
    let mut rect = Rect::with_center(center, dimensions.0, dimensions.1);
    let zone = Rect::new((0, 0), zone_dimensions.0, zone_dimensions.1);
    rect.fit_boundary(&zone);
    rect
}

/// A view no larger than the zone lies within it and, centered on a point of the zone, shows
/// that point.
pub proof fn law_centered_view_shows_center(center: ICoord, dimensions: ICoord, zone_dimensions: ICoord)
    requires
        0 < dimensions.0 <= zone_dimensions.0,
        0 < dimensions.1 <= zone_dimensions.1,
        0 <= center.0 < zone_dimensions.0,
        0 <= center.1 < zone_dimensions.1,
    ensures
        ({
            let x = fit_axis(
                center.0 - half_toward_zero(dimensions.0 as int),
                dimensions.0 as int,
                0,
                zone_dimensions.0 as int,
            );
            let y = fit_axis(
                center.1 - half_toward_zero(dimensions.1 as int),
                dimensions.1 as int,
                0,
                zone_dimensions.1 as int,
            );
            &&& 0 <= x && x + dimensions.0 <= zone_dimensions.0
            &&& 0 <= y && y + dimensions.1 <= zone_dimensions.1
            &&& x <= center.0 < x + dimensions.0
            &&& y <= center.1 < y + dimensions.1
        }),
{
}

} // verus!
