use vstd::prelude::*;

verus! {

/// Whether a point of a map can be walked through.
#[derive(Clone, Copy, Debug, PartialEq, Eq, Structural)]
pub enum Passability {
    /// An impassable point in the map.
    Blocked,
    /// A passable point in the map.
    Passable,
}

/// The input state of a point of a map for computing distances to goals.
#[derive(Clone, Copy, Debug, PartialEq, Eq, Structural)]
pub enum DijkstraState {
    /// An impassable point in the map.
    Blocked,
    /// A passable point in the map.
    Passable,
    /// A goal in the map, with its weight.
    Goal(i32),
}

/// Whether a point of a map lets sight through.
#[derive(Clone, Copy, Debug, PartialEq, Eq, Structural)]
pub enum Transparency {
    /// Blocks visibility.
    Opaque,
    /// Does not block visibility.
    Transparent,
}

impl Passability {
    /// Returns whether the state is passable.
    pub fn passable(&self) -> (r: bool)
        ensures
            r == (*self == Passability::Passable),
    {
        match self {
            Passability::Passable => true,
            Passability::Blocked => false,
        }
    }

    /// The passability of a flag (`true` is passable).
    pub fn from_bool(b: bool) -> (r: Passability)
        ensures
            r == (if b { Passability::Passable } else { Passability::Blocked }),
    {
        if b {
            Passability::Passable
        } else {
            Passability::Blocked
        }
    }

    /// The passability of a dijkstra state: only a blocked state is blocked.
    pub fn from_dijkstra_state(s: DijkstraState) -> (r: Passability)
        ensures
            r == (if s == DijkstraState::Blocked { Passability::Blocked } else { Passability::Passable }),
    {
        match s {
            DijkstraState::Blocked => Passability::Blocked,
            _ => Passability::Passable,
        }
    }
}

impl Default for Passability {
    fn default() -> (r: Passability)
        ensures
            r == Passability::Passable,
    {
        Passability::Passable
    }
}

impl DijkstraState {
    /// Returns whether the state is passable (a goal is not counted as passable).
    pub fn passable(&self) -> (r: bool)
        ensures
            r == (*self == DijkstraState::Passable),
    {
        match self {
            DijkstraState::Passable => true,
            _ => false,
        }
    }

    /// The dijkstra state of a flag (`true` is passable).
    pub fn from_bool(b: bool) -> (r: DijkstraState)
        ensures
            r == (if b { DijkstraState::Passable } else { DijkstraState::Blocked }),
    {
        if b {
            DijkstraState::Passable
        } else {
            DijkstraState::Blocked
        }
    }

    /// The dijkstra state of a passability.
    pub fn from_passability(p: Passability) -> (r: DijkstraState)
        ensures
            r == (if p == Passability::Passable { DijkstraState::Passable } else { DijkstraState::Blocked }),
    {
        match p {
            Passability::Passable => DijkstraState::Passable,
            Passability::Blocked => DijkstraState::Blocked,
        }
    }

    /// The dijkstra state of a transparency.
    pub fn from_transparency(t: Transparency) -> (r: DijkstraState)
        ensures
            r == (if t == Transparency::Transparent { DijkstraState::Passable } else { DijkstraState::Blocked }),
    {
        match t {
            Transparency::Transparent => DijkstraState::Passable,
            Transparency::Opaque => DijkstraState::Blocked,
        }
    }
}

impl Default for DijkstraState {
    fn default() -> (r: DijkstraState)
        ensures
            r == DijkstraState::Passable,
    {
        DijkstraState::Passable
    }
}

impl Transparency {
    /// Returns whether the state lets sight through.
    pub fn transparent(&self) -> (r: bool)
        ensures
            r == (*self == Transparency::Transparent),
    {
        match self {
            Transparency::Transparent => true,
            Transparency::Opaque => false,
        }
    }

    /// The transparency of a flag (`true` is transparent).
    pub fn from_bool(b: bool) -> (r: Transparency)
        ensures
            r == (if b { Transparency::Transparent } else { Transparency::Opaque }),
    {
        if b {
            Transparency::Transparent
        } else {
            Transparency::Opaque
        }
    }

    /// The transparency of a dijkstra state: only a blocked state is opaque.
    pub fn from_dijkstra_state(s: DijkstraState) -> (r: Transparency)
        ensures
            r == (if s == DijkstraState::Blocked { Transparency::Opaque } else { Transparency::Transparent }),
    {
        match s {
            DijkstraState::Blocked => Transparency::Opaque,
            _ => Transparency::Transparent,
        }
    }
}

impl Default for Transparency {
    fn default() -> (r: Transparency)
        ensures
            r == Transparency::Transparent,
    {
        Transparency::Transparent
    }
}

/// Converting a passability or a transparency to a dijkstra state and back gives it back, and
/// the flag conversions agree with `passable` and `transparent`.
pub proof fn law_state_conversions(p: Passability, t: Transparency, b: bool)
    ensures
        (if (if p == Passability::Passable { DijkstraState::Passable } else { DijkstraState::Blocked })
            == DijkstraState::Blocked { Passability::Blocked } else { Passability::Passable }) == p,
        (if (if t == Transparency::Transparent { DijkstraState::Passable } else { DijkstraState::Blocked })
            == DijkstraState::Blocked { Transparency::Opaque } else { Transparency::Transparent }) == t,
        ((if b { Passability::Passable } else { Passability::Blocked }) == Passability::Passable) == b,
        ((if b { Transparency::Transparent } else { Transparency::Opaque }) == Transparency::Transparent) == b,
{
}

} // verus!
