use vstd::prelude::*;

use crate::misc::ICoord;

verus! {

/// The possible orientations, clockwise from north, followed by the null orientation.
#[derive(Clone, Copy, Debug, PartialEq, Eq, Structural)]
pub enum Orientation {
    /// Up.
    North,
    /// Up-right.
    Northeast,
    /// Right.
    East,
    /// Down-right.
    Southeast,
    /// Down.
    South,
    /// Down-left.
    Southwest,
    /// Left.
    West,
    /// Up-left.
    Northwest,
    /// Invalid / default orientation.
    Null,
}

/// The index of an orientation: North is 0, counting clockwise, and Null is 8.
pub open spec fn orientation_index(o: Orientation) -> int {
    match o {
        Orientation::North => 0,
        Orientation::Northeast => 1,
        Orientation::East => 2,
        Orientation::Southeast => 3,
        Orientation::South => 4,
        Orientation::Southwest => 5,
        Orientation::West => 6,
        Orientation::Northwest => 7,
        Orientation::Null => 8,
    }
}

/// The orientation with a given index in `0..8` (Null for any other value).
pub open spec fn orientation_at(i: int) -> Orientation {
    if i == 0 {
        Orientation::North
    } else if i == 1 {
        Orientation::Northeast
    } else if i == 2 {
        Orientation::East
    } else if i == 3 {
        Orientation::Southeast
    } else if i == 4 {
        Orientation::South
    } else if i == 5 {
        Orientation::Southwest
    } else if i == 6 {
        Orientation::West
    } else if i == 7 {
        Orientation::Northwest
    } else {
        Orientation::Null
    }
}

/// The unit step (dx, dy) of an orientation, with y growing downwards.
pub open spec fn orientation_delta(o: Orientation) -> ICoord {
    match o {
        Orientation::North => (0i32, -1i32),
        Orientation::Northeast => (1i32, -1i32),
        Orientation::East => (1i32, 0i32),
        Orientation::Southeast => (1i32, 1i32),
        Orientation::South => (0i32, 1i32),
        Orientation::Southwest => (-1i32, 1i32),
        Orientation::West => (-1i32, 0i32),
        Orientation::Northwest => (-1i32, -1i32),
        Orientation::Null => (0i32, 0i32),
    }
}

/// Absolute value of a mathematical integer.
pub open spec fn abs_int(v: int) -> int {
    if v < 0 {
        -v
    } else {
        v
    }
}

/// The orientation closest to the line with slope (dx, dy) among the eight compass sectors
/// of 45 degrees centered on each orientation (the zero vector counts as pointing east).
/// A vector is within 22.5 degrees of an axis iff its small component is below
/// `(sqrt(2) - 1)` times its large one, i.e. `(large + small)^2 < 2 * large^2`.
pub open spec fn closest_orientation(dx: int, dy: int) -> Orientation {
    let ax = abs_int(dx);
    let ay = abs_int(dy);
    if dx == 0 && dy == 0 {
        Orientation::East
    } else if (ax + ay) * (ax + ay) < 2 * (ax * ax) {
        if dx > 0 { Orientation::East } else { Orientation::West }
    } else if (ax + ay) * (ax + ay) < 2 * (ay * ay) {
        if dy > 0 { Orientation::South } else { Orientation::North }
    } else if dx > 0 {
        if dy > 0 { Orientation::Southeast } else { Orientation::Northeast }
    } else {
        if dy > 0 { Orientation::Southwest } else { Orientation::Northwest }
    }
}

/// The cardinal orientation for the line with slope (dx, dy): the one whose 90-degree sector,
/// centered on it, holds the line, measuring the clockwise angle from north: north below 45 or
/// from 315 degrees, east in [45, 135), south in [135, 225) and west in [225, 315). A line on a
/// diagonal goes to the sector clockwise of it. The zero vector counts as pointing east.
pub open spec fn closest_cardinal_orientation(dx: int, dy: int) -> Orientation {
    let ax = abs_int(dx);
    let ay = abs_int(dy);
    if dx == 0 && dy == 0 {
        Orientation::East
    } else if dy < 0 && (ax < ay || dx == dy) {
        Orientation::North
    } else if dx > 0 && (ay < ax || dy == -dx) {
        Orientation::East
    } else if dy > 0 && (ax < ay || dx == dy) {
        Orientation::South
    } else {
        Orientation::West
    }
}

/// A direction: an orientation and its unit step.
#[derive(Clone, Copy, Debug, PartialEq, Eq, Structural)]
pub struct Direction {
    /// Delta x of the direction.
    dx: i32,
    /// Delta y of the direction.
    dy: i32,
    /// Orientation of the direction.
    orientation: Orientation,
}

impl Direction {
    /// The orientation of the direction.
    pub closed spec fn spec_orientation(self) -> Orientation {
        self.orientation
    }

    /// The step of the direction.
    pub closed spec fn spec_delta(self) -> ICoord {
        (self.dx, self.dy)
    }

    /// A direction is valid when its step is the step of its orientation.
    pub closed spec fn valid(self) -> bool {
        (self.dx, self.dy) == orientation_delta(self.orientation)
    }

    /// The direction of an orientation.
    pub closed spec fn of(o: Orientation) -> Direction {
        Direction { dx: orientation_delta(o).0, dy: orientation_delta(o).1, orientation: o }
    }

    /// A direction is determined by its orientation and step.
    pub proof fn lemma_of(o: Orientation)
        ensures
            Direction::of(o).spec_orientation() == o,
            Direction::of(o).spec_delta() == orientation_delta(o),
            Direction::of(o).valid(),
    {
    }

    /// Two valid directions with the same orientation are equal.
    pub proof fn lemma_valid_eq(a: Direction, b: Direction)
        requires
            a.valid(),
            b.valid(),
            a.spec_orientation() == b.spec_orientation(),
        ensures
            a == b,
    {
    }

    /// Returns the dx of the direction.
    pub fn dx(&self) -> (r: i32)
        ensures
            r == self.spec_delta().0,
    {
        self.dx
    }

    /// Returns the dy of the direction.
    pub fn dy(&self) -> (r: i32)
        ensures
            r == self.spec_delta().1,
    {
        self.dy
    }

    /// Returns the orientation of the direction.
    pub fn orientation(&self) -> (r: Orientation)
        ensures
            r == self.spec_orientation(),
    {
        self.orientation
    }

    /// Returns the step of the direction.
    pub fn delta(&self) -> (r: ICoord)
        ensures
            r == self.spec_delta(),
    {
        (self.dx, self.dy)
    }

    /// Returns the direction for an orientation.
    pub fn from_orientation(orientation: Orientation) -> (r: Direction)
        ensures
            r == Direction::of(orientation),
    {
        let delta: ICoord = match orientation {
            Orientation::North => (0, -1),
            Orientation::Northeast => (1, -1),
            Orientation::East => (1, 0),
            Orientation::Southeast => (1, 1),
            Orientation::South => (0, 1),
            Orientation::Southwest => (-1, 1),
            Orientation::West => (-1, 0),
            Orientation::Northwest => (-1, -1),
            Orientation::Null => (0, 0),
        };
        Direction { dx: delta.0, dy: delta.1, orientation }
    }

    /// Returns the direction from an index starting with North (0) and moving clockwise.
    pub fn from_index(i: usize) -> (r: Direction)
        ensures
            r == Direction::of(orientation_at(i as int % 8)),
    {
        let k = i % 8;
        let orientation = if k == 0 {
            Orientation::North
        } else if k == 1 {
            Orientation::Northeast
        } else if k == 2 {
            Orientation::East
        } else if k == 3 {
            Orientation::Southeast
        } else if k == 4 {
            Orientation::South
        } else if k == 5 {
            Orientation::Southwest
        } else if k == 6 {
            Orientation::West
        } else {
            Orientation::Northwest
        };
        Self::from_orientation(orientation)
    }

    /// The index of the direction's orientation.
    fn orientation_number(&self) -> (r: i32)
        ensures
            r == orientation_index(self.spec_orientation()),
    {
        match self.orientation {
            Orientation::North => 0,
            Orientation::Northeast => 1,
            Orientation::East => 2,
            Orientation::Southeast => 3,
            Orientation::South => 4,
            Orientation::Southwest => 5,
            Orientation::West => 6,
            Orientation::Northwest => 7,
            Orientation::Null => 8,
        }
    }

    /// Returns the direction `i` steps clockwise of this one, turning round past North (Null
    /// counts as index 8, so it turns as North does).
    pub fn clockwise(&self, i: i32) -> (r: Direction)
        ensures
            r == Direction::of(orientation_at((orientation_index(self.spec_orientation()) + i) % 8)),
    {
        let v = self.orientation_number() as i64 + i as i64;
        let k = ((v % 8) + 8) % 8;
        Self::from_index(k as usize)
    }

    /// Returns the direction `i` steps counter-clockwise of this one, turning round past North
    /// (Null counts as index 8, so it turns as North does).
    pub fn counter_clockwise(&self, i: i32) -> (r: Direction)
        ensures
            r == Direction::of(orientation_at((orientation_index(self.spec_orientation()) - i) % 8)),
    {
        let v = self.orientation_number() as i64 - i as i64;
        let k = ((v % 8) + 8) % 8;
        Self::from_index(k as usize)
    }

    /// Returns the closest cardinal direction for the line from `a` to `b`, rounding clockwise.
    pub fn closest_cardinal_direction(a: ICoord, b: ICoord) -> (r: Direction)
        requires
            i32::MIN <= b.0 - a.0 <= i32::MAX,
            i32::MIN <= b.1 - a.1 <= i32::MAX,
        ensures
            r == Direction::of(closest_cardinal_orientation(b.0 - a.0, b.1 - a.1)),
    {
        let dx = (b.0 as i64) - (a.0 as i64);
        let dy = (b.1 as i64) - (a.1 as i64);
        let ax = if dx < 0 { -dx } else { dx };
        let ay = if dy < 0 { -dy } else { dy };
        let o = if dx == 0 && dy == 0 {
            Orientation::East
        } else if dy < 0 && (ax < ay || dx == dy) {
            Orientation::North
        } else if dx > 0 && (ay < ax || dy == -dx) {
            Orientation::East
        } else if dy > 0 && (ax < ay || dx == dy) {
            Orientation::South
        } else {
            Orientation::West
        };
        Self::from_orientation(o)
    }

    /// Returns the closest direction for the line from `a` to `b`, rounding clockwise.
    pub fn closest_direction(a: ICoord, b: ICoord) -> (r: Direction)
        requires
            i32::MIN <= b.0 - a.0 <= i32::MAX,
            i32::MIN <= b.1 - a.1 <= i32::MAX,
        ensures
            r == Direction::of(closest_orientation(b.0 - a.0, b.1 - a.1)),
    {
        let dx = (b.0 as i128) - (a.0 as i128);
        let dy = (b.1 as i128) - (a.1 as i128);
        let ax = if dx < 0 { -dx } else { dx };
        let ay = if dy < 0 { -dy } else { dy };
        let s = ax + ay;
        assert(0 <= ax * ax <= 0x1_0000_0000 * 0x1_0000_0000) by (nonlinear_arith)
            requires 0 <= ax <= 0x1_0000_0000;
        assert(0 <= ay * ay <= 0x1_0000_0000 * 0x1_0000_0000) by (nonlinear_arith)
            requires 0 <= ay <= 0x1_0000_0000;
        assert(0 <= s * s <= 0x2_0000_0000 * 0x2_0000_0000) by (nonlinear_arith)
            requires 0 <= s <= 0x2_0000_0000;
        let o = if dx == 0 && dy == 0 {
            Orientation::East
        } else if s * s < 2 * (ax * ax) {
            if dx > 0 { Orientation::East } else { Orientation::West }
        } else if s * s < 2 * (ay * ay) {
            if dy > 0 { Orientation::South } else { Orientation::North }
        } else if dx > 0 {
            if dy > 0 { Orientation::Southeast } else { Orientation::Northeast }
        } else {
            if dy > 0 { Orientation::Southwest } else { Orientation::Northwest }
        };
        Self::from_orientation(o)
    }

    /// A readable name of the direction's orientation.
    pub fn name(&self) -> (r: &'static str)
        ensures
            r@ == orientation_name(self.spec_orientation()),
    {
        match self.orientation {
            Orientation::North => "Orientation::North",
            Orientation::Northeast => "Orientation::Northeast",
            Orientation::East => "Orientation::East",
            Orientation::Southeast => "Orientation::Southeast",
            Orientation::South => "Orientation::South",
            Orientation::Southwest => "Orientation::Southwest",
            Orientation::West => "Orientation::West",
            Orientation::Northwest => "Orientation::Northwest",
            Orientation::Null => "Orientation::Null",
        }
    }
}


/// The readable name of an orientation.
pub open spec fn orientation_name(o: Orientation) -> Seq<char> {
    match o {
        Orientation::North => "Orientation::North"@,
        Orientation::Northeast => "Orientation::Northeast"@,
        Orientation::East => "Orientation::East"@,
        Orientation::Southeast => "Orientation::Southeast"@,
        Orientation::South => "Orientation::South"@,
        Orientation::Southwest => "Orientation::Southwest"@,
        Orientation::West => "Orientation::West"@,
        Orientation::Northwest => "Orientation::Northwest"@,
        Orientation::Null => "Orientation::Null"@,
    }
}

/// Indexing the orientations by number round-trips: the orientation at an orientation's index
/// is that orientation, and the direction from that index is its direction.
pub proof fn law_orientation_index_round_trip(o: Orientation)
    ensures
        orientation_at(orientation_index(o)) == o,
        o != Orientation::Null ==> 0 <= orientation_index(o) < 8,
        o != Orientation::Null ==> orientation_at(orientation_index(o) % 8) == o,
{
}

/// Clockwise turns add up: turning `i` steps and then `j` steps is turning `i + j` steps, and
/// eight steps are a full turn.
pub proof fn law_clockwise_compose(o: Orientation, i: int, j: int)
    requires
        o != Orientation::Null,
    ensures
        orientation_at((orientation_index(orientation_at((orientation_index(o) + i) % 8)) + j) % 8)
            == orientation_at((orientation_index(o) + i + j) % 8),
        orientation_at((orientation_index(o) + 8) % 8) == o,
{
    let k = orientation_index(o);
    let a = (k + i) % 8;
    assert(orientation_index(orientation_at(a)) == a);
    assert((a + j) % 8 == (k + i + j) % 8) by {
        vstd::arithmetic::div_mod::lemma_add_mod_noop(k + i, j, 8);
        vstd::arithmetic::div_mod::lemma_mod_twice(j, 8);
        vstd::arithmetic::div_mod::lemma_add_mod_noop(a, j, 8);
        vstd::arithmetic::div_mod::lemma_mod_twice(k + i, 8);
    }
}

/// Turning counter-clockwise by `i` steps and then clockwise by `i` steps comes back to the
/// start.
pub proof fn law_counter_clockwise_undo(o: Orientation, i: int)
    requires
        o != Orientation::Null,
    ensures
        orientation_at((orientation_index(orientation_at((orientation_index(o) - i) % 8)) + i) % 8) == o,
{
    let k = orientation_index(o);
    let a = (k - i) % 8;
    assert(orientation_index(orientation_at(a)) == a);
    assert((a + i) % 8 == k % 8) by {
        vstd::arithmetic::div_mod::lemma_add_mod_noop(k - i, i, 8);
        vstd::arithmetic::div_mod::lemma_mod_twice(i, 8);
        vstd::arithmetic::div_mod::lemma_add_mod_noop(a, i, 8);
        vstd::arithmetic::div_mod::lemma_mod_twice(k - i, 8);
    }
}

/// The closest direction of a compass step is that step's orientation.
pub proof fn law_closest_of_step(o: Orientation)
    requires
        o != Orientation::Null,
    ensures
        closest_orientation(orientation_delta(o).0 as int, orientation_delta(o).1 as int) == o,
{
    assert(abs_int(0) == 0 && abs_int(1) == 1 && abs_int(-1) == 1);
    assert((0int + 1) * (0int + 1) == 1 && (1int + 1) * (1int + 1) == 4 && (1int + 0) * (1int + 0)
        == 1);
    assert(2 * (0int * 0) == 0 && 2 * (1int * 1) == 2);
}

/// The closest direction of a line depends only on its direction, not on its length: scaling
/// the line by a positive factor keeps it.
pub proof fn law_closest_scale_invariant(dx: int, dy: int, k: int)
    requires
        k > 0,
    ensures
        closest_orientation(k * dx, k * dy) == closest_orientation(dx, dy),
{
    let ax = abs_int(dx);
    let ay = abs_int(dy);
    assert(abs_int(k * dx) == k * ax) by (nonlinear_arith)
        requires
            k > 0,
            ax == abs_int(dx),
    ;
    assert(abs_int(k * dy) == k * ay) by (nonlinear_arith)
        requires
            k > 0,
            ay == abs_int(dy),
    ;
    assert((k * dx == 0 && k * dy == 0) == (dx == 0 && dy == 0)) by (nonlinear_arith)
        requires
            k > 0,
    ;
    assert((k * dx > 0) == (dx > 0)) by (nonlinear_arith)
        requires
            k > 0,
    ;
    assert((k * dy > 0) == (dy > 0)) by (nonlinear_arith)
        requires
            k > 0,
    ;
    assert(((k * ax + k * ay) * (k * ax + k * ay) < 2 * ((k * ax) * (k * ax))) == ((ax + ay) * (
    ax + ay) < 2 * (ax * ax))) by (nonlinear_arith)
        requires
            k > 0,
    ;
    assert(((k * ax + k * ay) * (k * ax + k * ay) < 2 * ((k * ay) * (k * ay))) == ((ax + ay) * (
    ax + ay) < 2 * (ay * ay))) by (nonlinear_arith)
        requires
            k > 0,
    ;
}

/// The dot product of two vectors.
pub open spec fn dot(u: (int, int), v: (int, int)) -> int {
    u.0 * v.0 + u.1 * v.1
}

/// The cross product of two vectors, positive when `v` lies clockwise of `u` (y grows
/// downwards).
pub open spec fn cross(u: (int, int), v: (int, int)) -> int {
    u.0 * v.1 - u.1 * v.0
}

/// Whether an orientation is one of the four cardinal orientations.
pub open spec fn is_cardinal(o: Orientation) -> bool {
    o == Orientation::North || o == Orientation::East || o == Orientation::South || o
        == Orientation::West
}

/// The closest cardinal orientation of a line is the cardinal whose 90-degree sector holds it:
/// the angle between the cardinal's step `u` and the line `v` lies in [-45, 45) degrees,
/// measured clockwise, that is `dot(u, v) > 0` and `-dot(u, v) <= cross(u, v) < dot(u, v)`. So a
/// line within 45 degrees of straight up is north, and so on round the compass; the sectors do
/// not overlap, so no other cardinal holds the line.
pub proof fn law_closest_cardinal_sector(dx: int, dy: int)
    requires
        dx != 0 || dy != 0,
    ensures
        ({
            let o = closest_cardinal_orientation(dx, dy);
            let u = (orientation_delta(o).0 as int, orientation_delta(o).1 as int);
            &&& is_cardinal(o)
            &&& dot(u, (dx, dy)) > 0
            &&& -dot(u, (dx, dy)) <= cross(u, (dx, dy)) < dot(u, (dx, dy))
        }),
        forall|o: Orientation|
            #![trigger is_cardinal(o)]
            is_cardinal(o) && o != closest_cardinal_orientation(dx, dy) ==> {
                let u = (orientation_delta(o).0 as int, orientation_delta(o).1 as int);
                !(dot(u, (dx, dy)) > 0 && -dot(u, (dx, dy)) <= cross(u, (dx, dy)) < dot(
                    u,
                    (dx, dy),
                ))
            },
{
    assert forall|o: Orientation| #[trigger] is_cardinal(o) && o != closest_cardinal_orientation(
        dx,
        dy,
    ) implies ({
        let u = (orientation_delta(o).0 as int, orientation_delta(o).1 as int);
        !(dot(u, (dx, dy)) > 0 && -dot(u, (dx, dy)) <= cross(u, (dx, dy)) < dot(u, (dx, dy)))
    }) by {
        match o {
            Orientation::North => {},
            Orientation::East => {},
            Orientation::South => {},
            _ => {},
        }
    }
}

/// A line from a point to itself counts as pointing east.
pub proof fn law_closest_cardinal_of_nothing()
    ensures
        closest_cardinal_orientation(0, 0) == Orientation::East,
{
}

} // verus!
