use vstd::prelude::*;

use crate::direction::{
    cross, dot, is_cardinal, orientation_at, orientation_delta, orientation_index, Direction,
    Orientation,
};

verus! {

/// The kinds of adjacency between grid cells.
#[derive(Clone, Copy, Debug, PartialEq, Eq, Structural)]
pub enum Adjacency {
    /// The cardinal adjacencies.
    Cardinals,
    /// The diagonal adjacencies.
    Diagonals,
    /// Both the cardinal and diagonal adjacencies.
    EightWay,
}

/// The orientation indices of an adjacency, in clockwise order starting at north(-east).
pub open spec fn adjacency_indices(a: Adjacency) -> Seq<int> {
    match a {
        Adjacency::Cardinals => seq![0int, 2, 4, 6],
        Adjacency::Diagonals => seq![1int, 3, 5, 7],
        Adjacency::EightWay => seq![0int, 1, 2, 3, 4, 5, 6, 7],
    }
}

/// The number of directions of an adjacency.
pub open spec fn adjacency_len(a: Adjacency) -> int {
    match a {
        Adjacency::EightWay => 8,
        _ => 4,
    }
}

/// The step between consecutive orientation indices of an adjacency.
pub open spec fn adjacency_step(a: Adjacency) -> int {
    match a {
        Adjacency::EightWay => 1,
        _ => 2,
    }
}

/// The orientation index at which `iter_from` starts: the start's own index (north-east when
/// it is the null direction), moved one step clockwise when it is not part of the adjacency.
pub open spec fn iter_from_start(a: Adjacency, start: Direction) -> int {
    let is_null = start == Direction::of(Orientation::Null);
    match a {
        Adjacency::Cardinals => {
            let i = if is_null { 0 } else { orientation_index(start.spec_orientation()) };
            if i % 2 == 1 { i + 1 } else { i }
        },
        Adjacency::Diagonals => {
            let i = if is_null { 1 } else { orientation_index(start.spec_orientation()) };
            if i % 2 == 0 { i + 1 } else { i }
        },
        Adjacency::EightWay => {
            if is_null { 1 } else { orientation_index(start.spec_orientation()) }
        },
    }
}

/// The directions that `iter_from` yields.
pub open spec fn iter_from_seq(a: Adjacency, start: Direction) -> Seq<Direction> {
    Seq::new(
        adjacency_len(a) as nat,
        |k: int| Direction::of(orientation_at((iter_from_start(a, start) + adjacency_step(a) * k) % 8)),
    )
}

impl Adjacency {
    /// Returns the directions of the adjacency, clockwise from north (or north-east).
    pub fn iter(&self) -> (r: Vec<Direction>)
        ensures
            r@ == adjacency_indices(*self).map_values(|i: int| Direction::of(orientation_at(i))),
    {
        let mut v: Vec<Direction> = Vec::new();
        match self {
            Adjacency::Cardinals => {
                v.push(Direction::from_orientation(Orientation::North));
                v.push(Direction::from_orientation(Orientation::East));
                v.push(Direction::from_orientation(Orientation::South));
                v.push(Direction::from_orientation(Orientation::West));
            },
            Adjacency::Diagonals => {
                v.push(Direction::from_orientation(Orientation::Northeast));
                v.push(Direction::from_orientation(Orientation::Southeast));
                v.push(Direction::from_orientation(Orientation::Southwest));
                v.push(Direction::from_orientation(Orientation::Northwest));
            },
            Adjacency::EightWay => {
                v.push(Direction::from_orientation(Orientation::North));
                v.push(Direction::from_orientation(Orientation::Northeast));
                v.push(Direction::from_orientation(Orientation::East));
                v.push(Direction::from_orientation(Orientation::Southeast));
                v.push(Direction::from_orientation(Orientation::South));
                v.push(Direction::from_orientation(Orientation::Southwest));
                v.push(Direction::from_orientation(Orientation::West));
                v.push(Direction::from_orientation(Orientation::Northwest));
            },
        }
        assert(v@ =~= adjacency_indices(*self).map_values(|i: int| Direction::of(orientation_at(i))));
        v
    }

    /// Returns the directions of the adjacency clockwise from a starting direction.
    pub fn iter_from(&self, start: Direction) -> (r: Vec<Direction>)
        ensures
            r@ == iter_from_seq(*self, start),
    {
        let null = Direction::from_orientation(Orientation::Null);
        let (first, step, count): (usize, usize, usize) = match self {
            Adjacency::Cardinals => {
                let dir = if start == null {
                    Direction::from_orientation(Orientation::North)
                } else {
                    start
                };
                let mut index = Self::index_of(&dir);
                if index % 2 == 1 {
                    index = index + 1;
                }
                (index, 2, 4)
            },
            Adjacency::Diagonals => {
                let dir = if start == null {
                    Direction::from_orientation(Orientation::Northeast)
                } else {
                    start
                };
                let mut index = Self::index_of(&dir);
                if index % 2 == 0 {
                    index = index + 1;
                }
                (index, 2, 4)
            },
            Adjacency::EightWay => {
                let dir = if start == null {
                    Direction::from_orientation(Orientation::Northeast)
                } else {
                    start
                };
                (Self::index_of(&dir), 1, 8)
            },
        };
        proof {
            Direction::lemma_of(Orientation::North);
            Direction::lemma_of(Orientation::Northeast);
        }
        assert(first == iter_from_start(*self, start));
        let mut v: Vec<Direction> = Vec::new();
        let mut k: usize = 0;
        while k < count
            invariant
                count == adjacency_len(*self),
                step == adjacency_step(*self),
                first == iter_from_start(*self, start),
                first <= 9,
                k <= count,
                v@.len() == k,
                forall|j: int| 0 <= j < k ==> v@[j] == iter_from_seq(*self, start)[j],
            decreases count - k,
        {
            v.push(Direction::from_index(first + step * k));
            k = k + 1;
        }
        assert(v@ =~= iter_from_seq(*self, start));
        v
    }

    /// The orientation index of a direction.
    fn index_of(d: &Direction) -> (r: usize)
        ensures
            r == orientation_index(d.spec_orientation()),
            r <= 8,
    {
        match d.orientation() {
            Orientation::North => 0,
            Orientation::Northeast => 1,
            Orientation::East => 2,
            Orientation::Southeast => 3,
            Orientation::South => 4,
            Orientation::Southwest => 5,
            Orientation::West => 6,
            Orientation::Northwest => 7,
            Orientation::Null => 8,
        }
    }
}

/// The directions of an adjacency in the order `iter` yields them.
pub open spec fn adjacency_directions(a: Adjacency) -> Seq<Direction> {
    adjacency_indices(a).map_values(|i: int| Direction::of(orientation_at(i)))
}

/// `iter_from` yields the directions of the adjacency in the order of `iter`, turned to start
/// at a given one: at the start direction itself when the adjacency has it, else at the next
/// direction clockwise of it that the adjacency has. From the null direction it starts where
/// `iter` does for the cardinals, and at north-east otherwise.
pub proof fn law_iter_from_rotates(a: Adjacency, o: Orientation, j: int)
    requires
        0 <= j < adjacency_len(a),
        o == Orientation::Null ==> adjacency_indices(a)[j] == (if a == Adjacency::Cardinals {
            0int
        } else {
            1int
        }),
        o != Orientation::Null ==> (adjacency_indices(a)[j] == orientation_index(o) || (
        !adjacency_indices(a).contains(orientation_index(o)) && adjacency_indices(a)[j] == (
        orientation_index(o) + 1) % 8)),
    ensures
        iter_from_seq(a, Direction::of(o)).len() == adjacency_directions(a).len(),
        forall|k: int|
            0 <= k < adjacency_len(a) ==> #[trigger] iter_from_seq(a, Direction::of(o))[k]
                == adjacency_directions(a)[(j + k) % adjacency_len(a)],
{
    Direction::lemma_of(o);
    Direction::lemma_of(Orientation::Null);
    assert(Direction::of(o) == Direction::of(Orientation::Null) <==> o == Orientation::Null);
    assert forall|k: int| 0 <= k < adjacency_len(a) implies #[trigger] iter_from_seq(
        a,
        Direction::of(o),
    )[k] == adjacency_directions(a)[(j + k) % adjacency_len(a)] by {
        assert(adjacency_directions(a)[(j + k) % adjacency_len(a)] == Direction::of(
            orientation_at(adjacency_indices(a)[(j + k) % adjacency_len(a)]),
        ));
    }
}

/// The step of the `k`-th direction that `iter` yields, as integers.
pub open spec fn iter_step(a: Adjacency, k: int) -> (int, int) {
    let d = orientation_delta(orientation_at(adjacency_indices(a)[k]));
    (d.0 as int, d.1 as int)
}

/// The properties of the `k`-th direction that `iter` yields and of the next one, checked one
/// by one.
#[verifier::spinoff_prover]
proof fn lemma_iter_step(a: Adjacency, k: int)
    requires
        0 <= k < adjacency_len(a),
    ensures
        ({
            let u = iter_step(a, k);
            &&& -1 <= u.0 <= 1 && -1 <= u.1 <= 1 && (u.0 != 0 || u.1 != 0)
            &&& a == Adjacency::Cardinals ==> u.0 == 0 || u.1 == 0
            &&& a == Adjacency::Diagonals ==> u.0 != 0 && u.1 != 0
        }),
        ({
            let u = iter_step(a, k);
            let v = iter_step(a, (k + 1) % adjacency_len(a));
            &&& cross(u, v) > 0
            &&& a == Adjacency::EightWay ==> dot(u, v) > 0
            &&& a != Adjacency::EightWay ==> dot(u, v) == 0
        }),
{
    let n = adjacency_len(a);
    let idx = adjacency_indices(a);
    assert(idx[k] == match a {
        Adjacency::EightWay => k,
        Adjacency::Cardinals => 2 * k,
        Adjacency::Diagonals => 2 * k + 1,
    });
    let k1 = (k + 1) % n;
    assert(k1 == if k + 1 == n { 0 } else { k + 1 });
    assert(idx[k1] == match a {
        Adjacency::EightWay => k1,
        Adjacency::Cardinals => 2 * k1,
        Adjacency::Diagonals => 2 * k1 + 1,
    });
    let i = idx[k];
    let j = idx[k1];
    assert(j == (i + adjacency_step(a)) % 8);
    if i == 0 {
        assert(orientation_at(i) == Orientation::North);
        assert(iter_step(a, k) == (0int, -1int));
        if adjacency_step(a) == 1 {
            assert(j == 1);
            assert(orientation_at(j) == Orientation::Northeast);
            assert(iter_step(a, k1) == (1int, -1int));
            assert(cross((0int, -1int), (1int, -1int)) == 1);
            assert(dot((0int, -1int), (1int, -1int)) == 1);
        } else {
            assert(j == 2);
            assert(orientation_at(j) == Orientation::East);
            assert(iter_step(a, k1) == (1int, 0int));
            assert(cross((0int, -1int), (1int, 0int)) == 1);
            assert(dot((0int, -1int), (1int, 0int)) == 0);
        }
    } else if i == 1 {
        assert(orientation_at(i) == Orientation::Northeast);
        assert(iter_step(a, k) == (1int, -1int));
        if adjacency_step(a) == 1 {
            assert(j == 2);
            assert(orientation_at(j) == Orientation::East);
            assert(iter_step(a, k1) == (1int, 0int));
            assert(cross((1int, -1int), (1int, 0int)) == 1);
            assert(dot((1int, -1int), (1int, 0int)) == 1);
        } else {
            assert(j == 3);
            assert(orientation_at(j) == Orientation::Southeast);
            assert(iter_step(a, k1) == (1int, 1int));
            assert(cross((1int, -1int), (1int, 1int)) == 2);
            assert(dot((1int, -1int), (1int, 1int)) == 0);
        }
    } else if i == 2 {
        assert(orientation_at(i) == Orientation::East);
        assert(iter_step(a, k) == (1int, 0int));
        if adjacency_step(a) == 1 {
            assert(j == 3);
            assert(orientation_at(j) == Orientation::Southeast);
            assert(iter_step(a, k1) == (1int, 1int));
            assert(cross((1int, 0int), (1int, 1int)) == 1);
            assert(dot((1int, 0int), (1int, 1int)) == 1);
        } else {
            assert(j == 4);
            assert(orientation_at(j) == Orientation::South);
            assert(iter_step(a, k1) == (0int, 1int));
            assert(cross((1int, 0int), (0int, 1int)) == 1);
            assert(dot((1int, 0int), (0int, 1int)) == 0);
        }
    } else if i == 3 {
        assert(orientation_at(i) == Orientation::Southeast);
        assert(iter_step(a, k) == (1int, 1int));
        if adjacency_step(a) == 1 {
            assert(j == 4);
            assert(orientation_at(j) == Orientation::South);
            assert(iter_step(a, k1) == (0int, 1int));
            assert(cross((1int, 1int), (0int, 1int)) == 1);
            assert(dot((1int, 1int), (0int, 1int)) == 1);
        } else {
            assert(j == 5);
            assert(orientation_at(j) == Orientation::Southwest);
            assert(iter_step(a, k1) == (-1int, 1int));
            assert(cross((1int, 1int), (-1int, 1int)) == 2);
            assert(dot((1int, 1int), (-1int, 1int)) == 0);
        }
    } else if i == 4 {
        assert(orientation_at(i) == Orientation::South);
        assert(iter_step(a, k) == (0int, 1int));
        if adjacency_step(a) == 1 {
            assert(j == 5);
            assert(orientation_at(j) == Orientation::Southwest);
            assert(iter_step(a, k1) == (-1int, 1int));
            assert(cross((0int, 1int), (-1int, 1int)) == 1);
            assert(dot((0int, 1int), (-1int, 1int)) == 1);
        } else {
            assert(j == 6);
            assert(orientation_at(j) == Orientation::West);
            assert(iter_step(a, k1) == (-1int, 0int));
            assert(cross((0int, 1int), (-1int, 0int)) == 1);
            assert(dot((0int, 1int), (-1int, 0int)) == 0);
        }
    } else if i == 5 {
        assert(orientation_at(i) == Orientation::Southwest);
        assert(iter_step(a, k) == (-1int, 1int));
        if adjacency_step(a) == 1 {
            assert(j == 6);
            assert(orientation_at(j) == Orientation::West);
            assert(iter_step(a, k1) == (-1int, 0int));
            assert(cross((-1int, 1int), (-1int, 0int)) == 1);
            assert(dot((-1int, 1int), (-1int, 0int)) == 1);
        } else {
            assert(j == 7);
            assert(orientation_at(j) == Orientation::Northwest);
            assert(iter_step(a, k1) == (-1int, -1int));
            assert(cross((-1int, 1int), (-1int, -1int)) == 2);
            assert(dot((-1int, 1int), (-1int, -1int)) == 0);
        }
    } else if i == 6 {
        assert(orientation_at(i) == Orientation::West);
        assert(iter_step(a, k) == (-1int, 0int));
        if adjacency_step(a) == 1 {
            assert(j == 7);
            assert(orientation_at(j) == Orientation::Northwest);
            assert(iter_step(a, k1) == (-1int, -1int));
            assert(cross((-1int, 0int), (-1int, -1int)) == 1);
            assert(dot((-1int, 0int), (-1int, -1int)) == 1);
        } else {
            assert(j == 0);
            assert(orientation_at(j) == Orientation::North);
            assert(iter_step(a, k1) == (0int, -1int));
            assert(cross((-1int, 0int), (0int, -1int)) == 1);
            assert(dot((-1int, 0int), (0int, -1int)) == 0);
        }
    } else {
        assert(i == 7);
        assert(orientation_at(i) == Orientation::Northwest);
        assert(iter_step(a, k) == (-1int, -1int));
        if adjacency_step(a) == 1 {
            assert(j == 0);
            assert(orientation_at(j) == Orientation::North);
            assert(iter_step(a, k1) == (0int, -1int));
            assert(cross((-1int, -1int), (0int, -1int)) == 1);
            assert(dot((-1int, -1int), (0int, -1int)) == 1);
        } else {
            assert(j == 1);
            assert(orientation_at(j) == Orientation::Northeast);
            assert(iter_step(a, k1) == (1int, -1int));
            assert(cross((-1int, -1int), (1int, -1int)) == 2);
            assert(dot((-1int, -1int), (1int, -1int)) == 0);
        }
    }
}

/// `iter` yields the neighbours that the adjacency names, going clockwise round the
/// compass: the cardinals are the steps along one axis, the diagonals the steps along both, and
/// eight-way has all of them. It starts at north (north-east for the diagonals), and each
/// direction is the previous one turned clockwise by the same angle (a right angle for four
/// directions, half of one for eight), round to the first again.
#[verifier::spinoff_prover]
pub proof fn law_iter_clockwise(a: Adjacency)
    ensures
        adjacency_directions(a).len() == adjacency_len(a),
        forall|k: int|
            0 <= k < adjacency_len(a) ==> {
                let u = #[trigger] iter_step(a, k);
                &&& -1 <= u.0 <= 1 && -1 <= u.1 <= 1 && (u.0 != 0 || u.1 != 0)
                &&& a == Adjacency::Cardinals ==> u.0 == 0 || u.1 == 0
                &&& a == Adjacency::Diagonals ==> u.0 != 0 && u.1 != 0
                &&& adjacency_directions(a)[k] == Direction::of(
                    orientation_at(adjacency_indices(a)[k]),
                )
            },
        iter_step(a, 0) == (if a == Adjacency::Diagonals {
            (1int, -1int)
        } else {
            (0int, -1int)
        }),
        forall|k: int|
            0 <= k < adjacency_len(a) ==> {
                let u = #[trigger] iter_step(a, k);
                let v = iter_step(a, (k + 1) % adjacency_len(a));
                &&& cross(u, v) > 0
                &&& a == Adjacency::EightWay ==> dot(u, v) > 0
                &&& a != Adjacency::EightWay ==> dot(u, v) == 0
            },
{
    assert forall|k: int| 0 <= k < adjacency_len(a) implies ({
        let u = #[trigger] iter_step(a, k);
        &&& -1 <= u.0 <= 1 && -1 <= u.1 <= 1 && (u.0 != 0 || u.1 != 0)
        &&& a == Adjacency::Cardinals ==> u.0 == 0 || u.1 == 0
        &&& a == Adjacency::Diagonals ==> u.0 != 0 && u.1 != 0
        &&& adjacency_directions(a)[k] == Direction::of(orientation_at(adjacency_indices(a)[k]))
    }) by {
        lemma_iter_step(a, k);
    }
    assert forall|k: int| 0 <= k < adjacency_len(a) implies ({
        let u = #[trigger] iter_step(a, k);
        let v = iter_step(a, (k + 1) % adjacency_len(a));
        &&& cross(u, v) > 0
        &&& a == Adjacency::EightWay ==> dot(u, v) > 0
        &&& a != Adjacency::EightWay ==> dot(u, v) == 0
    }) by {
        lemma_iter_step(a, k);
    }
}

} // verus!
