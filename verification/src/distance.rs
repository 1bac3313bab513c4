use vstd::prelude::*;

use crate::adjacency::Adjacency;

verus! {

/// The distance calculation methods.
#[derive(Clone, Copy, Debug, PartialEq, Eq, Structural)]
pub enum Distance {
    /// Chessboard distance.
    Chebyshev,
    /// Straight line distance.
    Euclidean,
    /// Taxicab distance.
    Manhattan,
}

/// The shapes of the area within some distance of a point.
#[derive(Clone, Copy, Debug, PartialEq, Eq, Structural)]
pub enum Radius {
    /// A circle around a point.
    Circle,
    /// A diamond around a point.
    Diamond,
    /// A square around a point.
    Square,
}

/// The adjacency along which a distance measure is walked.
pub open spec fn distance_adjacency(d: Distance) -> Adjacency {
    match d {
        Distance::Chebyshev | Distance::Euclidean => Adjacency::EightWay,
        Distance::Manhattan => Adjacency::Cardinals,
    }
}

/// The shape of the area within some distance of a point, for each distance measure.
pub open spec fn distance_radius(d: Distance) -> Radius {
    match d {
        Distance::Chebyshev => Radius::Square,
        Distance::Euclidean => Radius::Circle,
        Distance::Manhattan => Radius::Diamond,
    }
}

/// The distance measure whose neighbourhood has a given shape.
pub open spec fn radius_distance(r: Radius) -> Distance {
    match r {
        Radius::Circle => Distance::Euclidean,
        Radius::Diamond => Distance::Manhattan,
        Radius::Square => Distance::Chebyshev,
    }
}

/// The adjacency that covers a shape.
pub open spec fn radius_adjacency(r: Radius) -> Adjacency {
    match r {
        Radius::Circle | Radius::Square => Adjacency::EightWay,
        Radius::Diamond => Adjacency::Cardinals,
    }
}

impl Distance {
    /// Returns the adjacency for a distance.
    pub fn adjacency(&self) -> (r: Adjacency)
        ensures
            r == distance_adjacency(*self),
    {
        match self {
            Distance::Chebyshev | Distance::Euclidean => Adjacency::EightWay,
            Distance::Manhattan => Adjacency::Cardinals,
        }
    }

    /// Returns the radius for a distance.
    pub fn radius(&self) -> (r: Radius)
        ensures
            r == distance_radius(*self),
    {
        match self {
            Distance::Chebyshev => Radius::Square,
            Distance::Euclidean => Radius::Circle,
            Distance::Manhattan => Radius::Diamond,
        }
    }
}

impl Radius {
    /// Returns the adjacency for a radius.
    pub fn adjacency(&self) -> (r: Adjacency)
        ensures
            r == radius_adjacency(*self),
    {
        match self {
            Radius::Circle | Radius::Square => Adjacency::EightWay,
            Radius::Diamond => Adjacency::Cardinals,
        }
    }

    /// Returns the distance for a radius.
    pub fn distance(&self) -> (r: Distance)
        ensures
            r == radius_distance(*self),
    {
        match self {
            Radius::Circle => Distance::Euclidean,
            Radius::Diamond => Distance::Manhattan,
            Radius::Square => Distance::Chebyshev,
        }
    }
}

/// A distance measure and the shape of its neighbourhood determine each other, and they walk
/// the same adjacency: `radius` and `distance` are inverse to each other.
pub proof fn law_distance_radius_round_trip(d: Distance, r: Radius)
    ensures
        radius_distance(distance_radius(d)) == d,
        distance_radius(radius_distance(r)) == r,
        radius_adjacency(distance_radius(d)) == distance_adjacency(d),
        distance_adjacency(radius_distance(r)) == radius_adjacency(r),
{
}

} // verus!
