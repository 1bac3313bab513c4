use vstd::prelude::*;

verus! {

/// A signed 2d coordinate `(x, y)`.
pub type ICoord = (i32, i32);

/// The coordinate used to mark the absence of a coordinate.
pub const INVALID_ICOORD: ICoord = (-1, -1);

/// Rust's truncating division by two, for a mathematical integer.
pub open spec fn half_toward_zero(v: int) -> int {
    if v >= 0 {
        v / 2
    } else {
        -((-v) / 2)
    }
}

/// Static helpers for coordinates and 1D/2D indices.
pub struct Misc;

impl Misc {
    /// Returns the 1D (row-major) index for a coord.
    pub fn index_2d(xy: ICoord, width: i32) -> (r: usize)
        requires
            i32::MIN <= xy.1 * width <= i32::MAX,
            i32::MIN <= xy.0 + xy.1 * width <= i32::MAX,
        ensures
            r == (xy.0 + xy.1 * width) as usize,
    {
        let (x, y) = xy;
        (x + (y * width)) as usize
    }

    /// Returns the coord for a 1D (row-major) index.
    pub fn reverse_index_2d(index: usize, width: i32) -> (r: ICoord)
        requires
            width != 0,
        ensures
            r == ((index % (width as usize)) as i32, (index / (width as usize)) as i32),
    {
        let w = width as usize;
        assert(width != 0 ==> width as usize != 0) by (bit_vector);
        ((index % w) as i32, (index / w) as i32)
    }

    /// Finds the origin for centering content of a dimension within larger bounds.
    pub fn centered_origin(dimension: i32, bounding_dimension: i32) -> (r: i32)
        requires
            i32::MIN <= bounding_dimension - dimension <= i32::MAX,
        ensures
            r == half_toward_zero(bounding_dimension - dimension),
    {
        (bounding_dimension - dimension) / 2
    }

    /// Converts an unsigned coord to a signed coord.
    pub fn utoi(xy: (u32, u32)) -> (r: ICoord)
        ensures
            r == (xy.0 as i32, xy.1 as i32),
    {
        (xy.0 as i32, xy.1 as i32)
    }

    /// Converts a signed coord to an unsigned coord.
    pub fn itou(xy: ICoord) -> (r: (u32, u32))
        ensures
            r == (xy.0 as u32, xy.1 as u32),
    {
        (xy.0 as u32, xy.1 as u32)
    }
}

} // verus!
