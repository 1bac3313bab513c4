use vstd::prelude::*;
use vstd::arithmetic::div_mod::{lemma_fundamental_div_mod_converse_div, lemma_fundamental_div_mod_converse_mod};

use crate::misc::{half_toward_zero, ICoord};

verus! {

/// An axis-aligned rectangle given by its origin (top-left corner) and dimensions.
#[derive(Clone, Copy, Debug, PartialEq, Eq, Structural)]
pub struct Rect {
    /// X origin of the rect.
    pub x: i32,
    /// Y origin of the rect.
    pub y: i32,
    /// Width of the rect.
    pub width: i32,
    /// Height of the rect.
    pub height: i32,
}

/// The far edges `x + width` and `y + height` of the rect are machine integers.
pub open spec fn rect_in_range(r: Rect) -> bool {
    &&& i32::MIN <= r.x + r.width <= i32::MAX
    &&& i32::MIN <= r.y + r.height <= i32::MAX
}

/// Whether a point lies in the rect.
pub open spec fn rect_contains(r: Rect, p: ICoord) -> bool {
    &&& r.x <= p.0 < r.x + r.width
    &&& r.y <= p.1 < r.y + r.height
}

/// Whether two rects overlap.
pub open spec fn rects_intersect(a: Rect, b: Rect) -> bool {
    &&& b.x < a.x + a.width
    &&& a.x < b.x + b.width
    &&& b.y < a.y + a.height
    &&& a.y < b.y + b.height
}

/// The points of the rect, column by column: the `i`-th point is
/// `(x + i / height, y + i % height)`. A rect with a non-positive dimension has no points.
pub open spec fn rect_points(r: Rect) -> Seq<ICoord> {
    if r.width <= 0 || r.height <= 0 {
        Seq::empty()
    } else {
        Seq::new(
            (r.width * r.height) as nat,
            |i: int| ((r.x + i / (r.height as int)) as i32, (r.y + i % (r.height as int)) as i32),
        )
    }
}

/// The points that `push_perimeter_points` emits along the top and bottom edges: for each
/// column, the top point then the bottom point.
pub open spec fn perimeter_top_bottom(r: Rect) -> Seq<ICoord> {
    let n = if r.width > 0 { r.width as int } else { 0 };
    Seq::new(
        (2 * n) as nat,
        |i: int|
            if i % 2 == 0 {
                ((r.x + i / 2) as i32, r.y)
            } else {
                ((r.x + i / 2) as i32, (r.y + r.height - 1) as i32)
            },
    )
}

/// The points that `push_perimeter_points` emits along the sides: for each inner row, the
/// point at `x` then the point at `x + width - 1`.
pub open spec fn perimeter_sides(r: Rect) -> Seq<ICoord> {
    let n = if r.height > 2 { r.height - 2 } else { 0 };
    Seq::new(
        (2 * n) as nat,
        |i: int|
            if i % 2 == 0 {
                (r.x, (r.y + 1 + i / 2) as i32)
            } else {
                ((r.x + r.width - 1) as i32, (r.y + 1 + i / 2) as i32)
            },
    )
}

/// The perimeter points emitted by `push_perimeter_points`.
pub open spec fn rect_perimeter_points(r: Rect) -> Seq<ICoord> {
    if r.width == 0 || r.height == 0 {
        Seq::empty()
    } else {
        perimeter_top_bottom(r) + perimeter_sides(r)
    }
}

/// The machine range conditions of `push_perimeter_points`.
pub open spec fn perimeter_in_range(r: Rect) -> bool {
    &&& rect_in_range(r)
    &&& i32::MIN <= r.x + r.width - 1
    &&& i32::MIN <= r.y + r.height - 1
    &&& r.y < i32::MAX
}

/// The points of `a` that are not in `b`, in the order of `rect_points(a)`.
pub open spec fn rect_difference(a: Rect, b: Rect) -> Seq<ICoord> {
    rect_points(a).filter(|p: ICoord| !rect_contains(b, p))
}

/// The points of `a` that are also in `b`, in the order of `rect_points(a)`.
pub open spec fn rect_shared(a: Rect, b: Rect) -> Seq<ICoord> {
    rect_points(a).filter(|p: ICoord| rect_contains(b, p))
}

/// The smaller of two integers.
pub open spec fn min_int(a: int, b: int) -> int {
    if a < b {
        a
    } else {
        b
    }
}

/// The larger of two integers.
pub open spec fn max_int(a: int, b: int) -> int {
    if a > b {
        a
    } else {
        b
    }
}

impl Rect {
    /// Creates a new rect.
    pub fn new(origin: ICoord, width: i32, height: i32) -> (r: Rect)
        ensures
            r == (Rect { x: origin.0, y: origin.1, width, height }),
    {
        Rect { x: origin.0, y: origin.1, width, height }
    }

    /// Creates a new rect centered on a point.
    pub fn with_center(center: ICoord, width: i32, height: i32) -> (r: Rect)
        requires
            i32::MIN <= center.0 - half_toward_zero(width as int) <= i32::MAX,
            i32::MIN <= center.1 - half_toward_zero(height as int) <= i32::MAX,
        ensures
            r.x == center.0 - half_toward_zero(width as int),
            r.y == center.1 - half_toward_zero(height as int),
            r.width == width,
            r.height == height,
    {
        Rect { x: center.0 - (width / 2), y: center.1 - (height / 2), width, height }
    }

    /// Returns the origin of the rect.
    pub fn origin(&self) -> (r: ICoord)
        ensures
            r == (self.x, self.y),
    {
        (self.x, self.y)
    }

    /// Returns the max extent of the rect (the corner opposite to the origin).
    pub fn max_entent(&self) -> (r: ICoord)
        requires
            rect_in_range(*self),
            i32::MIN <= self.x + self.width - 1,
            i32::MIN <= self.y + self.height - 1,
        ensures
            r.0 == self.x + self.width - 1,
            r.1 == self.y + self.height - 1,
    {
        (self.x + self.width - 1, self.y + self.height - 1)
    }

    /// Returns the dimensions of the rect.
    pub fn dimensions(&self) -> (r: ICoord)
        ensures
            r == (self.width, self.height),
    {
        (self.width, self.height)
    }

    /// Returns the area of the rect.
    pub fn area(&self) -> (r: i32)
        requires
            i32::MIN <= self.width * self.height <= i32::MAX,
        ensures
            r == self.width * self.height,
    {
        self.width * self.height
    }

    /// Returns the center of the rect.
    pub fn center(&self) -> (r: ICoord)
        requires
            i32::MIN <= self.x + half_toward_zero(self.width as int) <= i32::MAX,
            i32::MIN <= self.y + half_toward_zero(self.height as int) <= i32::MAX,
        ensures
            r == (
                (self.x + half_toward_zero(self.width as int)) as i32,
                (self.y + half_toward_zero(self.height as int)) as i32,
            ),
    {
        (self.x + (self.width / 2), self.y + (self.height / 2))
    }

    /// Returns whether the rect is empty (has an area of 0).
    pub fn is_empty(&self) -> (r: bool)
        ensures
            r == (self.width == 0 || self.height == 0),
    {
        self.width == 0 || self.height == 0
    }

    /// Returns whether the rect contains a point.
    pub fn contains(&self, xy: ICoord) -> (r: bool)
        requires
            rect_in_range(*self),
        ensures
            r == rect_contains(*self, xy),
    {
        xy.0 >= self.x && xy.0 < self.x + self.width && xy.1 >= self.y && xy.1 < self.y
            + self.height
    }

    /// Returns whether the rect intersects another rect.
    pub fn intersects(&self, other: &Rect) -> (r: bool)
        requires
            rect_in_range(*self),
            rect_in_range(*other),
        ensures
            r == rects_intersect(*self, *other),
    {
        other.x < self.x + self.width && self.x < other.x + other.width && other.y < self.y
            + self.height && self.y < other.y + other.height
    }

    /// Pushes the points of the rect into a vec, column by column.
    pub fn push_points(&self, points: &mut Vec<ICoord>)
        requires
            rect_in_range(*self),
        ensures
            final(points)@ == old(points)@ + rect_points(*self),
    {
        if self.is_empty() {
            assert(rect_points(*self) =~= Seq::<ICoord>::empty());
            assert(old(points)@ + rect_points(*self) =~= old(points)@);
            return ;
        }
        let ghost base = old(points)@;
        if self.width < 0 || self.height < 0 {
            assert(rect_points(*self) =~= Seq::<ICoord>::empty());
            assert(old(points)@ + rect_points(*self) =~= old(points)@);
            return ;
        }
        let ghost h = self.height as int;
        let end_x = self.x + self.width;
        let end_y = self.y + self.height;
        let mut x = self.x;
        while x < end_x
            invariant
                self.x <= x <= end_x,
                end_x == self.x + self.width,
                end_y == self.y + self.height,
                self.width > 0,
                self.height > 0,
                h == self.height,
                points@.len() == base.len() + (x - self.x) * h,
                points@.subrange(0, base.len() as int) == base,
                forall|j: int|
                    0 <= j < (x - self.x) * h ==> #[trigger] points@[base.len() + j] == (
                        (self.x + j / h) as i32,
                        (self.y + j % h) as i32,
                    ),
            decreases end_x - x,
        {
            let mut y = self.y;
            while y < end_y
                invariant
                    self.x <= x < end_x,
                    self.y <= y <= end_y,
                    end_y == self.y + self.height,
                    self.height > 0,
                    h == self.height,
                    points@.len() == base.len() + (x - self.x) * h + (y - self.y),
                    points@.subrange(0, base.len() as int) == base,
                    forall|j: int|
                        0 <= j < (x - self.x) * h + (y - self.y) ==> #[trigger] points@[base.len()
                            + j] == ((self.x + j / h) as i32, (self.y + j % h) as i32),
                decreases end_y - y,
            {
                let ghost j = (x - self.x) * h + (y - self.y);
                proof {
                    lemma_fundamental_div_mod_converse_div(j, h, (x - self.x) as int, (y - self.y) as int);
                    lemma_fundamental_div_mod_converse_mod(j, h, (x - self.x) as int, (y - self.y) as int);
                }
                points.push((x, y));
                assert(points@.subrange(0, base.len() as int) =~= base);
                y = y + 1;
            }
            assert((x - self.x) * h + h == (x + 1 - self.x) * h) by (nonlinear_arith);
            x = x + 1;
        }
        assert((x - self.x) * h == self.width * self.height);
        assert(points@ =~= base + rect_points(*self)) by {
            assert forall|k: int| 0 <= k < points@.len() implies points@[k] == (base + rect_points(
                *self,
            ))[k] by {
                if k >= base.len() {
                    let j = k - base.len();
                    assert(points@[base.len() + j] == ((self.x + j / h) as i32, (self.y + j % h) as i32));
                } else {
                    assert(points@.subrange(0, base.len() as int)[k] == base[k]);
                }
            }
        }
    }

    /// Returns the points of the rect, column by column.
    pub fn points(&self) -> (r: Vec<ICoord>)
        requires
            rect_in_range(*self),
        ensures
            r@ == rect_points(*self),
    {
        let mut points = Vec::new();
        self.push_points(&mut points);
        assert(points@ =~= rect_points(*self));
        points
    }

    /// Pushes the points on the rect's perimeter into a vec: for each column the top and the
    /// bottom point, then for each inner row the points at `x` and at `x + width - 1`.
    pub fn push_perimeter_points(&self, points: &mut Vec<ICoord>)
        requires
            perimeter_in_range(*self),
        ensures
            final(points)@ == old(points)@ + rect_perimeter_points(*self),
    {
        if self.is_empty() {
            assert(old(points)@ + rect_perimeter_points(*self) =~= old(points)@);
            return ;
        }
        let ghost base = old(points)@;
        let end_x = self.x + self.width;
        let bottom = self.y + self.height - 1;
        let mut x = self.x;
        while x < end_x
            invariant
                x >= self.x,
                self.width > 0 ==> x <= end_x,
                self.width <= 0 ==> x == self.x,
                end_x == self.x + self.width,
                bottom == self.y + self.height - 1,
                points@.len() == base.len() + 2 * (x - self.x),
                points@.subrange(0, base.len() as int) == base,
                forall|j: int|
                    0 <= j < 2 * (x - self.x) ==> #[trigger] points@[base.len() + j]
                        == perimeter_top_bottom(*self)[j],
            decreases end_x - x,
        {
            points.push((x, self.y));
            points.push((x, bottom));
            assert(points@.subrange(0, base.len() as int) =~= base);
            x = x + 1;
        }
        let ghost mid = points@;
        assert(mid =~= base + perimeter_top_bottom(*self)) by {
            assert forall|k: int| 0 <= k < mid.len() implies mid[k] == (base + perimeter_top_bottom(*self))[k] by {
                if k >= base.len() {
                    assert(points@[base.len() + (k - base.len())] == perimeter_top_bottom(*self)[k - base.len()]);
                } else {
                    assert(points@.subrange(0, base.len() as int)[k] == base[k]);
                }
            }
        }
        let right = self.x + self.width - 1;
        let mut y = self.y + 1;
        while y < bottom
            invariant
                y >= self.y + 1,
                self.height > 2 ==> y <= bottom,
                self.height <= 2 ==> y == self.y + 1,
                bottom == self.y + self.height - 1,
                right == self.x + self.width - 1,
                points@.len() == mid.len() + 2 * (y - self.y - 1),
                points@.subrange(0, mid.len() as int) == mid,
                forall|j: int|
                    0 <= j < 2 * (y - self.y - 1) ==> #[trigger] points@[mid.len() + j]
                        == perimeter_sides(*self)[j],
            decreases bottom - y,
        {
            points.push((self.x, y));
            points.push((right, y));
            assert(points@.subrange(0, mid.len() as int) =~= mid);
            y = y + 1;
        }
        assert(points@ =~= mid + perimeter_sides(*self)) by {
            assert forall|k: int| 0 <= k < points@.len() implies points@[k] == (mid + perimeter_sides(*self))[k] by {
                if k >= mid.len() {
                    assert(points@[mid.len() + (k - mid.len())] == perimeter_sides(*self)[k - mid.len()]);
                } else {
                    assert(points@.subrange(0, mid.len() as int)[k] == mid[k]);
                }
            }
        }
        assert(points@ =~= base + rect_perimeter_points(*self));
    }

    /// Returns the points on the rect's perimeter (see `push_perimeter_points`).
    pub fn perimeter_points(&self) -> (r: Vec<ICoord>)
        requires
            perimeter_in_range(*self),
        ensures
            r@ == rect_perimeter_points(*self),
    {
        let mut points = Vec::new();
        self.push_perimeter_points(&mut points);
        assert(points@ =~= rect_perimeter_points(*self));
        points
    }

    /// Pushes the points in the rect but not in another rect into a vec.
    pub fn push_difference(&self, other: &Rect, points: &mut Vec<ICoord>)
        requires
            rect_in_range(*self),
            rect_in_range(*other),
        ensures
            final(points)@ == old(points)@ + rect_difference(*self, *other),
    {
        let all = self.points();
        let ghost base = old(points)@;
        let ghost pred = |p: ICoord| !rect_contains(*other, p);
        let mut i: usize = 0;
        while i < all.len()
            invariant
                i <= all@.len(),
                all@ == rect_points(*self),
                rect_in_range(*other),
                pred == (|p: ICoord| !rect_contains(*other, p)),
                points@ == base + all@.take(i as int).filter(pred),
            decreases all.len() - i,
        {
            let xy = all[i];
            proof {
                reveal_with_fuel(Seq::<_>::filter, 1);
                assert(all@.take(i + 1).drop_last() =~= all@.take(i as int));
            }
            if !other.contains(xy) {
                points.push(xy);
                assert(points@ =~= base + all@.take(i + 1).filter(pred));
            }
            i = i + 1;
        }
        assert(all@.take(all@.len() as int) =~= all@);
    }

    /// Returns the points in the rect but not in another rect.
    pub fn difference(&self, other: &Rect) -> (r: Vec<ICoord>)
        requires
            rect_in_range(*self),
            rect_in_range(*other),
        ensures
            r@ == rect_difference(*self, *other),
    {
        let mut points = Vec::new();
        self.push_difference(other, &mut points);
        assert(points@ =~= rect_difference(*self, *other));
        points
    }

    /// Pushes the points shared by the rect and another rect into a vec.
    pub fn push_union(&self, other: &Rect, points: &mut Vec<ICoord>)
        requires
            rect_in_range(*self),
            rect_in_range(*other),
        ensures
            final(points)@ == old(points)@ + rect_shared(*self, *other),
    {
        let all = self.points();
        let ghost base = old(points)@;
        let ghost pred = |p: ICoord| rect_contains(*other, p);
        let mut i: usize = 0;
        while i < all.len()
            invariant
                i <= all@.len(),
                all@ == rect_points(*self),
                rect_in_range(*other),
                pred == (|p: ICoord| rect_contains(*other, p)),
                points@ == base + all@.take(i as int).filter(pred),
            decreases all.len() - i,
        {
            let xy = all[i];
            proof {
                reveal_with_fuel(Seq::<_>::filter, 1);
                assert(all@.take(i + 1).drop_last() =~= all@.take(i as int));
            }
            if other.contains(xy) {
                points.push(xy);
                assert(points@ =~= base + all@.take(i + 1).filter(pred));
            }
            i = i + 1;
        }
        assert(all@.take(all@.len() as int) =~= all@);
    }

    /// Returns the points shared by the rect and another rect.
    pub fn union(&self, other: &Rect) -> (r: Vec<ICoord>)
        requires
            rect_in_range(*self),
            rect_in_range(*other),
        ensures
            r@ == rect_shared(*self, *other),
    {
        let mut points = Vec::new();
        self.push_union(other, &mut points);
        assert(points@ =~= rect_shared(*self, *other));
        points
    }

    /// Returns the largest rect contained in both the rect and another rect, if they intersect.
    pub fn intersection(&self, other: &Rect) -> (r: Option<Rect>)
        requires
            rect_in_range(*self),
            rect_in_range(*other),
        ensures
            r is None <==> !rects_intersect(*self, *other),
            r matches Some(i) ==> i == intersection_rect(*self, *other),
    {
        if self.intersects(other) {
            let x = if self.x > other.x { self.x } else { other.x };
            let y = if self.y > other.y { self.y } else { other.y };
            let sx = self.x + self.width;
            let ox = other.x + other.width;
            let x_max = if sx < ox { sx } else { ox };
            let sy = self.y + self.height;
            let oy = other.y + other.height;
            let y_max = if sy < oy { sy } else { oy };
            return Some(Rect { x, y, width: x_max - x, height: y_max - y });
        }
        None
    }

    /// Returns the smallest rect that contains both the rect and another rect.
    pub fn containing(&self, other: &Rect) -> (r: Rect)
        requires
            rect_in_range(*self),
            rect_in_range(*other),
            max_int(self.x + self.width, other.x + other.width) - min_int(self.x as int, other.x as int) <= i32::MAX,
            max_int(self.y + self.height, other.y + other.height) - min_int(self.y as int, other.y as int) <= i32::MAX,
        ensures
            r == containing_rect(*self, *other),
    {
        let x = if self.x < other.x { self.x } else { other.x };
        let y = if self.y < other.y { self.y } else { other.y };
        let sx = self.x + self.width;
        let ox = other.x + other.width;
        let sy = self.y + self.height;
        let oy = other.y + other.height;
        let width = (if sx > ox { sx } else { ox }) - x;
        let height = (if sy > oy { sy } else { oy }) - y;
        Rect { x, y, width, height }
    }

    /// Moves the rect into a bounding rect: an origin before the bound's origin is moved onto it,
    /// otherwise a far edge beyond the bound's far edge is moved back onto it.
    pub fn fit_boundary(&mut self, other: &Rect)
        requires
            rect_in_range(*old(self)),
            rect_in_range(*other),
            i32::MIN <= other.x + other.width - old(self).width <= i32::MAX,
            i32::MIN <= other.y + other.height - old(self).height <= i32::MAX,
        ensures
            final(self).width == old(self).width,
            final(self).height == old(self).height,
            final(self).x == (if old(self).x < other.x {
                other.x as int
            } else if old(self).x + old(self).width > other.x + other.width {
                other.x + other.width - old(self).width
            } else {
                old(self).x as int
            }),
            final(self).y == (if old(self).y < other.y {
                other.y as int
            } else if old(self).y + old(self).height > other.y + other.height {
                other.y + other.height - old(self).height
            } else {
                old(self).y as int
            }),
    {
        if self.x < other.x {
            self.x = other.x;
        } else if self.x + self.width > other.x + other.width {
            self.x = (other.x + other.width) - self.width;
        }
        if self.y < other.y {
            self.y = other.y;
        } else if self.y + self.height > other.y + other.height {
            self.y = (other.y + other.height) - self.height;
        }
    }

    /// Translates a point into coordinates relative to the rect's origin, if the rect contains it.
    pub fn extract_xy(&self, xy: ICoord) -> (r: Option<ICoord>)
        requires
            rect_in_range(*self),
        ensures
            r is Some <==> rect_contains(*self, xy),
            r matches Some(p) ==> p.0 == xy.0 - self.x && p.1 == xy.1 - self.y,
    {
        if !self.contains(xy) {
            return None;
        }
        Some((xy.0 - self.x, xy.1 - self.y))
    }

    /// Translates a point relative to the rect's origin into absolute coordinates.
    pub fn insert_xy(&self, xy: ICoord) -> (r: ICoord)
        requires
            i32::MIN <= xy.0 + self.x <= i32::MAX,
            i32::MIN <= xy.1 + self.y <= i32::MAX,
        ensures
            r.0 == xy.0 + self.x,
            r.1 == xy.1 + self.y,
    {
        (xy.0 + self.x, xy.1 + self.y)
    }
}

/// The index at which `rect_points` lists a point that the rect contains.
proof fn lemma_point_index(r: Rect, p: ICoord) -> (i: int)
    requires
        rect_in_range(r),
        rect_contains(r, p),
    ensures
        0 <= i < rect_points(r).len(),
        rect_points(r)[i] == p,
{
    let h = r.height as int;
    let w = r.width as int;
    let a = p.0 - r.x;
    let b = p.1 - r.y;
    let i = a * h + b;
    lemma_fundamental_div_mod_converse_div(i, h, a, b);
    lemma_fundamental_div_mod_converse_mod(i, h, a, b);
    assert(0 <= i < w * h) by (nonlinear_arith)
        requires
            0 <= a < w,
            0 <= b < h,
            i == a * h + b,
    ;
    assert(rect_points(r)[i].0 == p.0);
    assert(rect_points(r)[i].1 == p.1);
    i
}

/// The points that a rect lists are exactly the points that it contains.
pub proof fn law_points_are_contained(r: Rect, p: ICoord)
    requires
        rect_in_range(r),
    ensures
        rect_points(r).contains(p) <==> rect_contains(r, p),
{
    if r.width > 0 && r.height > 0 {
        let h = r.height as int;
        let w = r.width as int;
        if rect_points(r).contains(p) {
            let i = choose|i: int| 0 <= i < rect_points(r).len() && rect_points(r)[i] == p;
            assert(0 <= i < w * h);
            assert(0 <= i / h < w) by {
                vstd::arithmetic::div_mod::lemma_div_pos_is_pos(i, h);
                assert(i < h * w) by (nonlinear_arith)
                    requires i < w * h;
                vstd::arithmetic::div_mod::lemma_multiply_divide_lt(i, h, w);
            }
            assert(0 <= i % h < h) by {
                vstd::arithmetic::div_mod::lemma_mod_bound(i, h);
            }
        }
        if rect_contains(r, p) {
            let i = lemma_point_index(r, p);
        }
    }
}

/// The points that `union` lists are exactly the points contained in both rects, and the
/// points that `difference` lists are exactly those of the first rect outside the second.
pub proof fn law_shared_and_difference(a: Rect, b: Rect, p: ICoord)
    requires
        rect_in_range(a),
    ensures
        rect_shared(a, b).contains(p) <==> rect_contains(a, p) && rect_contains(b, p),
        rect_difference(a, b).contains(p) <==> rect_contains(a, p) && !rect_contains(b, p),
{
    law_points_are_contained(a, p);
    let pts = rect_points(a);
    let pred_in = |q: ICoord| rect_contains(b, q);
    let pred_out = |q: ICoord| !rect_contains(b, q);
    if rect_contains(a, p) {
        let i = lemma_point_index(a, p);
        if rect_contains(b, p) {
            pts.lemma_filter_contains(pred_in, i);
        } else {
            pts.lemma_filter_contains(pred_out, i);
        }
    }
    if pts.filter(pred_in).contains(p) {
        pts.lemma_filter_contains_rev(pred_in, p);
        let j = choose|j: int| 0 <= j < pts.filter(pred_in).len() && pts.filter(pred_in)[j] == p;
        pts.lemma_filter_pred(pred_in, j);
    }
    if pts.filter(pred_out).contains(p) {
        pts.lemma_filter_contains_rev(pred_out, p);
        let j = choose|j: int| 0 <= j < pts.filter(pred_out).len() && pts.filter(pred_out)[j] == p;
        pts.lemma_filter_pred(pred_out, j);
    }
}

/// The rect that `intersection` returns for two intersecting rects.
pub open spec fn intersection_rect(a: Rect, b: Rect) -> Rect {
    let x = max_int(a.x as int, b.x as int);
    let y = max_int(a.y as int, b.y as int);
    Rect {
        x: x as i32,
        y: y as i32,
        width: (min_int(a.x + a.width, b.x + b.width) - x) as i32,
        height: (min_int(a.y + a.height, b.y + b.height) - y) as i32,
    }
}

/// The rect that `containing` returns.
pub open spec fn containing_rect(a: Rect, b: Rect) -> Rect {
    let x = min_int(a.x as int, b.x as int);
    let y = min_int(a.y as int, b.y as int);
    Rect {
        x: x as i32,
        y: y as i32,
        width: (max_int(a.x + a.width, b.x + b.width) - x) as i32,
        height: (max_int(a.y + a.height, b.y + b.height) - y) as i32,
    }
}

/// Intersection is symmetric; two rects share a point exactly when they intersect, and the
/// intersection rect contains exactly the points contained in both.
pub proof fn law_intersection(a: Rect, b: Rect, p: ICoord)
    requires
        rect_in_range(a),
        rect_in_range(b),
    ensures
        rects_intersect(a, b) == rects_intersect(b, a),
        rect_contains(a, p) && rect_contains(b, p) ==> rects_intersect(a, b),
        rects_intersect(a, b) ==> (rect_contains(intersection_rect(a, b), p) <==> rect_contains(a, p)
            && rect_contains(b, p)),
{
}

/// The containing rect contains every point of either rect.
pub proof fn law_containing(a: Rect, b: Rect, p: ICoord)
    requires
        rect_in_range(a),
        rect_in_range(b),
        max_int(a.x + a.width, b.x + b.width) - min_int(a.x as int, b.x as int) <= i32::MAX,
        max_int(a.y + a.height, b.y + b.height) - min_int(a.y as int, b.y as int) <= i32::MAX,
    ensures
        rect_contains(a, p) || rect_contains(b, p) ==> rect_contains(containing_rect(a, b), p),
{
}

/// A rect no larger than its bound lies entirely inside the bound after `fit_boundary`.
pub proof fn law_fit_boundary_inside(r: Rect, bound: Rect, fitted: Rect)
    requires
        0 <= r.width <= bound.width,
        0 <= r.height <= bound.height,
        fitted.width == r.width,
        fitted.height == r.height,
        fitted.x == (if r.x < bound.x {
            bound.x as int
        } else if r.x + r.width > bound.x + bound.width {
            bound.x + bound.width - r.width
        } else {
            r.x as int
        }),
        fitted.y == (if r.y < bound.y {
            bound.y as int
        } else if r.y + r.height > bound.y + bound.height {
            bound.y + bound.height - r.height
        } else {
            r.y as int
        }),
    ensures
        bound.x <= fitted.x,
        fitted.x + fitted.width <= bound.x + bound.width,
        bound.y <= fitted.y,
        fitted.y + fitted.height <= bound.y + bound.height,
{
}

/// `extract_xy` undoes `insert_xy` for a point inside the rect's dimensions, and a point
/// extracted from the rect is inserted back to where it was.
pub proof fn law_extract_insert(r: Rect, p: ICoord)
    requires
        rect_in_range(r),
    ensures
        0 <= p.0 < r.width && 0 <= p.1 < r.height ==> rect_contains(r, ((p.0 + r.x) as i32, (p.1 + r.y) as i32)),
        rect_contains(r, p) ==> 0 <= p.0 - r.x < r.width && 0 <= p.1 - r.y < r.height,
{
}

proof fn lemma_filter_split_len(s: Seq<ICoord>, b: Rect)
    ensures
        s.filter(|p: ICoord| rect_contains(b, p)).len() + s.filter(|p: ICoord| !rect_contains(b, p)).len()
            == s.len(),
    decreases s.len(),
{
    reveal(Seq::filter);
    if s.len() > 0 {
        lemma_filter_split_len(s.drop_last(), b);
    }
}

/// A rect lists each of its points once; so its points split into those it shares with
/// another rect and those outside it, and the two counts add up to its number of points.
pub proof fn law_points_distinct(a: Rect, b: Rect)
    requires
        rect_in_range(a),
    ensures
        rect_points(a).no_duplicates(),
        rect_shared(a, b).len() + rect_difference(a, b).len() == rect_points(a).len(),
{
    lemma_filter_split_len(rect_points(a), b);
    if a.width > 0 && a.height > 0 {
        let h = a.height as int;
        let w = a.width as int;
        let pts = rect_points(a);
        assert forall|i: int, j: int|
            0 <= i < pts.len() && 0 <= j < pts.len() && i != j implies pts[i] != pts[j] by {
            vstd::arithmetic::div_mod::lemma_fundamental_div_mod(i, h);
            vstd::arithmetic::div_mod::lemma_fundamental_div_mod(j, h);
            vstd::arithmetic::div_mod::lemma_mod_bound(i, h);
            vstd::arithmetic::div_mod::lemma_mod_bound(j, h);
            vstd::arithmetic::div_mod::lemma_div_pos_is_pos(i, h);
            vstd::arithmetic::div_mod::lemma_div_pos_is_pos(j, h);
            assert(i < h * w && j < h * w) by (nonlinear_arith)
                requires i < w * h, j < w * h;
            vstd::arithmetic::div_mod::lemma_multiply_divide_lt(i, h, w);
            vstd::arithmetic::div_mod::lemma_multiply_divide_lt(j, h, w);
            if pts[i] == pts[j] {
                assert(i / h == j / h);
                assert(i % h == j % h);
            }
        }
    }
}

/// Whether a point lies on the border of a rect: in its first or last row or column.
pub open spec fn on_border(r: Rect, p: ICoord) -> bool {
    p.1 == r.y || p.1 == r.y + r.height - 1 || p.0 == r.x || p.0 == r.x + r.width - 1
}

/// The perimeter points of a rect with positive dimensions are exactly the points it contains
/// on its first or last row or column. There are `2 * width` of them along the top and bottom
/// rows (a rect one row high lists its row twice) and two more for each row in between; a rect
/// at least two wide and two high lists each of them once.
pub proof fn law_perimeter_points(r: Rect, p: ICoord)
    requires
        perimeter_in_range(r),
        r.width > 0,
        r.height > 0,
    ensures
        rect_perimeter_points(r).contains(p) <==> rect_contains(r, p) && on_border(r, p),
        r.height >= 2 ==> rect_perimeter_points(r).len() == 2 * r.width + 2 * (r.height - 2),
        r.height == 1 ==> rect_perimeter_points(r).len() == 2 * r.width,
        r.width >= 2 && r.height >= 2 ==> rect_perimeter_points(r).no_duplicates(),
{
    let pts = rect_perimeter_points(r);
    let w = r.width as int;
    let h = r.height as int;
    let tb = perimeter_top_bottom(r);
    let sd = perimeter_sides(r);
    assert(pts == tb + sd);
    assert forall|i: int| 0 <= i < pts.len() implies rect_contains(r, #[trigger] pts[i])
        && on_border(r, pts[i]) by {
        if i < tb.len() {
            assert(pts[i] == tb[i]);
        } else {
            assert(pts[i] == sd[i - tb.len()]);
        }
    }
    if pts.contains(p) {
        let i = choose|i: int| 0 <= i < pts.len() && pts[i] == p;
    }
    if rect_contains(r, p) && on_border(r, p) {
        let a = p.0 - r.x;
        let b = p.1 - r.y;
        if b == 0 {
            assert(pts[2 * a] == tb[2 * a]);
            assert(pts[2 * a] == p);
        } else if b == h - 1 {
            assert(pts[2 * a + 1] == tb[2 * a + 1]);
            assert(pts[2 * a + 1] == p);
        } else if a == 0 {
            let k = 2 * w + 2 * (b - 1);
            assert(pts[k] == sd[2 * (b - 1)]);
            assert(pts[k] == p);
        } else {
            let k = 2 * w + 2 * (b - 1) + 1;
            assert(pts[k] == sd[2 * (b - 1) + 1]);
            assert(pts[k] == p);
        }
    }
    if w >= 2 && h >= 2 {
        assert forall|i: int, j: int| 0 <= i < pts.len() && 0 <= j < pts.len() && i != j implies pts[i]
            != pts[j] by {
            if i < tb.len() {
                assert(pts[i] == tb[i]);
            } else {
                assert(pts[i] == sd[i - tb.len()]);
            }
            if j < tb.len() {
                assert(pts[j] == tb[j]);
            } else {
                assert(pts[j] == sd[j - tb.len()]);
            }
        }
    }
}

} // verus!
