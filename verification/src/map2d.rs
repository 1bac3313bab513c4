use vstd::prelude::*;

use crate::misc::{ICoord, Misc};
use crate::rect::Rect;

verus! {

/// The types that a 2d map may hold.
pub trait Map2dType: Clone + Default {}

impl<T: Clone + Default> Map2dType for T {}

/// Immutable access to a 2d grid of cells, addressed either by coordinate or by a 1D index.
pub trait Map2dView {
    /// The type of the cells.
    type Type: Map2dType;

    /// Whether the map is in a usable state.
    spec fn map_valid(&self) -> bool;

    /// The width of the map.
    spec fn spec_width(&self) -> int;

    /// The height of the map.
    spec fn spec_height(&self) -> int;

    /// Whether `get_xy` may read a coordinate.
    spec fn xy_ok(&self, xy: ICoord) -> bool;

    /// The cell at a coordinate.
    spec fn cell(&self, xy: ICoord) -> Self::Type;

    /// Whether `get` may read an index.
    spec fn index_ok(&self, index: int) -> bool;

    /// The cell at a 1D index.
    spec fn cell_at(&self, index: int) -> Self::Type;

    /// Returns the width of the map.
    fn width(&self) -> (r: i32)
        requires
            self.map_valid(),
        ensures
            r == self.spec_width(),
    ;

    /// Returns the height of the map.
    fn height(&self) -> (r: i32)
        requires
            self.map_valid(),
        ensures
            r == self.spec_height(),
    ;

    /// Returns the dimensions of the map.
    fn dimensions(&self) -> (r: ICoord)
        requires
            self.map_valid(),
        ensures
            r.0 == self.spec_width(),
            r.1 == self.spec_height(),
    {
        (self.width(), self.height())
    }

    /// Returns a ref to the cell at an index.
    fn get(&self, index: usize) -> (r: &Self::Type)
        requires
            self.map_valid(),
            self.index_ok(index as int),
        ensures
            *r == self.cell_at(index as int),
    ;

    /// Returns a ref to the cell at a coord.
    fn get_xy(&self, xy: ICoord) -> (r: &Self::Type)
        requires
            self.map_valid(),
            self.xy_ok(xy),
        ensures
            *r == self.cell(xy),
    ;

    /// Returns whether a coord is within the bounds of the map.
    fn in_bounds(&self, xy: ICoord) -> (r: bool)
        requires
            self.map_valid(),
        ensures
            r == (0 <= xy.0 < self.spec_width() && 0 <= xy.1 < self.spec_height()),
    {
        xy.0 >= 0 && xy.0 < self.width() && xy.1 >= 0 && xy.1 < self.height()
    }
}

/// Mutable access to a 2d grid of cells.
pub trait Map2dViewMut: Map2dView {
    /// Returns a mut ref to the cell at an index; writing through it changes that cell only.
    fn get_mut(&mut self, index: usize) -> (r: &mut <Self as Map2dView>::Type)
        requires
            old(self).map_valid(),
            old(self).index_ok(index as int),
        ensures
            *r == old(self).cell_at(index as int),
            final(self).map_valid(),
            final(self).spec_width() == old(self).spec_width(),
            final(self).spec_height() == old(self).spec_height(),
            forall|i: int| #[trigger] final(self).index_ok(i) == old(self).index_ok(i),
            forall|p: ICoord| #[trigger] final(self).xy_ok(p) == old(self).xy_ok(p),
            final(self).cell_at(index as int) == *final(r),
            forall|i: int|
                old(self).index_ok(i) && i != index ==> #[trigger] final(self).cell_at(i) == old(
                    self,
                ).cell_at(i),
    ;

    /// Returns a mut ref to the cell at a coord; writing through it changes that cell only.
    fn get_xy_mut(&mut self, xy: ICoord) -> (r: &mut <Self as Map2dView>::Type)
        requires
            old(self).map_valid(),
            old(self).xy_ok(xy),
        ensures
            *r == old(self).cell(xy),
            final(self).map_valid(),
            final(self).spec_width() == old(self).spec_width(),
            final(self).spec_height() == old(self).spec_height(),
            forall|i: int| #[trigger] final(self).index_ok(i) == old(self).index_ok(i),
            forall|p: ICoord| #[trigger] final(self).xy_ok(p) == old(self).xy_ok(p),
            final(self).cell(xy) == *final(r),
            forall|p: ICoord|
                old(self).xy_ok(p) && p != xy ==> #[trigger] final(self).cell(p) == old(
                    self,
                ).cell(p),
    ;
}

/// Both immutable and mutable access to a 2d grid of cells of type `T`.
pub trait Map2d<T: Map2dType>: Map2dView<Type = T> + Map2dViewMut {}

impl<M, T: Map2dType> Map2d<T> for M where M: Map2dView<Type = T> + Map2dViewMut {}

/// The row-major index of a coordinate in a grid of a given width.
pub open spec fn grid_index(xy: ICoord, width: int) -> int {
    xy.0 + xy.1 * width
}

/// A 2d grid stored row by row in a vec.
pub struct GridMap<T: Map2dType> {
    /// Dimensions of the grid map.
    dimensions: ICoord,
    /// The cells, row by row.
    data: Vec<T>,
}

impl<T: Map2dType> GridMap<T> {
    /// The cells of the grid map, row by row.
    pub closed spec fn cells(&self) -> Seq<T> {
        self.data@
    }

    /// The dimensions of the grid map.
    pub closed spec fn spec_dimensions(&self) -> ICoord {
        self.dimensions
    }

    /// Creates a new grid map with every cell set to the default value.
    pub fn new(dimensions: ICoord) -> (r: Self)
        requires
            dimensions.0 >= 0,
            dimensions.1 >= 0,
            dimensions.0 * dimensions.1 <= i32::MAX,
        ensures
            r.map_valid(),
            r.spec_dimensions() == dimensions,
            r.cells().len() == dimensions.0 * dimensions.1,
            r.spec_width() == dimensions.0,
            r.spec_height() == dimensions.1,
            forall|xy: ICoord|
                #[trigger] r.xy_ok(xy) <==> (0 <= xy.0 < dimensions.0 && 0 <= xy.1 < dimensions.1),
            forall|i: int| #[trigger] r.index_ok(i) <==> 0 <= i < dimensions.0 * dimensions.1,
            exists|d: T|
                call_ensures(T::default, (), d) && forall|i: int|
                    0 <= i < r.cells().len() ==> cloned(d, #[trigger] r.cells()[i]),
    {
        let n = (dimensions.0 * dimensions.1) as usize;
        let d = T::default();
        let data = vec![d; n];
        GridMap { dimensions, data }
    }

    /// Returns the cells of the grid map, row by row.
    pub fn data(&self) -> (r: &Vec<T>)
        ensures
            r@ == self.cells(),
    {
        &self.data
    }
}

impl<T: Map2dType> Map2dView for GridMap<T> {
    type Type = T;

    closed spec fn map_valid(&self) -> bool {
        &&& self.dimensions.0 >= 0
        &&& self.dimensions.1 >= 0
        &&& self.dimensions.0 * self.dimensions.1 <= i32::MAX
        &&& self.data@.len() == self.dimensions.0 * self.dimensions.1
    }

    closed spec fn spec_width(&self) -> int {
        self.dimensions.0 as int
    }

    closed spec fn spec_height(&self) -> int {
        self.dimensions.1 as int
    }

    closed spec fn xy_ok(&self, xy: ICoord) -> bool {
        &&& 0 <= xy.0 < self.dimensions.0
        &&& 0 <= xy.1 < self.dimensions.1
    }

    closed spec fn cell(&self, xy: ICoord) -> T {
        self.data@[grid_index(xy, self.dimensions.0 as int)]
    }

    closed spec fn index_ok(&self, index: int) -> bool {
        0 <= index < self.data@.len()
    }

    closed spec fn cell_at(&self, index: int) -> T {
        self.data@[index]
    }

    fn width(&self) -> (r: i32) {
        self.dimensions.0
    }

    fn height(&self) -> (r: i32) {
        self.dimensions.1
    }

    fn get(&self, index: usize) -> (r: &T) {
        &self.data[index]
    }

    fn get_xy(&self, xy: ICoord) -> (r: &T) {
        proof {
            lemma_grid_index_bounds(xy, self.dimensions.0 as int, self.dimensions.1 as int);
        }
        let index = Misc::index_2d(xy, self.dimensions.0);
        &self.data[index]
    }
}

impl<T: Map2dType> Map2dViewMut for GridMap<T> {
    fn get_mut(&mut self, index: usize) -> (r: &mut T) {
        &mut self.data[index]
    }

    fn get_xy_mut(&mut self, xy: ICoord) -> (r: &mut T) {
        proof {
            lemma_grid_index_bounds(xy, self.dimensions.0 as int, self.dimensions.1 as int);
            assert forall|p: ICoord|
                0 <= p.0 < self.dimensions.0 && 0 <= p.1 < self.dimensions.1 && p != xy implies grid_index(p, self.dimensions.0 as int)
                != grid_index(xy, self.dimensions.0 as int) by {
                if grid_index(p, self.dimensions.0 as int) == grid_index(xy, self.dimensions.0 as int) {
                    lemma_grid_index_injective(p, xy, self.dimensions.0 as int);
                }
            }
            assert forall|p: ICoord|
                0 <= p.0 < self.dimensions.0 && 0 <= p.1 < self.dimensions.1 implies 0 <= #[trigger] grid_index(p, self.dimensions.0 as int)
                < self.data@.len() by {
                lemma_grid_index_bounds(p, self.dimensions.0 as int, self.dimensions.1 as int);
            }
        }
        let index = Misc::index_2d(xy, self.dimensions.0);
        &mut self.data[index]
    }
}

/// A coordinate inside the grid has a row-major index inside the grid.
pub proof fn lemma_grid_index_bounds(xy: ICoord, width: int, height: int)
    requires
        0 <= xy.0 < width,
        0 <= xy.1 < height,
    ensures
        0 <= grid_index(xy, width) < width * height,
        0 <= xy.1 * width <= grid_index(xy, width),
{
    assert(xy.1 * width + xy.0 < width * height) by (nonlinear_arith)
        requires
            0 <= xy.0 < width,
            0 <= xy.1 < height,
    ;
    assert(0 <= xy.1 * width) by (nonlinear_arith)
        requires
            0 <= xy.1,
            0 <= width,
    ;
}

/// Distinct coordinates inside a row of the given width have distinct row-major indices.
pub proof fn lemma_grid_index_injective(p: ICoord, q: ICoord, width: int)
    requires
        0 <= p.0 < width,
        0 <= q.0 < width,
        grid_index(p, width) == grid_index(q, width),
    ensures
        p == q,
{
    vstd::arithmetic::div_mod::lemma_fundamental_div_mod_converse_div(grid_index(p, width), width, p.1 as int, p.0 as int);
    vstd::arithmetic::div_mod::lemma_fundamental_div_mod_converse_div(grid_index(q, width), width, q.1 as int, q.0 as int);
    assert(p.1 * width == width * p.1) by (nonlinear_arith);
}

/// A grid map reads its cells: its width and height are its dimensions, it reads exactly the
/// coordinates inside them and the indices of its cells, the cell at an index is the cell of
/// that index, and the cell at a coordinate is the cell of its row-major index.
pub proof fn law_grid_map_reads_cells<T: Map2dType>(g: GridMap<T>)
    ensures
        g.spec_width() == g.spec_dimensions().0,
        g.spec_height() == g.spec_dimensions().1,
        g.map_valid() <==> (g.spec_dimensions().0 >= 0 && g.spec_dimensions().1 >= 0
            && g.spec_dimensions().0 * g.spec_dimensions().1 <= i32::MAX && g.cells().len()
            == g.spec_dimensions().0 * g.spec_dimensions().1),
        forall|xy: ICoord|
            #[trigger] g.xy_ok(xy) <==> (0 <= xy.0 < g.spec_dimensions().0 && 0 <= xy.1
                < g.spec_dimensions().1),
        forall|i: int| #[trigger] g.index_ok(i) <==> 0 <= i < g.cells().len(),
        forall|i: int| #[trigger] g.cell_at(i) == g.cells()[i],
        forall|xy: ICoord|
            #[trigger] g.cell(xy) == g.cells()[grid_index(xy, g.spec_dimensions().0 as int)],
{
}

/// A grid map reads the same cell by coordinate as by the row-major index of the coordinate.
pub proof fn law_grid_cell_index<T: Map2dType>(g: GridMap<T>, xy: ICoord)
    requires
        g.map_valid(),
        g.xy_ok(xy),
    ensures
        g.index_ok(grid_index(xy, g.spec_width())),
        g.cell(xy) == g.cell_at(grid_index(xy, g.spec_width())),
        g.xy_ok(xy) <==> (0 <= xy.0 < g.spec_width() && 0 <= xy.1 < g.spec_height()),
{
    lemma_grid_index_bounds(xy, g.spec_width(), g.spec_height());
}

/// The base map coordinate of one of a `SubMap`'s 1D indices: the index split into a
/// coordinate along the subsection's width, moved by the subsection's origin.
pub open spec fn sub_coord(index: int, sub: Rect) -> (int, int) {
    let w = sub.width as int;
    (index % w + sub.x, index / w + sub.y)
}

/// The base map index that `SubMap` reads for one of its 1D indices: the base coordinate of the
/// index, joined along the base map's width.
pub open spec fn sub_translate(index: int, sub: Rect, base_width: int) -> int {
    sub_coord(index, sub).0 + sub_coord(index, sub).1 * base_width
}

/// The conditions for `SubMap` to translate an index: its base coordinate lies within the base
/// map's columns, and the arithmetic fits the machine.
pub open spec fn sub_index_in_range(index: int, sub: Rect, base_width: int) -> bool {
    let w = sub.width as int;
    let c = sub_coord(index, sub);
    &&& w > 0
    &&& 0 <= index <= usize::MAX
    &&& index / w <= i32::MAX
    &&& 0 <= c.0 < base_width
    &&& i32::MIN <= c.1 <= i32::MAX
    &&& i32::MIN <= c.1 * base_width <= i32::MAX
    &&& 0 <= sub_translate(index, sub, base_width) <= i32::MAX
}

/// The coordinate of the base map that `SubMap` reads for one of its coordinates.
pub open spec fn sub_translate_xy(xy: ICoord, sub: Rect) -> ICoord {
    ((xy.0 + sub.x) as i32, (xy.1 + sub.y) as i32)
}

/// The machine range conditions of `SubMap`'s coordinate translation.
pub open spec fn sub_xy_in_range(xy: ICoord, sub: Rect) -> bool {
    &&& i32::MIN <= xy.0 + sub.x <= i32::MAX
    &&& i32::MIN <= xy.1 + sub.y <= i32::MAX
}

/// Distinct indices that a `SubMap` can translate reach distinct base indices.
proof fn lemma_sub_translate_injective(i: int, j: int, sub: Rect, base_width: int)
    requires
        sub_index_in_range(i, sub, base_width),
        sub_index_in_range(j, sub, base_width),
        sub_translate(i, sub, base_width) == sub_translate(j, sub, base_width),
    ensures
        i == j,
{
    let w = sub.width as int;
    let ci = sub_coord(i, sub);
    let cj = sub_coord(j, sub);
    vstd::arithmetic::div_mod::lemma_fundamental_div_mod_converse(
        sub_translate(i, sub, base_width),
        base_width,
        ci.1,
        ci.0,
    );
    vstd::arithmetic::div_mod::lemma_fundamental_div_mod_converse(
        sub_translate(j, sub, base_width),
        base_width,
        cj.1,
        cj.0,
    );
    assert(ci.1 * base_width == base_width * ci.1) by (nonlinear_arith);
    assert(cj.1 * base_width == base_width * cj.1) by (nonlinear_arith);
    vstd::arithmetic::div_mod::lemma_fundamental_div_mod(i, w);
    vstd::arithmetic::div_mod::lemma_fundamental_div_mod(j, w);
}

/// A view onto a rectangular subsection of another map.
pub struct SubMap<'a, M: Map2dView + Map2dViewMut> {
    /// Base map of the sub map.
    base_map: &'a mut M,
    /// Subsection of the base map to which the sub map is mapped.
    subsection: Rect,
}

impl<'a, M: Map2dView + Map2dViewMut> SubMap<'a, M> {
    /// The base map.
    pub closed spec fn base(&self) -> M {
        *self.base_map
    }

    /// The subsection of the base map.
    pub closed spec fn spec_subsection(&self) -> Rect {
        self.subsection
    }

    /// Creates a new sub map.
    pub fn new(base_map: &'a mut M, subsection: Rect) -> (r: Self)
        ensures
            r.base() == *old(base_map),
            r.spec_subsection() == subsection,
            r.map_valid() == old(base_map).map_valid(),
    {
        SubMap { base_map, subsection }
    }

    /// Returns the subsection of the sub map.
    pub fn subsection(&self) -> (r: Rect)
        ensures
            r == self.spec_subsection(),
    {
        self.subsection
    }

    /// Sets the subsection of the sub map.
    pub fn set_subsection(&mut self, subsection: Rect)
        ensures
            final(self).spec_subsection() == subsection,
            final(self).base() == old(self).base(),
    {
        self.subsection = subsection;
    }

    /// A sub map reads and writes its base map: its cell at a coord is the base map's cell at
    /// the coord shifted by the subsection's origin, and its cell at an index is the base map's
    /// cell at the row-major index (along the base map's width) of the index's coord in the
    /// subsection, shifted by the subsection's origin.
    pub proof fn law_sub_map_reads_base(&self, xy: ICoord, index: int)
        ensures
            self.map_valid() == self.base().map_valid(),
            self.cell(xy) == self.base().cell(sub_translate_xy(xy, self.spec_subsection())),
            self.xy_ok(xy) == (sub_xy_in_range(xy, self.spec_subsection()) && self.base().xy_ok(
                sub_translate_xy(xy, self.spec_subsection()),
            )),
            self.spec_width() == self.spec_subsection().width,
            self.spec_height() == self.spec_subsection().height,
            self.index_ok(index) == (sub_index_in_range(
                index,
                self.spec_subsection(),
                self.base().spec_width(),
            ) && self.base().index_ok(
                sub_translate(index, self.spec_subsection(), self.base().spec_width()),
            )),
            self.cell_at(index) == self.base().cell_at(
                sub_translate(index, self.spec_subsection(), self.base().spec_width()),
            ),
    {
    }

    /// Translates a sub map index into a base map index.
    fn translate(&self, index: usize) -> (r: usize)
        requires
            self.base().map_valid(),
            sub_index_in_range(index as int, self.subsection, self.base().spec_width()),
        ensures
            r == sub_translate(index as int, self.subsection, self.base().spec_width()),
    {
        let w = self.subsection.width;
        let (x, y) = Misc::reverse_index_2d(index, w);
        assert(index as int % (w as usize) as int == index as int % w as int);
        assert(index as int / (w as usize) as int == index as int / w as int);
        let bw = self.base_map.width();
        Misc::index_2d((x + self.subsection.x, y + self.subsection.y), bw)
    }

    /// Translates a sub map coord into a base map coord.
    fn translate_xy(&self, xy: ICoord) -> (r: ICoord)
        requires
            sub_xy_in_range(xy, self.subsection),
        ensures
            r == sub_translate_xy(xy, self.subsection),
    {
        (xy.0 + self.subsection.x, xy.1 + self.subsection.y)
    }
}

impl<'a, M: Map2dView + Map2dViewMut> Map2dView for SubMap<'a, M> {
    type Type = <M as Map2dView>::Type;

    closed spec fn map_valid(&self) -> bool {
        self.base_map.map_valid()
    }

    closed spec fn spec_width(&self) -> int {
        self.subsection.width as int
    }

    closed spec fn spec_height(&self) -> int {
        self.subsection.height as int
    }

    closed spec fn xy_ok(&self, xy: ICoord) -> bool {
        &&& sub_xy_in_range(xy, self.subsection)
        &&& self.base_map.xy_ok(sub_translate_xy(xy, self.subsection))
    }

    closed spec fn cell(&self, xy: ICoord) -> Self::Type {
        self.base_map.cell(sub_translate_xy(xy, self.subsection))
    }

    closed spec fn index_ok(&self, index: int) -> bool {
        &&& sub_index_in_range(index, self.subsection, self.base_map.spec_width())
        &&& self.base_map.index_ok(sub_translate(index, self.subsection, self.base_map.spec_width()))
    }

    closed spec fn cell_at(&self, index: int) -> Self::Type {
        self.base_map.cell_at(sub_translate(index, self.subsection, self.base_map.spec_width()))
    }

    fn width(&self) -> (r: i32) {
        self.subsection.width
    }

    fn height(&self) -> (r: i32) {
        self.subsection.height
    }

    fn get(&self, index: usize) -> (r: &Self::Type) {
        let i = self.translate(index);
        self.base_map.get(i)
    }

    fn get_xy(&self, xy: ICoord) -> (r: &Self::Type) {
        let xy = self.translate_xy(xy);
        self.base_map.get_xy(xy)
    }
}

impl<'a, M: Map2dView + Map2dViewMut> Map2dViewMut for SubMap<'a, M> {
    fn get_mut(&mut self, index: usize) -> (r: &mut Self::Type) {
        let i = self.translate(index);
        let ghost bw = self.base_map.spec_width();
        let ghost sub = self.subsection;
        proof {
            assert forall|j: int|
                #[trigger] sub_index_in_range(j, sub, bw) && j != index implies sub_translate(j, sub, bw)
                    != sub_translate(index as int, sub, bw) by {
                if sub_translate(j, sub, bw) == sub_translate(index as int, sub, bw) {
                    lemma_sub_translate_injective(j, index as int, sub, bw);
                }
            }
        }
        self.base_map.get_mut(i)
    }

    fn get_xy_mut(&mut self, xy: ICoord) -> (r: &mut Self::Type) {
        let xy2 = self.translate_xy(xy);
        self.base_map.get_xy_mut(xy2)
    }
}

} // verus!
