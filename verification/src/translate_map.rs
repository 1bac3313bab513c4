use vstd::prelude::*;

use crate::map2d::{grid_index, Map2dView, Map2dViewMut};
use crate::misc::{ICoord, Misc};
use crate::rect::Rect;

verus! {

/// How a `TranslateMap` moves its coordinates onto its base map.
pub enum MapTranslation<F: Fn(ICoord) -> ICoord> {
    /// Shifts every coordinate by the origin of a rect.
    SubSection(Rect),
    /// Maps every coordinate through a function.
    Lambda(F),
}

/// Whether a translating function may be called at a coordinate and always gives the same
/// coordinate there.
pub open spec fn lambda_ok<F: Fn(ICoord) -> ICoord>(f: F, xy: ICoord) -> bool {
    &&& call_requires(f, (xy,))
    &&& forall|a: ICoord, b: ICoord|
        #![trigger call_ensures(f, (xy,), a), call_ensures(f, (xy,), b)]
        call_ensures(f, (xy,), a) && call_ensures(f, (xy,), b) ==> a == b
}

/// The coordinate that a translating function gives at a coordinate.
pub open spec fn lambda_at<F: Fn(ICoord) -> ICoord>(f: F, xy: ICoord) -> ICoord {
    choose|r: ICoord| call_ensures(f, (xy,), r)
}

/// Whether a translation gives a coordinate for `xy`: a shift or no translation always does, a
/// function once a call of it at `xy` returns.
pub open spec fn translation_gives<F: Fn(ICoord) -> ICoord>(
    t: Option<MapTranslation<F>>,
    xy: ICoord,
) -> bool {
    match t {
        Some(MapTranslation::Lambda(f)) => exists|d: ICoord| call_ensures(f, (xy,), d),
        _ => true,
    }
}

/// Whether every coordinate that a translation may give for `xy` satisfies `p`.
pub open spec fn lands<F: Fn(ICoord) -> ICoord>(
    t: Option<MapTranslation<F>>,
    xy: ICoord,
    p: spec_fn(ICoord) -> bool,
) -> bool {
    match t {
        Some(MapTranslation::Lambda(f)) => forall|d: ICoord| #[trigger]
            call_ensures(f, (xy,), d) ==> p(d),
        _ => p(translated_xy(t, xy)),
    }
}

/// Whether a base coordinate can be joined into a base index along a width: it lies within the
/// columns, and the arithmetic fits an `i32`.
pub open spec fn index_fits(d: ICoord, width: int) -> bool {
    &&& 0 <= d.0 < width
    &&& i32::MIN <= d.1 * width <= i32::MAX
    &&& 0 <= d.0 + d.1 * width <= i32::MAX
}

/// Whether a translation can move a coordinate: a shift must fit an `i32`, and a function must
/// accept the coordinate.
pub open spec fn translation_xy_ok<F: Fn(ICoord) -> ICoord>(
    t: Option<MapTranslation<F>>,
    xy: ICoord,
) -> bool {
    match t {
        None => true,
        Some(MapTranslation::SubSection(r)) => {
            &&& i32::MIN <= xy.0 + r.x <= i32::MAX
            &&& i32::MIN <= xy.1 + r.y <= i32::MAX
        },
        Some(MapTranslation::Lambda(f)) => lambda_ok(f, xy),
    }
}

/// The base map coordinate of a coordinate under a translation: the coordinate itself when there
/// is none, the coordinate shifted by the rect's origin, or the function's result.
pub open spec fn translated_xy<F: Fn(ICoord) -> ICoord>(
    t: Option<MapTranslation<F>>,
    xy: ICoord,
) -> ICoord {
    match t {
        None => xy,
        Some(MapTranslation::SubSection(r)) => ((xy.0 + r.x) as i32, (xy.1 + r.y) as i32),
        Some(MapTranslation::Lambda(f)) => lambda_at(f, xy),
    }
}

/// The coordinate of a 1D index along a width.
pub open spec fn index_coord(index: int, width: int) -> ICoord {
    ((index % width) as i32, (index / width) as i32)
}

/// The base map index of an index under a translation: the index itself when there is none,
/// else the index split into a coordinate along the base map's width, translated, and joined
/// along that width again.
pub open spec fn translated_index<F: Fn(ICoord) -> ICoord>(
    t: Option<MapTranslation<F>>,
    index: int,
    width: int,
) -> int {
    match t {
        None => index,
        Some(_) => grid_index(translated_xy(t, index_coord(index, width)), width),
    }
}

/// Whether a translation can move an index: its coordinate can be translated, and every
/// coordinate the translation may give for it can be joined into a base index.
pub open spec fn translation_index_ok<F: Fn(ICoord) -> ICoord>(
    t: Option<MapTranslation<F>>,
    index: int,
    width: int,
) -> bool {
    match t {
        None => 0 <= index <= usize::MAX,
        Some(_) => {
            let c = index_coord(index, width);
            &&& width > 0
            &&& 0 <= index <= usize::MAX
            &&& index / width <= i32::MAX
            &&& translation_xy_ok(t, c)
            &&& lands(t, c, |d: ICoord| index_fits(d, width))
        },
    }
}

/// Whether a translating function sends a coordinate to a base coordinate that it sends no
/// other coordinate it accepts to. Shifts and the identity need no such condition.
pub open spec fn translation_xy_unique<F: Fn(ICoord) -> ICoord>(
    t: Option<MapTranslation<F>>,
    xy: ICoord,
) -> bool {
    match t {
        Some(MapTranslation::Lambda(f)) => forall|q: ICoord, a: ICoord, b: ICoord|
            #![trigger call_ensures(f, (q,), a), call_ensures(f, (xy,), b)]
            translation_xy_ok(t, q) && q != xy && call_ensures(f, (q,), a) && call_ensures(
                f,
                (xy,),
                b,
            ) ==> a != b,
        _ => true,
    }
}

/// Whether a translating function sends an index to a base index that it sends no other index
/// it can move to. Shifts and the identity need no such condition.
pub open spec fn translation_index_unique<F: Fn(ICoord) -> ICoord>(
    t: Option<MapTranslation<F>>,
    index: int,
    width: int,
) -> bool {
    match t {
        Some(MapTranslation::Lambda(f)) => forall|j: int, a: ICoord, b: ICoord|
            #![trigger call_ensures(f, (index_coord(j, width),), a), call_ensures(f, (index_coord(index, width),), b)]
            translation_index_ok(t, j, width) && j != index && call_ensures(
                f,
                (index_coord(j, width),),
                a,
            ) && call_ensures(f, (index_coord(index, width),), b) ==> grid_index(a, width)
                != grid_index(b, width),
        _ => true,
    }
}

/// Distinct indices that a shift or the identity can move reach distinct base indices.
proof fn lemma_shift_index_injective<F: Fn(ICoord) -> ICoord>(
    t: Option<MapTranslation<F>>,
    i: int,
    j: int,
    width: int,
)
    requires
        !(t matches Some(MapTranslation::Lambda(_))),
        width <= i32::MAX,
        translation_index_ok(t, i, width),
        translation_index_ok(t, j, width),
        translated_index(t, i, width) == translated_index(t, j, width),
    ensures
        i == j,
{
    if t is Some {
        let ci = index_coord(i, width);
        let cj = index_coord(j, width);
        let di = translated_xy(t, ci);
        let dj = translated_xy(t, cj);
        vstd::arithmetic::div_mod::lemma_fundamental_div_mod_converse(
            translated_index(t, i, width),
            width,
            di.1 as int,
            di.0 as int,
        );
        vstd::arithmetic::div_mod::lemma_fundamental_div_mod_converse(
            translated_index(t, j, width),
            width,
            dj.1 as int,
            dj.0 as int,
        );
        assert(di.1 * width == width * di.1) by (nonlinear_arith);
        assert(dj.1 * width == width * dj.1) by (nonlinear_arith);
        assert(di == dj);
        vstd::arithmetic::div_mod::lemma_fundamental_div_mod(i, width);
        vstd::arithmetic::div_mod::lemma_fundamental_div_mod(j, width);
        assert(0 <= i % width < width);
        assert(0 <= j % width < width);
        assert(0 <= i / width) by {
            vstd::arithmetic::div_mod::lemma_div_pos_is_pos(i, width);
        }
        assert(0 <= j / width) by {
            vstd::arithmetic::div_mod::lemma_div_pos_is_pos(j, width);
        }
        assert(ci.0 == i % width);
        assert(ci.1 == i / width);
        assert(cj.0 == j % width);
        assert(cj.1 == j / width);
        assert(ci == cj);
    }
}

/// A view of another map whose coordinates are moved by a translation before they reach it.
pub struct TranslateMap<'a, M: Map2dView + Map2dViewMut, F: Fn(ICoord) -> ICoord> {
    /// Base map of the translate map.
    base_map: &'a mut M,
    /// Translation applied to the coordinates, if any.
    translation: Option<MapTranslation<F>>,
}

impl<'a, M: Map2dView + Map2dViewMut, F: Fn(ICoord) -> ICoord> TranslateMap<'a, M, F> {
    /// The base map.
    pub closed spec fn base(&self) -> M {
        *self.base_map
    }

    /// The translation.
    pub closed spec fn spec_translation(&self) -> Option<MapTranslation<F>> {
        self.translation
    }

    /// Creates a new translate map.
    pub fn new(base_map: &'a mut M, translation: Option<MapTranslation<F>>) -> (r: Self)
        ensures
            r.base() == *old(base_map),
            r.spec_translation() == translation,
            r.map_valid() == old(base_map).map_valid(),
    {
        TranslateMap { base_map, translation }
    }

    /// Returns the translation.
    pub fn translation(&self) -> (r: &Option<MapTranslation<F>>)
        ensures
            *r == self.spec_translation(),
    {
        &self.translation
    }

    /// Returns the translation, from a mutable translate map.
    pub fn translation_mut(&mut self) -> (r: &Option<MapTranslation<F>>)
        ensures
            *r == old(self).spec_translation(),
            final(self).spec_translation() == old(self).spec_translation(),
            final(self).base() == old(self).base(),
    {
        &self.translation
    }

    /// A translate map reads and writes its base map, whose dimensions it has. It reads a coord
    /// whose translation gives a base coord (always so for a shift or no translation, and for a
    /// function once its call there returns) at that base coord, and can read it when the
    /// translation accepts it, sends no other coord it accepts to the same base coord, and every
    /// base coord it may give can be read. It reads an index likewise through the index's
    /// coord, joined again along the base map's width.
    pub proof fn law_translate_map_reads_base(&self, xy: ICoord, index: int)
        ensures
            self.map_valid() == self.base().map_valid(),
            self.spec_width() == self.base().spec_width(),
            self.spec_height() == self.base().spec_height(),
            translation_gives(self.spec_translation(), xy) ==> self.cell(xy) == self.base().cell(
                translated_xy(self.spec_translation(), xy),
            ),
            self.xy_ok(xy) == (translation_xy_ok(self.spec_translation(), xy)
                && translation_xy_unique(self.spec_translation(), xy) && lands(
                self.spec_translation(),
                xy,
                |d: ICoord| self.base().xy_ok(d),
            )),
            self.spec_translation() is None ==> self.cell_at(index) == self.base().cell_at(index),
            self.spec_translation() is Some && translation_gives(
                self.spec_translation(),
                index_coord(index, self.base().spec_width()),
            ) ==> self.cell_at(index) == self.base().cell_at(
                translated_index(self.spec_translation(), index, self.base().spec_width()),
            ),
            self.index_ok(index) == (translation_index_ok(
                self.spec_translation(),
                index,
                self.base().spec_width(),
            ) && translation_index_unique(self.spec_translation(), index, self.base().spec_width())
                && Self::index_lands(self.spec_translation(), index, self.base())),
    {
    }

    /// Whether every base index that a translation may give for an index can be read in the
    /// base map.
    pub open spec fn index_lands(t: Option<MapTranslation<F>>, index: int, base: M) -> bool {
        match t {
            None => base.index_ok(index),
            Some(_) => lands(
                t,
                index_coord(index, base.spec_width()),
                |d: ICoord| base.index_ok(grid_index(d, base.spec_width())),
            ),
        }
    }

    /// Translates a coord into a base map coord.
    fn translate_xy(&self, xy: ICoord) -> (r: ICoord)
        requires
            translation_xy_ok(self.translation, xy),
        ensures
            r == translated_xy(self.translation, xy),
            translation_gives(self.translation, xy),
            self.translation matches Some(MapTranslation::Lambda(f)) ==> call_ensures(f, (xy,), r),
    {
        match &self.translation {
            None => xy,
            Some(MapTranslation::SubSection(rect)) => (xy.0 + rect.x, xy.1 + rect.y),
            Some(MapTranslation::Lambda(f)) => {
                let r = f(xy);
                proof {
                    assert(call_ensures(*f, (xy,), lambda_at(*f, xy)));
                }
                r
            },
        }
    }

    /// Translates an index into a base map index.
    fn translate(&self, index: usize) -> (r: usize)
        requires
            self.base().map_valid(),
            translation_index_ok(self.translation, index as int, self.base().spec_width()),
        ensures
            r == translated_index(self.translation, index as int, self.base().spec_width()),
            self.translation is Some ==> translation_gives(
                self.translation,
                index_coord(index as int, self.base().spec_width()),
            ),
            self.translation matches Some(MapTranslation::Lambda(f)) ==> call_ensures(
                f,
                (index_coord(index as int, self.base().spec_width()),),
                translated_xy(self.translation, index_coord(index as int, self.base().spec_width())),
            ),
    {
        if self.translation.is_none() {
            return index;
        }
        let w = self.base_map.width();
        let c = Misc::reverse_index_2d(index, w);
        assert(index as int % (w as usize) as int == index as int % w as int);
        assert(index as int / (w as usize) as int == index as int / w as int);
        let d = self.translate_xy(c);
        let ghost t = self.translation;
        proof {
            if let Some(MapTranslation::Lambda(f)) = t {
                assert(call_ensures(f, (c,), d));
            }
            assert(index_fits(d, w as int));
        }
        Misc::index_2d(d, w)
    }
}

impl<'a, M: Map2dView + Map2dViewMut, F: Fn(ICoord) -> ICoord> Map2dView for TranslateMap<
    'a,
    M,
    F,
> {
    type Type = <M as Map2dView>::Type;

    closed spec fn map_valid(&self) -> bool {
        self.base_map.map_valid()
    }

    closed spec fn spec_width(&self) -> int {
        self.base_map.spec_width()
    }

    closed spec fn spec_height(&self) -> int {
        self.base_map.spec_height()
    }

    closed spec fn xy_ok(&self, xy: ICoord) -> bool {
        &&& translation_xy_ok(self.translation, xy)
        &&& translation_xy_unique(self.translation, xy)
        &&& lands(self.translation, xy, |d: ICoord| self.base_map.xy_ok(d))
    }

    closed spec fn cell(&self, xy: ICoord) -> Self::Type {
        if translation_gives(self.translation, xy) {
            self.base_map.cell(translated_xy(self.translation, xy))
        } else {
            vstd::pervasive::arbitrary()
        }
    }

    closed spec fn index_ok(&self, index: int) -> bool {
        &&& translation_index_ok(self.translation, index, self.base_map.spec_width())
        &&& translation_index_unique(self.translation, index, self.base_map.spec_width())
        &&& Self::index_lands(self.translation, index, *self.base_map)
    }

    closed spec fn cell_at(&self, index: int) -> Self::Type {
        if self.translation is None {
            self.base_map.cell_at(index)
        } else if translation_gives(
            self.translation,
            index_coord(index, self.base_map.spec_width()),
        ) {
            self.base_map.cell_at(
                translated_index(self.translation, index, self.base_map.spec_width()),
            )
        } else {
            vstd::pervasive::arbitrary()
        }
    }

    fn width(&self) -> (r: i32) {
        self.base_map.width()
    }

    fn height(&self) -> (r: i32) {
        self.base_map.height()
    }

    fn get(&self, index: usize) -> (r: &Self::Type)
        ensures
            self.spec_translation() is Some ==> translation_gives(
                self.spec_translation(),
                index_coord(index as int, self.spec_width()),
            ),
    {
        let i = self.translate(index);
        self.base_map.get(i)
    }

    fn get_xy(&self, xy: ICoord) -> (r: &Self::Type)
        ensures
            translation_gives(self.spec_translation(), xy),
    {
        let d = self.translate_xy(xy);
        self.base_map.get_xy(d)
    }
}

impl<'a, M: Map2dView + Map2dViewMut, F: Fn(ICoord) -> ICoord> Map2dViewMut for TranslateMap<
    'a,
    M,
    F,
> {
    fn get_mut(&mut self, index: usize) -> (r: &mut Self::Type)
        ensures
            old(self).spec_translation() is Some ==> translation_gives(
                old(self).spec_translation(),
                index_coord(index as int, old(self).spec_width()),
            ),
    {
        let _w = self.base_map.width();
        let i = self.translate(index);
        let ghost bw = self.base_map.spec_width();
        let ghost t = self.translation;
        let ghost base = *self.base_map;
        proof {
            assert forall|j: int|
                #[trigger] self.index_ok(j) && j != index && (t is None || translation_gives(
                    t,
                    index_coord(j, bw),
                )) implies base.index_ok(translated_index(t, j, bw)) && translated_index(t, j, bw)
                != i by {
                if t is Some {
                    let c = index_coord(j, bw);
                    if let Some(MapTranslation::Lambda(f)) = t {
                        assert(call_ensures(f, (c,), lambda_at(f, c)));
                        assert(call_ensures(f, (index_coord(index as int, bw),), translated_xy(t, index_coord(index as int, bw))));
                    } else if translated_index(t, j, bw) == i {
                        lemma_shift_index_injective(t, j, index as int, bw);
                    }
                }
            }
        }
        self.base_map.get_mut(i)
    }

    fn get_xy_mut(&mut self, xy: ICoord) -> (r: &mut Self::Type)
        ensures
            translation_gives(old(self).spec_translation(), xy),
    {
        let d = self.translate_xy(xy);
        let ghost t = self.translation;
        let ghost base = *self.base_map;
        proof {
            assert forall|p: ICoord|
                #[trigger] self.xy_ok(p) && p != xy && translation_gives(t, p) implies base.xy_ok(
                translated_xy(t, p),
            ) && translated_xy(t, p) != d by {
                if let Some(MapTranslation::Lambda(f)) = t {
                    assert(call_ensures(f, (p,), lambda_at(f, p)));
                }
            }
        }
        self.base_map.get_xy_mut(d)
    }
}

} // verus!
