use vstd::prelude::*;

use crate::rich_text::chars_of;
use crate::tile::{FontMetricsV2, GlyphMetric};

verus! {

/// Width of an atlas whose glyphs are laid out in rows.
pub const ROW_ATLAS_WIDTH: u32 = 2048;

/// Height of an atlas whose glyphs are laid out in rows.
pub const ROW_ATLAS_HEIGHT: u32 = 2048;

/// Horizontal space between two glyphs of a row.
pub const ROW_X_PADDING: u32 = 2;

/// Vertical space between two rows.
pub const ROW_Y_PADDING: u32 = 2;

/// Width of an atlas whose glyphs are packed.
pub const PACKED_ATLAS_WIDTH: i32 = 1024;

/// Height of an atlas whose glyphs are packed.
pub const PACKED_ATLAS_HEIGHT: i32 = 1024;

/// Space between a packed glyph and the edge of the atlas.
pub const PACKED_BORDER_PADDING: i32 = 2;

/// Space between two packed glyphs.
pub const PACKED_GLYPH_PADDING: i32 = 2;

/// The font atlas a glyph is copied from.
#[derive(Clone, Copy, Debug, PartialEq, Eq, Structural)]
pub enum AtlasSource {
    /// The glyphs of the font.
    Font,
    /// The outlined glyphs of the font.
    Outline,
    /// The glyphs of the default font that the font lacks.
    DefaultFont,
    /// The outlined glyphs of the default font that the font lacks.
    DefaultOutline,
}

impl AtlasSource {
    /// Whether the glyph is a plain (not outlined) one.
    pub open spec fn spec_is_plain(self) -> bool {
        self == AtlasSource::Font || self == AtlasSource::DefaultFont
    }

    /// Returns whether the glyph is a plain (not outlined) one.
    pub fn is_plain(&self) -> (r: bool)
        ensures
            r == self.spec_is_plain(),
    {
        match self {
            AtlasSource::Font | AtlasSource::DefaultFont => true,
            AtlasSource::Outline | AtlasSource::DefaultOutline => false,
        }
    }
}

/// A glyph to copy: from where in which source atlas to where in the new atlas.
#[derive(Clone, Copy, Debug, PartialEq, Eq, Structural)]
pub struct GlyphCopy {
    /// The atlas the glyph comes from.
    pub source: AtlasSource,
    /// The glyph's metric in its source atlas.
    pub from: GlyphMetric,
    /// The glyph's metric in the new atlas.
    pub to: GlyphMetric,
}

/// A glyph that could not be placed in the new atlas.
#[derive(Clone, Copy, Debug, PartialEq, Eq, Structural)]
pub struct GlyphDoesNotFit {
    /// The atlas the glyph comes from.
    pub source: AtlasSource,
    /// The glyph's metric in its source atlas.
    pub glyph: GlyphMetric,
}

/// Where each glyph of a new atlas comes from, and the metrics of the new atlas.
#[derive(Clone, Debug)]
pub struct AtlasLayout {
    /// The copies, in the order they are made.
    pub copies: Vec<GlyphCopy>,
    /// The new metrics of the plain glyphs.
    pub regular: Vec<GlyphMetric>,
    /// The new metrics of the outlined glyphs.
    pub outline: Vec<GlyphMetric>,
}

/// The glyphs of a packed atlas and its new metrics.
#[derive(Clone, Debug)]
pub struct PackedAtlas {
    /// The copies, in the order they are made.
    pub copies: Vec<GlyphCopy>,
    /// The new metrics of the glyphs.
    pub metrics: FontMetricsV2,
}

/// A glyph waiting to be placed, with the height of the rows of its font.
pub type RowItem = (AtlasSource, GlyphMetric, u32);

/// The greatest height of the glyphs (0 for none).
pub open spec fn max_height(s: Seq<GlyphMetric>) -> u32
    decreases s.len(),
{
    if s.len() == 0 {
        0
    } else {
        let rest = max_height(s.drop_last());
        if s.last().height > rest {
            s.last().height
        } else {
            rest
        }
    }
}

/// Whether a font has a glyph for a codepoint.
pub open spec fn has_codepoint(font: Seq<GlyphMetric>, c: u32) -> bool {
    exists|j: int| 0 <= j < font.len() && font[j].codepoint == c
}

/// The glyphs of the default font whose codepoints the font lacks, in order.
pub open spec fn missing_glyphs(defaults: Seq<GlyphMetric>, font: Seq<GlyphMetric>) -> Seq<
    GlyphMetric,
> {
    defaults.filter(lacks(font))
}

/// Whether the font lacks a glyph's codepoint.
pub open spec fn lacks(font: Seq<GlyphMetric>) -> spec_fn(GlyphMetric) -> bool {
    |m: GlyphMetric| !has_codepoint(font, m.codepoint)
}

/// The glyphs of one font, each with its source and row height.
pub open spec fn tagged(s: Seq<GlyphMetric>, source: AtlasSource, row_height: u32) -> Seq<RowItem> {
    s.map_values(|m: GlyphMetric| (source, m, row_height))
}

/// The glyphs in the order they are placed: the font, its outline, then what the font lacks of
/// the default font and of the default outline.
pub open spec fn row_items(
    font: Seq<GlyphMetric>,
    outline: Seq<GlyphMetric>,
    default_font: Seq<GlyphMetric>,
    default_outline: Seq<GlyphMetric>,
    default_font_height: u32,
    default_outline_height: u32,
) -> Seq<RowItem> {
    tagged(font, AtlasSource::Font, max_height(font)) + tagged(
        outline,
        AtlasSource::Outline,
        max_height(outline),
    ) + tagged(missing_glyphs(default_font, font), AtlasSource::DefaultFont, default_font_height)
        + tagged(
        missing_glyphs(default_outline, font),
        AtlasSource::DefaultOutline,
        default_outline_height,
    )
}

/// Where a glyph goes from a cursor: on the same row, or at the start of the next row when it
/// would cross the right edge.
pub open spec fn wrap(x: int, y: int, item: RowItem) -> (int, int) {
    if x + item.1.width > ROW_ATLAS_WIDTH {
        (0, y + item.2 + ROW_Y_PADDING)
    } else {
        (x, y)
    }
}

/// The cursor after the first `n` glyphs are placed.
pub open spec fn cursor(items: Seq<RowItem>, n: nat) -> (int, int)
    decreases n,
{
    if n == 0 {
        (0, 0)
    } else {
        let prev = cursor(items, (n - 1) as nat);
        let item = items[n - 1];
        let p = wrap(prev.0, prev.1, item);
        (p.0 + item.1.width + ROW_X_PADDING, p.1)
    }
}

/// The position of the glyph at index `i`.
pub open spec fn row_position(items: Seq<RowItem>, i: int) -> (int, int) {
    let c = cursor(items, i as nat);
    wrap(c.0, c.1, items[i])
}

/// Whether the glyph at index `i` lies inside the atlas.
pub open spec fn fits_row(items: Seq<RowItem>, i: int) -> bool {
    let p = row_position(items, i);
    p.0 + items[i].1.width <= ROW_ATLAS_WIDTH && p.1 + items[i].1.height <= ROW_ATLAS_HEIGHT
}

/// A glyph moved to a position of the new atlas.
pub open spec fn moved(m: GlyphMetric, x: int, y: int) -> GlyphMetric {
    GlyphMetric {
        codepoint: m.codepoint,
        x: x as u32,
        y: y as u32,
        width: m.width,
        height: m.height,
        x_offset: m.x_offset,
        y_offset: m.y_offset,
    }
}

/// The copy of the glyph at index `i`.
pub open spec fn row_copy(items: Seq<RowItem>, i: int) -> GlyphCopy {
    let p = row_position(items, i);
    GlyphCopy { source: items[i].0, from: items[i].1, to: moved(items[i].1, p.0, p.1) }
}

/// The new metrics of the plain (or of the outlined) glyphs among the copies, in order.
pub open spec fn new_metrics(copies: Seq<GlyphCopy>, plain: bool) -> Seq<GlyphMetric> {
    copies.filter(|c: GlyphCopy| c.source.spec_is_plain() == plain).map_values(
        |c: GlyphCopy| c.to,
    )
}

/// A set of codepoints, held in a hash set of hashbrown.
#[verifier::external_body]
pub struct CodepointSet {
    set: hashbrown::HashSet<u32>,
}

/// The codepoints in a set.
pub uninterp spec fn codepoint_set_view(s: CodepointSet) -> Set<u32>;

impl CodepointSet {
    /// Calls `hashbrown::HashSet::new`, which gives an empty set.
    #[verifier::external_body]
    fn new() -> (r: CodepointSet)
        ensures
            codepoint_set_view(r) == Set::<u32>::empty(),
    {
        CodepointSet { set: hashbrown::HashSet::new() }
    }

    /// Calls `hashbrown::HashSet::insert`, which adds the codepoint and tells whether it was new.
    #[verifier::external_body]
    fn insert(&mut self, c: u32) -> (r: bool)
        ensures
            codepoint_set_view(*final(self)) == codepoint_set_view(*old(self)).insert(c),
            r == !codepoint_set_view(*old(self)).contains(c),
    {
        self.set.insert(c)
    }

    /// Calls `hashbrown::HashSet::contains`, which tells whether the codepoint is in the set.
    #[verifier::external_body]
    fn contains(&self, c: u32) -> (r: bool)
        ensures
            r == codepoint_set_view(*self).contains(c),
    {
        self.set.contains(&c)
    }
}

proof fn lemma_filter_take_step<A>(s: Seq<A>, p: spec_fn(A) -> bool, i: int)
    requires
        0 <= i < s.len(),
    ensures
        s.take(i + 1).filter(p) == (if p(s[i]) {
            s.take(i).filter(p).push(s[i])
        } else {
            s.take(i).filter(p)
        }),
{
    reveal(Seq::filter);
    assert(s.take(i + 1).drop_last() =~= s.take(i));
}

/// The greatest height of the glyphs (0 for none).
pub fn tallest(metrics: &Vec<GlyphMetric>) -> (r: u32)
    ensures
        r == max_height(metrics@),
        forall|i: int| 0 <= i < metrics.len() ==> #[trigger] metrics@[i].height <= r,
        metrics.len() > 0 ==> exists|i: int| 0 <= i < metrics.len() && #[trigger] metrics@[i].height == r,
        metrics.len() == 0 ==> r == 0,
{
    let mut m: u32 = 0;
    let mut i: usize = 0;
    while i < metrics.len()
        invariant
            i <= metrics.len(),
            m == max_height(metrics@.take(i as int)),
            forall|j: int| 0 <= j < i ==> #[trigger] metrics@[j].height <= m,
            i > 0 ==> exists|j: int| 0 <= j < i && #[trigger] metrics@[j].height == m,
            i == 0 ==> m == 0,
        decreases metrics.len() - i,
    {
        assert(metrics@.take(i as int + 1).drop_last() =~= metrics@.take(i as int));
        if metrics[i].height > m {
            m = metrics[i].height;
        }
        i += 1;
    }
    assert(metrics@.take(i as int) =~= metrics@);
    m
}

/// The codepoints of a font.
fn codepoints_of(font: &Vec<GlyphMetric>) -> (r: CodepointSet)
    ensures
        forall|c: u32| codepoint_set_view(r).contains(c) <==> has_codepoint(font@, c),
{
    let mut set = CodepointSet::new();
    let mut i: usize = 0;
    while i < font.len()
        invariant
            i <= font.len(),
            forall|c: u32|
                codepoint_set_view(set).contains(c) <==> exists|j: int|
                    0 <= j < i && #[trigger] font@[j].codepoint == c,
        decreases font.len() - i,
    {
        let ghost before = codepoint_set_view(set);
        set.insert(font[i].codepoint);
        assert forall|c: u32|
            codepoint_set_view(set).contains(c) <==> exists|j: int|
                0 <= j < i + 1 && #[trigger] font@[j].codepoint == c by {
            if codepoint_set_view(set).contains(c) && c != font@[i as int].codepoint {
                assert(before.contains(c));
            }
            if exists|j: int| 0 <= j < i + 1 && #[trigger] font@[j].codepoint == c {
                let j = choose|j: int| 0 <= j < i + 1 && #[trigger] font@[j].codepoint == c;
                if j < i {
                    assert(before.contains(c));
                }
            }
        }
        i += 1;
    }
    set
}

/// Appends the glyphs of one font, each with its source and row height.
fn push_tagged(
    items: &mut Vec<RowItem>,
    glyphs: &Vec<GlyphMetric>,
    source: AtlasSource,
    row_height: u32,
)
    ensures
        final(items)@ == old(items)@ + tagged(glyphs@, source, row_height),
{
    let ghost start = items@;
    let mut i: usize = 0;
    while i < glyphs.len()
        invariant
            i <= glyphs.len(),
            items@ == start + tagged(glyphs@.take(i as int), source, row_height),
        decreases glyphs.len() - i,
    {
        items.push((source, glyphs[i], row_height));
        assert(tagged(glyphs@.take(i as int + 1), source, row_height) =~= tagged(
            glyphs@.take(i as int),
            source,
            row_height,
        ).push((source, glyphs@[i as int], row_height)));
        i += 1;
    }
    assert(glyphs@.take(i as int) =~= glyphs@);
}

/// Appends the glyphs of a default font whose codepoints the font lacks.
fn push_missing(
    items: &mut Vec<RowItem>,
    defaults: &Vec<GlyphMetric>,
    font_codepoints: &CodepointSet,
    Ghost(font): Ghost<Seq<GlyphMetric>>,
    source: AtlasSource,
    row_height: u32,
)
    requires
        forall|c: u32| codepoint_set_view(*font_codepoints).contains(c) <==> has_codepoint(font, c),
    ensures
        final(items)@ == old(items)@ + tagged(missing_glyphs(defaults@, font), source, row_height),
{
    let ghost start = items@;
    let ghost keep = lacks(font);
    let mut i: usize = 0;
    while i < defaults.len()
        invariant
            i <= defaults.len(),
            forall|c: u32|
                codepoint_set_view(*font_codepoints).contains(c) <==> has_codepoint(font, c),
            keep == lacks(font),
            items@ == start + tagged(defaults@.take(i as int).filter(keep), source, row_height),
        decreases defaults.len() - i,
    {
        proof {
            lemma_filter_take_step(defaults@, keep, i as int);
        }
        let m = defaults[i];
        if !font_codepoints.contains(m.codepoint) {
            items.push((source, m, row_height));
            assert(tagged(defaults@.take(i as int + 1).filter(keep), source, row_height) =~= tagged(
                defaults@.take(i as int).filter(keep),
                source,
                row_height,
            ).push((source, m, row_height)));
        }
        i += 1;
    }
    assert(defaults@.take(i as int) =~= defaults@);
}

/// Whether the glyph at index `i` is the first one that does not fit.
pub open spec fn first_misfit(items: Seq<RowItem>, i: int) -> bool {
    &&& 0 <= i < items.len()
    &&& !fits_row(items, i)
    &&& forall|k: int| 0 <= k < i ==> fits_row(items, k)
}

/// Places the glyphs in rows, from the top left corner, until one does not fit.
fn place_rows(items: &Vec<RowItem>) -> (r: Result<Vec<GlyphCopy>, GlyphDoesNotFit>)
    ensures
        r is Ok <==> forall|i: int| 0 <= i < items.len() ==> fits_row(items@, i),
        match r {
            Ok(copies) => copies@ == Seq::new(items.len() as nat, |i: int| row_copy(items@, i)),
            Err(e) => exists|i: int|
                first_misfit(items@, i) && e == (GlyphDoesNotFit {
                    source: items@[i].0,
                    glyph: items@[i].1,
                }),
        },
{
    let mut copies: Vec<GlyphCopy> = Vec::new();
    let mut x: u64 = 0;
    let mut y: u64 = 0;
    let mut i: usize = 0;
    while i < items.len()
        invariant
            i <= items.len(),
            cursor(items@, i as nat) == (x as int, y as int),
            x <= ROW_ATLAS_WIDTH + ROW_X_PADDING,
            y <= ROW_ATLAS_HEIGHT,
            forall|j: int| 0 <= j < i ==> fits_row(items@, j),
            copies@ == Seq::new(i as nat, |j: int| row_copy(items@, j)),
        decreases items.len() - i,
    {
        let (source, glyph, row_height) = items[i];
        let width = glyph.width as u64;
        let height = glyph.height as u64;
        let (px, py) = if x + width > ROW_ATLAS_WIDTH as u64 {
            (0u64, y + row_height as u64 + ROW_Y_PADDING as u64)
        } else {
            (x, y)
        };
        assert(row_position(items@, i as int) == (px as int, py as int));
        if px + width > ROW_ATLAS_WIDTH as u64 || py + height > ROW_ATLAS_HEIGHT as u64 {
            assert(first_misfit(items@, i as int));
            return Err(GlyphDoesNotFit { source, glyph });
        }
        let to = GlyphMetric {
            codepoint: glyph.codepoint,
            x: px as u32,
            y: py as u32,
            width: glyph.width,
            height: glyph.height,
            x_offset: glyph.x_offset,
            y_offset: glyph.y_offset,
        };
        copies.push(GlyphCopy { source, from: glyph, to });
        assert(copies@ =~= Seq::new((i + 1) as nat, |j: int| row_copy(items@, j)));
        x = px + width + ROW_X_PADDING as u64;
        y = py;
        i += 1;
    }
    Ok(copies)
}

/// Splits the new metrics of the copies into those of the plain and of the outlined glyphs.
fn split_metrics(copies: &Vec<GlyphCopy>) -> (r: (Vec<GlyphMetric>, Vec<GlyphMetric>))
    ensures
        r.0@ == new_metrics(copies@, true),
        r.1@ == new_metrics(copies@, false),
{
    let ghost plain = |c: GlyphCopy| c.source.spec_is_plain() == true;
    let ghost outlined = |c: GlyphCopy| c.source.spec_is_plain() == false;
    let ghost to = |c: GlyphCopy| c.to;
    let mut regular: Vec<GlyphMetric> = Vec::new();
    let mut outline: Vec<GlyphMetric> = Vec::new();
    let mut i: usize = 0;
    while i < copies.len()
        invariant
            i <= copies.len(),
            plain == (|c: GlyphCopy| c.source.spec_is_plain() == true),
            outlined == (|c: GlyphCopy| c.source.spec_is_plain() == false),
            to == (|c: GlyphCopy| c.to),
            regular@ == copies@.take(i as int).filter(plain).map_values(to),
            outline@ == copies@.take(i as int).filter(outlined).map_values(to),
        decreases copies.len() - i,
    {
        proof {
            lemma_filter_take_step(copies@, plain, i as int);
            lemma_filter_take_step(copies@, outlined, i as int);
        }
        let c = copies[i];
        if c.source.is_plain() {
            regular.push(c.to);
            assert(copies@.take(i as int + 1).filter(plain).map_values(to) =~= copies@.take(
                i as int,
            ).filter(plain).map_values(to).push(c.to));
        } else {
            outline.push(c.to);
            assert(copies@.take(i as int + 1).filter(outlined).map_values(to) =~= copies@.take(
                i as int,
            ).filter(outlined).map_values(to).push(c.to));
        }
        i += 1;
    }
    assert(copies@.take(i as int) =~= copies@);
    (regular, outline)
}

/// Lays out a new atlas in rows: first the glyphs of the font, then its outlined glyphs, then
/// the glyphs of the default font and of the default outline whose codepoints the font lacks.
/// Each glyph goes right of the previous one, two pixels apart; one that would cross the right
/// edge starts a new row, below the last by the tallest glyph of its font (or the given height
/// for a default font) and two pixels. The first glyph that does not lie inside the atlas is
/// the error.
pub fn lay_out_rows(
    font: &Vec<GlyphMetric>,
    outline: &Vec<GlyphMetric>,
    default_font: &Vec<GlyphMetric>,
    default_outline: &Vec<GlyphMetric>,
    default_font_height: u32,
    default_outline_height: u32,
) -> (r: Result<AtlasLayout, GlyphDoesNotFit>)
    ensures
        ({
            let items = row_items(
                font@,
                outline@,
                default_font@,
                default_outline@,
                default_font_height,
                default_outline_height,
            );
            &&& r is Ok <==> forall|i: int| 0 <= i < items.len() ==> fits_row(items, i)
            &&& match r {
                Ok(layout) => {
                    &&& layout.copies@ == Seq::new(items.len(), |i: int| row_copy(items, i))
                    &&& layout.regular@ == new_metrics(layout.copies@, true)
                    &&& layout.outline@ == new_metrics(layout.copies@, false)
                },
                Err(e) => exists|i: int|
                    first_misfit(items, i) && e == (GlyphDoesNotFit {
                        source: items[i].0,
                        glyph: items[i].1,
                    }),
            }
        }),
{
    let font_height = tallest(font);
    let outline_height = tallest(outline);
    let font_codepoints = codepoints_of(font);
    let mut items: Vec<RowItem> = Vec::new();
    push_tagged(&mut items, font, AtlasSource::Font, font_height);
    push_tagged(&mut items, outline, AtlasSource::Outline, outline_height);
    push_missing(
        &mut items,
        default_font,
        &font_codepoints,
        Ghost(font@),
        AtlasSource::DefaultFont,
        default_font_height,
    );
    push_missing(
        &mut items,
        default_outline,
        &font_codepoints,
        Ghost(font@),
        AtlasSource::DefaultOutline,
        default_outline_height,
    );
    assert(items@ =~= row_items(
        font@,
        outline@,
        default_font@,
        default_outline@,
        default_font_height,
        default_outline_height,
    ));
    match place_rows(&items) {
        Ok(copies) => {
            let (regular, outline) = split_metrics(&copies);
            Ok(AtlasLayout { copies, regular, outline })
        },
        Err(e) => Err(e),
    }
}

#[verifier::external_type_specification]
#[verifier::external_body]
pub struct ExPacker(rect_packer::Packer);

/// The width, height, border padding and rectangle padding that a packer was made with.
pub uninterp spec fn packer_config(p: rect_packer::Packer) -> (int, int, int, int);

/// The sizes (width, height) that a packer was asked to pack, in order.
pub uninterp spec fn packer_history(p: rect_packer::Packer) -> Seq<(int, int)>;

/// Where a packer made with a configuration puts the last of a sequence of rectangles asked
/// for in turn, as (x, y), or `None` when it finds no room for it. The packer's skyline
/// algorithm decides this from the configuration and the sizes alone.
pub uninterp spec fn dense_pack(config: (int, int, int, int), sizes: Seq<(int, int)>) -> Option<
    (int, int),
>;

/// Whether two rectangles, as (x, y, width, height), lie apart with at least `gap` between
/// them along one axis.
pub open spec fn apart(a: (int, int, int, int), b: (int, int, int, int), gap: int) -> bool {
    ||| a.0 + a.2 + gap <= b.0
    ||| b.0 + b.2 + gap <= a.0
    ||| a.1 + a.3 + gap <= b.1
    ||| b.1 + b.3 + gap <= a.1
}

/// Calls `rect_packer::Packer::new` with a configuration of these sizes and paddings.
#[verifier::external_body]
fn new_packer(width: i32, height: i32, border_padding: i32, rectangle_padding: i32) -> (r:
    rect_packer::Packer)
    requires
        0 < width <= 0x10000,
        0 < height <= 0x10000,
        0 <= border_padding <= 0x10000,
        0 <= rectangle_padding <= 0x10000,
    ensures
        packer_config(r) == (width as int, height as int, border_padding as int, rectangle_padding as int),
        packer_history(r) == Seq::<(int, int)>::empty(),
{
    rect_packer::Packer::new(
        rect_packer::Config { width, height, border_padding, rectangle_padding },
    )
}

/// Calls `rect_packer::Packer::pack`, without rotation, for a rectangle no larger than the
/// packer. The size joins the packer's history, and the result is where `dense_pack` puts it
/// after the sizes asked before. On success the rectangle, as (x, y, width, height), has the
/// size asked for, lies inside the packer's area less its border padding, and keeps the
/// rectangle padding clear of every rectangle packed before: the packer places each one, grown
/// by that padding, on the skyline of those placed before it.
#[verifier::external_body]
fn pack(packer: &mut rect_packer::Packer, width: i32, height: i32) -> (r: Option<(i32, i32, i32, i32)>)
    requires
        0 < packer_config(*old(packer)).0 <= 0x10000,
        0 < packer_config(*old(packer)).1 <= 0x10000,
        0 <= packer_config(*old(packer)).2 <= 0x10000,
        0 <= packer_config(*old(packer)).3 <= 0x10000,
        0 < width <= packer_config(*old(packer)).0,
        0 < height <= packer_config(*old(packer)).1,
    ensures
        packer_config(*final(packer)) == packer_config(*old(packer)),
        packer_history(*final(packer)) == packer_history(*old(packer)).push(
            (width as int, height as int),
        ),
        r is None <==> dense_pack(packer_config(*old(packer)), packer_history(*final(packer))) is None,
        r matches Some(rect) ==> dense_pack(packer_config(*old(packer)), packer_history(*final(packer)))
            == Some((rect.0 as int, rect.1 as int)),
        match r {
            Some(rect) => {
                let c = packer_config(*old(packer));
                &&& rect.2 == width
                &&& rect.3 == height
                &&& c.2 <= rect.0 && rect.0 + width <= c.0 - c.2
                &&& c.2 <= rect.1 && rect.1 + height <= c.1 - c.2
            },
            None => true,
        },
        r matches Some(rect) ==> forall|k: int|
            0 <= k < packer_history(*old(packer)).len() ==> (#[trigger] dense_pack(
                packer_config(*old(packer)),
                packer_history(*old(packer)).take(k + 1),
            ) matches Some(q) ==> apart(
                (rect.0 as int, rect.1 as int, width as int, height as int),
                (
                    q.0,
                    q.1,
                    packer_history(*old(packer))[k].0,
                    packer_history(*old(packer))[k].1,
                ),
                packer_config(*old(packer)).3,
            )),
{
    packer.pack(width, height, false).map(|rect| (rect.x, rect.y, rect.width, rect.height))
}

/// The glyphs in the order they are packed: the font, then what it lacks of the default font
/// (packing has no rows, so their row heights are 0).
pub open spec fn packed_items(font: Seq<GlyphMetric>, default_font: Seq<GlyphMetric>) -> Seq<
    RowItem,
> {
    tagged(font, AtlasSource::Font, 0) + tagged(
        missing_glyphs(default_font, font),
        AtlasSource::DefaultFont,
        0,
    )
}

/// The configuration of the packer of a packed atlas.
pub open spec fn packed_config() -> (int, int, int, int) {
    (
        PACKED_ATLAS_WIDTH as int,
        PACKED_ATLAS_HEIGHT as int,
        PACKED_BORDER_PADDING as int,
        PACKED_GLYPH_PADDING as int,
    )
}

/// Whether the packer is asked to pack a glyph: its size is positive and no larger than the
/// atlas (a larger glyph cannot be packed).
pub open spec fn packer_asked(m: GlyphMetric) -> bool {
    0 < m.width <= PACKED_ATLAS_WIDTH && 0 < m.height <= PACKED_ATLAS_HEIGHT
}

/// The sizes that the packer is asked for by the first `n` glyphs.
pub open spec fn asked_sizes(items: Seq<RowItem>, n: int) -> Seq<(int, int)>
    decreases n,
{
    if n <= 0 {
        Seq::empty()
    } else {
        let prev = asked_sizes(items, n - 1);
        let m = items[n - 1].1;
        if packer_asked(m) {
            prev.push((m.width as int, m.height as int))
        } else {
            prev
        }
    }
}

/// Where the packer puts the glyph at index `i`, or `None`.
pub open spec fn packed_at(items: Seq<RowItem>, i: int) -> Option<(int, int)> {
    if packer_asked(items[i].1) {
        dense_pack(packed_config(), asked_sizes(items, i + 1))
    } else {
        None
    }
}

/// Whether the glyph at index `i` is the first that the packer finds no room for.
pub open spec fn first_unpacked(items: Seq<RowItem>, i: int) -> bool {
    &&& 0 <= i < items.len()
    &&& packed_at(items, i) is None
    &&& forall|k: int| 0 <= k < i ==> packed_at(items, k) is Some
}

/// The rectangle that a glyph covers, as (x, y, width, height).
pub open spec fn glyph_rect(m: GlyphMetric) -> (int, int, int, int) {
    (m.x as int, m.y as int, m.width as int, m.height as int)
}

/// The sizes asked by the first `n` glyphs begin the sizes asked by the first `m`.
proof fn lemma_asked_sizes_prefix(items: Seq<RowItem>, n: int, m: int)
    requires
        0 <= n <= m,
    ensures
        asked_sizes(items, n).len() <= asked_sizes(items, m).len(),
        asked_sizes(items, m).take(asked_sizes(items, n).len() as int) =~= asked_sizes(items, n),
    decreases m - n,
{
    if n < m {
        lemma_asked_sizes_prefix(items, n, m - 1);
        let prev = asked_sizes(items, m - 1);
        let len = asked_sizes(items, n).len() as int;
        assert(prev.push((items[m - 1].1.width as int, items[m - 1].1.height as int)).take(len)
            =~= prev.take(len));
    }
}

/// Whether a glyph moved into a packed atlas lies inside it, clear of its border.
pub open spec fn inside_packed_atlas(m: GlyphMetric) -> bool {
    &&& PACKED_BORDER_PADDING <= m.x
    &&& m.x + m.width <= PACKED_ATLAS_WIDTH - PACKED_BORDER_PADDING
    &&& PACKED_BORDER_PADDING <= m.y
    &&& m.y + m.height <= PACKED_ATLAS_HEIGHT - PACKED_BORDER_PADDING
}

/// The copy of a glyph to where the packer put it, or the glyph as the error when the packer
/// found no room (`None`).
pub fn place_packed(item: RowItem, rect: Option<(i32, i32, i32, i32)>) -> (r: Result<
    GlyphCopy,
    GlyphDoesNotFit,
>)
    requires
        rect matches Some(p) ==> p.0 >= 0 && p.1 >= 0,
    ensures
        match rect {
            Some(p) => r == Ok::<GlyphCopy, GlyphDoesNotFit>(
                GlyphCopy { source: item.0, from: item.1, to: moved(item.1, p.0 as int, p.1 as int) },
            ),
            None => r == Err::<GlyphCopy, GlyphDoesNotFit>(
                GlyphDoesNotFit { source: item.0, glyph: item.1 },
            ),
        },
{
    let (source, glyph, _) = item;
    match rect {
        Some((x, y, _, _)) => Ok(
            GlyphCopy {
                source,
                from: glyph,
                to: GlyphMetric {
                    codepoint: glyph.codepoint,
                    x: x as u32,
                    y: y as u32,
                    width: glyph.width,
                    height: glyph.height,
                    x_offset: glyph.x_offset,
                    y_offset: glyph.y_offset,
                },
            },
        ),
        None => Err(GlyphDoesNotFit { source, glyph }),
    }
}

/// Packs the glyphs of a font, then those of the default font whose codepoints the font lacks,
/// into a new atlas, each clear of the border and of the others by two pixels, where the packer
/// puts it. A glyph larger than the atlas, or the first one for which the packer finds no room,
/// is the error.
pub fn lay_out_packed(font: &Vec<GlyphMetric>, default_font: &Vec<GlyphMetric>) -> (r: Result<
    PackedAtlas,
    GlyphDoesNotFit,
>)
    ensures
        ({
            let items = packed_items(font@, default_font@);
            &&& r is Ok <==> forall|i: int| 0 <= i < items.len() ==> packed_at(items, i) is Some
            &&& match r {
                Ok(atlas) => {
                    &&& atlas.copies.len() == items.len()
                    &&& forall|i: int|
                        0 <= i < items.len() ==> {
                            let c = #[trigger] atlas.copies@[i];
                            let p = packed_at(items, i)->0;
                            &&& c.source == items[i].0
                            &&& c.from == items[i].1
                            &&& c.to == moved(items[i].1, p.0, p.1)
                            &&& inside_packed_atlas(c.to)
                        }
                    &&& forall|a: int, b: int|
                        0 <= a < b < items.len() ==> apart(
                            glyph_rect(#[trigger] atlas.copies@[a].to),
                            glyph_rect(#[trigger] atlas.copies@[b].to),
                            PACKED_GLYPH_PADDING as int,
                        )
                    &&& atlas.metrics.metrics@ == atlas.copies@.map_values(|c: GlyphCopy| c.to)
                },
                Err(e) => exists|i: int|
                    first_unpacked(items, i) && e == (GlyphDoesNotFit {
                        source: items[i].0,
                        glyph: items[i].1,
                    }),
            }
        }),
{
    let font_codepoints = codepoints_of(font);
    let mut items: Vec<RowItem> = Vec::new();
    push_tagged(&mut items, font, AtlasSource::Font, 0);
    push_missing(
        &mut items,
        default_font,
        &font_codepoints,
        Ghost(font@),
        AtlasSource::DefaultFont,
        0,
    );
    assert(items@ =~= packed_items(font@, default_font@));
    let mut packer = new_packer(
        PACKED_ATLAS_WIDTH,
        PACKED_ATLAS_HEIGHT,
        PACKED_BORDER_PADDING,
        PACKED_GLYPH_PADDING,
    );
    let mut copies: Vec<GlyphCopy> = Vec::new();
    let mut metrics: Vec<GlyphMetric> = Vec::new();
    let mut i: usize = 0;
    while i < items.len()
        invariant
            i <= items.len(),
            items@ == packed_items(font@, default_font@),
            packer_config(packer) == packed_config(),
            packer_history(packer) == asked_sizes(items@, i as int),
            copies.len() == i,
            forall|j: int|
                0 <= j < i ==> {
                    let c = #[trigger] copies@[j];
                    let p = packed_at(items@, j)->0;
                    &&& packed_at(items@, j) is Some
                    &&& c.source == items@[j].0
                    &&& c.from == items@[j].1
                    &&& c.to == moved(items@[j].1, p.0, p.1)
                    &&& c.to.x == p.0 && c.to.y == p.1
                    &&& inside_packed_atlas(c.to)
                },
            forall|a: int, b: int|
                0 <= a < b < i ==> apart(
                    glyph_rect(#[trigger] copies@[a].to),
                    glyph_rect(#[trigger] copies@[b].to),
                    PACKED_GLYPH_PADDING as int,
                ),
            metrics@ == copies@.map_values(|c: GlyphCopy| c.to),
        decreases items.len() - i,
    {
        let item = items[i];
        let glyph = item.1;
        let ghost old_hist = packer_history(packer);
        let rect = if 0 < glyph.width && glyph.width <= PACKED_ATLAS_WIDTH as u32 && 0
            < glyph.height && glyph.height <= PACKED_ATLAS_HEIGHT as u32 {
            pack(&mut packer, glyph.width as i32, glyph.height as i32)
        } else {
            None
        };
        proof {
            assert(asked_sizes(items@, i + 1) == packer_history(packer));
            assert(packed_at(items@, i as int) is None <==> rect is None);
            if let Some(q) = rect {
                assert(packed_at(items@, i as int) == Some((q.0 as int, q.1 as int)));
                let new_rect = (q.0 as int, q.1 as int, glyph.width as int, glyph.height as int);
                assert forall|a: int| 0 <= a < i implies apart(
                    glyph_rect(#[trigger] copies@[a].to),
                    new_rect,
                    PACKED_GLYPH_PADDING as int,
                ) by {
                    let ca = copies@[a];
                    let pa = packed_at(items@, a)->0;
                    assert(packer_asked(items@[a].1));
                    let k = asked_sizes(items@, a).len() as int;
                    assert(asked_sizes(items@, a + 1) == asked_sizes(items@, a).push(
                        (items@[a].1.width as int, items@[a].1.height as int),
                    ));
                    lemma_asked_sizes_prefix(items@, a + 1, i as int);
                    assert(old_hist.take(k + 1) == asked_sizes(items@, a + 1));
                    assert(old_hist[k] == old_hist.take(k + 1)[k]);
                    assert(dense_pack(packer_config(packer), old_hist.take(k + 1)) == Some(pa));
                }
            }
        }
        match place_packed(item, rect) {
            Ok(copy) => {
                let ghost old_copies = copies@;
                copies.push(copy);
                metrics.push(copy.to);
                assert(metrics@ =~= copies@.map_values(|c: GlyphCopy| c.to));
                assert(forall|a: int| 0 <= a < i ==> copies@[a] == old_copies[a]);
            },
            Err(e) => {
                assert forall|k: int| 0 <= k < i implies packed_at(items@, k) is Some by {
                    let _c = copies@[k];
                }
                assert(first_unpacked(items@, i as int));
                return Err(e);
            },
        }
        i += 1;
    }
    assert forall|k: int| 0 <= k < items@.len() implies packed_at(items@, k) is Some by {
        let _c = copies@[k];
    }
    Ok(PackedAtlas { copies, metrics: FontMetricsV2 { metrics } })
}

proof fn lemma_cursor_nonnegative(items: Seq<RowItem>, n: nat)
    requires
        n <= items.len(),
    ensures
        cursor(items, n).0 >= 0,
        cursor(items, n).1 >= 0,
    decreases n,
{
    if n > 0 {
        lemma_cursor_nonnegative(items, (n - 1) as nat);
    }
}

/// A glyph that fits is copied whole: inside the atlas, at its row position, with its
/// codepoint, size and offsets.
pub proof fn law_row_copy_inside_atlas(items: Seq<RowItem>, i: int)
    requires
        0 <= i < items.len(),
        fits_row(items, i),
    ensures
        ({
            let c = row_copy(items, i);
            &&& c.to.x == row_position(items, i).0
            &&& c.to.y == row_position(items, i).1
            &&& c.to.x + c.to.width <= ROW_ATLAS_WIDTH
            &&& c.to.y + c.to.height <= ROW_ATLAS_HEIGHT
            &&& c.to.codepoint == c.from.codepoint
            &&& c.to.width == c.from.width
            &&& c.to.height == c.from.height
            &&& c.to.x_offset == c.from.x_offset
            &&& c.to.y_offset == c.from.y_offset
        }),
{
    lemma_cursor_nonnegative(items, i as nat);
}

/// Whether a character is an ASCII decimal digit.
pub open spec fn is_decimal_digit(c: char) -> bool {
    '0' as u32 <= c as u32 <= '9' as u32
}

/// The number that a string of decimal digits writes.
pub open spec fn decimal_value(s: Seq<char>) -> int
    decreases s.len(),
{
    if s.len() == 0 {
        0
    } else {
        decimal_value(s.drop_last()) * 10 + (s.last() as u32 - '0' as u32)
    }
}

/// Whether a string is one or more decimal digits.
pub open spec fn is_decimal(s: Seq<char>) -> bool {
    s.len() > 0 && forall|i: int| 0 <= i < s.len() ==> is_decimal_digit(#[trigger] s[i])
}

/// The value of an unsigned integer written as an optional `+` and decimal digits, if it is
/// one and fits in a `u32`.
pub open spec fn decimal_u32(s: Seq<char>) -> Option<u32> {
    let digits = if s.len() > 0 && s[0] == '+' {
        s.drop_first()
    } else {
        s
    };
    if is_decimal(digits) && decimal_value(digits) <= u32::MAX {
        Some(decimal_value(digits) as u32)
    } else {
        None
    }
}

/// The value of an integer written as an optional `+` or `-` and decimal digits, if it is one
/// and fits in an `i32`.
pub open spec fn decimal_i32(s: Seq<char>) -> Option<i32> {
    let negative = s.len() > 0 && s[0] == '-';
    let digits = if s.len() > 0 && (s[0] == '+' || s[0] == '-') {
        s.drop_first()
    } else {
        s
    };
    let value = if negative {
        -decimal_value(digits)
    } else {
        decimal_value(digits)
    };
    if is_decimal(digits) && i32::MIN <= value <= i32::MAX {
        Some(value as i32)
    } else {
        None
    }
}

/// The value of digits is nonnegative, and no smaller than that of any prefix of them.
proof fn lemma_decimal_value_grows(s: Seq<char>, k: int)
    requires
        forall|i: int| 0 <= i < s.len() ==> is_decimal_digit(#[trigger] s[i]),
        0 <= k <= s.len(),
    ensures
        0 <= decimal_value(s.take(k)) <= decimal_value(s),
    decreases s.len(),
{
    if k == s.len() {
        assert(s.take(k) =~= s);
        if s.len() > 0 {
            lemma_decimal_value_grows(s.drop_last(), k - 1);
            assert(s.drop_last().take(k - 1) =~= s.drop_last());
        }
    } else {
        lemma_decimal_value_grows(s.drop_last(), k);
        assert(s.drop_last().take(k) =~= s.take(k));
        lemma_decimal_value_grows(s.drop_last(), s.len() - 1);
        assert(s.drop_last().take(s.len() - 1) =~= s.drop_last());
    }
}

/// Reads the decimal digits of `chars` from `start` on: their value if there is at least one,
/// they are all digits and the value is at most `limit`.
fn digits_value(chars: &Vec<char>, start: usize, limit: u64) -> (r: Option<u64>)
    requires
        start <= chars.len(),
        limit <= u32::MAX + 1,
    ensures
        is_decimal(chars@.skip(start as int)) ==> decimal_value(chars@.skip(start as int)) >= 0,
        ({
            let d = chars@.skip(start as int);
            r == (if is_decimal(d) && decimal_value(d) <= limit {
                Some(decimal_value(d) as u64)
            } else {
                None
            })
        }),
{
    let ghost d = chars@.skip(start as int);
    proof {
        if is_decimal(d) {
            lemma_decimal_value_grows(d, 0);
        }
    }
    if start == chars.len() {
        return None;
    }
    let mut acc: u64 = 0;
    let mut i: usize = start;
    while i < chars.len()
        invariant
            start <= i <= chars.len(),
            d == chars@.skip(start as int),
            limit <= u32::MAX + 1,
            forall|j: int| 0 <= j < i - start ==> is_decimal_digit(#[trigger] d[j]),
            acc == decimal_value(d.take(i - start)),
            acc <= limit,
        decreases chars.len() - i,
    {
        let c = chars[i];
        let cu = c as u32;
        assert(d[i - start] == chars@[i as int]);
        if cu < ('0' as u32) || cu > ('9' as u32) {
            assert(!is_decimal_digit(d[i - start]));
            return None;
        }
        let digit = (cu - '0' as u32) as u64;
        assert(d.take(i - start + 1).drop_last() =~= d.take(i - start));
        assert(d.take(i - start + 1).last() == c);
        let next = acc * 10 + digit;
        if next > limit {
            proof {
                if is_decimal(d) {
                    lemma_decimal_value_grows(d, i - start + 1);
                }
            }
            return None;
        }
        acc = next;
        i = i + 1;
    }
    assert(d.take(i - start) =~= d);
    Some(acc)
}

/// Reads an unsigned integer written as an optional `+` and decimal digits, as `str::parse::<u32>`
/// does: `None` on anything else or on a value too large for a `u32`.
fn parse_u32(s: &str) -> (r: Option<u32>)
    ensures
        r == decimal_u32(s@),
{
    let chars = chars_of(s);
    let start: usize = if chars.len() > 0 && chars[0] == '+' { 1 } else { 0 };
    assert(chars@.skip(start as int) =~= (if s@.len() > 0 && s@[0] == '+' {
        s@.drop_first()
    } else {
        s@
    }));
    let value = digits_value(&chars, start, 0xffff_ffff);
    let ghost d = chars@.skip(start as int);
    match value {
        Some(v) => {
            assert(is_decimal(d) && decimal_value(d) <= u32::MAX);
            assert(0 <= decimal_value(d) <= u64::MAX);
            assert(v == decimal_value(d));
            Some(v as u32)
        },
        None => None,
    }
}

/// Reads an integer written as an optional `+` or `-` and decimal digits, as `str::parse::<i32>`
/// does: `None` on anything else or on a value outside the range of an `i32`.
fn parse_i32(s: &str) -> (r: Option<i32>)
    ensures
        r == decimal_i32(s@),
{
    let chars = chars_of(s);
    let negative = chars.len() > 0 && chars[0] == '-';
    let start: usize = if chars.len() > 0 && (chars[0] == '+' || chars[0] == '-') { 1 } else { 0 };
    assert(chars@.skip(start as int) =~= (if s@.len() > 0 && (s@[0] == '+' || s@[0] == '-') {
        s@.drop_first()
    } else {
        s@
    }));
    let limit: u64 = if negative { 0x8000_0000 } else { 0x7fff_ffff };
    let value = digits_value(&chars, start, limit);
    let ghost d = chars@.skip(start as int);
    match value {
        Some(v) => {
            assert(is_decimal(d) && decimal_value(d) <= limit);
            assert(0 <= decimal_value(d) <= u64::MAX);
            assert(v == decimal_value(d));
            if negative {
                Some((0i64 - (v as i64)) as i32)
            } else {
                Some(v as i32)
            }
        },
        None => None,
    }
}

/// The attribute of a glyph's element that could not be read.
#[derive(Clone, Copy, Debug, PartialEq, Eq, Structural)]
pub enum MetricParseError {
    Codepoint,
    X,
    Y,
    Width,
    Height,
    XOffset,
    YOffset,
}

/// The metric that the attribute values of a glyph's element give, if all seven read.
pub open spec fn spec_glyph_metric(values: Seq<Seq<char>>) -> Result<GlyphMetric, MetricParseError> {
    if decimal_u32(values[0]) is None {
        Err(MetricParseError::Codepoint)
    } else if decimal_u32(values[1]) is None {
        Err(MetricParseError::X)
    } else if decimal_u32(values[2]) is None {
        Err(MetricParseError::Y)
    } else if decimal_u32(values[3]) is None {
        Err(MetricParseError::Width)
    } else if decimal_u32(values[4]) is None {
        Err(MetricParseError::Height)
    } else if decimal_i32(values[5]) is None {
        Err(MetricParseError::XOffset)
    } else if decimal_i32(values[6]) is None {
        Err(MetricParseError::YOffset)
    } else {
        Ok(
            GlyphMetric {
                codepoint: decimal_u32(values[0])->0,
                x: decimal_u32(values[1])->0,
                y: decimal_u32(values[2])->0,
                width: decimal_u32(values[3])->0,
                height: decimal_u32(values[4])->0,
                x_offset: decimal_i32(values[5])->0,
                y_offset: decimal_i32(values[6])->0,
            },
        )
    }
}

/// Reads a glyph's metric from the values of the first seven attributes of its element of a
/// font file, in the order id (the codepoint), x, y, width, height, x offset and y offset. The
/// error names the first attribute that is not a number of its type.
pub fn glyph_metric_from_attributes(values: &Vec<String>) -> (r: Result<
    GlyphMetric,
    MetricParseError,
>)
    requires
        values.len() >= 7,
    ensures
        r == spec_glyph_metric(values@.map_values(|v: String| v@)),
{
    let ghost views = values@.map_values(|v: String| v@);
    assert(views[0] == values@[0]@ && views[1] == values@[1]@ && views[2] == values@[2]@);
    assert(views[3] == values@[3]@ && views[4] == values@[4]@ && views[5] == values@[5]@);
    assert(views[6] == values@[6]@);
    let codepoint = match parse_u32(values[0].as_str()) {
        Some(v) => v,
        None => return Err(MetricParseError::Codepoint),
    };
    let x = match parse_u32(values[1].as_str()) {
        Some(v) => v,
        None => return Err(MetricParseError::X),
    };
    let y = match parse_u32(values[2].as_str()) {
        Some(v) => v,
        None => return Err(MetricParseError::Y),
    };
    let width = match parse_u32(values[3].as_str()) {
        Some(v) => v,
        None => return Err(MetricParseError::Width),
    };
    let height = match parse_u32(values[4].as_str()) {
        Some(v) => v,
        None => return Err(MetricParseError::Height),
    };
    let x_offset = match parse_i32(values[5].as_str()) {
        Some(v) => v,
        None => return Err(MetricParseError::XOffset),
    };
    let y_offset = match parse_i32(values[6].as_str()) {
        Some(v) => v,
        None => return Err(MetricParseError::YOffset),
    };
    Ok(GlyphMetric { codepoint, x, y, width, height, x_offset, y_offset })
}

proof fn lemma_missing_glyph_listed(defaults: Seq<GlyphMetric>, font: Seq<GlyphMetric>, j: int)
    requires
        0 <= j < defaults.len(),
        !has_codepoint(font, defaults[j].codepoint),
    ensures
        exists|m: int|
            0 <= m < missing_glyphs(defaults, font).len() && missing_glyphs(defaults, font)[m]
                == defaults[j],
{
    assert(lacks(font)(defaults[j]));
    defaults.lemma_filter_contains(lacks(font), j);
    assert(missing_glyphs(defaults, font).contains(defaults[j]));
}

proof fn lemma_filter_from<A>(s: Seq<A>, p: spec_fn(A) -> bool, m: int)
    requires
        0 <= m < s.filter(p).len(),
    ensures
        s.contains(s.filter(p)[m]),
    decreases s.len(),
{
    reveal(Seq::filter);
    let rest = s.drop_last().filter(p);
    if m < rest.len() {
        lemma_filter_from(s.drop_last(), p, m);
        let k = choose|k: int| 0 <= k < s.drop_last().len() && s.drop_last()[k] == rest[m];
        assert(s[k] == s.filter(p)[m]);
    } else {
        assert(s[s.len() - 1] == s.filter(p)[m]);
    }
}

/// Every codepoint of the default font gets a plain glyph: the font's own when it has one,
/// else the default font's.
pub proof fn law_rows_cover_default_font(
    font: Seq<GlyphMetric>,
    outline: Seq<GlyphMetric>,
    default_font: Seq<GlyphMetric>,
    default_outline: Seq<GlyphMetric>,
    default_font_height: u32,
    default_outline_height: u32,
    j: int,
)
    requires
        0 <= j < default_font.len(),
    ensures
        ({
            let items = row_items(
                font,
                outline,
                default_font,
                default_outline,
                default_font_height,
                default_outline_height,
            );
            exists|i: int|
                0 <= i < items.len() && items[i].0.spec_is_plain() && items[i].1.codepoint
                    == default_font[j].codepoint
        }),
{
    let items = row_items(
        font,
        outline,
        default_font,
        default_outline,
        default_font_height,
        default_outline_height,
    );
    let c = default_font[j].codepoint;
    let start = font.len() + outline.len();
    if has_codepoint(font, c) {
        let k = choose|k: int| 0 <= k < font.len() && font[k].codepoint == c;
        assert(items[k] == (AtlasSource::Font, font[k], max_height(font)));
    } else {
        lemma_missing_glyph_listed(default_font, font, j);
        let missing = missing_glyphs(default_font, font);
        let m = choose|m: int| 0 <= m < missing.len() && missing[m] == default_font[j];
        assert(items[start + m] == (AtlasSource::DefaultFont, missing[m], default_font_height));
    }
}

/// A glyph of a default font is placed only for a codepoint that the font lacks.
pub proof fn law_default_glyphs_only_fill_gaps(
    defaults: Seq<GlyphMetric>,
    font: Seq<GlyphMetric>,
    m: int,
)
    requires
        0 <= m < missing_glyphs(defaults, font).len(),
    ensures
        !has_codepoint(font, missing_glyphs(defaults, font)[m].codepoint),
        defaults.contains(missing_glyphs(defaults, font)[m]),
{
    defaults.lemma_filter_pred(lacks(font), m);
    lemma_filter_from(defaults, lacks(font), m);
}

/// Every codepoint of the default font gets a glyph in a packed atlas: the font's own when it
/// has one, else the default font's.
pub proof fn law_packing_covers_default_font(
    font: Seq<GlyphMetric>,
    default_font: Seq<GlyphMetric>,
    j: int,
)
    requires
        0 <= j < default_font.len(),
    ensures
        exists|i: int|
            0 <= i < packed_items(font, default_font).len() && packed_items(
                font,
                default_font,
            )[i].1.codepoint == default_font[j].codepoint,
{
    let items = packed_items(font, default_font);
    let c = default_font[j].codepoint;
    if has_codepoint(font, c) {
        let k = choose|k: int| 0 <= k < font.len() && font[k].codepoint == c;
        assert(items[k] == (AtlasSource::Font, font[k], 0u32));
    } else {
        lemma_missing_glyph_listed(default_font, font, j);
        let missing = missing_glyphs(default_font, font);
        let m = choose|m: int| 0 <= m < missing.len() && missing[m] == default_font[j];
        assert(items[font.len() + m] == (AtlasSource::DefaultFont, missing[m], 0u32));
    }
}

/// An element start of an XML document: its qualified name and the values of its attributes,
/// in order.
#[derive(Clone, Debug)]
pub struct XmlElement {
    /// The qualified name.
    pub name: String,
    /// The attribute values, in order.
    pub values: Vec<String>,
}

/// The view of element starts.
pub open spec fn elements_view(v: Seq<XmlElement>) -> Seq<(Seq<char>, Seq<Seq<char>>)> {
    v.map_values(|e: XmlElement| (e.name@, e.values@.map_values(|s: String| s@)))
}

/// An event of an XML document as the library reads it: an element start, or anything else.
pub enum XmlEvent {
    /// An element start.
    Start(XmlElement),
    /// Any other event.
    Other,
}

/// The view of an event: the element start's view, or `None` for any other event.
pub open spec fn event_view(e: XmlEvent) -> Option<(Seq<char>, Seq<Seq<char>>)> {
    match e {
        XmlEvent::Start(el) => Some((el.name@, el.values@.map_values(|s: String| s@))),
        XmlEvent::Other => None,
    }
}

/// The view of a sequence of events.
pub open spec fn events_view(v: Seq<XmlEvent>) -> Seq<Option<(Seq<char>, Seq<Seq<char>>)>> {
    v.map_values(|e: XmlEvent| event_view(e))
}

/// The events that xml-rs reads in a document, in order, each element start as its qualified
/// name and its attribute values and any other event as `None`, or `None` when it meets an
/// error.
pub uninterp spec fn xml_events(bytes: Seq<u8>) -> Option<Seq<Option<(Seq<char>, Seq<Seq<char>>)>>>;

/// Reads a document with xml-rs's `EventReader`: its events, element starts with their
/// qualified names (as `OwnedName` writes them) and attribute values, or `None` at the first
/// error.
#[verifier::external_body]
fn read_xml_events(bytes: &[u8]) -> (r: Option<Vec<XmlEvent>>)
    ensures
        r is None <==> xml_events(bytes@) is None,
        r matches Some(v) ==> xml_events(bytes@) == Some(events_view(v@)),
{
    let mut out = Vec::new();
    for event in xml::reader::EventReader::new(bytes) {
        match event {
            Ok(xml::reader::XmlEvent::StartElement { name, attributes, .. }) => out.push(
                XmlEvent::Start(XmlElement { name: name.to_string(), values: attributes.into_iter().map(|a| a.value).collect() }),
            ),
            Ok(_) => out.push(XmlEvent::Other),
            Err(_) => return None,
        }
    }
    Some(out)
}

/// The element starts among a document's events, in order.
pub open spec fn start_elements(events: Seq<Option<(Seq<char>, Seq<Seq<char>>)>>) -> Seq<
    (Seq<char>, Seq<Seq<char>>),
>
    decreases events.len(),
{
    if events.len() == 0 {
        Seq::empty()
    } else {
        match events[0] {
            Some(e) => seq![e] + start_elements(events.drop_first()),
            None => start_elements(events.drop_first()),
        }
    }
}

/// Keeps the element starts of a document's events, in order.
pub fn element_starts(events: Vec<XmlEvent>) -> (r: Vec<XmlElement>)
    ensures
        elements_view(r@) == start_elements(events_view(events@)),
{
    let mut rest = events;
    let mut out: Vec<XmlElement> = Vec::new();
    let ghost all = events_view(rest@);
    assert(elements_view(out@) =~= Seq::<(Seq<char>, Seq<Seq<char>>)>::empty());
    while rest.len() > 0
        invariant
            start_elements(all) == elements_view(out@) + start_elements(events_view(rest@)),
        decreases rest.len(),
    {
        let ghost before = rest@;
        let e = rest.remove(0);
        assert(events_view(rest@) =~= events_view(before).drop_first());
        assert(events_view(before)[0] == event_view(e));
        let ghost old_out = out@;
        match e {
            XmlEvent::Start(el) => {
                out.push(el);
                assert(elements_view(out@) =~= elements_view(old_out) + seq![event_view(XmlEvent::Start(el))->0]);
            },
            XmlEvent::Other => {},
        }
    }
    assert(events_view(rest@) =~= Seq::<Option<(Seq<char>, Seq<Seq<char>>)>>::empty());
    assert(elements_view(out@) + Seq::<(Seq<char>, Seq<Seq<char>>)>::empty() =~= elements_view(out@));
    out
}

/// Why a font file could not be read.
#[derive(Clone, Copy, Debug, PartialEq, Eq, Structural)]
pub enum FntError {
    /// The file is not well-formed XML.
    Xml,
    /// A `char` element has fewer than seven attributes.
    TooFewAttributes,
    /// An attribute of a `char` element is not a number of its type.
    Attribute(MetricParseError),
}

/// Whether an element is a glyph's: its name is `char`.
pub open spec fn is_char_element(e: (Seq<char>, Seq<Seq<char>>)) -> bool {
    e.0 == seq!['c', 'h', 'a', 'r']
}

/// The glyph metrics of the `char` elements among element starts, in order; the first `char`
/// element with fewer than seven attributes, or with one that does not read, is the error.
pub open spec fn spec_metrics_from_elements(elements: Seq<(Seq<char>, Seq<Seq<char>>)>) -> Result<
    Seq<GlyphMetric>,
    FntError,
>
    decreases elements.len(),
{
    if elements.len() == 0 {
        Ok(Seq::empty())
    } else {
        match spec_metrics_from_elements(elements.drop_last()) {
            Err(e) => Err(e),
            Ok(ms) => {
                let e = elements.last();
                if !is_char_element(e) {
                    Ok(ms)
                } else if e.1.len() < 7 {
                    Err(FntError::TooFewAttributes)
                } else {
                    match spec_glyph_metric(e.1) {
                        Ok(m) => Ok(ms.push(m)),
                        Err(a) => Err(FntError::Attribute(a)),
                    }
                }
            },
        }
    }
}

/// Whether a name is `char`.
fn is_char_name(name: &String) -> (r: bool)
    ensures
        r == (name@ == seq!['c', 'h', 'a', 'r']),
{
    let v = chars_of(name.as_str());
    if v.len() != 4 {
        return false;
    }
    let r = v[0] == 'c' && v[1] == 'h' && v[2] == 'a' && v[3] == 'r';
    assert(r ==> v@ =~= seq!['c', 'h', 'a', 'r']);
    r
}

/// The glyph metrics of the `char` elements among element starts: the values of the first seven
/// attributes of each are its id (the codepoint), x, y, width, height, x offset and y offset.
pub fn glyph_metrics_from_elements(elements: &Vec<XmlElement>) -> (r: Result<Vec<GlyphMetric>, FntError>)
    ensures
        match spec_metrics_from_elements(elements_view(elements@)) {
            Ok(ms) => r matches Ok(v) && v@ == ms,
            Err(e) => r == Err::<Vec<GlyphMetric>, FntError>(e),
        },
{
    let ghost view = elements_view(elements@);
    let mut out: Vec<GlyphMetric> = Vec::new();
    let mut i: usize = 0;
    while i < elements.len()
        invariant
            i <= elements.len(),
            view == elements_view(elements@),
            spec_metrics_from_elements(view.take(i as int)) == Ok::<Seq<GlyphMetric>, FntError>(out@),
        decreases elements.len() - i,
    {
        assert(view.take(i as int + 1).drop_last() =~= view.take(i as int));
        let e = &elements[i];
        assert(view.take(i as int + 1).last() == view[i as int]);
        if is_char_name(&e.name) {
            if e.values.len() < 7 {
                proof {
                    lemma_metrics_error_stays(view, i as int + 1);
                }
                return Err(FntError::TooFewAttributes);
            }
            match glyph_metric_from_attributes(&e.values) {
                Ok(m) => {
                    out.push(m);
                },
                Err(a) => {
                    proof {
                        lemma_metrics_error_stays(view, i as int + 1);
                    }
                    return Err(FntError::Attribute(a));
                },
            }
        }
        i += 1;
    }
    assert(view.take(i as int) =~= view);
    Ok(out)
}

/// Once reading the elements fails, it fails with the same error on every longer prefix.
proof fn lemma_metrics_error_stays(elements: Seq<(Seq<char>, Seq<Seq<char>>)>, n: int)
    requires
        0 <= n <= elements.len(),
        spec_metrics_from_elements(elements.take(n)) is Err,
    ensures
        spec_metrics_from_elements(elements) == spec_metrics_from_elements(elements.take(n)),
    decreases elements.len() - n,
{
    if n < elements.len() {
        assert(elements.take(n + 1).drop_last() =~= elements.take(n));
        lemma_metrics_error_stays(elements, n + 1);
    } else {
        assert(elements.take(n) =~= elements);
    }
}

/// Reads the glyph metrics of a font file (a bitmap font's XML description): those of its
/// `char` elements, in order. The error says whether the file is not well-formed XML, or which
/// `char` element could not be read.
pub fn glyph_metrics_from_fnt(bytes: &[u8]) -> (r: Result<Vec<GlyphMetric>, FntError>)
    ensures
        match xml_events(bytes@) {
            None => r == Err::<Vec<GlyphMetric>, FntError>(FntError::Xml),
            Some(events) => match spec_metrics_from_elements(start_elements(events)) {
                Ok(ms) => r matches Ok(v) && v@ == ms,
                Err(e) => r == Err::<Vec<GlyphMetric>, FntError>(e),
            },
        },
{
    match read_xml_events(bytes) {
        None => Err(FntError::Xml),
        Some(events) => {
            let elements = element_starts(events);
            glyph_metrics_from_elements(&elements)
        },
    }
}

} // verus!
