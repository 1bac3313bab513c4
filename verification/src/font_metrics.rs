use vstd::prelude::*;
use std::collections::HashMap;

use crate::tile::GlyphMetric;

verus! {

broadcast use vstd::std_specs::hash::group_hash_axioms;

/// The glyph metrics of a list by codepoint: a later metric for a codepoint replaces an
/// earlier one.
pub open spec fn metrics_by_codepoint(metrics: Seq<GlyphMetric>) -> Map<u32, GlyphMetric>
    decreases metrics.len(),
{
    if metrics.len() == 0 {
        Map::empty()
    } else {
        metrics_by_codepoint(metrics.drop_last()).insert(metrics.last().codepoint, metrics.last())
    }
}

/// The glyph metrics of the regular and outlined fonts, by codepoint.
pub struct FontMetricsHandler {
    /// Metrics of the regular font.
    regular: HashMap<u32, GlyphMetric>,
    /// Metrics of the outlined font.
    outline: HashMap<u32, GlyphMetric>,
}

/// Collects glyph metrics into a map by codepoint.
fn collect_metrics(metrics: Vec<GlyphMetric>) -> (r: HashMap<u32, GlyphMetric>)
    ensures
        r@ == metrics_by_codepoint(metrics@),
{
    let mut map: HashMap<u32, GlyphMetric> = HashMap::new();
    let mut i: usize = 0;
    while i < metrics.len()
        invariant
            i <= metrics@.len(),
            map@ == metrics_by_codepoint(metrics@.take(i as int)),
        decreases metrics.len() - i,
    {
        let metric = metrics[i];
        map.insert(metric.codepoint, metric);
        assert(metrics@.take(i + 1).drop_last() =~= metrics@.take(i as int));
        i = i + 1;
    }
    assert(metrics@.take(metrics@.len() as int) =~= metrics@);
    map
}

impl FontMetricsHandler {
    /// The regular font's metrics by codepoint.
    pub closed spec fn spec_regular(&self) -> Map<u32, GlyphMetric> {
        self.regular@
    }

    /// The outlined font's metrics by codepoint.
    pub closed spec fn spec_outline(&self) -> Map<u32, GlyphMetric> {
        self.outline@
    }

    /// Creates the handler from the parsed metrics of the regular and outlined fonts.
    pub fn from_metrics(regular: Vec<GlyphMetric>, outline: Vec<GlyphMetric>) -> (r: Self)
        ensures
            r.spec_regular() == metrics_by_codepoint(regular@),
            r.spec_outline() == metrics_by_codepoint(outline@),
    {
        let regular = collect_metrics(regular);
        let outline = collect_metrics(outline);
        FontMetricsHandler { regular, outline }
    }

    /// Returns the regular font's metrics by codepoint.
    pub fn regular(&self) -> (r: &HashMap<u32, GlyphMetric>)
        ensures
            r@ == self.spec_regular(),
    {
        &self.regular
    }

    /// Returns the outlined font's metrics by codepoint.
    pub fn outline(&self) -> (r: &HashMap<u32, GlyphMetric>)
        ensures
            r@ == self.spec_outline(),
    {
        &self.outline
    }
}

/// Exactly the codepoints of the list are found.
proof fn lemma_metrics_keys(metrics: Seq<GlyphMetric>, c: u32)
    ensures
        metrics_by_codepoint(metrics).contains_key(c) <==> exists|j: int|
            0 <= j < metrics.len() && metrics[j].codepoint == c,
    decreases metrics.len(),
{
    if metrics.len() > 0 {
        let rest = metrics.drop_last();
        lemma_metrics_keys(rest, c);
        let last = metrics.len() - 1;
        if metrics_by_codepoint(metrics).contains_key(c) {
            if c == metrics.last().codepoint {
                assert(metrics[last].codepoint == c);
            } else {
                let j = choose|j: int| 0 <= j < rest.len() && rest[j].codepoint == c;
                assert(metrics[j].codepoint == c);
            }
        }
        if exists|j: int| 0 <= j < metrics.len() && metrics[j].codepoint == c {
            let j = choose|j: int| 0 <= j < metrics.len() && metrics[j].codepoint == c;
            if j < last {
                assert(rest[j].codepoint == c);
            }
        }
    }
}

/// Every metric of the list is found under its codepoint unless a later metric has the same
/// codepoint, and exactly the codepoints of the list are found.
pub proof fn law_metrics_by_codepoint(metrics: Seq<GlyphMetric>, i: int, c: u32)
    requires
        0 <= i < metrics.len(),
    ensures
        (forall|j: int| i < j < metrics.len() ==> metrics[j].codepoint != metrics[i].codepoint)
            ==> metrics_by_codepoint(metrics)[metrics[i].codepoint] == metrics[i],
        metrics_by_codepoint(metrics).contains_key(c) <==> exists|j: int|
            0 <= j < metrics.len() && metrics[j].codepoint == c,
    decreases metrics.len(),
{
    lemma_metrics_keys(metrics, c);
    let last = metrics.len() - 1;
    if i < last {
        law_metrics_by_codepoint(metrics.drop_last(), i, c);
        assert forall|j: int| i < j < metrics.drop_last().len() implies metrics.drop_last()[j] == metrics[j] by {}
    }
}

} // verus!
