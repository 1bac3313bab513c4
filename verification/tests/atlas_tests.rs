use fvr_engine::atlas::{
    glyph_metrics_from_fnt, FntError,
    glyph_metric_from_attributes, lay_out_packed, lay_out_rows, tallest, AtlasSource,
    GlyphDoesNotFit, MetricParseError, PACKED_ATLAS_HEIGHT, PACKED_ATLAS_WIDTH,
    PACKED_BORDER_PADDING, PACKED_GLYPH_PADDING,
};
use fvr_engine::tile::GlyphMetric;

fn glyph(codepoint: u32, x: u32, y: u32, width: u32, height: u32) -> GlyphMetric {
    GlyphMetric { codepoint, x, y, width, height, x_offset: 1, y_offset: -1 }
}

fn at(m: GlyphMetric, x: u32, y: u32) -> GlyphMetric {
    GlyphMetric { x, y, ..m }
}

#[test]
fn test_tallest() {
    assert_eq!(tallest(&vec![]), 0);
    assert_eq!(tallest(&vec![glyph(1, 0, 0, 3, 4), glyph(2, 0, 0, 3, 9), glyph(3, 0, 0, 3, 2)]), 9);
}

#[test]
fn test_lay_out_rows() {
    let a = glyph(65, 100, 100, 10, 5);
    let b = glyph(66, 200, 100, 20, 7);
    let wide = glyph(65, 0, 50, 2041, 4);
    let default_a = glyph(65, 7, 7, 8, 8);
    let default_c = glyph(67, 9, 9, 6, 3);
    let default_outline_c = glyph(67, 11, 11, 6, 3);

    let layout = lay_out_rows(
        &vec![a, b],
        &vec![wide],
        &vec![default_a, default_c],
        &vec![default_outline_c],
        30,
        40,
    )
    .unwrap();

    // The font's row, then the outline glyph wraps below it by the outline's tallest glyph.
    let expected_to = vec![
        at(a, 0, 0),
        at(b, 12, 0),
        at(wide, 0, 6),
        // The default glyph for 'A' is skipped; 'C' wraps below by the default font's height.
        at(default_c, 0, 38),
        at(default_outline_c, 8, 38),
    ];
    let sources: Vec<AtlasSource> = layout.copies.iter().map(|c| c.source).collect();
    assert_eq!(
        sources,
        vec![
            AtlasSource::Font,
            AtlasSource::Font,
            AtlasSource::Outline,
            AtlasSource::DefaultFont,
            AtlasSource::DefaultOutline,
        ]
    );
    let to: Vec<GlyphMetric> = layout.copies.iter().map(|c| c.to).collect();
    assert_eq!(to, expected_to);
    let from: Vec<GlyphMetric> = layout.copies.iter().map(|c| c.from).collect();
    assert_eq!(from, vec![a, b, wide, default_c, default_outline_c]);
    assert_eq!(layout.regular, vec![at(a, 0, 0), at(b, 12, 0), at(default_c, 0, 38)]);
    assert_eq!(layout.outline, vec![at(wide, 0, 6), at(default_outline_c, 8, 38)]);
}

#[test]
fn test_lay_out_rows_glyph_too_wide() {
    let a = glyph(65, 0, 0, 10, 5);
    let huge = glyph(66, 0, 0, 3000, 5);
    let r = lay_out_rows(&vec![a, huge], &vec![], &vec![], &vec![], 0, 0);
    assert_eq!(r.unwrap_err(), GlyphDoesNotFit { source: AtlasSource::Font, glyph: huge });
}

#[test]
fn test_lay_out_rows_runs_out_of_rows() {
    let tall = glyph(1, 0, 0, 1500, 1000);
    let r = lay_out_rows(&vec![tall, tall, tall], &vec![], &vec![], &vec![], 0, 0);
    // The rows start at 0 and 1002; the third would end below the atlas.
    assert_eq!(r.unwrap_err(), GlyphDoesNotFit { source: AtlasSource::Font, glyph: tall });
    let r = lay_out_rows(&vec![tall, tall], &vec![], &vec![], &vec![], 0, 0).unwrap();
    assert_eq!(r.regular[1], at(tall, 0, 1002));
}

#[test]
fn test_lay_out_packed() {
    let font: Vec<GlyphMetric> = (0..40).map(|c| glyph(c, c, 0, 30 + c % 7, 20 + c % 5)).collect();
    let defaults: Vec<GlyphMetric> = (30..50).map(|c| glyph(c, 0, c, 12, 14)).collect();
    let atlas = lay_out_packed(&font, &defaults).unwrap();
    assert_eq!(atlas.copies.len(), 50);
    for (i, copy) in atlas.copies.iter().enumerate() {
        let expected_from = if i < 40 { font[i] } else { defaults[i - 30] };
        assert_eq!(copy.from, expected_from);
        assert_eq!(copy.source, if i < 40 { AtlasSource::Font } else { AtlasSource::DefaultFont });
        assert_eq!(copy.to, at(copy.from, copy.to.x, copy.to.y));
        assert!(copy.to.x as i32 >= PACKED_BORDER_PADDING);
        assert!(copy.to.y as i32 >= PACKED_BORDER_PADDING);
        assert!((copy.to.x + copy.to.width) as i32 <= PACKED_ATLAS_WIDTH - PACKED_BORDER_PADDING);
        assert!(
            (copy.to.y + copy.to.height) as i32 <= PACKED_ATLAS_HEIGHT - PACKED_BORDER_PADDING
        );
    }
    // No two glyphs overlap, and the glyph padding lies between them.
    let gap = PACKED_GLYPH_PADDING as u32;
    for (i, a) in atlas.copies.iter().enumerate() {
        for b in atlas.copies.iter().skip(i + 1) {
            let apart = a.to.x + a.to.width + gap <= b.to.x
                || b.to.x + b.to.width + gap <= a.to.x
                || a.to.y + a.to.height + gap <= b.to.y
                || b.to.y + b.to.height + gap <= a.to.y;
            assert!(apart);
        }
    }
    let to: Vec<GlyphMetric> = atlas.copies.iter().map(|c| c.to).collect();
    assert_eq!(atlas.metrics.metrics, to);
}

#[test]
fn test_lay_out_packed_errors() {
    let huge = glyph(1, 0, 0, 2000, 10);
    let r = lay_out_packed(&vec![huge], &vec![]);
    assert_eq!(r.unwrap_err(), GlyphDoesNotFit { source: AtlasSource::Font, glyph: huge });

    let empty = glyph(2, 0, 0, 0, 10);
    let r = lay_out_packed(&vec![], &vec![empty]);
    assert_eq!(r.unwrap_err(), GlyphDoesNotFit { source: AtlasSource::DefaultFont, glyph: empty });

    let big = glyph(3, 0, 0, 600, 600);
    let r = lay_out_packed(&vec![big, big], &vec![]);
    assert_eq!(r.unwrap_err(), GlyphDoesNotFit { source: AtlasSource::Font, glyph: big });
}

fn strings(values: &[&str]) -> Vec<String> {
    values.iter().map(|s| s.to_string()).collect()
}

#[test]
fn test_glyph_metric_from_attributes() {
    let m = glyph_metric_from_attributes(&strings(&["65", "+12", "007", "9", "10", "-3", "+4"]));
    assert_eq!(
        m,
        Ok(GlyphMetric { codepoint: 65, x: 12, y: 7, width: 9, height: 10, x_offset: -3, y_offset: 4 })
    );
    let m = glyph_metric_from_attributes(&strings(&[
        "4294967295",
        "0",
        "0",
        "0",
        "0",
        "-2147483648",
        "2147483647",
        "extra",
    ]));
    assert_eq!(
        m,
        Ok(GlyphMetric {
            codepoint: u32::MAX,
            x: 0,
            y: 0,
            width: 0,
            height: 0,
            x_offset: i32::MIN,
            y_offset: i32::MAX,
        })
    );
}

#[test]
fn test_glyph_metric_from_attributes_errors() {
    let cases: Vec<(Vec<&str>, MetricParseError)> = vec![
        (vec!["A", "1", "1", "1", "1", "1", "1"], MetricParseError::Codepoint),
        (vec!["4294967296", "1", "1", "1", "1", "1", "1"], MetricParseError::Codepoint),
        (vec!["1", "-1", "1", "1", "1", "1", "1"], MetricParseError::X),
        (vec!["1", "1", " 1", "1", "1", "1", "1"], MetricParseError::Y),
        (vec!["1", "1", "1", "", "1", "1", "1"], MetricParseError::Width),
        (vec!["1", "1", "1", "1", "+", "1", "1"], MetricParseError::Height),
        (vec!["1", "1", "1", "1", "1", "2147483648", "1"], MetricParseError::XOffset),
        (vec!["1", "1", "1", "1", "1", "1", "-"], MetricParseError::YOffset),
        (vec!["x", "1", "1", "1", "1", "1", "-"], MetricParseError::Codepoint),
        (vec!["99999999999999999999999", "1", "1", "1", "1", "1", "1"], MetricParseError::Codepoint),
        (vec!["1", "1", "1", "1", "1", "-2147483649", "1"], MetricParseError::XOffset),
        (vec!["1", "1", "1", "1", "1", "1", "+-1"], MetricParseError::YOffset),
    ];
    for (values, error) in cases {
        assert_eq!(glyph_metric_from_attributes(&strings(&values)), Err(error));
    }
}

#[test]
fn test_glyph_metrics_from_fnt() {
    let fnt = r#"<?xml version="1.0"?>
<font>
  <info face="Test" size="32"/>
  <chars count="2">
    <char id="65" x="1" y="2" width="3" height="4" xoffset="-1" yoffset="5" page="0"/>
    <char id="66" x="10" y="20" width="30" height="40" xoffset="0" yoffset="+2" page="0"/>
  </chars>
</font>"#;
    let metrics = glyph_metrics_from_fnt(fnt.as_bytes()).unwrap();
    assert_eq!(
        metrics,
        vec![
            GlyphMetric { codepoint: 65, x: 1, y: 2, width: 3, height: 4, x_offset: -1, y_offset: 5 },
            GlyphMetric { codepoint: 66, x: 10, y: 20, width: 30, height: 40, x_offset: 0, y_offset: 2 },
        ]
    );
    assert_eq!(glyph_metrics_from_fnt(b"<font><char id=\"1\""), Err(FntError::Xml));
    assert_eq!(
        glyph_metrics_from_fnt(b"<font><char id=\"1\" x=\"2\"/></font>"),
        Err(FntError::TooFewAttributes)
    );
    assert_eq!(
        glyph_metrics_from_fnt(
            b"<font><char id=\"1\" x=\"2\" y=\"q\" width=\"1\" height=\"1\" xoffset=\"0\" yoffset=\"0\"/></font>"
        ),
        Err(FntError::Attribute(MetricParseError::Y))
    );
    assert_eq!(glyph_metrics_from_fnt(b"<font><page id=\"0\"/></font>"), Ok(vec![]));
}
