use fvr_engine::palette::{PaletteColor, TileColor};
use fvr_engine::rich_text::{parse_rich_text, RichTextError, RichTextHintType, RichTextValue};
use fvr_engine::tile::{TileLayout, TileSize, TileStyle};
use fvr_engine::widgets::rich_text_writer::{GlyphWrite, RichTextWriter, TextFormat};

fn hint(key: RichTextHintType, value: &str) -> RichTextValue {
    RichTextValue::FormatHint { key, value: value.to_string() }
}

fn text(t: &str) -> RichTextValue {
    RichTextValue::Text(t.to_string())
}

#[test]
fn test_parse_rich_text() {
    const TEST_STR: &str =
        "<l:t><si:n><st:bi><o:f><fc:Y><bc:k><<<oc:k>Hello, <l:c><o:t><fc:k><oc:R>world<l:t><o:f><fc:Y>!";

    assert_eq!(
        parse_rich_text(TEST_STR).unwrap(),
        vec![
            hint(RichTextHintType::Layout, "t"),
            hint(RichTextHintType::Size, "n"),
            hint(RichTextHintType::Style, "bi"),
            hint(RichTextHintType::Outlined, "f"),
            hint(RichTextHintType::ForegroundColor, "Y"),
            hint(RichTextHintType::BackgroundColor, "k"),
            text("<"),
            hint(RichTextHintType::OutlineColor, "k"),
            text("Hello, "),
            hint(RichTextHintType::Layout, "c"),
            hint(RichTextHintType::Outlined, "t"),
            hint(RichTextHintType::ForegroundColor, "k"),
            hint(RichTextHintType::OutlineColor, "R"),
            text("world"),
            hint(RichTextHintType::Layout, "t"),
            hint(RichTextHintType::Outlined, "f"),
            hint(RichTextHintType::ForegroundColor, "Y"),
            text("!"),
        ]
    );
}

#[test]
fn test_parse_plain_text_runs() {
    assert_eq!(parse_rich_text("abcdefg").unwrap(), vec![text("abcdefg")]);
    assert_eq!(parse_rich_text("abc\ndefg").unwrap(), vec![text("abc"), RichTextValue::Newline, text("defg")]);
    assert_eq!(parse_rich_text("\nabc").unwrap(), vec![RichTextValue::Newline, text("abc")]);
    assert_eq!(parse_rich_text("<<abcd").unwrap(), vec![text("<"), text("abcd")]);
}

#[test]
fn test_parse_hints_of_each_kind() {
    assert_eq!(parse_rich_text("<l:c>").unwrap(), vec![hint(RichTextHintType::Layout, "c")]);
    assert_eq!(
        parse_rich_text("<l:f>Hello").unwrap(),
        vec![hint(RichTextHintType::Layout, "f"), text("Hello")]
    );
    assert_eq!(parse_rich_text("<st:bi>").unwrap(), vec![hint(RichTextHintType::Style, "bi")]);
    assert_eq!(parse_rich_text("<st:b>").unwrap(), vec![hint(RichTextHintType::Style, "b")]);
    assert_eq!(parse_rich_text("<si:g>").unwrap(), vec![hint(RichTextHintType::Size, "g")]);
    assert_eq!(parse_rich_text("<o:t>").unwrap(), vec![hint(RichTextHintType::Outlined, "t")]);
    assert_eq!(parse_rich_text("<oc:$>").unwrap(), vec![hint(RichTextHintType::OutlineColor, "$")]);
    assert_eq!(
        parse_rich_text("<<l:c>").unwrap(),
        vec![text("<"), text("l:c>")]
    );
}

#[test]
fn test_parse_stops_at_unparsable() {
    assert_eq!(parse_rich_text("abc<zz>def").unwrap(), vec![text("abc")]);
    assert_eq!(parse_rich_text("<l:t>>\t").unwrap(), vec![hint(RichTextHintType::Layout, "t"), text(">\t")]);
    assert_eq!(parse_rich_text("<l:z>"), Err(RichTextError::NothingParsed));
    assert_eq!(parse_rich_text("<abcdefg"), Err(RichTextError::NothingParsed));
    assert_eq!(parse_rich_text(""), Err(RichTextError::NothingParsed));
}

#[test]
fn test_hint_round_trip() {
    for (key, value) in [
        (RichTextHintType::Layout, "t"),
        (RichTextHintType::Style, "i"),
        (RichTextHintType::Size, "b"),
        (RichTextHintType::Outlined, "f"),
        (RichTextHintType::ForegroundColor, "W"),
        (RichTextHintType::BackgroundColor, "T"),
        (RichTextHintType::OutlineColor, "c"),
    ] {
        let written = format!("<{}:{}>rest", key.to_key_value(), value);
        let parsed = parse_rich_text(&written).unwrap();
        assert_eq!(parsed[0], hint(key, value));
        assert_eq!(parsed[1], text("rest"));
    }
}

#[test]
fn test_format_hints_round_trip() {
    for style in [TileStyle::Regular, TileStyle::Bold, TileStyle::Italic, TileStyle::BoldItalic] {
        assert_eq!(TileStyle::from_format_hint(style.to_format_hint()), Ok(style));
    }
    for size in [TileSize::Small, TileSize::Normal, TileSize::Big, TileSize::Giant] {
        assert_eq!(TileSize::from_format_hint(size.to_format_hint()), Ok(size));
    }
    for layout in [TileLayout::Center, TileLayout::Floor, TileLayout::Text] {
        assert_eq!(TileLayout::from_format_hint(layout.to_format_hint()), Ok(layout));
    }
    assert_eq!(TileLayout::from_format_hint("e"), Ok(TileLayout::Exact(0, 0)));
    assert_eq!(PaletteColor::from_format_hint("$"), Ok(PaletteColor::Gold));
    assert_eq!(PaletteColor::Gold.to_format_hint(), "$");
    assert!(PaletteColor::from_format_hint("x").is_err());
    assert_eq!(TileStyle::from_format_hint("q").unwrap_err().hint, "q".to_string());
    assert!(TileSize::from_format_hint("").is_err());
}

#[test]
fn test_palette_colors() {
    assert_eq!(PaletteColor::White.const_into(), TileColor::rgba(255, 255, 255, 255));
    assert_eq!(TileColor::transparent(), TileColor::rgba(255, 255, 255, 0));
    assert_eq!(TileColor::rgb(1, 2, 3), TileColor::rgba(1, 2, 3, 255));
}

#[test]
fn test_stripped_len() {
    assert_eq!(RichTextWriter::stripped_len("<l:c>ab\ncd"), Ok(5));
    assert_eq!(RichTextWriter::stripped_len("<<x"), Ok(2));
    assert_eq!(RichTextWriter::stripped_len("<fc:R>"), Ok(0));
    assert_eq!(RichTextWriter::stripped_len("<q"), Err(RichTextError::NothingParsed));
}

#[test]
fn test_plain_glyph_writes() {
    let writes = RichTextWriter::plain_glyph_writes(3, (1, 0), "abc\nd", TextFormat::none());
    let cells: Vec<(i32, i32, char)> = writes.iter().map(|w| (w.x, w.y, w.glyph)).collect();
    assert_eq!(cells, vec![(1, 0, 'a'), (2, 0, 'b'), (1, 1, 'c'), (1, 2, 'd')]);
    assert!(writes.iter().all(|w| w.format == TextFormat::none()));
    assert_eq!(RichTextWriter::plain_glyph_writes(3, (0, 0), "", TextFormat::none()).len(), 0);
}

#[test]
fn test_plain_glyph_writes_within_width() {
    let writes = RichTextWriter::plain_glyph_writes(4, (2, 3), "hello world", TextFormat::none());
    assert_eq!(writes.len(), 11);
    assert!(writes.iter().all(|w| (w.x < 4 || w.x == 2) && w.x >= 2 && w.y >= 3));
}

#[test]
fn test_rich_glyph_writes() {
    let (writes, result) = RichTextWriter::rich_glyph_writes(3, (0, 0), "ab<fc:R>cd\ne");
    assert_eq!(result, Ok(()));
    let red = PaletteColor::BrightRed.const_into();
    let plain = TextFormat::none();
    let colored = TextFormat { foreground_color: Some(red), ..TextFormat::none() };
    assert_eq!(
        writes,
        vec![
            GlyphWrite { x: 0, y: 0, glyph: 'a', format: plain },
            GlyphWrite { x: 1, y: 0, glyph: 'b', format: plain },
            GlyphWrite { x: 2, y: 0, glyph: 'c', format: colored },
            GlyphWrite { x: 0, y: 1, glyph: 'd', format: colored },
            GlyphWrite { x: 0, y: 2, glyph: 'e', format: colored },
        ]
    );
    assert_eq!(RichTextWriter::stripped_len("ab<fc:R>cd\ne"), Ok(writes.len() + 1));
}

#[test]
fn test_rich_glyph_writes_formats() {
    let (writes, result) = RichTextWriter::rich_glyph_writes(10, (2, 2), "<l:c><st:b><si:g><o:t><bc:k><oc:Y>x");
    assert_eq!(result, Ok(()));
    assert_eq!(writes.len(), 1);
    let f = writes[0].format;
    assert_eq!(f.layout, Some(TileLayout::Center));
    assert_eq!(f.style, Some(TileStyle::Bold));
    assert_eq!(f.size, Some(TileSize::Giant));
    assert_eq!(f.outlined, Some(true));
    assert_eq!(f.background_color, Some(PaletteColor::Black.const_into()));
    assert_eq!(f.outline_color, Some(PaletteColor::White.const_into()));
    assert_eq!((writes[0].x, writes[0].y), (2, 2));
}

#[test]
fn test_rich_glyph_writes_parse_error() {
    let (writes, result) = RichTextWriter::rich_glyph_writes(10, (0, 0), "<nope>");
    assert!(writes.is_empty());
    assert!(result.is_err());
}

#[test]
fn test_lone_hints_parse_alone() {
    assert_eq!(parse_rich_text("<st:bi>").unwrap(), vec![hint(RichTextHintType::Style, "bi")]);
    assert_eq!(parse_rich_text("<oc:R>").unwrap(), vec![hint(RichTextHintType::OutlineColor, "R")]);
    assert_eq!(parse_rich_text("<l:c>").unwrap(), vec![hint(RichTextHintType::Layout, "c")]);
}
