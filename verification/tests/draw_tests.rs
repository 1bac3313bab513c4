use fvr_engine::palette::{PaletteColor, TileColor};
use fvr_engine::rich_text::RichTextError;
use fvr_engine::tile::{TileLayout, TileSize, TileStyle};
use fvr_engine::widgets::button::{Button, ButtonLayout};
use fvr_engine::widgets::frame::{Frame, FrameStyle};
use fvr_engine::widgets::scrollbar::Scrollbar;

fn cells(writes: &[fvr_engine::widgets::rich_text_writer::GlyphWrite]) -> Vec<(i32, i32, char)> {
    writes.iter().map(|w| (w.x, w.y, w.glyph)).collect()
}

#[test]
fn test_button_redraw_writes_by_state() {
    let mut b = Button::new((1, 2), "Ok".to_string(), ButtonLayout::Text);
    let writes = b.redraw_writes(80);
    assert_eq!(cells(&writes), vec![(1, 2, 'O'), (2, 2, 'k')]);
    assert_eq!(writes[0].format.layout, Some(TileLayout::Text));
    assert_eq!(writes[0].format.style, Some(TileStyle::Regular));
    assert_eq!(writes[0].format.foreground_color, Some(PaletteColor::BrightGrey.const_into()));
    b.update_with_mouse(Some((1, 2)), false, false);
    assert_eq!(b.format().foreground_color, Some(PaletteColor::Gold.const_into()));
    b.update_with_mouse(Some((1, 2)), true, true);
    assert_eq!(b.format().style, Some(TileStyle::Bold));
    let centered = Button::new((0, 0), "x".to_string(), ButtonLayout::Center);
    assert_eq!(centered.format().layout, Some(TileLayout::Center));
}

#[test]
fn test_frame_line_border_writes() {
    let frame = Frame::new((0, 0), (2, 1), FrameStyle::Line);
    let (writes, result) = frame.draw_writes(80);
    assert_eq!(result, Ok(()));
    assert_eq!(
        cells(&writes),
        vec![
            (0, 0, '\u{250C}'),
            (3, 0, '\u{2510}'),
            (3, 2, '\u{2518}'),
            (0, 2, '\u{2514}'),
            (1, 0, '\u{2500}'),
            (1, 2, '\u{2500}'),
            (2, 0, '\u{2500}'),
            (2, 2, '\u{2500}'),
            (0, 1, '\u{2502}'),
            (3, 1, '\u{2502}'),
        ]
    );
    assert!(writes.iter().all(|w| w.format.style == Some(TileStyle::Bold)));
    assert!(writes.iter().all(|w| w.format.foreground_color == Some(PaletteColor::White.const_into())));
}

#[test]
fn test_frame_fancy_and_system_borders() {
    let fancy = Frame::new((5, 5), (3, 0), FrameStyle::Fancy);
    let (writes, _) = fancy.draw_writes(80);
    let glyphs: Vec<char> = writes.iter().map(|w| w.glyph).collect();
    assert_eq!(
        glyphs,
        vec!['\u{25A0}', '\u{25A0}', '\u{25A0}', '\u{25A0}', '\u{2550}', '\u{2550}', '\u{2500}', '\u{2500}', '\u{2550}', '\u{2550}']
    );
    let system = Frame::new((0, 0), (1, 1), FrameStyle::System);
    let (writes, _) = system.draw_writes(80);
    assert_eq!(writes.len(), 8);
    assert!(writes.iter().all(|w| w.glyph == ' '
        && w.format.background_color == Some(PaletteColor::White.const_into())
        && w.format.foreground_color == Some(TileColor::transparent())));
    let blocks = Frame::new((0, 0), (1, 1), FrameStyle::DoubleLineBlockCorner);
    let (writes, _) = blocks.draw_writes(80);
    assert_eq!(writes.len(), 12);
    assert_eq!(writes[8].glyph, '\u{25A0}');
}

#[test]
fn test_frame_text_writes() {
    let mut frame = Frame::new((0, 0), (10, 3), FrameStyle::Simple);
    frame.top_left_text = Some("ab".to_string());
    frame.top_right_text = Some("xy".to_string());
    frame.bottom_right_text = Some("z".to_string());
    let (writes, result) = frame.draw_writes(80);
    assert_eq!(result, Ok(()));
    let border = 4 + 2 * 10 + 2 * 3;
    assert_eq!(cells(&writes[border..]), vec![(2, 0, 'a'), (3, 0, 'b'), (8, 0, 'x'), (9, 0, 'y'), (9, 4, 'z')]);
    assert!(writes[border..].iter().all(|w| w.format.layout == Some(TileLayout::Text) && w.format.style.is_none()));
    frame.top_right_text = Some("<bad".to_string());
    let (writes, result) = frame.draw_writes(80);
    assert_eq!(result, Err(RichTextError::NothingParsed));
    assert_eq!(writes.len(), border + 2);
}

#[test]
fn test_frame_inner_clear_writes() {
    let frame = Frame::new((1, 1), (2, 2), FrameStyle::Line);
    let writes = frame.inner_clear_writes();
    assert_eq!(cells(&writes), vec![(2, 2, ' '), (2, 3, ' '), (3, 2, ' '), (3, 3, ' ')]);
    assert!(writes.iter().all(|w| w.format.layout.is_none() && w.format.foreground_color.is_none()));
}

#[test]
fn test_scrollbar_track_writes() {
    let mut s = Scrollbar::new((3, 0), 6, 12);
    let writes = s.track_writes();
    assert_eq!(
        cells(&writes),
        vec![(3, 1, '|'), (3, 2, '|'), (3, 3, '|'), (3, 4, '|'), (3, 1, ' '), (3, 2, ' ')]
    );
    assert_eq!(writes[4].format.background_color, Some(PaletteColor::DarkGrey.const_into()));
    s.set_current_line(6);
    let writes = s.track_writes();
    assert_eq!(cells(&writes[4..]), vec![(3, 3, ' '), (3, 4, ' ')]);
    let unscrolled = Scrollbar::new((0, 0), 6, 3);
    assert_eq!(unscrolled.track_writes().len(), 4);
}

#[test]
fn test_tile_from_roll() {
    assert_eq!(TileStyle::from_roll(0), TileStyle::Regular);
    assert_eq!(TileStyle::from_roll(2), TileStyle::Italic);
    assert_eq!(TileStyle::from_roll(3), TileStyle::BoldItalic);
    assert_eq!(TileSize::from_roll(1), TileSize::Normal);
    assert_eq!(TileSize::from_roll(7), TileSize::Giant);
}
