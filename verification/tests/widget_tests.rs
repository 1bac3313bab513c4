use fvr_engine::input::{InputAction, InputKey, InputRepeat, RepeatInput, RepeatState};
use fvr_engine::input_manager::InputManager;
use fvr_engine::map2d::GridMap;
use fvr_engine::rich_text::{RichTextError, RichTextHintType};
use fvr_engine::widgets::button::{Button, ButtonAction, ButtonLayout, ButtonState};
use fvr_engine::widgets::button_list::{ButtonList, ButtonListAction};
use fvr_engine::widgets::format_state::FormatState;
use fvr_engine::widgets::frame::{Frame, FrameStyle, FrameTextPosition};
use fvr_engine::widgets::rich_text_wrapper::RichTextWrapper;
use fvr_engine::widgets::scroll_log::{ScrollLog, ScrollLogAction};
use fvr_engine::widgets::scrollbar::{Scrollbar, ScrollbarAction};

fn chars(s: &str) -> Vec<char> {
    s.chars().collect()
}

#[test]
fn test_button_press_and_release_triggers() {
    let mut b = Button::new((2, 1), "Play".to_string(), ButtonLayout::Center);
    assert_eq!(b.state(), ButtonState::Default);
    assert_eq!(b.update_with_mouse(None, false, false), ButtonAction::Noop);
    assert_eq!(b.update_with_mouse(Some((3, 1)), false, false), ButtonAction::Interactable);
    assert_eq!(b.state(), ButtonState::Focused);
    assert_eq!(b.update_with_mouse(Some((3, 1)), true, true), ButtonAction::Interactable);
    assert_eq!(b.state(), ButtonState::Pressed);
    assert_eq!(b.update_with_mouse(Some((4, 1)), false, true), ButtonAction::Interactable);
    assert_eq!(b.update_with_mouse(Some((4, 1)), false, false), ButtonAction::Triggered);
    assert_eq!(b.state(), ButtonState::Focused);
    assert_eq!(b.update_with_mouse(Some((6, 1)), false, false), ButtonAction::Noop);
    assert_eq!(b.state(), ButtonState::Default);
    assert_eq!(b.origin(), (2, 1));
    assert_eq!(b.text(), "Play");
}

#[test]
fn test_button_leaving_while_pressed_cancels() {
    let mut b = Button::new((0, 0), "Go".to_string(), ButtonLayout::Text);
    b.update_with_mouse(Some((0, 0)), false, false);
    b.update_with_mouse(Some((1, 0)), true, true);
    assert_eq!(b.state(), ButtonState::Pressed);
    assert_eq!(b.update_with_mouse(Some((1, 1)), false, false), ButtonAction::Noop);
    assert_eq!(b.state(), ButtonState::Default);
    b.update_with_mouse(Some((0, 0)), false, false);
    b.reset();
    assert_eq!(b.state(), ButtonState::Default);
}

#[test]
fn test_button_list_layout_and_actions() {
    let buttons = vec![
        Button::new((0, 0), "One".to_string(), ButtonLayout::Center),
        Button::new((0, 0), "Three".to_string(), ButtonLayout::Center),
        Button::new((0, 0), "Two".to_string(), ButtonLayout::Center),
    ];
    let mut list = ButtonList::from_buttons_vec((4, 2), buttons, true);
    assert_eq!(list.origin(), (4, 2));
    assert_eq!(list.height(), 5);
    assert_eq!(list.width(), 5);
    assert_eq!(list.update_with_mouse(Some((5, 4)), false, false), ButtonListAction::Interactable);
    assert_eq!(list.update_with_mouse(Some((5, 4)), true, true), ButtonListAction::Interactable);
    assert_eq!(list.update_with_mouse(Some((5, 4)), false, false), ButtonListAction::Triggered(1));
    assert_eq!(list.update_with_mouse(Some((0, 0)), false, false), ButtonListAction::Noop);
    list.set_origin((0, 0));
    assert_eq!(list.update_with_mouse(Some((0, 4)), false, false), ButtonListAction::Interactable);
    list.reset();
    list.clear();
    assert_eq!(list.width(), 0);
}

#[test]
fn test_button_list_push() {
    let mut list = ButtonList::new((1, 1), false);
    list.push(Button::new((0, 0), "A".to_string(), ButtonLayout::Text));
    list.push(Button::new((0, 0), "BB".to_string(), ButtonLayout::Text));
    assert_eq!(list.height(), 2);
    assert_eq!(list.buttons()[0].origin(), (1, 1));
    assert_eq!(list.buttons()[1].origin(), (1, 2));
    assert_eq!(list.update_with_mouse(Some((1, 3)), false, false), ButtonListAction::Noop);
    assert_eq!(list.update_with_mouse(Some((1, 2)), false, false), ButtonListAction::Interactable);

    // Pushing lays the buttons out as building the list from a vec does.
    let mut pushed = ButtonList::new((0, 0), true);
    assert_eq!(pushed.height(), 0);
    pushed.push(Button::new((9, 9), "a".to_string(), ButtonLayout::Center));
    pushed.push(Button::new((9, 9), "b".to_string(), ButtonLayout::Center));
    let built = ButtonList::from_buttons_vec(
        (0, 0),
        vec![
            Button::new((9, 9), "a".to_string(), ButtonLayout::Center),
            Button::new((9, 9), "b".to_string(), ButtonLayout::Center),
        ],
        true,
    );
    assert_eq!(pushed.buttons()[0].origin(), built.buttons()[0].origin());
    assert_eq!(pushed.buttons()[1].origin(), (0, 2));
    assert_eq!(built.buttons()[1].origin(), (0, 2));
    assert_eq!(pushed.height(), 3);
    assert_eq!(ButtonList::new((0, 0), false).height(), 0);
}

#[test]
fn test_frame_basics() {
    let mut frame = Frame::new((1, 1), (6, 4), FrameStyle::Line);
    assert_eq!(frame.width(), 8);
    assert_eq!(frame.height(), 6);
    assert_eq!(frame.inner_dimensions(), (6, 4));
    frame.top_left_text = Some("Log".to_string());
    frame.clear_text();
    assert!(frame.top_left_text.is_none());
    let map: GridMap<u32> = GridMap::new((20, 10));
    frame.center(&map);
    assert_eq!(frame.origin(), (6, 2));
    let mut small = Frame::new((0, 0), (5, 5), FrameStyle::Simple);
    let square: GridMap<u32> = GridMap::new((11, 11));
    small.center(&square);
    assert_eq!(small.origin(), (2, 2));
}

#[test]
fn test_format_state_tag_string() {
    let mut state = FormatState::new();
    assert!(state.tag_string().is_empty());
    state.update_from_hint(RichTextHintType::Layout, "c".to_string());
    state.update_from_hint(RichTextHintType::ForegroundColor, "R".to_string());
    assert_eq!(state.tag_string(), "<l:c><fc:R>");
    state.update_from_hint(RichTextHintType::OutlineColor, "Y".to_string());
    assert_eq!(state.tag_string(), "<l:c><fc:R><oc:Y>");
    state.clear();
    assert!(state.tag_string().is_empty());
    state.update_from_hint(RichTextHintType::Style, "b".to_string());
    assert_eq!(state.tag_string(), "<st:b>");
}

#[test]
fn test_wrapper_wraps_words() {
    let mut w = RichTextWrapper::new((0, 0), (10, 3), 100);
    assert_eq!(w.append("Hello world foo bar"), Ok(()));
    assert_eq!(w.total_lines(), 3);
    assert_eq!(w.lines_up(), 0);
    assert_eq!(w.lines_down(), 0);
    assert!(!w.has_overflow());
    assert_eq!(w.visible_text().unwrap(), chars("Hello\nworld foo\nbar"));
}

#[test]
fn test_wrapper_keeps_format_on_new_lines() {
    let mut w = RichTextWrapper::new((0, 0), (20, 5), 100);
    assert_eq!(w.append("<fc:R>red\nmore"), Ok(()));
    assert_eq!(w.visible_text().unwrap(), chars("<fc:R>red\n<fc:R>more"));
    assert_eq!(w.append(" text"), Ok(()));
    assert_eq!(w.visible_text().unwrap(), chars("<fc:R>red\n<fc:R>more text"));
}

#[test]
fn test_wrapper_scrolling() {
    let mut w = RichTextWrapper::new((0, 0), (10, 2), 100);
    assert_eq!(w.append("a\nb\nc\nd\ne"), Ok(()));
    assert_eq!(w.total_lines(), 5);
    assert!(w.has_overflow());
    assert_eq!(w.lines_down(), 3);
    assert_eq!(w.visible_text().unwrap(), chars("a\nb"));
    w.scroll_down(1);
    assert_eq!(w.lines_up(), 1);
    assert_eq!(w.lines_down(), 2);
    assert_eq!(w.visible_text().unwrap(), chars("b\nc"));
    w.scroll_down(10);
    assert_eq!(w.lines_up(), 3);
    assert_eq!(w.lines_down(), 0);
    assert_eq!(w.visible_text().unwrap(), chars("d\ne"));
    w.scroll_up(2);
    assert_eq!(w.lines_up(), 1);
    w.scroll_to_bottom();
    assert_eq!(w.lines_up(), 3);
    assert!(!w.has_lines_down());
    w.scroll_to_top();
    assert_eq!(w.lines_up(), 0);
    assert!(!w.has_lines_up());
    assert!(w.has_lines_down());
}

#[test]
fn test_wrapper_max_lines() {
    let mut w = RichTextWrapper::new((0, 0), (10, 5), 2);
    assert_eq!(w.append("a\nb\nc"), Ok(()));
    assert_eq!(w.total_lines(), 2);
    assert_eq!(w.visible_text().unwrap(), chars("b\nc"));
    assert_eq!(w.max_lines(), 2);
}

#[test]
fn test_wrapper_parse_error_and_clear() {
    let mut w = RichTextWrapper::new((1, 2), (10, 5), 10);
    assert_eq!(w.append("<bad"), Err(RichTextError::NothingParsed));
    assert_eq!(w.total_lines(), 0);
    assert_eq!(w.append("x"), Ok(()));
    assert_eq!(w.total_lines(), 1);
    w.clear();
    assert_eq!(w.visible_text(), Some(vec![]));
    assert_eq!(w.total_lines(), 1);
    assert_eq!(w.lines_up(), 0);
    assert_eq!(w.lines_down(), 0);
    assert!(!w.has_overflow());
    assert_eq!(w.origin(), (1, 2));
    assert_eq!(w.dimensions(), (10, 5));
    assert_eq!(w.width(), 10);
    assert_eq!(w.height(), 5);
    assert_eq!(w.append("y"), Ok(()));
    assert_eq!(w.visible_text().unwrap(), chars(" y"));
}

#[test]
fn test_scrollbar_buttons_scroll() {
    let mut s = Scrollbar::new((10, 0), 5, 20);
    assert_eq!(s.origin(), (10, 0));
    assert_eq!(s.height(), 5);
    assert_eq!(s.top_button().origin(), (10, 0));
    assert_eq!(s.bottom_button().origin(), (10, 4));
    assert!(!s.top_button_shown());
    assert!(s.bottom_button_shown());
    assert_eq!(s.grip_span(), Some((0, 1)));
    let (a, redraw) = s.update_with_mouse(Some((10, 4)), false, false);
    assert_eq!(a, ScrollbarAction::Interactable);
    assert!(redraw);
    assert_eq!(s.update_with_mouse(Some((10, 4)), true, true), (ScrollbarAction::Interactable, false));
    assert_eq!(s.update_with_mouse(Some((10, 4)), false, false), (ScrollbarAction::ScrollDown(4), true));
    assert!(s.top_button_shown());
    assert_eq!(s.update_with_mouse(Some((10, 2)), false, false), (ScrollbarAction::Focused, false));
    assert_eq!(s.update_with_mouse(None, false, false), (ScrollbarAction::Noop, false));
    assert_eq!(s.grip_span(), Some((0, 1)));
}

#[test]
fn test_scrollbar_resizing() {
    let mut s = Scrollbar::new((0, 0), 10, 5);
    assert_eq!(s.grip_span(), None);
    s.set_content_height(40);
    assert_eq!(s.grip_span(), Some((0, 2)));
    s.set_current_line(30);
    assert_eq!(s.grip_span(), Some((6, 2)));
    s.set_height(5);
    assert_eq!(s.height(), 5);
    s.set_origin((3, 3));
    assert_eq!(s.origin(), (3, 3));
}

#[test]
fn test_scroll_log() {
    let mut log = ScrollLog::new((0, 0), (20, 7), FrameStyle::Line);
    assert_eq!(log.origin(), (0, 0));
    assert_eq!(log.width(), 20);
    assert_eq!(log.height(), 7);
    assert_eq!(log.inner_dimensions(), (20, 7));
    assert_eq!(log.update_with_mouse(None, false, false), (ScrollLogAction::Noop, false, true));
    assert_eq!(log.append("1\n2\n3\n4\n5\n6\n7"), Ok(()));
    assert_eq!(log.total_lines(), 7);
    assert!(log.has_overflow());
    assert_eq!(log.lines_down(), 2);
    log.scroll_to_bottom();
    assert_eq!(log.lines_up(), 2);
    assert!(!log.has_lines_down());
    log.scroll_up(1);
    assert_eq!(log.lines_up(), 1);
    assert!(log.has_lines_up());
    log.scroll_down(1);
    assert_eq!(log.lines_up(), 2);
    log.scroll_to_top();
    assert_eq!(log.lines_up(), 0);
    log.set_frame_text(Some("Log".to_string()), FrameTextPosition::TopLeft);
    assert_eq!(log.frame().top_left_text, Some("Log".to_string()));
    log.clear_text();
    assert!(log.frame().top_left_text.is_none());
    assert_eq!(log.append("<x"), Err(RichTextError::NothingParsed));
}

#[test]
fn test_scroll_log_scrollbar_drives_text() {
    let mut log = ScrollLog::new((0, 0), (20, 7), FrameStyle::Simple);
    assert_eq!(log.append("1\n2\n3\n4\n5\n6\n7\n8\n9\n10\n11"), Ok(()));
    let bottom = (18, 5);
    assert_eq!(log.update_with_mouse(Some(bottom), false, false).0, ScrollLogAction::Interactable);
    log.update_with_mouse(Some(bottom), true, true);
    let (action, _, redraw) = log.update_with_mouse(Some(bottom), false, false);
    assert_eq!(action, ScrollLogAction::Interactable);
    assert!(redraw);
    assert_eq!(log.lines_up(), 2);
    assert_eq!(log.scrollbar().top_button().origin(), (18, 1));
    assert_eq!(log.wrapper().visible_text().unwrap(), "3\n4\n5\n6\n7".chars().collect::<Vec<char>>());
}

#[test]
fn test_input_repeat() {
    let mut r = InputRepeat::for_key(InputKey(5), 10, Some(30));
    assert_eq!(r.key_or_action(), RepeatInput::Key(InputKey(5)));
    assert!(!r.update(5, false, false));
    assert!(r.update(0, true, true));
    assert_eq!(r.state(), RepeatState::Pressed);
    assert!(!r.update(20, false, true));
    assert!(r.update(15, false, true));
    assert_eq!(r.state(), RepeatState::Held);
    assert!(!r.update(4, false, true));
    assert!(r.update(6, false, true));
    assert!(!r.update(1, false, false));
    assert_eq!(r.state(), RepeatState::Released);
    r.set_action(InputAction::Accept);
    assert_eq!(r.key_or_action(), RepeatInput::Action(InputAction::Accept));
    r.reset();
    assert_eq!(r.state(), RepeatState::Released);
    let r2 = InputRepeat::for_action(InputAction::North, 7, None);
    assert_eq!(r2.state(), RepeatState::Released);
}

#[test]
fn test_wrapper_clear_after_overflow() {
    let mut w = RichTextWrapper::new((0, 0), (1, 1), 10);
    assert_eq!(w.append("a b c"), Ok(()));
    assert_eq!(w.total_lines(), 3);
    assert!(w.has_overflow());
    w.clear();
    assert_eq!(w.total_lines(), 1);
    assert_eq!(w.lines_up(), 0);
    assert_eq!(w.lines_down(), 0);
    assert!(!w.has_overflow());
    assert!(!w.has_lines_down());
}

#[test]
fn test_input_repeat_held_fires_once_per_step() {
    let mut r = InputRepeat::for_key(InputKey(1), 10, None);
    assert!(r.update(0, true, true));
    assert!(r.update(10, false, true));
    assert_eq!(r.state(), RepeatState::Held);
    let mut fired = 0;
    for _ in 0..9 {
        if r.update(7, false, true) {
            fired += 1;
        }
    }
    // 63 ns held at a 10 ns step: six events, 3 ns left on the timer.
    assert_eq!(fired, 6);
    assert_eq!(r.state(), RepeatState::Held);
    assert!(!r.update(6, false, true));
    assert!(r.update(1, false, true));
}

#[test]
fn test_input_repeat_press_run() {
    let mut r = InputRepeat::for_key(InputKey(2), 10, Some(30));
    // The press fires at once.
    assert!(r.update(5, true, true));
    // Held down 10 ns per frame: the next event after 30 ns, then one every 10 ns.
    let fired: Vec<bool> = (0..6).map(|_| r.update(10, false, true)).collect();
    assert_eq!(fired, vec![false, false, true, true, true, true]);
    assert_eq!(r.state(), RepeatState::Held);
    // Released: nothing more until the input is newly pressed.
    assert!(!r.update(10, false, false));
    assert_eq!(r.state(), RepeatState::Released);
    assert!(!r.update(100, false, true));
    assert!(!r.update(100, false, false));
    assert!(r.update(0, true, true));
    assert_eq!(r.state(), RepeatState::Pressed);
}

#[test]
fn test_button_update_from_input_manager() {
    let mut input = InputManager::new();
    let mut b = Button::new((2, 1), "Play".to_string(), ButtonLayout::Center);
    input.update(&vec![], (false, false), Some((3, 1)));
    assert_eq!(b.update(&input), ButtonAction::Interactable);
    input.reset();
    input.update(&vec![], (true, false), Some((3, 1)));
    assert_eq!(b.update(&input), ButtonAction::Interactable);
    assert_eq!(b.state(), ButtonState::Pressed);
    input.reset();
    input.update(&vec![], (false, false), Some((3, 1)));
    assert_eq!(b.update(&input), ButtonAction::Triggered);
    let mut list = ButtonList::new((0, 0), false);
    list.push(Button::new((0, 0), "a".to_string(), ButtonLayout::Center));
    input.reset();
    input.update(&vec![], (false, false), Some((0, 0)));
    assert_eq!(list.update(&input), ButtonListAction::Interactable);
}
