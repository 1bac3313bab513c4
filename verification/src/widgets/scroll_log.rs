use vstd::prelude::*;

use crate::input::InputMouse;
use crate::input_manager::InputManager;
use crate::misc::ICoord;
use crate::rich_text::{RichTextError, item_at, parse_from};
use crate::widgets::frame::{Frame, FrameStyle, FrameTextPosition};
use crate::widgets::rich_text_wrapper::{RichTextWrapper, push_values, truncate_lines};
use crate::widgets::scrollbar::{Scrollbar, ScrollbarAction};

verus! {

/// The response codes of a scroll log update.
#[derive(Clone, Copy, Debug, PartialEq, Eq, Structural)]
pub enum ScrollLogAction {
    /// The scroll log was not interacted with.
    Noop,
    /// The scroll log has focus (consumed user input).
    Focused,
    /// The mouse is over an interactable area of the scroll log.
    Interactable,
}

/// A framed, scrollable log of rich text, with a scrollbar inside the frame's right edge that is
/// shown while the text overflows.
pub struct ScrollLog {
    origin: (u32, u32),
    dimensions: (u32, u32),
    frame: Frame,
    scrollbar: Scrollbar,
    wrapper: RichTextWrapper,
    dirty: bool,
}

impl ScrollLog {
    /// The origin.
    pub closed spec fn spec_origin(&self) -> (u32, u32) {
        self.origin
    }

    /// The dimensions.
    pub closed spec fn spec_dimensions(&self) -> (u32, u32) {
        self.dimensions
    }

    /// The frame.
    pub closed spec fn spec_frame(&self) -> Frame {
        self.frame
    }

    /// The scrollbar.
    pub closed spec fn spec_scrollbar(&self) -> Scrollbar {
        self.scrollbar
    }

    /// The wrapped text.
    pub closed spec fn spec_wrapper(&self) -> RichTextWrapper {
        self.wrapper
    }

    /// Whether the log needs to be drawn again.
    pub closed spec fn spec_dirty(&self) -> bool {
        self.dirty
    }

    /// Whether the log is usable: the scrollbar is as high as the visible text and mirrors its
    /// first visible line and (once text was appended) its number of lines.
    pub open spec fn well_formed(&self) -> bool {
        let w = self.spec_wrapper();
        let s = self.spec_scrollbar();
        &&& w.well_formed()
        &&& s.well_formed()
        &&& w.spec_dimensions().1 == s.spec_height()
        &&& w.spec_max_lines() == u32::MAX
        &&& w.spec_total_lines() <= w.model().newlines.len()
        &&& (w.spec_total_lines() == w.model().newlines.len() || (w.spec_total_lines() == 0
            && w.model().newlines.len() == 1))
        &&& (s.spec_content_height() == w.spec_total_lines() || (s.spec_content_height() == 0
            && w.spec_total_lines() <= 1))
        &&& w.spec_lines_up() == w.spec_current_line()
        &&& s.spec_current_line() == w.spec_current_line()
        &&& w.spec_current_line() <= s.spec_content_height()
    }

    /// Creates an empty scroll log: a frame around the whole area, a scrollbar in the last
    /// column inside the frame, and the text in the rest. It keeps up to `u32::MAX` lines.
    pub fn new(origin: (u32, u32), dimensions: (u32, u32), style: FrameStyle) -> (r: Self)
        requires
            dimensions.0 >= 3,
            dimensions.1 >= 5,
            origin.0 + dimensions.0 <= u32::MAX,
            origin.1 + dimensions.1 <= u32::MAX,
        ensures
            r.well_formed(),
            r.spec_origin() == origin,
            r.spec_dimensions() == dimensions,
            r.spec_frame().origin == (origin.0 as i32, origin.1 as i32),
            r.spec_frame().inner_dimensions == ((dimensions.0 - 2) as i32, (dimensions.1 - 2) as i32),
            r.spec_frame().style == style,
            r.spec_scrollbar().spec_origin() == (
                (origin.0 + dimensions.0 - 2) as u32,
                (origin.1 + 1) as u32,
            ),
            r.spec_scrollbar().spec_height() == dimensions.1 - 2,
            r.spec_scrollbar().spec_content_height() == 0,
            r.spec_wrapper().spec_origin() == ((origin.0 + 1) as u32, (origin.1 + 1) as u32),
            r.spec_wrapper().spec_dimensions() == (
                (dimensions.0 - 3) as u32,
                (dimensions.1 - 2) as u32,
            ),
            r.spec_wrapper().model().text.len() == 0,
            r.spec_dirty(),
    {
        let frame = Frame::new(
            (origin.0 as i32, origin.1 as i32),
            ((dimensions.0 - 2) as i32, (dimensions.1 - 2) as i32),
            style,
        );
        let scrollbar = Scrollbar::new(
            (origin.0 + dimensions.0 - 2, origin.1 + 1),
            dimensions.1 - 2,
            0,
        );
        let wrapper = RichTextWrapper::new(
            (origin.0 + 1, origin.1 + 1),
            (dimensions.0 - 3, dimensions.1 - 2),
            u32::MAX,
        );
        ScrollLog { origin, dimensions, frame, scrollbar, wrapper, dirty: true }
    }

    /// Returns the origin of the scroll log.
    pub fn origin(&self) -> (r: (u32, u32))
        ensures
            r == self.spec_origin(),
    {
        self.origin
    }

    /// Returns the width of the scroll log.
    pub fn width(&self) -> (r: u32)
        ensures
            r == self.spec_dimensions().0,
    {
        self.dimensions.0
    }

    /// Returns the height of the scroll log.
    pub fn height(&self) -> (r: u32)
        ensures
            r == self.spec_dimensions().1,
    {
        self.dimensions.1
    }

    /// Returns the dimensions of the scroll log.
    pub fn inner_dimensions(&self) -> (r: (u32, u32))
        ensures
            r == self.spec_dimensions(),
    {
        self.dimensions
    }

    /// Returns the frame.
    pub fn frame(&self) -> (r: &Frame)
        ensures
            *r == self.spec_frame(),
    {
        &self.frame
    }

    /// Returns the scrollbar.
    pub fn scrollbar(&self) -> (r: &Scrollbar)
        ensures
            *r == self.spec_scrollbar(),
    {
        &self.scrollbar
    }

    /// Returns the wrapped text.
    pub fn wrapper(&self) -> (r: &RichTextWrapper)
        ensures
            *r == self.spec_wrapper(),
    {
        &self.wrapper
    }

    /// Sets (or removes) the text at a position along the frame.
    pub fn set_frame_text(&mut self, text: Option<String>, position: FrameTextPosition)
        requires
            old(self).well_formed(),
        ensures
            final(self).well_formed(),
            final(self).spec_origin() == old(self).spec_origin(),
            final(self).spec_dimensions() == old(self).spec_dimensions(),
            final(self).spec_scrollbar() == old(self).spec_scrollbar(),
            final(self).spec_wrapper() == old(self).spec_wrapper(),
            final(self).spec_dirty() == old(self).spec_dirty(),
            final(self).spec_frame().origin == old(self).spec_frame().origin,
            final(self).spec_frame().inner_dimensions == old(self).spec_frame().inner_dimensions,
            final(self).spec_frame().style == old(self).spec_frame().style,
            final(self).spec_frame().top_left_text == (if position == FrameTextPosition::TopLeft {
                text
            } else {
                old(self).spec_frame().top_left_text
            }),
            final(self).spec_frame().top_right_text == (if position == FrameTextPosition::TopRight {
                text
            } else {
                old(self).spec_frame().top_right_text
            }),
            final(self).spec_frame().bottom_left_text == (if position
                == FrameTextPosition::BottomLeft {
                text
            } else {
                old(self).spec_frame().bottom_left_text
            }),
            final(self).spec_frame().bottom_right_text == (if position
                == FrameTextPosition::BottomRight {
                text
            } else {
                old(self).spec_frame().bottom_right_text
            }),
    {
        match position {
            FrameTextPosition::TopLeft => self.frame.top_left_text = text,
            FrameTextPosition::TopRight => self.frame.top_right_text = text,
            FrameTextPosition::BottomLeft => self.frame.bottom_left_text = text,
            FrameTextPosition::BottomRight => self.frame.bottom_right_text = text,
        }
    }

    /// Removes all of the frame's text.
    pub fn clear_text(&mut self)
        requires
            old(self).well_formed(),
        ensures
            final(self).well_formed(),
            final(self).spec_origin() == old(self).spec_origin(),
            final(self).spec_dimensions() == old(self).spec_dimensions(),
            final(self).spec_scrollbar() == old(self).spec_scrollbar(),
            final(self).spec_wrapper() == old(self).spec_wrapper(),
            final(self).spec_dirty() == old(self).spec_dirty(),
            final(self).spec_frame().origin == old(self).spec_frame().origin,
            final(self).spec_frame().inner_dimensions == old(self).spec_frame().inner_dimensions,
            final(self).spec_frame().style == old(self).spec_frame().style,
            final(self).spec_frame().top_left_text is None,
            final(self).spec_frame().top_right_text is None,
            final(self).spec_frame().bottom_left_text is None,
            final(self).spec_frame().bottom_right_text is None,
    {
        self.frame.clear_text();
    }

    /// Returns the number of lines.
    pub fn total_lines(&self) -> (r: u32)
        ensures
            r == self.spec_wrapper().spec_total_lines(),
    {
        self.wrapper.total_lines()
    }

    /// Returns the number of lines above the visible area.
    pub fn lines_up(&self) -> (r: u32)
        ensures
            r == self.spec_wrapper().spec_lines_up(),
    {
        self.wrapper.lines_up()
    }

    /// Returns the number of lines below the visible area.
    pub fn lines_down(&self) -> (r: u32)
        ensures
            r == self.spec_wrapper().spec_lines_down(),
    {
        self.wrapper.lines_down()
    }

    /// Returns whether there are lines above the visible area.
    pub fn has_lines_up(&self) -> (r: bool)
        ensures
            r == (self.spec_wrapper().spec_lines_up() > 0),
    {
        self.wrapper.has_lines_up()
    }

    /// Returns whether there are lines below the visible area.
    pub fn has_lines_down(&self) -> (r: bool)
        ensures
            r == (self.spec_wrapper().spec_lines_down() > 0),
    {
        self.wrapper.has_lines_down()
    }

    /// Returns whether there are more lines than the visible area holds.
    pub fn has_overflow(&self) -> (r: bool)
        ensures
            r == (self.spec_wrapper().spec_total_lines() > self.spec_wrapper().spec_dimensions().1),
    {
        self.wrapper.has_overflow()
    }

    /// Whether `b` has the origin, dimensions and frame of `a`.
    pub open spec fn same_place(a: Self, b: Self) -> bool {
        &&& b.spec_origin() == a.spec_origin()
        &&& b.spec_dimensions() == a.spec_dimensions()
        &&& b.spec_frame() == a.spec_frame()
    }

    /// Scrolls the text up by a number of lines, stopping at the first line, and moves the
    /// scrollbar along.
    pub fn scroll_up(&mut self, lines: u32)
        requires
            old(self).well_formed(),
        ensures
            final(self).well_formed(),
            Self::same_place(*old(self), *final(self)),
            final(self).spec_dirty(),
            final(self).spec_wrapper().model() == old(self).spec_wrapper().model(),
            final(self).spec_wrapper().spec_current_line() == (if old(self).spec_wrapper().spec_current_line() > lines {
                old(self).spec_wrapper().spec_current_line() - lines
            } else {
                0
            }),
            final(self).spec_wrapper().metrics_fresh(),
    {
        self.wrapper.scroll_up(lines);
        let line = self.wrapper.lines_up();
        self.scrollbar.set_current_line(line);
        self.dirty = true;
    }

    /// Scrolls the text down by a number of lines, stopping when the last line is at the
    /// bottom, and moves the scrollbar along. The text only scrolls while it overflows.
    pub fn scroll_down(&mut self, lines: u32)
        requires
            old(self).well_formed(),
        ensures
            final(self).well_formed(),
            Self::same_place(*old(self), *final(self)),
            final(self).spec_dirty(),
            final(self).spec_wrapper().model() == old(self).spec_wrapper().model(),
            final(self).spec_wrapper().spec_current_line() == (if old(self).spec_wrapper().spec_total_lines()
                > old(self).spec_wrapper().spec_dimensions().1 {
                RichTextWrapper::scrolled_down(
                    old(self).spec_wrapper().spec_current_line() as int,
                    lines as int,
                    old(self).spec_wrapper().spec_total_lines() as int,
                    old(self).spec_wrapper().spec_dimensions().1 as int,
                )
            } else {
                old(self).spec_wrapper().spec_current_line() as int
            }),
    {
        self.wrapper.scroll_down(lines);
        let line = self.wrapper.lines_up();
        self.scrollbar.set_current_line(line);
        self.dirty = true;
    }

    /// Scrolls to the first line.
    pub fn scroll_to_top(&mut self)
        requires
            old(self).well_formed(),
        ensures
            final(self).well_formed(),
            Self::same_place(*old(self), *final(self)),
            final(self).spec_dirty(),
            final(self).spec_wrapper().model() == old(self).spec_wrapper().model(),
            final(self).spec_wrapper().spec_current_line() == 0,
            final(self).spec_wrapper().metrics_fresh(),
    {
        self.wrapper.scroll_to_top();
        let line = self.wrapper.lines_up();
        self.scrollbar.set_current_line(line);
        self.dirty = true;
    }

    /// Scrolls so that the last line is at the bottom, when the text overflows.
    pub fn scroll_to_bottom(&mut self)
        requires
            old(self).well_formed(),
        ensures
            final(self).well_formed(),
            Self::same_place(*old(self), *final(self)),
            final(self).spec_dirty(),
            final(self).spec_wrapper().model() == old(self).spec_wrapper().model(),
            final(self).spec_wrapper().spec_current_line() == (if old(self).spec_wrapper().spec_total_lines()
                > old(self).spec_wrapper().spec_dimensions().1 {
                old(self).spec_wrapper().spec_total_lines() - old(self).spec_wrapper().spec_dimensions().1
            } else {
                old(self).spec_wrapper().spec_current_line() as int
            }),
    {
        self.wrapper.scroll_to_bottom();
        let line = self.wrapper.lines_up();
        self.scrollbar.set_current_line(line);
        self.dirty = true;
    }

    /// Appends rich text to the log and tells the scrollbar the new number of lines. Fails,
    /// changing nothing, when the text does not start with a parsable value.
    pub fn append(&mut self, text: &str) -> (r: Result<(), RichTextError>)
        requires
            old(self).well_formed(),
            text@.len() < usize::MAX - 8,
        ensures
            final(self).well_formed(),
            match r {
                Ok(()) => {
                    let ts = parse_from(text@, 0);
                    let w = old(self).spec_wrapper();
                    &&& item_at(text@, 0) is Some
                    &&& Self::same_place(*old(self), *final(self))
                    &&& final(self).spec_dirty()
                    &&& final(self).spec_wrapper().model() == truncate_lines(
                        push_values(w.model(), ts, ts.len() as int, w.spec_dimensions().0 as int),
                        u32::MAX as int,
                    )
                    &&& final(self).spec_wrapper().spec_current_line() == w.spec_current_line()
                    &&& final(self).spec_wrapper().metrics_fresh()
                    &&& final(self).spec_scrollbar().spec_content_height()
                        == final(self).spec_wrapper().spec_total_lines()
                },
                Err(e) => item_at(text@, 0) is None && e == RichTextError::NothingParsed && *final(self) == *old(self),
            },
    {
        match self.wrapper.append(text) {
            Ok(()) => {},
            Err(e) => {
                return Err(e);
            },
        }
        let total = self.wrapper.total_lines();
        self.scrollbar.set_content_height(total);
        self.dirty = true;
        Ok(())
    }

    /// One update of the widget by the mouse, from `before` to `after`, given the mouse's
    /// coordinate (`None` outside the terminal), whether the left button was clicked and whether
    /// it is pressed, returning `r`.
    pub open spec fn updated_by_mouse(
        before: ScrollLog,
        after: ScrollLog,
        mouse_coord: Option<ICoord>,
        mouse_clicked: bool,
        mouse_pressed: bool,
        r: (ScrollLogAction, bool, bool),
    ) -> bool {
        &&& after.well_formed()
        &&& Self::same_place(before, after)
        &&& after.spec_wrapper().model() == before.spec_wrapper().model()
        &&& !after.spec_dirty()
        &&& !before.spec_wrapper().has_overflow_spec() ==> r == (
            ScrollLogAction::Noop,
            false,
            before.spec_dirty(),
        ) && after.spec_scrollbar() == before.spec_scrollbar()
            && after.spec_wrapper() == before.spec_wrapper()
        &&& before.spec_wrapper().has_overflow_spec() ==> {
            let w = before.spec_wrapper();
            let s = before.spec_scrollbar();
            let (sa, _, track) = Scrollbar::update_result(s, mouse_coord, mouse_clicked, mouse_pressed);
            &&& r.1 == track
            &&& r.0 == (match sa {
                ScrollbarAction::Focused => ScrollLogAction::Focused,
                ScrollbarAction::Noop => ScrollLogAction::Noop,
                _ => ScrollLogAction::Interactable,
            })
            &&& r.2 == (before.spec_dirty() || sa is ScrollUp || sa is ScrollDown)
            &&& after.spec_wrapper().spec_current_line() == after.spec_scrollbar().spec_current_line()
            &&& (sa is ScrollUp || sa is ScrollDown) ==> after.spec_wrapper().metrics_fresh()
            &&& !(sa is ScrollUp || sa is ScrollDown) ==> after.spec_wrapper() == w
        }
    }

    /// Updates the widget from the input manager's mouse: its coordinate, and the left button's
    /// click and press.
    pub fn update(&mut self, input: &InputManager) -> (r: (ScrollLogAction, bool, bool))
        requires
            old(self).well_formed(),
        ensures
            Self::updated_by_mouse(
                *old(self),
                *final(self),
                input.spec_mouse_coord(),
                input.spec_mouse_clicked().0,
                input.spec_mouse_pressed().0,
                r,
            ),
    {
        self.update_with_mouse(
            input.mouse_coord(),
            input.mouse_clicked(InputMouse::Left),
            input.mouse_pressed(InputMouse::Left),
        )
    }

    /// Updates the log from the mouse: while the text overflows, the scrollbar is updated and the
    /// text scrolls with it. Returns the action, whether the scrollbar's track and grip need to
    /// be drawn again, and whether the frame and text do (they no longer do after this call).
    pub fn update_with_mouse(&mut self, mouse_coord: Option<ICoord>, mouse_clicked: bool, mouse_pressed: bool) -> (r: (ScrollLogAction, bool, bool))
        requires
            old(self).well_formed(),
        ensures
            Self::updated_by_mouse(*old(self), *final(self), mouse_coord, mouse_clicked, mouse_pressed, r),
    {
        let (action, track) = if self.wrapper.has_overflow() {
            self.scrollbar.update_with_mouse(mouse_coord, mouse_clicked, mouse_pressed)
        } else {
            (ScrollbarAction::Noop, false)
        };
        let result = match action {
            ScrollbarAction::Focused => ScrollLogAction::Focused,
            ScrollbarAction::Interactable => ScrollLogAction::Interactable,
            ScrollbarAction::ScrollUp(lines) => {
                self.wrapper.scroll_up(lines);
                self.dirty = true;
                ScrollLogAction::Interactable
            },
            ScrollbarAction::ScrollDown(lines) => {
                self.wrapper.scroll_down(lines);
                self.dirty = true;
                ScrollLogAction::Interactable
            },
            ScrollbarAction::Noop => ScrollLogAction::Noop,
        };
        let content = self.dirty;
        self.dirty = false;
        (result, track, content)
    }
}

} // verus!
