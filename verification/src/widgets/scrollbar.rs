use vstd::prelude::*;

use crate::input::InputMouse;
use crate::input_manager::InputManager;
use crate::misc::ICoord;
use crate::palette::{PaletteColor, TileColor, palette_rgba};
use crate::tile::{TileLayout, TileSize, TileStyle};
use crate::widgets::button::{Button, ButtonAction, ButtonLayout, ButtonState, button_step};
use crate::widgets::frame::transparent;
use crate::widgets::rich_text_writer::{GlyphWrite, TextFormat, glyph_write};

verus! {

/// The glyph of the button at the top of the track.
pub const TOP_CHAR: char = '\u{25B2}';

/// The glyph of the button at the bottom of the track.
pub const BOTTOM_CHAR: char = '\u{25BC}';

/// The response codes of a scrollbar update.
#[derive(Clone, Copy, Debug, PartialEq, Eq, Structural)]
pub enum ScrollbarAction {
    /// The scrollbar was not interacted with.
    Noop,
    /// The scrollbar has focus (consumed user input).
    Focused,
    /// The mouse is over an interactable area of the scrollbar.
    Interactable,
    /// The content should scroll up by some number of lines.
    ScrollUp(u32),
    /// The content should scroll down by some number of lines.
    ScrollDown(u32),
}

/// The size of the grip on a track of `height - 2` rows for content of `content_height` lines:
/// the share of the track that the visible part of the content is, at least one row.
pub open spec fn grip_size_for(height: int, content_height: int) -> int {
    let g = (height - 2) * height / content_height;
    if g == 0 {
        1
    } else {
        g
    }
}

/// A button's state and action after an update, or unchanged and idle when it is not shown.
pub open spec fn shown_button_step(shown: bool, b: Button, mouse: Option<ICoord>, clicked: bool, pressed: bool) -> (ButtonState, ButtonAction) {
    if shown {
        button_step(b.spec_state(), b.hovered(mouse), clicked, pressed)
    } else {
        (b.spec_state(), ButtonAction::Noop)
    }
}

/// The smaller of two integers.
pub open spec fn min_of(a: int, b: int) -> int {
    if a < b {
        a
    } else {
        b
    }
}

/// Whether a column of `height` rows at `origin` covers a coord.
pub open spec fn column_covers(origin: (u32, u32), height: int, coord: ICoord) -> bool {
    coord.0 == origin.0 && origin.1 <= coord.1 < origin.1 + height
}

/// What a scrollbar answers, and its new current line, from the actions of its top and bottom
/// buttons and whether the mouse is over it: the top button scrolls up and the bottom one down
/// by the track ratio, never past either end of the content.
pub open spec fn scroll_decision(
    current: int,
    content: int,
    height: int,
    ratio: int,
    top: ButtonAction,
    bottom: ButtonAction,
    over: bool,
) -> (ScrollbarAction, int) {
    if top == ButtonAction::Triggered {
        let lines = min_of(ratio, current);
        (ScrollbarAction::ScrollUp(lines as u32), current - lines)
    } else if top == ButtonAction::Interactable {
        (ScrollbarAction::Interactable, current)
    } else if bottom == ButtonAction::Triggered {
        let lines = min_of(ratio, content - height - current);
        (ScrollbarAction::ScrollDown(lines as u32), current + lines)
    } else if bottom == ButtonAction::Interactable {
        (ScrollbarAction::Interactable, current)
    } else if over {
        (ScrollbarAction::Focused, current)
    } else {
        (ScrollbarAction::Noop, current)
    }
}

/// The format of a scrollbar tile: centered, bold, normal size, not outlined, dark grey on
/// transparent (or, for a solid tile, transparent on dark grey), with a transparent outline.
pub open spec fn bar_format(solid: bool) -> TextFormat {
    let grey = palette_rgba(PaletteColor::DarkGrey);
    TextFormat {
        layout: Some(TileLayout::Center),
        style: Some(TileStyle::Bold),
        size: Some(TileSize::Normal),
        outlined: Some(false),
        foreground_color: Some(if solid { transparent() } else { grey }),
        background_color: Some(if solid { grey } else { transparent() }),
        outline_color: Some(transparent()),
    }
}

/// The first `n` tiles of a column from row `y0` down, all `glyph` in format `f`.
pub open spec fn column_writes(x: int, y0: int, n: int, glyph: char, f: TextFormat) -> Seq<GlyphWrite>
    decreases n,
{
    if n <= 0 {
        Seq::empty()
    } else {
        column_writes(x, y0, n - 1, glyph, f).push(glyph_write(x, y0 + n - 1, glyph, f))
    }
}

/// Appends a column of tiles.
fn push_column(out: &mut Vec<GlyphWrite>, x: i32, y0: i32, n: u32, glyph: char, f: TextFormat)
    requires
        y0 + n <= i32::MAX,
    ensures
        final(out)@ == old(out)@ + column_writes(x as int, y0 as int, n as int, glyph, f),
{
    let ghost base = out@;
    let mut k: u32 = 0;
    while k < n
        invariant
            y0 + n <= i32::MAX,
            k <= n,
            out@ == base + column_writes(x as int, y0 as int, k as int, glyph, f),
        decreases n - k,
    {
        let g = GlyphWrite { x, y: (y0 as i64 + k as i64) as i32, glyph, format: f };
        assert(column_writes(x as int, y0 as int, k + 1, glyph, f) == column_writes(x as int, y0 as int, k as int, glyph, f).push(g));
        out.push(g);
        assert(out@ =~= base + column_writes(x as int, y0 as int, k + 1, glyph, f));
        k = k + 1;
    }
}

/// Builds the format of a scrollbar tile.
fn make_bar_format(solid: bool) -> (r: TextFormat)
    ensures
        r == bar_format(solid),
{
    let grey = PaletteColor::DarkGrey.const_into();
    let clear = TileColor::transparent();
    TextFormat {
        layout: Some(TileLayout::Center),
        style: Some(TileStyle::Bold),
        size: Some(TileSize::Normal),
        outlined: Some(false),
        foreground_color: Some(if solid { clear } else { grey }),
        background_color: Some(if solid { grey } else { clear }),
        outline_color: Some(clear),
    }
}

/// A scrollable, visual indicator of the current position in vertical content: a track with a
/// grip between a button at the top and one at the bottom.
pub struct Scrollbar {
    origin: (u32, u32),
    height: u32,
    content_height: u32,
    current_line: u32,
    track_ratio: u32,
    grip_size: u32,
    top_button: Button,
    bottom_button: Button,
    dirty: bool,
}

impl Scrollbar {
    /// The origin.
    pub closed spec fn spec_origin(&self) -> (u32, u32) {
        self.origin
    }

    /// The height.
    pub closed spec fn spec_height(&self) -> u32 {
        self.height
    }

    /// The height of the content.
    pub closed spec fn spec_content_height(&self) -> u32 {
        self.content_height
    }

    /// The line of the content at the top of the visible area.
    pub closed spec fn spec_current_line(&self) -> u32 {
        self.current_line
    }

    /// The number of content lines a scroll button moves by.
    pub closed spec fn spec_track_ratio(&self) -> u32 {
        self.track_ratio
    }

    /// The size of the grip.
    pub closed spec fn spec_grip_size(&self) -> u32 {
        self.grip_size
    }

    /// The button at the top.
    pub closed spec fn spec_top_button(&self) -> Button {
        self.top_button
    }

    /// The button at the bottom.
    pub closed spec fn spec_bottom_button(&self) -> Button {
        self.bottom_button
    }

    /// Whether the track needs to be drawn again.
    pub closed spec fn spec_dirty(&self) -> bool {
        self.dirty
    }

    /// Whether the scrollbar is usable: it is more than two rows high, its bottom row fits, the
    /// track ratio is that of the content to the height, and a shown grip fits the track.
    pub open spec fn well_formed(&self) -> bool {
        &&& self.spec_height() > 2
        &&& self.spec_origin().1 + self.spec_height() - 1 <= u32::MAX
        &&& self.spec_track_ratio() == self.spec_content_height() / self.spec_height()
        &&& self.spec_track_ratio() > 0 ==> 1 <= self.spec_grip_size() <= self.spec_height() - 2
    }

    /// Whether `b` has the height, content height, track ratio, grip size and buttons of `a`.
    pub open spec fn same_track(a: Self, b: Self) -> bool {
        &&& b.spec_height() == a.spec_height()
        &&& b.spec_content_height() == a.spec_content_height()
        &&& b.spec_track_ratio() == a.spec_track_ratio()
        &&& b.spec_grip_size() == a.spec_grip_size()
        &&& b.spec_top_button() == a.spec_top_button()
        &&& b.spec_bottom_button() == a.spec_bottom_button()
    }

    /// Whether `b` is `a` with height `height` and content height `content_height`, with the
    /// track ratio, grip size and buttons' origins refreshed for them, and marked `dirty`.
    pub open spec fn refreshed(a: Self, height: u32, content_height: u32, dirty: bool, b: Self) -> bool {
        &&& b.spec_origin() == a.spec_origin()
        &&& b.spec_height() == height
        &&& b.spec_content_height() == content_height
        &&& b.spec_current_line() == a.spec_current_line()
        &&& b.spec_dirty() == dirty
        &&& b.spec_track_ratio() == content_height / height
        &&& b.spec_grip_size() == (if b.spec_track_ratio() == 0 {
            a.spec_grip_size() as int
        } else {
            grip_size_for(height as int, content_height as int)
        })
        &&& b.spec_top_button().spec_origin() == (a.spec_origin().0 as i32, a.spec_origin().1 as i32)
        &&& b.spec_bottom_button().spec_origin() == (
            a.spec_origin().0 as i32,
            (a.spec_origin().1 + height - 1) as u32 as i32,
        )
        &&& b.spec_top_button().spec_text() == a.spec_top_button().spec_text()
        &&& b.spec_top_button().spec_state() == a.spec_top_button().spec_state()
        &&& b.spec_top_button().spec_layout() == a.spec_top_button().spec_layout()
        &&& b.spec_bottom_button().spec_text() == a.spec_bottom_button().spec_text()
        &&& b.spec_bottom_button().spec_state() == a.spec_bottom_button().spec_state()
        &&& b.spec_bottom_button().spec_layout() == a.spec_bottom_button().spec_layout()
    }

    /// Refreshes the buttons' origins, the track ratio and the grip size.
    fn refresh(&mut self)
        requires
            old(self).spec_height() > 2,
            old(self).spec_origin().1 + old(self).spec_height() - 1 <= u32::MAX,
        ensures
            Self::refreshed(*old(self), old(self).spec_height(), old(self).spec_content_height(), old(self).spec_dirty(), *final(self)),
            final(self).well_formed(),
    {
        self.top_button.set_origin((self.origin.0 as i32, self.origin.1 as i32));
        let bottom = self.origin.1 + (self.height - 1);
        self.bottom_button.set_origin((self.origin.0 as i32, bottom as i32));
        self.track_ratio = self.content_height / self.height;
        if self.track_ratio == 0 {
            return;
        }
        let h = self.height as u64;
        let c = self.content_height as u64;
        proof {
            assert(c >= h) by (nonlinear_arith)
                requires
                    c / h > 0,
                    h > 0,
            ;
            assert((h - 2) * h <= (h - 2) * c) by (nonlinear_arith)
                requires
                    h <= c,
                    h >= 2,
            ;
            assert((h - 2) * h / (c as int) <= h - 2) by (nonlinear_arith)
                requires
                    (h - 2) * h <= (h - 2) * c,
                    c > 0,
                    h >= 2,
            ;
            assert((h - 2) * h <= 0xffff_ffff_ffff_ffff) by (nonlinear_arith)
                requires
                    h <= 0xffff_ffff,
                    h >= 2,
            ;
        }
        let g = ((h - 2) * h / c) as u32;
        self.grip_size = if g == 0 {
            1
        } else {
            g
        };
    }

    /// Creates a new scrollbar at the top of its content.
    pub fn new(origin: (u32, u32), height: u32, content_height: u32) -> (r: Self)
        requires
            height > 2,
            origin.1 + height - 1 <= u32::MAX,
        ensures
            r.well_formed(),
            r.spec_origin() == origin,
            r.spec_height() == height,
            r.spec_content_height() == content_height,
            r.spec_current_line() == 0,
            r.spec_track_ratio() == content_height / height,
            r.spec_grip_size() == (if content_height / height == 0 {
                0
            } else {
                grip_size_for(height as int, content_height as int)
            }),
            r.spec_top_button().spec_origin() == (origin.0 as i32, origin.1 as i32),
            r.spec_bottom_button().spec_origin() == (origin.0 as i32, (origin.1 + height - 1) as u32 as i32),
            r.spec_top_button().spec_text() == seq![TOP_CHAR],
            r.spec_bottom_button().spec_text() == seq![BOTTOM_CHAR],
            r.spec_top_button().spec_layout() == ButtonLayout::Center,
            r.spec_bottom_button().spec_layout() == ButtonLayout::Center,
            r.spec_top_button().spec_state() == ButtonState::Default,
            r.spec_bottom_button().spec_state() == ButtonState::Default,
            r.spec_dirty(),
    {
        let top_text = "\u{25B2}".to_owned();
        let bottom_text = "\u{25BC}".to_owned();
        proof {
            reveal_strlit("\u{25B2}");
            reveal_strlit("\u{25BC}");
            assert(top_text@ =~= seq![TOP_CHAR]);
            assert(bottom_text@ =~= seq![BOTTOM_CHAR]);
        }
        let top_button = Button::new((0, 0), top_text, ButtonLayout::Center);
        let bottom_button = Button::new((0, 0), bottom_text, ButtonLayout::Center);
        let mut scrollbar = Scrollbar {
            origin,
            height,
            content_height,
            current_line: 0,
            track_ratio: 0,
            grip_size: 0,
            top_button,
            bottom_button,
            dirty: true,
        };
        scrollbar.refresh();
        scrollbar
    }

    /// Returns the origin of the scrollbar.
    pub fn origin(&self) -> (r: (u32, u32))
        ensures
            r == self.spec_origin(),
    {
        self.origin
    }

    /// Returns the height of the scrollbar.
    pub fn height(&self) -> (r: u32)
        ensures
            r == self.spec_height(),
    {
        self.height
    }

    /// Returns the button at the top of the track.
    pub fn top_button(&self) -> (r: &Button)
        ensures
            *r == self.spec_top_button(),
    {
        &self.top_button
    }

    /// Returns the button at the bottom of the track.
    pub fn bottom_button(&self) -> (r: &Button)
        ensures
            *r == self.spec_bottom_button(),
    {
        &self.bottom_button
    }

    /// Moves the scrollbar; the buttons stay where they are until the next refresh.
    pub fn set_origin(&mut self, origin: (u32, u32))
        requires
            old(self).well_formed(),
            origin.1 + old(self).spec_height() - 1 <= u32::MAX,
        ensures
            final(self).well_formed(),
            final(self).spec_origin() == origin,
            final(self).spec_current_line() == old(self).spec_current_line(),
            Self::same_track(*old(self), *final(self)),
            final(self).spec_dirty(),
    {
        self.origin = origin;
        self.dirty = true;
    }

    /// Changes the height of the scrollbar.
    pub fn set_height(&mut self, height: u32)
        requires
            old(self).well_formed(),
            height > 2,
            old(self).spec_origin().1 + height - 1 <= u32::MAX,
        ensures
            final(self).well_formed(),
            Self::refreshed(*old(self), height, old(self).spec_content_height(), true, *final(self)),
    {
        self.height = height;
        self.dirty = true;
        self.refresh();
    }

    /// Changes the height of the content.
    pub fn set_content_height(&mut self, content_height: u32)
        requires
            old(self).well_formed(),
        ensures
            final(self).well_formed(),
            Self::refreshed(*old(self), old(self).spec_height(), content_height, true, *final(self)),
    {
        self.content_height = content_height;
        self.dirty = true;
        self.refresh();
    }

    /// Changes the line of the content at the top of the visible area.
    pub fn set_current_line(&mut self, current_line: u32)
        requires
            old(self).well_formed(),
        ensures
            final(self).well_formed(),
            final(self).spec_origin() == old(self).spec_origin(),
            final(self).spec_current_line() == current_line,
            Self::same_track(*old(self), *final(self)),
            final(self).spec_dirty(),
    {
        self.current_line = current_line;
        self.dirty = true;
    }

    /// The grip's first row below the top button and its number of rows, or `None` when all
    /// content is visible and no grip is drawn. The grip reaches the end of the track when the
    /// end of the content is visible; otherwise its offset is the share of the track that the
    /// lines above the visible area are of the content.
    pub fn grip_span(&self) -> (r: Option<(u32, u32)>)
        requires
            self.well_formed(),
        ensures
            self.spec_track_ratio() == 0 ==> r is None,
            self.spec_track_ratio() > 0 ==> r == Some(
                (
                    (if self.spec_current_line() + self.spec_height() == self.spec_content_height() {
                        self.spec_height() - 2 - self.spec_grip_size()
                    } else {
                        let o = min_of(
                            (self.spec_height() - 2) * self.spec_current_line() / (self.spec_content_height() as int),
                            u32::MAX as int,
                        );
                        if self.spec_grip_size() + o > self.spec_origin().1 + 1 + self.spec_height() - 2 {
                            o - 1
                        } else {
                            o
                        }
                    }) as u32,
                    self.spec_grip_size(),
                ),
            ),
    {
        if self.track_ratio == 0 {
            return None;
        }
        let track_height = self.height - 2;
        let offset: u32 = if (self.current_line as u64) + (self.height as u64) == self.content_height as u64 {
            track_height - self.grip_size
        } else {
            let t = track_height as u64;
            let c = self.current_line as u64;
            let content = self.content_height as u64;
            proof {
                assert(t * c <= 0xffff_ffff * 0xffff_ffff) by (nonlinear_arith)
                    requires
                        t <= 0xffff_ffff,
                        c <= 0xffff_ffff,
                ;
                assert(t * c / (content as int) <= t * c) by (nonlinear_arith)
                    requires
                        content > 0,
                        t * c >= 0,
                ;
            }
            let q = t * c / content;
            let o: u32 = if q > 0xffff_ffff {
                0xffff_ffff
            } else {
                q as u32
            };
            if (self.grip_size as u64) + (o as u64) > (self.origin.1 as u64) + 1 + (track_height as u64) {
                o - 1
            } else {
                o
            }
        };
        Some((offset, self.grip_size))
    }

    /// The action, new current line and track redraw flag of an update of scrollbar `a`.
    pub open spec fn update_result(a: Self, mouse_coord: Option<ICoord>, clicked: bool, pressed: bool) -> (ScrollbarAction, int, bool) {
        let ta = shown_button_step(a.shows_top(), a.spec_top_button(), mouse_coord, clicked, pressed).1;
        let ba = shown_button_step(a.shows_bottom(), a.spec_bottom_button(), mouse_coord, clicked, pressed).1;
        let over = match mouse_coord {
            Some(c) => column_covers(a.spec_origin(), a.spec_height() as int, c),
            None => false,
        };
        let (action, current) = scroll_decision(
            a.spec_current_line() as int,
            a.spec_content_height() as int,
            a.spec_height() as int,
            a.spec_track_ratio() as int,
            ta,
            ba,
            over,
        );
        (action, current, a.spec_dirty() || action is ScrollUp || action is ScrollDown)
    }

    /// Whether the top button is shown: there are lines above the visible area.
    pub open spec fn shows_top(&self) -> bool {
        self.spec_current_line() > 0
    }

    /// Whether the bottom button is shown: there are lines below the visible area.
    pub open spec fn shows_bottom(&self) -> bool {
        self.spec_content_height() - self.spec_current_line() > self.spec_height()
    }

    /// Whether the top button is shown.
    pub fn top_button_shown(&self) -> (r: bool)
        ensures
            r == self.shows_top(),
    {
        self.current_line > 0
    }

    /// Whether the bottom button is shown.
    pub fn bottom_button_shown(&self) -> (r: bool)
        requires
            self.spec_current_line() <= self.spec_content_height(),
        ensures
            r == self.shows_bottom(),
    {
        self.content_height - self.current_line > self.height
    }

    /// One update of the widget by the mouse, from `before` to `after`, given the mouse's
    /// coordinate (`None` outside the terminal), whether the left button was clicked and whether
    /// it is pressed, returning `r`.
    pub open spec fn updated_by_mouse(
        before: Scrollbar,
        after: Scrollbar,
        mouse_coord: Option<ICoord>,
        mouse_clicked: bool,
        mouse_pressed: bool,
        r: (ScrollbarAction, bool),
    ) -> bool {
        &&& after.well_formed()
        &&& ({
            let a = before;
            let b = after;
            let (ts, ta) = shown_button_step(a.shows_top(), a.spec_top_button(), mouse_coord, mouse_clicked, mouse_pressed);
            let (bs, ba) = shown_button_step(
                a.shows_bottom(),
                a.spec_bottom_button(),
                mouse_coord,
                mouse_clicked,
                mouse_pressed,
            );
            let (action, current, redraw) = Self::update_result(a, mouse_coord, mouse_clicked, mouse_pressed);
            &&& b.spec_origin() == a.spec_origin()
            &&& b.spec_height() == a.spec_height()
            &&& b.spec_content_height() == a.spec_content_height()
            &&& b.spec_track_ratio() == a.spec_track_ratio()
            &&& b.spec_grip_size() == a.spec_grip_size()
            &&& b.spec_top_button().spec_origin() == a.spec_top_button().spec_origin()
            &&& b.spec_top_button().spec_text() == a.spec_top_button().spec_text()
            &&& b.spec_top_button().spec_layout() == a.spec_top_button().spec_layout()
            &&& b.spec_top_button().spec_state() == ts
            &&& b.spec_bottom_button().spec_origin() == a.spec_bottom_button().spec_origin()
            &&& b.spec_bottom_button().spec_text() == a.spec_bottom_button().spec_text()
            &&& b.spec_bottom_button().spec_layout() == a.spec_bottom_button().spec_layout()
            &&& b.spec_bottom_button().spec_state() == bs
            &&& r == (action, redraw)
            &&& b.spec_current_line() == current
            &&& !b.spec_dirty()
        })
    }

    /// Updates the widget from the input manager's mouse: its coordinate, and the left button's
    /// click and press.
    pub fn update(&mut self, input: &InputManager) -> (r: (ScrollbarAction, bool))
        requires
            old(self).well_formed(),
            old(self).spec_current_line() <= old(self).spec_content_height(),
        ensures
            Self::updated_by_mouse(
                *old(self),
                *final(self),
                input.spec_mouse_coord(),
                input.spec_mouse_clicked().0,
                input.spec_mouse_pressed().0,
                r,
            ),
    {
        self.update_with_mouse(
            input.mouse_coord(),
            input.mouse_clicked(InputMouse::Left),
            input.mouse_pressed(InputMouse::Left),
        )
    }

    /// Updates the shown buttons from the mouse, scrolls when one of them is triggered, and
    /// returns the action and whether the track and grip need to be drawn again (they no
    /// longer do after this call).
    pub fn update_with_mouse(&mut self, mouse_coord: Option<ICoord>, mouse_clicked: bool, mouse_pressed: bool) -> (r: (ScrollbarAction, bool))
        requires
            old(self).well_formed(),
            old(self).spec_current_line() <= old(self).spec_content_height(),
        ensures
            Self::updated_by_mouse(*old(self), *final(self), mouse_coord, mouse_clicked, mouse_pressed, r),
    {
        let top_action = if self.current_line > 0 {
            self.top_button.update_with_mouse(mouse_coord, mouse_clicked, mouse_pressed)
        } else {
            ButtonAction::Noop
        };
        let bottom_action = if self.content_height - self.current_line > self.height {
            self.bottom_button.update_with_mouse(mouse_coord, mouse_clicked, mouse_pressed)
        } else {
            ButtonAction::Noop
        };
        let mut action = ScrollbarAction::Noop;
        if top_action == ButtonAction::Triggered {
            let lines = if self.track_ratio < self.current_line {
                self.track_ratio
            } else {
                self.current_line
            };
            action = ScrollbarAction::ScrollUp(lines);
            self.current_line = self.current_line - lines;
            self.dirty = true;
        } else if top_action == ButtonAction::Interactable {
            action = ScrollbarAction::Interactable;
        } else if bottom_action == ButtonAction::Triggered {
            let room = (self.content_height - self.height) - self.current_line;
            let lines = if self.track_ratio < room {
                self.track_ratio
            } else {
                room
            };
            action = ScrollbarAction::ScrollDown(lines);
            self.current_line = self.current_line + lines;
            self.dirty = true;
        } else if bottom_action == ButtonAction::Interactable {
            action = ScrollbarAction::Interactable;
        } else {
            match mouse_coord {
                Some(c) => {
                    if c.0 as i64 == self.origin.0 as i64 && c.1 as i64 >= self.origin.1 as i64
                        && (c.1 as i64) < (self.origin.1 as i64) + (self.height as i64) {
                        action = ScrollbarAction::Focused;
                    }
                },
                None => {},
            }
        }
        let redraw = self.dirty;
        self.dirty = false;
        (action, redraw)
    }

    /// What drawing the track and grip writes: the track's rows between the buttons, then the
    /// grip's rows (when there is a grip) from its offset below the top button.
    pub fn track_writes(&self) -> (r: Vec<GlyphWrite>)
        requires
            self.well_formed(),
            self.spec_current_line() <= self.spec_content_height(),
            self.spec_origin().0 <= i32::MAX,
            self.spec_origin().1 + 2 * self.spec_height() + 1 <= i32::MAX,
        ensures
            ({
                let x = self.spec_origin().0 as int;
                let y = self.spec_origin().1 + 1;
                let track = column_writes(x, y, self.spec_height() - 2, '|', bar_format(false));
                &&& self.spec_track_ratio() == 0 ==> r@ == track
                &&& self.spec_track_ratio() > 0 ==> exists|offset: u32|
                    #![trigger column_writes(x, y + offset, self.spec_grip_size() as int, ' ', bar_format(true))]
                    {
                        &&& r@ == track + column_writes(x, y + offset, self.spec_grip_size() as int, ' ', bar_format(true))
                        &&& offset == (if self.spec_current_line() + self.spec_height() == self.spec_content_height() {
                            self.spec_height() - 2 - self.spec_grip_size()
                        } else {
                            let o = (self.spec_height() - 2) * self.spec_current_line() / (self.spec_content_height() as int);
                            if self.spec_grip_size() + o > self.spec_origin().1 + 1 + self.spec_height() - 2 {
                                o - 1
                            } else {
                                o
                            }
                        })
                    }
            }),
    {
        let x = self.origin.0 as i32;
        let y = (self.origin.1 + 1) as i32;
        let mut out: Vec<GlyphWrite> = Vec::new();
        push_column(&mut out, x, y, self.height - 2, '|', make_bar_format(false));
        match self.grip_span() {
            Some((offset, size)) => {
                let ghost c = self.current_line as int;
                let ghost h = self.height as int;
                let ghost content = self.content_height as int;
                proof {
                    assert((h - 2) * c / content <= h - 2) by (nonlinear_arith)
                        requires
                            c <= content,
                            content > 0,
                            h >= 2,
                    {
                        assert((h - 2) * c <= (h - 2) * content);
                    }
                }
                push_column(&mut out, x, y + offset as i32, size, ' ', make_bar_format(true));
            },
            None => {},
        }
        out
    }
}

} // verus!
