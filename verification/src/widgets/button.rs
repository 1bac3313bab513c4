use vstd::prelude::*;

use crate::input::InputMouse;
use crate::input_manager::InputManager;
use crate::misc::ICoord;
use crate::palette::{PaletteColor, palette_rgba};
use crate::tile::{TileLayout, TileStyle};
use crate::widgets::rich_text_writer::{GlyphWrite, RichTextWriter, TextFormat, plain_writes};

verus! {

/// The states of a button.
#[derive(Clone, Copy, Debug, PartialEq, Eq, Structural)]
pub enum ButtonState {
    /// The button has not been interacted with.
    Default,
    /// The button has focus.
    Focused,
    /// The button has focus and has been pressed. When released, the button is triggered and
    /// goes back to the focused state.
    Pressed,
}

/// The possible layouts of a button's text.
#[derive(Clone, Copy, Debug, PartialEq, Eq, Structural)]
pub enum ButtonLayout {
    /// Center the text.
    Center,
    /// Use font kerning offsets for the text.
    Text,
}

/// The response codes of a button update.
#[derive(Clone, Copy, Debug, PartialEq, Eq, Structural)]
pub enum ButtonAction {
    /// The button was not interacted with.
    Noop,
    /// The button consumed user input, but was not triggered.
    Interactable,
    /// The button was triggered.
    Triggered,
}

/// Whether a single-row button at `origin` whose text has `len` characters covers `coord`.
pub open spec fn button_covers(origin: ICoord, len: int, coord: ICoord) -> bool {
    coord.1 == origin.1 && origin.0 <= coord.0 && coord.0 < origin.0 + len
}

/// The next state and the action of a button in state `state`, given whether the mouse is over
/// it (`None` when the mouse is not on the grid at all), whether the left button was just
/// clicked, and whether it is held.
pub open spec fn button_step(state: ButtonState, hovered: Option<bool>, clicked: bool, pressed: bool) -> (ButtonState, ButtonAction) {
    match hovered {
        None => (state, ButtonAction::Noop),
        Some(over) => match state {
            ButtonState::Default => if over {
                (ButtonState::Focused, ButtonAction::Interactable)
            } else {
                (ButtonState::Default, ButtonAction::Noop)
            },
            ButtonState::Focused => if !over {
                (ButtonState::Default, ButtonAction::Noop)
            } else if clicked {
                (ButtonState::Pressed, ButtonAction::Interactable)
            } else {
                (ButtonState::Focused, ButtonAction::Interactable)
            },
            ButtonState::Pressed => if !over {
                (ButtonState::Default, ButtonAction::Noop)
            } else if !pressed {
                (ButtonState::Focused, ButtonAction::Triggered)
            } else {
                (ButtonState::Pressed, ButtonAction::Interactable)
            },
        },
    }
}

/// The format a button's text is drawn with: centered or text layout, regular style in bright
/// grey by default, gold when focused, and bold gold when pressed.
pub open spec fn button_format(state: ButtonState, layout: ButtonLayout) -> TextFormat {
    let l = match layout {
        ButtonLayout::Center => TileLayout::Center,
        ButtonLayout::Text => TileLayout::Text,
    };
    let (style, color) = match state {
        ButtonState::Default => (TileStyle::Regular, PaletteColor::BrightGrey),
        ButtonState::Focused => (TileStyle::Regular, PaletteColor::Gold),
        ButtonState::Pressed => (TileStyle::Bold, PaletteColor::Gold),
    };
    TextFormat {
        layout: Some(l),
        style: Some(style),
        size: None,
        outlined: None,
        foreground_color: Some(palette_rgba(color)),
        background_color: None,
        outline_color: None,
    }
}

/// A clickable, single-row button.
pub struct Button {
    /// Origin of the button.
    pub origin: ICoord,
    /// Text of the button (plain only).
    pub text: String,
    /// Layout of the button.
    pub layout: ButtonLayout,
    /// State of the button.
    state: ButtonState,
}

impl Button {
    /// The origin.
    pub closed spec fn spec_origin(&self) -> ICoord {
        self.origin
    }

    /// The characters of the text.
    pub closed spec fn spec_text(&self) -> Seq<char> {
        self.text@
    }

    /// The layout.
    pub closed spec fn spec_layout(&self) -> ButtonLayout {
        self.layout
    }

    /// The state.
    pub closed spec fn spec_state(&self) -> ButtonState {
        self.state
    }

    /// Whether the button covers a coord.
    pub open spec fn covers(&self, coord: ICoord) -> bool {
        button_covers(self.spec_origin(), self.spec_text().len() as int, coord)
    }

    /// What the mouse position tells the button: `None` without a mouse coord, else whether the
    /// button covers it.
    pub open spec fn hovered(&self, mouse_coord: Option<ICoord>) -> Option<bool> {
        match mouse_coord {
            Some(c) => Some(self.covers(c)),
            None => None,
        }
    }

    /// Creates a new button in the default state.
    pub fn new(origin: ICoord, text: String, layout: ButtonLayout) -> (r: Self)
        ensures
            r.spec_origin() == origin,
            r.spec_text() == text@,
            r.spec_layout() == layout,
            r.spec_state() == ButtonState::Default,
    {
        Button { origin, text, layout, state: ButtonState::Default }
    }

    /// Returns the state of the button.
    pub fn state(&self) -> (r: ButtonState)
        ensures
            r == self.spec_state(),
    {
        self.state
    }

    /// Returns the origin of the button.
    pub fn origin(&self) -> (r: ICoord)
        ensures
            r == self.spec_origin(),
    {
        self.origin
    }

    /// Returns the text of the button.
    pub fn text(&self) -> (r: &str)
        ensures
            r@ == self.spec_text(),
    {
        self.text.as_str()
    }

    /// Moves the button to a new origin.
    pub fn set_origin(&mut self, origin: ICoord)
        ensures
            final(self).spec_origin() == origin,
            final(self).spec_text() == old(self).spec_text(),
            final(self).spec_layout() == old(self).spec_layout(),
            final(self).spec_state() == old(self).spec_state(),
    {
        self.origin = origin;
    }

    /// Whether the button contains a coord.
    fn contains(&self, coord: &ICoord) -> (r: bool)
        ensures
            r == self.covers(*coord),
    {
        let len = self.text.as_str().unicode_len();
        coord.1 == self.origin.1 && coord.0 >= self.origin.0 && (coord.0 as i128) < (
        self.origin.0 as i128) + (len as i128)
    }

    /// Resets the button to the default state.
    pub fn reset(&mut self)
        ensures
            final(self).spec_origin() == old(self).spec_origin(),
            final(self).spec_text() == old(self).spec_text(),
            final(self).spec_layout() == old(self).spec_layout(),
            final(self).spec_state() == ButtonState::Default,
    {
        self.state = ButtonState::Default;
    }

    /// One update of the widget by the mouse, from `before` to `after`, given the mouse's
    /// coordinate (`None` outside the terminal), whether the left button was clicked and whether
    /// it is pressed, returning `r`.
    pub open spec fn updated_by_mouse(
        before: Button,
        after: Button,
        mouse_coord: Option<ICoord>,
        mouse_clicked: bool,
        mouse_pressed: bool,
        r: ButtonAction,
    ) -> bool {
        &&& after.spec_origin() == before.spec_origin()
        &&& after.spec_text() == before.spec_text()
        &&& after.spec_layout() == before.spec_layout()
        &&& (after.spec_state(), r) == button_step(
            before.spec_state(),
            before.hovered(mouse_coord),
            mouse_clicked,
            mouse_pressed,
        )
    }

    /// Updates the widget from the input manager's mouse: its coordinate, and the left button's
    /// click and press.
    pub fn update(&mut self, input: &InputManager) -> (r: ButtonAction)
        ensures
            Self::updated_by_mouse(
                *old(self),
                *final(self),
                input.spec_mouse_coord(),
                input.spec_mouse_clicked().0,
                input.spec_mouse_pressed().0,
                r,
            ),
    {
        self.update_with_mouse(
            input.mouse_coord(),
            input.mouse_clicked(InputMouse::Left),
            input.mouse_pressed(InputMouse::Left),
        )
    }

    /// Updates the button from the mouse: its coord on the grid (if any), whether the left button
    /// was just clicked and whether it is held. The button needs a redraw whenever its state
    /// changes.
    pub fn update_with_mouse(&mut self, mouse_coord: Option<ICoord>, mouse_clicked: bool, mouse_pressed: bool) -> (r: ButtonAction)
        ensures
            Self::updated_by_mouse(*old(self), *final(self), mouse_coord, mouse_clicked, mouse_pressed, r),
    {
        match mouse_coord {
            None => ButtonAction::Noop,
            Some(coord) => {
                let over = self.contains(&coord);
                match self.state {
                    ButtonState::Default => {
                        if over {
                            self.state = ButtonState::Focused;
                            ButtonAction::Interactable
                        } else {
                            ButtonAction::Noop
                        }
                    },
                    ButtonState::Focused => {
                        if !over {
                            self.state = ButtonState::Default;
                            ButtonAction::Noop
                        } else if mouse_clicked {
                            self.state = ButtonState::Pressed;
                            ButtonAction::Interactable
                        } else {
                            ButtonAction::Interactable
                        }
                    },
                    ButtonState::Pressed => {
                        if !over {
                            self.state = ButtonState::Default;
                            ButtonAction::Noop
                        } else if !mouse_pressed {
                            self.state = ButtonState::Focused;
                            ButtonAction::Triggered
                        } else {
                            ButtonAction::Interactable
                        }
                    },
                }
            },
        }
    }

    /// The format the button's text is drawn with in its current state.
    pub fn format(&self) -> (r: TextFormat)
        ensures
            r == button_format(self.spec_state(), self.spec_layout()),
    {
        let layout = match self.layout {
            ButtonLayout::Center => TileLayout::Center,
            ButtonLayout::Text => TileLayout::Text,
        };
        let (style, color) = match self.state {
            ButtonState::Default => (TileStyle::Regular, PaletteColor::BrightGrey),
            ButtonState::Focused => (TileStyle::Regular, PaletteColor::Gold),
            ButtonState::Pressed => (TileStyle::Bold, PaletteColor::Gold),
        };
        TextFormat {
            layout: Some(layout),
            style: Some(style),
            size: None,
            outlined: None,
            foreground_color: Some(color.const_into()),
            background_color: None,
            outline_color: None,
        }
    }

    /// What drawing the button writes on a map of a width: its text as plain text from its
    /// origin, in the format of its state.
    pub fn redraw_writes(&self, width: i32) -> (r: Vec<GlyphWrite>)
        requires
            self.spec_origin().0 < i32::MAX,
            self.spec_origin().1 + self.spec_text().len() <= i32::MAX,
        ensures
            r@ == plain_writes(
                self.spec_text(),
                self.spec_text().len() as int,
                self.spec_origin().0 as int,
                self.spec_origin().1 as int,
                width as int,
                button_format(self.spec_state(), self.spec_layout()),
            ),
    {
        let format = self.format();
        RichTextWriter::plain_glyph_writes(width, self.origin, self.text.as_str(), format)
    }
}

/// The state of a button after the first `k` of a run of mouse inputs (each: whether the mouse
/// is over it or off the grid, whether the left button was just clicked, and whether it is
/// held), starting from `s0`.
pub open spec fn button_state_after(s0: ButtonState, inputs: Seq<(Option<bool>, bool, bool)>, k: int) -> ButtonState
    decreases k,
{
    if k <= 0 {
        s0
    } else {
        let i = inputs[k - 1];
        button_step(button_state_after(s0, inputs, k - 1), i.0, i.1, i.2).0
    }
}

/// The action a button answers to the input at index `k` of a run.
pub open spec fn button_action_at(s0: ButtonState, inputs: Seq<(Option<bool>, bool, bool)>, k: int) -> ButtonAction {
    let i = inputs[k];
    button_step(button_state_after(s0, inputs, k), i.0, i.1, i.2).1
}

/// A button triggers only when it was pressed, and it does not trigger twice in a row: a
/// trigger leaves it focused.
pub proof fn law_trigger_once(s0: ButtonState, inputs: Seq<(Option<bool>, bool, bool)>, k: int)
    requires
        0 <= k < inputs.len(),
        button_action_at(s0, inputs, k) == ButtonAction::Triggered,
    ensures
        button_state_after(s0, inputs, k) == ButtonState::Pressed,
        button_state_after(s0, inputs, k + 1) == ButtonState::Focused,
        k + 1 < inputs.len() ==> button_action_at(s0, inputs, k + 1) != ButtonAction::Triggered,
{
}

/// A button that was not pressed at the start of a run triggers only after a click while it
/// was focused (with the mouse over it) pressed it.
pub proof fn law_trigger_needs_click(s0: ButtonState, inputs: Seq<(Option<bool>, bool, bool)>, k: int)
    requires
        s0 != ButtonState::Pressed,
        0 <= k < inputs.len(),
        button_action_at(s0, inputs, k) == ButtonAction::Triggered,
    ensures
        exists|j: int|
            0 <= j < k && button_state_after(s0, inputs, j) == ButtonState::Focused
                && inputs[j].0 == Some(true) && inputs[j].1 && #[trigger] button_state_after(
                s0,
                inputs,
                j + 1,
            ) == ButtonState::Pressed,
{
    lemma_pressed_after_click(s0, inputs, k);
}

proof fn lemma_pressed_after_click(s0: ButtonState, inputs: Seq<(Option<bool>, bool, bool)>, k: int)
    requires
        s0 != ButtonState::Pressed,
        0 <= k <= inputs.len(),
        button_state_after(s0, inputs, k) == ButtonState::Pressed,
    ensures
        exists|j: int|
            0 <= j < k && button_state_after(s0, inputs, j) == ButtonState::Focused
                && inputs[j].0 == Some(true) && inputs[j].1 && #[trigger] button_state_after(
                s0,
                inputs,
                j + 1,
            ) == ButtonState::Pressed,
    decreases k,
{
    if k > 0 {
        if button_state_after(s0, inputs, k - 1) == ButtonState::Pressed {
            lemma_pressed_after_click(s0, inputs, k - 1);
            let j = choose|j: int|
                0 <= j < k - 1 && button_state_after(s0, inputs, j) == ButtonState::Focused
                    && inputs[j].0 == Some(true) && inputs[j].1 && #[trigger] button_state_after(
                    s0,
                    inputs,
                    j + 1,
                ) == ButtonState::Pressed;
            assert(button_state_after(s0, inputs, j + 1) == ButtonState::Pressed);
        } else {
            assert(button_state_after(s0, inputs, (k - 1) + 1) == ButtonState::Pressed);
        }
    }
}

} // verus!
