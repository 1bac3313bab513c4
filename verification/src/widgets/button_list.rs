use vstd::prelude::*;

use crate::input::InputMouse;
use crate::input_manager::InputManager;
use crate::misc::ICoord;
use crate::widgets::button::{Button, ButtonAction, ButtonState, button_step};

verus! {

/// The response codes of a button list update.
#[derive(Clone, Copy, Debug, PartialEq, Eq, Structural)]
pub enum ButtonListAction {
    /// The button list was not interacted with.
    Noop,
    /// The button list consumed user input but was not triggered.
    Interactable,
    /// Index of the button in the button list that was triggered.
    Triggered(u32),
}

/// The rows between consecutive buttons of a list.
pub open spec fn row_step(spacing: bool) -> int {
    if spacing {
        2
    } else {
        1
    }
}

/// The action of a list whose buttons answered `actions`, in order: the first button that did
/// anything decides.
pub open spec fn list_action(actions: Seq<ButtonAction>) -> ButtonListAction
    decreases actions.len(),
{
    if actions.len() == 0 {
        ButtonListAction::Noop
    } else {
        let prev = list_action(actions.drop_last());
        if prev != ButtonListAction::Noop {
            prev
        } else {
            match actions.last() {
                ButtonAction::Triggered => ButtonListAction::Triggered((actions.len() - 1) as u32),
                ButtonAction::Interactable => ButtonListAction::Interactable,
                ButtonAction::Noop => ButtonListAction::Noop,
            }
        }
    }
}

/// What each of `buttons` answers to the same mouse input.
pub open spec fn button_actions(buttons: Seq<Button>, mouse_coord: Option<ICoord>, clicked: bool, pressed: bool) -> Seq<ButtonAction> {
    Seq::new(
        buttons.len(),
        |j: int| button_step(buttons[j].spec_state(), buttons[j].hovered(mouse_coord), clicked, pressed).1,
    )
}

/// The widest text length of `buttons`, each length taken as a `u32`.
pub open spec fn max_text_width(buttons: Seq<Button>) -> u32
    decreases buttons.len(),
{
    if buttons.len() == 0 {
        0
    } else {
        let prev = max_text_width(buttons.drop_last());
        let len = buttons.last().spec_text().len() as u32;
        if len > prev {
            len
        } else {
            prev
        }
    }
}

/// The number of rows that `count` buttons take: one each, with an empty row between two
/// buttons when there is spacing.
pub open spec fn list_height(count: int, spacing: bool) -> int {
    if count == 0 {
        0
    } else if spacing {
        2 * count - 1
    } else {
        count
    }
}

/// Whether `b` is `a` moved to `origin`.
pub open spec fn moved_to(a: Button, b: Button, origin: ICoord) -> bool {
    &&& b.spec_origin() == origin
    &&& b.spec_text() == a.spec_text()
    &&& b.spec_layout() == a.spec_layout()
    &&& b.spec_state() == a.spec_state()
}

/// Whether `after` holds the buttons of `before`, laid out from `origin`, one every `row_step`
/// rows.
pub open spec fn laid_out(before: Seq<Button>, after: Seq<Button>, origin: ICoord, spacing: bool) -> bool {
    &&& after.len() == before.len()
    &&& forall|i: int|
        0 <= i < before.len() ==> moved_to(
            #[trigger] before[i],
            after[i],
            (origin.0, (origin.1 + i * row_step(spacing)) as i32),
        )
}

/// Whether the rows of `count` buttons laid out from `origin` fit in an `i32`.
pub open spec fn rows_fit(origin: ICoord, count: int, spacing: bool) -> bool {
    count == 0 || origin.1 + (count - 1) * row_step(spacing) <= i32::MAX
}

/// A vertical list of buttons.
pub struct ButtonList {
    /// Origin of the button list.
    origin: ICoord,
    /// The buttons, top to bottom.
    buttons: Vec<Button>,
    /// Whether to leave an empty row between the buttons.
    spacing: bool,
}

impl ButtonList {
    /// The origin.
    pub closed spec fn spec_origin(&self) -> ICoord {
        self.origin
    }

    /// The buttons, top to bottom.
    pub closed spec fn spec_buttons(&self) -> Seq<Button> {
        self.buttons@
    }

    /// Whether there is an empty row between the buttons.
    pub closed spec fn spec_spacing(&self) -> bool {
        self.spacing
    }

    /// Creates a new, empty button list.
    pub fn new(origin: ICoord, spacing: bool) -> (r: Self)
        ensures
            r.spec_origin() == origin,
            r.spec_buttons().len() == 0,
            r.spec_spacing() == spacing,
    {
        ButtonList { origin, buttons: Vec::new(), spacing }
    }

    /// Returns the number of rows the buttons take (0 for no buttons).
    pub fn height(&self) -> (r: u32)
        requires
            self.spec_buttons().len() <= (if self.spec_spacing() {
                0x7fff_ffff
            } else {
                u32::MAX
            }),
        ensures
            r == list_height(self.spec_buttons().len() as int, self.spec_spacing()),
    {
        let n = self.buttons.len() as u32;
        if n == 0 {
            0
        } else if !self.spacing {
            n
        } else {
            n * 2 - 1
        }
    }

    /// Returns the length of the longest button text.
    pub fn width(&self) -> (r: u32)
        ensures
            r == max_text_width(self.spec_buttons()),
    {
        let mut width: u32 = 0;
        let mut i: usize = 0;
        while i < self.buttons.len()
            invariant
                i <= self.buttons@.len(),
                width == max_text_width(self.buttons@.take(i as int)),
            decreases self.buttons@.len() - i,
        {
            let len = self.buttons[i].text().unicode_len() as u32;
            proof {
                assert(self.buttons@.take(i as int + 1).drop_last() =~= self.buttons@.take(i as int));
            }
            if len > width {
                width = len;
            }
            i = i + 1;
        }
        proof {
            assert(self.buttons@.take(i as int) =~= self.buttons@);
        }
        width
    }

    /// Returns the buttons, top to bottom.
    pub fn buttons(&self) -> (r: &Vec<Button>)
        ensures
            r@ == self.spec_buttons(),
    {
        &self.buttons
    }

    /// Returns the origin of the button list.
    pub fn origin(&self) -> (r: ICoord)
        ensures
            r == self.spec_origin(),
    {
        self.origin
    }

    /// Lays the buttons out from the origin, one every row (or every other row with spacing).
    fn refresh_button_origins(&mut self)
        requires
            rows_fit(old(self).spec_origin(), old(self).spec_buttons().len() as int, old(self).spec_spacing()),
        ensures
            final(self).spec_origin() == old(self).spec_origin(),
            final(self).spec_spacing() == old(self).spec_spacing(),
            laid_out(old(self).spec_buttons(), final(self).spec_buttons(), old(self).spec_origin(), old(self).spec_spacing()),
    {
        let ghost before = self.buttons@;
        let step: i64 = if self.spacing { 2 } else { 1 };
        let mut i: usize = 0;
        while i < self.buttons.len()
            invariant
                i <= self.buttons@.len(),
                self.buttons@.len() == before.len(),
                self.origin == old(self).origin,
                self.spacing == old(self).spacing,
                step == row_step(self.spacing),
                rows_fit(self.origin, before.len() as int, self.spacing),
                forall|j: int| 0 <= j < i ==> moved_to(
                    #[trigger] before[j],
                    self.buttons@[j],
                    (self.origin.0, (self.origin.1 + j * row_step(self.spacing)) as i32),
                ),
                forall|j: int| i <= j < before.len() ==> self.buttons@[j] == before[j],
            decreases self.buttons@.len() - i,
        {
            assert(0 <= (i as int) * step <= (before.len() - 1) * step) by (nonlinear_arith)
                requires
                    i < before.len(),
                    1 <= step <= 2,
            ;
            let y = (self.origin.1 as i64 + (i as i64) * step) as i32;
            let o = (self.origin.0, y);
            self.buttons[i].set_origin(o);
            i = i + 1;
        }
    }

    /// Moves the button list and its buttons to a new origin.
    pub fn set_origin(&mut self, origin: ICoord)
        requires
            rows_fit(origin, old(self).spec_buttons().len() as int, old(self).spec_spacing()),
        ensures
            final(self).spec_origin() == origin,
            final(self).spec_spacing() == old(self).spec_spacing(),
            laid_out(old(self).spec_buttons(), final(self).spec_buttons(), origin, old(self).spec_spacing()),
    {
        self.origin = origin;
        self.refresh_button_origins();
    }

    /// Creates a new button list from a vec of buttons, laid out from the origin.
    pub fn from_buttons_vec(origin: ICoord, buttons: Vec<Button>, spacing: bool) -> (r: Self)
        requires
            rows_fit(origin, buttons@.len() as int, spacing),
        ensures
            r.spec_origin() == origin,
            r.spec_spacing() == spacing,
            laid_out(buttons@, r.spec_buttons(), origin, spacing),
    {
        let mut button_list = ButtonList { origin, buttons, spacing };
        button_list.refresh_button_origins();
        button_list
    }

    /// Appends a button, placed on the row after the last button (two rows after, with spacing),
    /// where laying out the list from its origin puts it.
    pub fn push(&mut self, button: Button)
        requires
            rows_fit(old(self).spec_origin(), old(self).spec_buttons().len() + 1int, old(self).spec_spacing()),
        ensures
            final(self).spec_origin() == old(self).spec_origin(),
            final(self).spec_spacing() == old(self).spec_spacing(),
            final(self).spec_buttons().len() == old(self).spec_buttons().len() + 1,
            final(self).spec_buttons().drop_last() == old(self).spec_buttons(),
            moved_to(
                button,
                final(self).spec_buttons().last(),
                (
                    old(self).spec_origin().0,
                    (old(self).spec_origin().1 + old(self).spec_buttons().len() * row_step(
                        old(self).spec_spacing(),
                    )) as i32,
                ),
            ),
    {
        let step: i64 = if self.spacing { 2 } else { 1 };
        let n = self.buttons.len();
        assert(0 <= (n as int) * step <= (n as int) * 2) by (nonlinear_arith)
            requires
                1 <= step <= 2,
                n >= 0,
        ;
        let y = (self.origin.1 as i64 + (n as i64) * step) as i32;
        let mut button = button;
        button.set_origin((self.origin.0, y));
        self.buttons.push(button);
        proof {
            assert(self.buttons@.drop_last() =~= old(self).buttons@);
        }
    }

    /// Pushing buttons one by one lays them out as `from_buttons_vec` does: a list laid out
    /// from its origin stays laid out after a push.
    pub proof fn law_push_keeps_layout(
        before: Seq<Button>,
        listed: Seq<Button>,
        button: Button,
        pushed: Button,
        origin: ICoord,
        spacing: bool,
    )
        requires
            laid_out(before, listed, origin, spacing),
            moved_to(button, pushed, (origin.0, (origin.1 + before.len() * row_step(spacing)) as i32)),
        ensures
            laid_out(before.push(button), listed.push(pushed), origin, spacing),
    {
        assert forall|i: int| 0 <= i < before.push(button).len() implies moved_to(
            #[trigger] before.push(button)[i],
            listed.push(pushed)[i],
            (origin.0, (origin.1 + i * row_step(spacing)) as i32),
        ) by {
            if i < before.len() {
                assert(before.push(button)[i] == before[i]);
                assert(listed.push(pushed)[i] == listed[i]);
            }
        }
    }

    /// Removes all buttons.
    pub fn clear(&mut self)
        ensures
            final(self).spec_origin() == old(self).spec_origin(),
            final(self).spec_spacing() == old(self).spec_spacing(),
            final(self).spec_buttons().len() == 0,
    {
        self.buttons.clear();
    }

    /// Resets all buttons to the default state.
    pub fn reset(&mut self)
        ensures
            final(self).spec_origin() == old(self).spec_origin(),
            final(self).spec_spacing() == old(self).spec_spacing(),
            final(self).spec_buttons().len() == old(self).spec_buttons().len(),
            forall|i: int|
                0 <= i < old(self).spec_buttons().len() ==> {
                    let a = #[trigger] old(self).spec_buttons()[i];
                    let b = final(self).spec_buttons()[i];
                    &&& b.spec_origin() == a.spec_origin()
                    &&& b.spec_text() == a.spec_text()
                    &&& b.spec_layout() == a.spec_layout()
                    &&& b.spec_state() == ButtonState::Default
                },
    {
        let ghost before = self.buttons@;
        let mut i: usize = 0;
        while i < self.buttons.len()
            invariant
                i <= self.buttons@.len(),
                self.buttons@.len() == before.len(),
                self.origin == old(self).origin,
                self.spacing == old(self).spacing,
                forall|j: int|
                    0 <= j < i ==> {
                        let a = #[trigger] before[j];
                        let b = self.buttons@[j];
                        &&& b.spec_origin() == a.spec_origin()
                        &&& b.spec_text() == a.spec_text()
                        &&& b.spec_layout() == a.spec_layout()
                        &&& b.spec_state() == ButtonState::Default
                    },
                forall|j: int| i <= j < before.len() ==> self.buttons@[j] == before[j],
            decreases self.buttons@.len() - i,
        {
            self.buttons[i].reset();
            i = i + 1;
        }
    }

    /// One update of the widget by the mouse, from `before` to `after`, given the mouse's
    /// coordinate (`None` outside the terminal), whether the left button was clicked and whether
    /// it is pressed, returning `r`.
    pub open spec fn updated_by_mouse(
        before: ButtonList,
        after: ButtonList,
        mouse_coord: Option<ICoord>,
        mouse_clicked: bool,
        mouse_pressed: bool,
        r: ButtonListAction,
    ) -> bool {
        &&& after.spec_origin() == before.spec_origin()
        &&& after.spec_spacing() == before.spec_spacing()
        &&& after.spec_buttons().len() == before.spec_buttons().len()
        &&& forall|i: int|
            0 <= i < before.spec_buttons().len() ==> {
                let a = #[trigger] before.spec_buttons()[i];
                let b = after.spec_buttons()[i];
                &&& b.spec_origin() == a.spec_origin()
                &&& b.spec_text() == a.spec_text()
                &&& b.spec_layout() == a.spec_layout()
                &&& b.spec_state() == button_step(
                    a.spec_state(),
                    a.hovered(mouse_coord),
                    mouse_clicked,
                    mouse_pressed,
                ).0
            }
        &&& r == list_action(
            button_actions(before.spec_buttons(), mouse_coord, mouse_clicked, mouse_pressed),
        )
    }

    /// Updates the widget from the input manager's mouse: its coordinate, and the left button's
    /// click and press.
    pub fn update(&mut self, input: &InputManager) -> (r: ButtonListAction)
        ensures
            Self::updated_by_mouse(
                *old(self),
                *final(self),
                input.spec_mouse_coord(),
                input.spec_mouse_clicked().0,
                input.spec_mouse_pressed().0,
                r,
            ),
    {
        self.update_with_mouse(
            input.mouse_coord(),
            input.mouse_clicked(InputMouse::Left),
            input.mouse_pressed(InputMouse::Left),
        )
    }

    /// Updates every button from the same mouse input, and returns what the first button that
    /// did anything answered: its index when it was triggered.
    pub fn update_with_mouse(&mut self, mouse_coord: Option<ICoord>, mouse_clicked: bool, mouse_pressed: bool) -> (r: ButtonListAction)
        ensures
            Self::updated_by_mouse(*old(self), *final(self), mouse_coord, mouse_clicked, mouse_pressed, r),
    {
        let ghost before = self.buttons@;
        let ghost actions = button_actions(before, mouse_coord, mouse_clicked, mouse_pressed);
        let mut action = ButtonListAction::Noop;
        let mut i: usize = 0;
        while i < self.buttons.len()
            invariant
                i <= self.buttons@.len(),
                self.buttons@.len() == before.len(),
                self.origin == old(self).origin,
                self.spacing == old(self).spacing,
                actions == button_actions(before, mouse_coord, mouse_clicked, mouse_pressed),
                action == list_action(actions.take(i as int)),
                forall|j: int|
                    0 <= j < i ==> {
                        let a = #[trigger] before[j];
                        let b = self.buttons@[j];
                        &&& b.spec_origin() == a.spec_origin()
                        &&& b.spec_text() == a.spec_text()
                        &&& b.spec_layout() == a.spec_layout()
                        &&& b.spec_state() == button_step(
                            a.spec_state(),
                            a.hovered(mouse_coord),
                            mouse_clicked,
                            mouse_pressed,
                        ).0
                    },
                forall|j: int| i <= j < before.len() ==> self.buttons@[j] == before[j],
            decreases self.buttons@.len() - i,
        {
            let button_action = self.buttons[i].update_with_mouse(mouse_coord, mouse_clicked, mouse_pressed);
            proof {
                assert(actions.take(i as int + 1).drop_last() =~= actions.take(i as int));
                assert(actions[i as int] == button_action);
            }
            if action == ButtonListAction::Noop {
                match button_action {
                    ButtonAction::Triggered => {
                        action = ButtonListAction::Triggered(#[verifier::truncate] (i as u32));
                    },
                    ButtonAction::Interactable => {
                        action = ButtonListAction::Interactable;
                    },
                    ButtonAction::Noop => {},
                }
            }
            i = i + 1;
        }
        proof {
            assert(actions.take(i as int) =~= actions);
        }
        action
    }
}

} // verus!
