use vstd::prelude::*;

use fnv::{FnvHashMap, FnvHashSet};

use crate::input::{InputAction, InputKey, InputMouse, ModifierKey};
use crate::misc::ICoord;

verus! {

/// Keycode of the tab key.
pub const KEYCODE_TAB: i32 = 9;

/// Keycode of the return key.
pub const KEYCODE_RETURN: i32 = 13;

/// Keycode of the escape key.
pub const KEYCODE_ESCAPE: i32 = 27;

/// Keycodes of the letter keys used by the default bindings.
pub const KEYCODE_B: i32 = 98;

pub const KEYCODE_H: i32 = 104;

pub const KEYCODE_J: i32 = 106;

pub const KEYCODE_K: i32 = 107;

pub const KEYCODE_L: i32 = 108;

pub const KEYCODE_N: i32 = 110;

pub const KEYCODE_U: i32 = 117;

pub const KEYCODE_Y: i32 = 121;

/// Keycode of the application (menu) key.
pub const KEYCODE_APPLICATION: i32 = 0x40000065;

/// Keycodes of the left and right control, shift, alt and GUI keys.
pub const KEYCODE_LCTRL: i32 = 0x400000E0;

pub const KEYCODE_LSHIFT: i32 = 0x400000E1;

pub const KEYCODE_LALT: i32 = 0x400000E2;

pub const KEYCODE_LGUI: i32 = 0x400000E3;

pub const KEYCODE_RCTRL: i32 = 0x400000E4;

pub const KEYCODE_RSHIFT: i32 = 0x400000E5;

pub const KEYCODE_RALT: i32 = 0x400000E6;

pub const KEYCODE_RGUI: i32 = 0x400000E7;

/// An entry of the bindings of an input action: a key or modifier that must be pressed, or one
/// that must not be.
#[derive(Clone, Copy, Debug, PartialEq, Eq, Structural)]
pub enum InputBinding {
    SpecificKey(InputKey),
    ModifierKey(ModifierKey),
    ExcludeSpecificKey(InputKey),
    ExcludeModifierKey(ModifierKey),
}

/// A set of keycodes, held in a hash set of fnv.
#[verifier::external_body]
pub struct KeySet {
    set: FnvHashSet<i32>,
}

/// The keycodes in a key set.
pub uninterp spec fn key_set_view(s: KeySet) -> Set<i32>;

impl KeySet {
    /// Calls `FnvHashSet::default`, which gives an empty set.
    #[verifier::external_body]
    fn new() -> (r: KeySet)
        ensures
            key_set_view(r) == Set::<i32>::empty(),
    {
        KeySet { set: FnvHashSet::default() }
    }

    /// Calls `FnvHashSet::insert`, which adds the keycode.
    #[verifier::external_body]
    fn insert(&mut self, k: i32)
        ensures
            key_set_view(*final(self)) == key_set_view(*old(self)).insert(k),
    {
        self.set.insert(k);
    }

    /// Calls `FnvHashSet::remove`, which takes the keycode out.
    #[verifier::external_body]
    fn remove(&mut self, k: i32)
        ensures
            key_set_view(*final(self)) == key_set_view(*old(self)).remove(k),
    {
        self.set.remove(&k);
    }

    /// Calls `FnvHashSet::contains`, which tells whether the keycode is in the set.
    #[verifier::external_body]
    fn contains(&self, k: i32) -> (r: bool)
        ensures
            r == key_set_view(*self).contains(k),
    {
        self.set.contains(&k)
    }

    /// Calls `FnvHashSet::clear`, which empties the set.
    #[verifier::external_body]
    fn clear(&mut self)
        ensures
            key_set_view(*final(self)) == Set::<i32>::empty(),
    {
        self.set.clear();
    }
}

/// The code of an input action, by which the hash collections of the input manager hold it: its
/// place in the order of declaration.
pub open spec fn action_code(a: InputAction) -> u8 {
    match a {
        InputAction::Accept => 0,
        InputAction::Decline => 1,
        InputAction::Quit => 2,
        InputAction::North => 3,
        InputAction::Northeast => 4,
        InputAction::East => 5,
        InputAction::Southeast => 6,
        InputAction::South => 7,
        InputAction::Southwest => 8,
        InputAction::West => 9,
        InputAction::Northwest => 10,
    }
}

/// Returns the code of an input action.
fn code_of(a: InputAction) -> (r: u8)
    ensures
        r == action_code(a),
{
    match a {
        InputAction::Accept => 0,
        InputAction::Decline => 1,
        InputAction::Quit => 2,
        InputAction::North => 3,
        InputAction::Northeast => 4,
        InputAction::East => 5,
        InputAction::Southeast => 6,
        InputAction::South => 7,
        InputAction::Southwest => 8,
        InputAction::West => 9,
        InputAction::Northwest => 10,
    }
}

/// Distinct actions have distinct codes.
proof fn lemma_action_code_injective(a: InputAction, b: InputAction)
    requires
        action_code(a) == action_code(b),
    ensures
        a == b,
{
}

/// A set of input action codes, held in a hash set of fnv.
#[verifier::external_body]
pub struct ActionSet {
    set: FnvHashSet<u8>,
}

/// The codes in an action set.
pub uninterp spec fn action_set_view(s: ActionSet) -> Set<u8>;

/// The input actions whose codes are in an action set.
pub open spec fn actions_in(s: ActionSet) -> Set<InputAction> {
    Set::new(|a: InputAction| action_set_view(s).contains(action_code(a)))
}

impl ActionSet {
    /// Calls `FnvHashSet::default`, which gives an empty set.
    #[verifier::external_body]
    fn new_empty() -> (r: ActionSet)
        ensures
            action_set_view(r) == Set::<u8>::empty(),
    {
        ActionSet { set: FnvHashSet::default() }
    }

    /// Calls `FnvHashSet::insert`, which adds the code.
    #[verifier::external_body]
    fn insert_code(&mut self, c: u8)
        ensures
            action_set_view(*final(self)) == action_set_view(*old(self)).insert(c),
    {
        self.set.insert(c);
    }

    /// Calls `FnvHashSet::remove`, which takes the code out.
    #[verifier::external_body]
    fn remove_code(&mut self, c: u8)
        ensures
            action_set_view(*final(self)) == action_set_view(*old(self)).remove(c),
    {
        self.set.remove(&c);
    }

    /// Calls `FnvHashSet::contains`, which tells whether the code is in the set.
    #[verifier::external_body]
    fn contains_code(&self, c: u8) -> (r: bool)
        ensures
            r == action_set_view(*self).contains(c),
    {
        self.set.contains(&c)
    }

    /// Calls `FnvHashSet::clear`, which empties the set.
    #[verifier::external_body]
    fn clear_codes(&mut self)
        ensures
            action_set_view(*final(self)) == Set::<u8>::empty(),
    {
        self.set.clear();
    }

    /// Creates an empty action set.
    fn new() -> (r: ActionSet)
        ensures
            actions_in(r) == Set::<InputAction>::empty(),
    {
        let r = Self::new_empty();
        assert(actions_in(r) =~= Set::<InputAction>::empty());
        r
    }

    /// Adds an action.
    fn insert(&mut self, a: InputAction)
        ensures
            actions_in(*final(self)) == actions_in(*old(self)).insert(a),
    {
        self.insert_code(code_of(a));
        proof {
            assert forall|b: InputAction| #[trigger] actions_in(*self).contains(b) == actions_in(
                *old(self),
            ).insert(a).contains(b) by {
                if action_code(b) == action_code(a) {
                    lemma_action_code_injective(a, b);
                }
            }
            assert(actions_in(*self) =~= actions_in(*old(self)).insert(a));
        }
    }

    /// Takes an action out.
    fn remove(&mut self, a: InputAction)
        ensures
            actions_in(*final(self)) == actions_in(*old(self)).remove(a),
    {
        self.remove_code(code_of(a));
        proof {
            assert forall|b: InputAction| #[trigger] actions_in(*self).contains(b) == actions_in(
                *old(self),
            ).remove(a).contains(b) by {
                if action_code(b) == action_code(a) {
                    lemma_action_code_injective(a, b);
                }
            }
            assert(actions_in(*self) =~= actions_in(*old(self)).remove(a));
        }
    }

    /// Tells whether an action is in the set.
    fn contains(&self, a: InputAction) -> (r: bool)
        ensures
            r == actions_in(*self).contains(a),
    {
        self.contains_code(code_of(a))
    }

    /// Empties the set.
    fn clear(&mut self)
        ensures
            actions_in(*final(self)) == Set::<InputAction>::empty(),
    {
        self.clear_codes();
        assert(actions_in(*self) =~= Set::<InputAction>::empty());
    }
}

/// The bindings of each input action, held by its code in a hash map of fnv.
#[verifier::external_body]
pub struct BindingMap {
    map: FnvHashMap<u8, Vec<InputBinding>>,
}

/// The bindings of each bound action code in a binding map.
pub uninterp spec fn binding_map_view(m: BindingMap) -> Map<u8, Seq<InputBinding>>;

/// The bindings of each input action whose code is bound in a binding map.
pub open spec fn bindings_in(m: BindingMap) -> Map<InputAction, Seq<InputBinding>> {
    Map::new(
        |a: InputAction| binding_map_view(m).contains_key(action_code(a)),
        |a: InputAction| binding_map_view(m)[action_code(a)],
    )
}

impl BindingMap {
    /// Calls `FnvHashMap::default`, which gives an empty map.
    #[verifier::external_body]
    fn new_empty() -> (r: BindingMap)
        ensures
            binding_map_view(r).dom() == Set::<u8>::empty(),
    {
        BindingMap { map: FnvHashMap::default() }
    }

    /// Calls `FnvHashMap::insert`, which binds the code, replacing its old bindings.
    #[verifier::external_body]
    fn insert_code(&mut self, c: u8, bindings: Vec<InputBinding>)
        ensures
            binding_map_view(*final(self)) == binding_map_view(*old(self)).insert(c, bindings@),
    {
        self.map.insert(c, bindings);
    }

    /// Calls `FnvHashMap::get`, which gives the bindings of the code, if it is bound.
    #[verifier::external_body]
    fn get_code(&self, c: u8) -> (r: Option<&Vec<InputBinding>>)
        ensures
            match r {
                Some(v) => binding_map_view(*self).contains_key(c) && v@ == binding_map_view(
                    *self,
                )[c],
                None => !binding_map_view(*self).contains_key(c),
            },
    {
        self.map.get(&c)
    }

    /// Creates a binding map in which no action is bound.
    fn new() -> (r: BindingMap)
        ensures
            bindings_in(r) == no_bindings(),
    {
        let r = Self::new_empty();
        assert(bindings_in(r) =~= no_bindings());
        r
    }

    /// Binds an action, replacing its old bindings.
    fn insert(&mut self, a: InputAction, bindings: Vec<InputBinding>)
        ensures
            bindings_in(*final(self)) == bindings_in(*old(self)).insert(a, bindings@),
    {
        let ghost b = bindings@;
        self.insert_code(code_of(a), bindings);
        proof {
            assert forall|x: InputAction| #[trigger] bindings_in(*self).contains_key(x)
                == bindings_in(*old(self)).insert(a, b).contains_key(x) by {
                if action_code(x) == action_code(a) {
                    lemma_action_code_injective(a, x);
                }
            }
            assert forall|x: InputAction| #[trigger] bindings_in(*self).contains_key(x)
                implies bindings_in(*self)[x] == bindings_in(*old(self)).insert(a, b)[x] by {
                if action_code(x) == action_code(a) {
                    lemma_action_code_injective(a, x);
                }
            }
            assert(bindings_in(*self) =~= bindings_in(*old(self)).insert(a, b));
        }
    }

    /// Returns the bindings of an action, if it is bound.
    fn get(&self, a: InputAction) -> (r: Option<&Vec<InputBinding>>)
        ensures
            match r {
                Some(v) => bindings_in(*self).contains_key(a) && v@ == bindings_in(*self)[a],
                None => !bindings_in(*self).contains_key(a),
            },
    {
        self.get_code(code_of(a))
    }
}

/// The bindings of a manager in which no action is bound.
pub open spec fn no_bindings() -> Map<InputAction, Seq<InputBinding>> {
    Map::empty()
}

/// The default bindings: return accepts, tab without alt declines, escape quits, and the keys
/// k, u, l, n, j, b, h and y move north, northeast, east, southeast, south, southwest, west and
/// northwest.
pub open spec fn default_bindings() -> Map<InputAction, Seq<InputBinding>> {
    map![
        InputAction::Accept => seq![InputBinding::SpecificKey(InputKey(KEYCODE_RETURN))],
        InputAction::Decline => seq![
            InputBinding::SpecificKey(InputKey(KEYCODE_TAB)),
            InputBinding::ExcludeModifierKey(ModifierKey::Alt),
        ],
        InputAction::Quit => seq![InputBinding::SpecificKey(InputKey(KEYCODE_ESCAPE))],
        InputAction::North => seq![InputBinding::SpecificKey(InputKey(KEYCODE_K))],
        InputAction::Northeast => seq![InputBinding::SpecificKey(InputKey(KEYCODE_U))],
        InputAction::East => seq![InputBinding::SpecificKey(InputKey(KEYCODE_L))],
        InputAction::Southeast => seq![InputBinding::SpecificKey(InputKey(KEYCODE_N))],
        InputAction::South => seq![InputBinding::SpecificKey(InputKey(KEYCODE_J))],
        InputAction::Southwest => seq![InputBinding::SpecificKey(InputKey(KEYCODE_B))],
        InputAction::West => seq![InputBinding::SpecificKey(InputKey(KEYCODE_H))],
        InputAction::Northwest => seq![InputBinding::SpecificKey(InputKey(KEYCODE_Y))],
    ]
}

/// Whether a keycode is that of an alt, control, shift, GUI or application key.
pub open spec fn is_modifier_key(k: i32) -> bool {
    ||| k == KEYCODE_LALT
    ||| k == KEYCODE_RALT
    ||| k == KEYCODE_LCTRL
    ||| k == KEYCODE_RCTRL
    ||| k == KEYCODE_LSHIFT
    ||| k == KEYCODE_RSHIFT
    ||| k == KEYCODE_LGUI
    ||| k == KEYCODE_RGUI
    ||| k == KEYCODE_APPLICATION
}

/// Whether either key of a modifier is among the pressed keys.
pub open spec fn modifier_held(m: ModifierKey, pressed: Set<i32>) -> bool {
    match m {
        ModifierKey::Alt => pressed.contains(KEYCODE_LALT) || pressed.contains(KEYCODE_RALT),
        ModifierKey::Ctrl => pressed.contains(KEYCODE_LCTRL) || pressed.contains(KEYCODE_RCTRL),
        ModifierKey::Shift => pressed.contains(KEYCODE_LSHIFT) || pressed.contains(
            KEYCODE_RSHIFT,
        ),
    }
}

/// Whether a binding holds for the pressed keys.
pub open spec fn binding_held(b: InputBinding, pressed: Set<i32>) -> bool {
    match b {
        InputBinding::SpecificKey(k) => pressed.contains(k.0),
        InputBinding::ModifierKey(m) => modifier_held(m, pressed),
        InputBinding::ExcludeSpecificKey(k) => !pressed.contains(k.0),
        InputBinding::ExcludeModifierKey(m) => !modifier_held(m, pressed),
    }
}

/// Whether all the bindings of an action hold for the pressed keys.
pub open spec fn bindings_held(bindings: Seq<InputBinding>, pressed: Set<i32>) -> bool {
    forall|i: int| 0 <= i < bindings.len() ==> binding_held(#[trigger] bindings[i], pressed)
}

/// The key state: pressed keys, just pressed keys, released keys, and whether any key that is
/// not a modifier was pressed.
pub type KeyView = (Set<i32>, Set<i32>, Set<i32>, bool);

/// The action state: pressed actions, just pressed actions, released actions, and whether any
/// action was pressed.
pub type ActionView = (Set<InputAction>, Set<InputAction>, Set<InputAction>, bool);

/// The key state after one key's state is read: a pressed key is recorded as pressed, and as
/// just pressed if it had been released; a key that is not pressed is recorded as released.
pub open spec fn key_step(s: KeyView, event: (InputKey, bool)) -> KeyView {
    let k = event.0.0;
    if event.1 {
        let pressed = s.0.insert(k);
        let any = s.3 || !is_modifier_key(k) || (k == KEYCODE_TAB && !modifier_held(
            ModifierKey::Alt,
            pressed,
        ));
        if s.2.contains(k) {
            (pressed, s.1.insert(k), s.2.remove(k), any)
        } else {
            (pressed, s.1, s.2, any)
        }
    } else {
        (s.0, s.1, s.2.insert(k), s.3)
    }
}

/// The key state after the keys' states are read in order.
pub open spec fn key_fold(s: KeyView, events: Seq<(InputKey, bool)>) -> KeyView
    decreases events.len(),
{
    if events.len() == 0 {
        s
    } else {
        key_step(key_fold(s, events.drop_last()), events.last())
    }
}

/// The action state after one action is checked: a bound action whose bindings all hold is
/// recorded as pressed, and as just pressed if it had been released; a bound action whose
/// bindings do not all hold is recorded as released; an unbound action changes nothing.
pub open spec fn action_step(
    s: ActionView,
    a: InputAction,
    bindings: Map<InputAction, Seq<InputBinding>>,
    pressed: Set<i32>,
) -> ActionView {
    if bindings.contains_key(a) {
        if bindings_held(bindings[a], pressed) {
            if s.2.contains(a) {
                (s.0.insert(a), s.1.insert(a), s.2.remove(a), true)
            } else {
                (s.0.insert(a), s.1, s.2, true)
            }
        } else {
            (s.0, s.1, s.2.insert(a), s.3)
        }
    } else {
        s
    }
}

/// The action state after the actions are checked in order.
pub open spec fn action_fold(
    s: ActionView,
    actions: Seq<InputAction>,
    bindings: Map<InputAction, Seq<InputBinding>>,
    pressed: Set<i32>,
) -> ActionView
    decreases actions.len(),
{
    if actions.len() == 0 {
        s
    } else {
        action_step(
            action_fold(s, actions.drop_last(), bindings, pressed),
            actions.last(),
            bindings,
            pressed,
        )
    }
}

/// Every input action, in the order of declaration.
pub open spec fn all_actions() -> Seq<InputAction> {
    seq![
        InputAction::Accept,
        InputAction::Decline,
        InputAction::Quit,
        InputAction::North,
        InputAction::Northeast,
        InputAction::East,
        InputAction::Southeast,
        InputAction::South,
        InputAction::Southwest,
        InputAction::West,
        InputAction::Northwest,
    ]
}

/// Reading keys keeps every just pressed key pressed.
pub proof fn law_just_pressed_keys_stay_pressed(s: KeyView, events: Seq<(InputKey, bool)>)
    requires
        s.1.subset_of(s.0),
    ensures
        key_fold(s, events).1.subset_of(key_fold(s, events).0),
    decreases events.len(),
{
    if events.len() > 0 {
        law_just_pressed_keys_stay_pressed(s, events.drop_last());
    }
}

/// Checking actions keeps every just pressed action pressed.
pub proof fn law_just_pressed_actions_stay_pressed(
    s: ActionView,
    actions: Seq<InputAction>,
    bindings: Map<InputAction, Seq<InputBinding>>,
    pressed: Set<i32>,
)
    requires
        s.1.subset_of(s.0),
    ensures
        action_fold(s, actions, bindings, pressed).1.subset_of(
            action_fold(s, actions, bindings, pressed).0,
        ),
    decreases actions.len(),
{
    if actions.len() > 0 {
        law_just_pressed_actions_stay_pressed(s, actions.drop_last(), bindings, pressed);
    }
}

proof fn lemma_key_fold_append(s: KeyView, a: Seq<(InputKey, bool)>, b: Seq<(InputKey, bool)>)
    ensures
        key_fold(s, a + b) == key_fold(key_fold(s, a), b),
    decreases b.len(),
{
    if b.len() == 0 {
        assert(a + b =~= a);
    } else {
        assert((a + b).drop_last() =~= a + b.drop_last());
        lemma_key_fold_append(s, a, b.drop_last());
    }
}

proof fn lemma_key_fold_untouched(s: KeyView, events: Seq<(InputKey, bool)>, k: i32)
    requires
        forall|j: int| 0 <= j < events.len() ==> (#[trigger] events[j]).0.0 != k,
    ensures
        key_fold(s, events).0.contains(k) == s.0.contains(k),
        key_fold(s, events).1.contains(k) == s.1.contains(k),
        key_fold(s, events).2.contains(k) == s.2.contains(k),
    decreases events.len(),
{
    if events.len() > 0 {
        lemma_key_fold_untouched(s, events.drop_last(), k);
        assert(events.last() == events[events.len() - 1]);
    }
}

/// A key that was released and is then read as pressed (and read no other time) ends up
/// pressed and just pressed, and no longer released.
pub proof fn law_press_after_release(s: KeyView, events: Seq<(InputKey, bool)>, i: int, k: i32)
    requires
        0 <= i < events.len(),
        events[i] == (InputKey(k), true),
        forall|j: int| 0 <= j < events.len() && j != i ==> (#[trigger] events[j]).0.0 != k,
        s.2.contains(k),
    ensures
        key_fold(s, events).0.contains(k),
        key_fold(s, events).1.contains(k),
        !key_fold(s, events).2.contains(k),
{
    let before = events.take(i);
    let after = events.skip(i + 1);
    assert(events =~= events.take(i + 1) + after);
    assert(events.take(i + 1).drop_last() =~= before);
    lemma_key_fold_append(s, events.take(i + 1), after);
    assert forall|j: int| 0 <= j < before.len() implies (#[trigger] before[j]).0.0 != k by {
        assert(before[j] == events[j]);
    }
    lemma_key_fold_untouched(s, before, k);
    let mid = key_fold(s, events.take(i + 1));
    assert forall|j: int| 0 <= j < after.len() implies (#[trigger] after[j]).0.0 != k by {
        assert(after[j] == events[i + 1 + j]);
    }
    lemma_key_fold_untouched(mid, after, k);
}

/// A key that has not been released since the last reset is never just pressed, however
/// often it is read as pressed: holding a key from before the manager existed does not count
/// as pressing it.
pub proof fn law_unreleased_key_not_just_pressed(s: KeyView, events: Seq<(InputKey, bool)>, k: i32)
    requires
        !s.1.contains(k),
        !s.2.contains(k),
        forall|j: int| 0 <= j < events.len() ==> #[trigger] events[j] != (InputKey(k), false),
    ensures
        !key_fold(s, events).1.contains(k),
        !key_fold(s, events).2.contains(k),
    decreases events.len(),
{
    if events.len() > 0 {
        assert forall|j: int| 0 <= j < events.drop_last().len() implies #[trigger] events.drop_last()[j]
            != (InputKey(k), false) by {
            assert(events.drop_last()[j] == events[j]);
        }
        law_unreleased_key_not_just_pressed(s, events.drop_last(), k);
        assert(events.last() == events[events.len() - 1]);
    }
}

impl InputAction {
    /// Every input action, in the order of declaration.
    pub fn all() -> (r: Vec<InputAction>)
        ensures
            r@ == all_actions(),
    {
        vec![
            InputAction::Accept,
            InputAction::Decline,
            InputAction::Quit,
            InputAction::North,
            InputAction::Northeast,
            InputAction::East,
            InputAction::Southeast,
            InputAction::South,
            InputAction::Southwest,
            InputAction::West,
            InputAction::Northwest,
        ]
    }
}

/// The state of the user's input: keys, input actions and mouse.
pub struct InputManager {
    mouse_pressed: (bool, bool),
    mouse_clicked: (bool, bool),
    mouse_coord: Option<ICoord>,
    mouse_moved: bool,
    pressed_keys: KeySet,
    just_pressed_keys: KeySet,
    released_keys: KeySet,
    pressed_actions: ActionSet,
    just_pressed_actions: ActionSet,
    released_actions: ActionSet,
    action_bindings: BindingMap,
    pressed_any_key: bool,
    pressed_any_action: bool,
}

impl InputManager {
    /// The key state.
    pub closed spec fn spec_keys(&self) -> KeyView {
        (
            key_set_view(self.pressed_keys),
            key_set_view(self.just_pressed_keys),
            key_set_view(self.released_keys),
            self.pressed_any_key,
        )
    }

    /// The action state.
    pub closed spec fn spec_actions(&self) -> ActionView {
        (
            actions_in(self.pressed_actions),
            actions_in(self.just_pressed_actions),
            actions_in(self.released_actions),
            self.pressed_any_action,
        )
    }

    /// The bindings of the bound actions.
    pub closed spec fn spec_bindings(&self) -> Map<InputAction, Seq<InputBinding>> {
        bindings_in(self.action_bindings)
    }

    /// Whether the left and right mouse buttons are pressed.
    pub closed spec fn spec_mouse_pressed(&self) -> (bool, bool) {
        self.mouse_pressed
    }

    /// Whether the left and right mouse buttons were clicked.
    pub closed spec fn spec_mouse_clicked(&self) -> (bool, bool) {
        self.mouse_clicked
    }

    /// The mouse's coordinate within the terminal, if it is within it.
    pub closed spec fn spec_mouse_coord(&self) -> Option<ICoord> {
        self.mouse_coord
    }

    /// Whether the mouse moved to another coordinate.
    pub closed spec fn spec_mouse_moved(&self) -> bool {
        self.mouse_moved
    }

    /// Whether every just pressed key and action is also pressed.
    pub open spec fn presses_consistent(&self) -> bool {
        &&& self.spec_keys().1.subset_of(self.spec_keys().0)
        &&& self.spec_actions().1.subset_of(self.spec_actions().0)
    }

    /// Creates an input manager with nothing pressed, released or bound.
    pub fn new() -> (r: Self)
        ensures
            r.spec_keys() == (Set::<i32>::empty(), Set::<i32>::empty(), Set::<i32>::empty(), false),
            r.spec_actions() == (
                Set::<InputAction>::empty(),
                Set::<InputAction>::empty(),
                Set::<InputAction>::empty(),
                false,
            ),
            r.spec_bindings() == no_bindings(),
            r.spec_mouse_pressed() == (false, false),
            r.spec_mouse_clicked() == (false, false),
            r.spec_mouse_coord() == None::<ICoord>,
            !r.spec_mouse_moved(),
            r.presses_consistent(),
    {
        InputManager {
            mouse_pressed: (false, false),
            mouse_clicked: (false, false),
            mouse_coord: None,
            mouse_moved: false,
            pressed_keys: KeySet::new(),
            just_pressed_keys: KeySet::new(),
            released_keys: KeySet::new(),
            pressed_actions: ActionSet::new(),
            just_pressed_actions: ActionSet::new(),
            released_actions: ActionSet::new(),
            action_bindings: BindingMap::new(),
            pressed_any_key: false,
            pressed_any_action: false,
        }
    }

    /// Returns whether either key of a modifier is pressed.
    pub fn modifier_pressed(&self, modifier: &ModifierKey) -> (r: bool)
        ensures
            r == modifier_held(*modifier, self.spec_keys().0),
    {
        match modifier {
            ModifierKey::Alt => self.pressed_keys.contains(KEYCODE_LALT)
                || self.pressed_keys.contains(KEYCODE_RALT),
            ModifierKey::Ctrl => self.pressed_keys.contains(KEYCODE_LCTRL)
                || self.pressed_keys.contains(KEYCODE_RCTRL),
            ModifierKey::Shift => self.pressed_keys.contains(KEYCODE_LSHIFT)
                || self.pressed_keys.contains(KEYCODE_RSHIFT),
        }
    }

    /// Returns whether a binding holds for the pressed keys.
    fn binding_pressed(&self, binding: &InputBinding) -> (r: bool)
        ensures
            r == binding_held(*binding, self.spec_keys().0),
    {
        match binding {
            InputBinding::SpecificKey(k) => self.pressed_keys.contains(k.0),
            InputBinding::ModifierKey(m) => self.modifier_pressed(m),
            InputBinding::ExcludeSpecificKey(k) => !self.pressed_keys.contains(k.0),
            InputBinding::ExcludeModifierKey(m) => !self.modifier_pressed(m),
        }
    }

    /// Returns whether all the bindings hold for the pressed keys.
    fn bindings_pressed(&self, bindings: &Vec<InputBinding>) -> (r: bool)
        ensures
            r == bindings_held(bindings@, self.spec_keys().0),
    {
        let mut i: usize = 0;
        while i < bindings.len()
            invariant
                i <= bindings.len(),
                forall|j: int| 0 <= j < i ==> binding_held(#[trigger] bindings@[j], self.spec_keys().0),
            decreases bindings.len() - i,
        {
            if !self.binding_pressed(&bindings[i]) {
                return false;
            }
            i += 1;
        }
        true
    }

    /// Returns whether a keycode is that of an alt, control, shift, GUI or application key.
    fn is_modifier(keycode: InputKey) -> (r: bool)
        ensures
            r == is_modifier_key(keycode.0),
    {
        let k = keycode.0;
        k == KEYCODE_LALT || k == KEYCODE_RALT || k == KEYCODE_LCTRL || k == KEYCODE_RCTRL || k
            == KEYCODE_LSHIFT || k == KEYCODE_RSHIFT || k == KEYCODE_LGUI || k == KEYCODE_RGUI
            || k == KEYCODE_APPLICATION
    }

    /// Binds an action to keys and modifiers, replacing its old bindings. The action is pressed
    /// when all of them hold (so always, for no bindings).
    pub fn bind_action(&mut self, action: InputAction, bindings: &[InputBinding])
        ensures
            final(self).spec_bindings() == old(self).spec_bindings().insert(action, bindings@),
            final(self).spec_keys() == old(self).spec_keys(),
            final(self).spec_actions() == old(self).spec_actions(),
            final(self).spec_mouse_pressed() == old(self).spec_mouse_pressed(),
            final(self).spec_mouse_clicked() == old(self).spec_mouse_clicked(),
            final(self).spec_mouse_coord() == old(self).spec_mouse_coord(),
            final(self).spec_mouse_moved() == old(self).spec_mouse_moved(),
    {
        let mut copy: Vec<InputBinding> = Vec::new();
        let mut i: usize = 0;
        while i < bindings.len()
            invariant
                i <= bindings.len(),
                copy@ == bindings@.take(i as int),
            decreases bindings.len() - i,
        {
            copy.push(bindings[i]);
            assert(copy@ =~= bindings@.take(i as int + 1));
            i += 1;
        }
        assert(copy@ =~= bindings@);
        self.action_bindings.insert(action, copy);
    }

    /// Creates an input manager with the default bindings: return accepts, tab without alt
    /// declines, escape quits, and k, u, l, n, j, b, h and y move north, northeast, east,
    /// southeast, south, southwest, west and northwest.
    pub fn with_default_bindings() -> (r: Self)
        ensures
            r.spec_keys() == (Set::<i32>::empty(), Set::<i32>::empty(), Set::<i32>::empty(), false),
            r.spec_actions() == (
                Set::<InputAction>::empty(),
                Set::<InputAction>::empty(),
                Set::<InputAction>::empty(),
                false,
            ),
            r.spec_bindings() == default_bindings(),
            r.spec_mouse_pressed() == (false, false),
            r.spec_mouse_clicked() == (false, false),
            r.spec_mouse_coord() == None::<ICoord>,
            !r.spec_mouse_moved(),
            r.presses_consistent(),
    {
        let mut this = Self::new();
        let accept = vec![InputBinding::SpecificKey(InputKey(KEYCODE_RETURN))];
        this.bind_action(InputAction::Accept, accept.as_slice());
        let decline = vec![
            InputBinding::SpecificKey(InputKey(KEYCODE_TAB)),
            InputBinding::ExcludeModifierKey(ModifierKey::Alt),
        ];
        this.bind_action(InputAction::Decline, decline.as_slice());
        let quit = vec![InputBinding::SpecificKey(InputKey(KEYCODE_ESCAPE))];
        this.bind_action(InputAction::Quit, quit.as_slice());
        let north = vec![InputBinding::SpecificKey(InputKey(KEYCODE_K))];
        this.bind_action(InputAction::North, north.as_slice());
        let northeast = vec![InputBinding::SpecificKey(InputKey(KEYCODE_U))];
        this.bind_action(InputAction::Northeast, northeast.as_slice());
        let east = vec![InputBinding::SpecificKey(InputKey(KEYCODE_L))];
        this.bind_action(InputAction::East, east.as_slice());
        let southeast = vec![InputBinding::SpecificKey(InputKey(KEYCODE_N))];
        this.bind_action(InputAction::Southeast, southeast.as_slice());
        let south = vec![InputBinding::SpecificKey(InputKey(KEYCODE_J))];
        this.bind_action(InputAction::South, south.as_slice());
        let southwest = vec![InputBinding::SpecificKey(InputKey(KEYCODE_B))];
        this.bind_action(InputAction::Southwest, southwest.as_slice());
        let west = vec![InputBinding::SpecificKey(InputKey(KEYCODE_H))];
        this.bind_action(InputAction::West, west.as_slice());
        let northwest = vec![InputBinding::SpecificKey(InputKey(KEYCODE_Y))];
        this.bind_action(InputAction::Northwest, northwest.as_slice());
        assert(this.spec_bindings() =~~= default_bindings());
        this
    }

    /// Clears the key, action and mouse click and move state; the bindings, the mouse buttons'
    /// pressed state and coordinate, and the released keys and actions stay.
    pub fn reset(&mut self)
        ensures
            final(self).spec_keys() == (
                Set::<i32>::empty(),
                Set::<i32>::empty(),
                old(self).spec_keys().2,
                false,
            ),
            final(self).spec_actions() == (
                Set::<InputAction>::empty(),
                Set::<InputAction>::empty(),
                old(self).spec_actions().2,
                false,
            ),
            final(self).spec_bindings() == old(self).spec_bindings(),
            final(self).spec_mouse_pressed() == old(self).spec_mouse_pressed(),
            final(self).spec_mouse_clicked() == (false, false),
            final(self).spec_mouse_coord() == old(self).spec_mouse_coord(),
            !final(self).spec_mouse_moved(),
            final(self).presses_consistent(),
    {
        self.pressed_keys.clear();
        self.just_pressed_keys.clear();
        self.pressed_any_key = false;
        self.pressed_actions.clear();
        self.just_pressed_actions.clear();
        self.pressed_any_action = false;
        self.mouse_clicked = (false, false);
        self.mouse_moved = false;
    }

    /// Returns whether a mouse button is pressed.
    pub fn mouse_pressed(&self, button: InputMouse) -> (r: bool)
        ensures
            r == (match button {
                InputMouse::Left => self.spec_mouse_pressed().0,
                InputMouse::Right => self.spec_mouse_pressed().1,
            }),
    {
        match button {
            InputMouse::Left => self.mouse_pressed.0,
            InputMouse::Right => self.mouse_pressed.1,
        }
    }

    /// Returns whether the left and right mouse buttons are pressed.
    pub fn mouse_pressed_state(&self) -> (r: (bool, bool))
        ensures
            r == self.spec_mouse_pressed(),
    {
        self.mouse_pressed
    }

    /// Returns whether a mouse button was clicked (pressed after having been up).
    pub fn mouse_clicked(&self, button: InputMouse) -> (r: bool)
        ensures
            r == (match button {
                InputMouse::Left => self.spec_mouse_clicked().0,
                InputMouse::Right => self.spec_mouse_clicked().1,
            }),
    {
        match button {
            InputMouse::Left => self.mouse_clicked.0,
            InputMouse::Right => self.mouse_clicked.1,
        }
    }

    /// Returns whether the left and right mouse buttons were clicked.
    pub fn mouse_clicked_state(&self) -> (r: (bool, bool))
        ensures
            r == self.spec_mouse_clicked(),
    {
        self.mouse_clicked
    }

    /// Returns the mouse's coordinate within the terminal, or `None` when it is outside.
    pub fn mouse_coord(&self) -> (r: Option<ICoord>)
        ensures
            r == self.spec_mouse_coord(),
    {
        self.mouse_coord
    }

    /// Returns whether the mouse moved to another coordinate.
    pub fn mouse_moved(&self) -> (r: bool)
        ensures
            r == self.spec_mouse_moved(),
    {
        self.mouse_moved
    }

    /// Returns whether a key is pressed.
    pub fn key_pressed(&self, key: InputKey) -> (r: bool)
        ensures
            r == self.spec_keys().0.contains(key.0),
    {
        self.pressed_keys.contains(key.0)
    }

    /// Returns whether a key was just pressed (pressed after having been released).
    pub fn key_just_pressed(&self, key: InputKey) -> (r: bool)
        ensures
            r == self.spec_keys().1.contains(key.0),
    {
        self.just_pressed_keys.contains(key.0)
    }

    /// Returns whether an action is pressed.
    pub fn action_pressed(&self, action: InputAction) -> (r: bool)
        ensures
            r == self.spec_actions().0.contains(action),
    {
        self.pressed_actions.contains(action)
    }

    /// Returns whether an action was just pressed (pressed after having been released).
    pub fn action_just_pressed(&self, action: InputAction) -> (r: bool)
        ensures
            r == self.spec_actions().1.contains(action),
    {
        self.just_pressed_actions.contains(action)
    }

    /// Returns whether any key was pressed.
    pub fn any_key_pressed(&self) -> (r: bool)
        ensures
            r == self.spec_keys().3,
    {
        self.pressed_any_key
    }

    /// Returns whether any action was pressed.
    pub fn any_action_pressed(&self) -> (r: bool)
        ensures
            r == self.spec_actions().3,
    {
        self.pressed_any_action
    }


    /// Reads one key's state.
    fn read_key(&mut self, key: InputKey, pressed: bool)
        ensures
            final(self).spec_keys() == key_step(old(self).spec_keys(), (key, pressed)),
            final(self).spec_actions() == old(self).spec_actions(),
            final(self).spec_bindings() == old(self).spec_bindings(),
            final(self).spec_mouse_pressed() == old(self).spec_mouse_pressed(),
            final(self).spec_mouse_clicked() == old(self).spec_mouse_clicked(),
            final(self).spec_mouse_coord() == old(self).spec_mouse_coord(),
            final(self).spec_mouse_moved() == old(self).spec_mouse_moved(),
    {
        let k = key.0;
        if pressed {
            self.pressed_keys.insert(k);
            if !Self::is_modifier(key) || (k == KEYCODE_TAB && !self.modifier_pressed(
                &ModifierKey::Alt,
            )) {
                self.pressed_any_key = true;
            }
            if self.released_keys.contains(k) {
                self.just_pressed_keys.insert(k);
                self.released_keys.remove(k);
            }
        } else {
            self.released_keys.insert(k);
        }
    }

    /// Checks one action against its bindings.
    fn check_action(&mut self, action: InputAction)
        ensures
            final(self).spec_actions() == action_step(
                old(self).spec_actions(),
                action,
                old(self).spec_bindings(),
                old(self).spec_keys().0,
            ),
            final(self).spec_keys() == old(self).spec_keys(),
            final(self).spec_bindings() == old(self).spec_bindings(),
            final(self).spec_mouse_pressed() == old(self).spec_mouse_pressed(),
            final(self).spec_mouse_clicked() == old(self).spec_mouse_clicked(),
            final(self).spec_mouse_coord() == old(self).spec_mouse_coord(),
            final(self).spec_mouse_moved() == old(self).spec_mouse_moved(),
    {
        let held = match self.action_bindings.get(action) {
            Some(bindings) => Some(self.bindings_pressed(bindings)),
            None => None,
        };
        match held {
            Some(true) => {
                self.pressed_actions.insert(action);
                self.pressed_any_action = true;
                if self.released_actions.contains(action) {
                    self.just_pressed_actions.insert(action);
                    self.released_actions.remove(action);
                }
            },
            Some(false) => {
                self.released_actions.insert(action);
            },
            None => {},
        }
    }

    /// Updates the state from the keys' states (each key with whether it is pressed, in the
    /// order the keyboard reports them), the mouse buttons' states (left, right) and the
    /// mouse's coordinate within the terminal (`None` when outside). Pressed keys and actions
    /// accumulate until `reset`; a key or action that is pressed after having been released is
    /// also just pressed. A mouse button is clicked when it is pressed after having been up.
    pub fn update(
        &mut self,
        keys: &Vec<(InputKey, bool)>,
        mouse_buttons: (bool, bool),
        mouse_coord: Option<ICoord>,
    )
        ensures
            final(self).spec_keys() == key_fold(old(self).spec_keys(), keys@),
            final(self).spec_actions() == action_fold(
                old(self).spec_actions(),
                all_actions(),
                old(self).spec_bindings(),
                key_fold(old(self).spec_keys(), keys@).0,
            ),
            final(self).spec_bindings() == old(self).spec_bindings(),
            final(self).spec_mouse_clicked() == (
                old(self).spec_mouse_clicked().0 || (!old(self).spec_mouse_pressed().0
                    && mouse_buttons.0),
                old(self).spec_mouse_clicked().1 || (!old(self).spec_mouse_pressed().1
                    && mouse_buttons.1),
            ),
            final(self).spec_mouse_pressed() == mouse_buttons,
            final(self).spec_mouse_coord() == mouse_coord,
            final(self).spec_mouse_moved() == (old(self).spec_mouse_moved()
                || old(self).spec_mouse_coord() != mouse_coord),
            old(self).presses_consistent() ==> final(self).presses_consistent(),
    {
        let ghost start_keys = self.spec_keys();
        let ghost start_actions = self.spec_actions();
        let ghost bindings = self.spec_bindings();
        let ghost mouse = (
            self.spec_mouse_pressed(),
            self.spec_mouse_clicked(),
            self.spec_mouse_coord(),
            self.spec_mouse_moved(),
        );
        let mut i: usize = 0;
        while i < keys.len()
            invariant
                i <= keys.len(),
                self.spec_keys() == key_fold(start_keys, keys@.take(i as int)),
                self.spec_actions() == start_actions,
                self.spec_bindings() == bindings,
                (
                    self.spec_mouse_pressed(),
                    self.spec_mouse_clicked(),
                    self.spec_mouse_coord(),
                    self.spec_mouse_moved(),
                ) == mouse,
            decreases keys.len() - i,
        {
            let (key, pressed) = keys[i];
            assert(keys@.take(i as int + 1).drop_last() =~= keys@.take(i as int));
            self.read_key(key, pressed);
            i += 1;
        }
        assert(keys@.take(i as int) =~= keys@);

        let actions = InputAction::all();
        let ghost pressed_keys = self.spec_keys().0;
        let mut j: usize = 0;
        while j < actions.len()
            invariant
                j <= actions.len(),
                actions@ == all_actions(),
                self.spec_keys() == key_fold(start_keys, keys@),
                pressed_keys == self.spec_keys().0,
                self.spec_actions() == action_fold(
                    start_actions,
                    actions@.take(j as int),
                    bindings,
                    pressed_keys,
                ),
                self.spec_bindings() == bindings,
                (
                    self.spec_mouse_pressed(),
                    self.spec_mouse_clicked(),
                    self.spec_mouse_coord(),
                    self.spec_mouse_moved(),
                ) == mouse,
            decreases actions.len() - j,
        {
            assert(actions@.take(j as int + 1).drop_last() =~= actions@.take(j as int));
            self.check_action(actions[j]);
            j += 1;
        }
        assert(actions@.take(j as int) =~= actions@);

        self.mouse_clicked = (
            self.mouse_clicked.0 || (!self.mouse_pressed.0 && mouse_buttons.0),
            self.mouse_clicked.1 || (!self.mouse_pressed.1 && mouse_buttons.1),
        );
        self.mouse_pressed = mouse_buttons;
        let changed = match (self.mouse_coord, mouse_coord) {
            (Some(a), Some(b)) => a.0 != b.0 || a.1 != b.1,
            (None, None) => false,
            _ => true,
        };
        if changed {
            self.mouse_coord = mouse_coord;
            self.mouse_moved = true;
        }
        proof {
            if start_keys.1.subset_of(start_keys.0) && start_actions.1.subset_of(start_actions.0) {
                law_just_pressed_keys_stay_pressed(start_keys, keys@);
                law_just_pressed_actions_stay_pressed(start_actions, all_actions(), bindings, pressed_keys);
            }
        }
    }

}

} // verus!
