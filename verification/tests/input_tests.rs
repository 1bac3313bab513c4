use fvr_engine::input::{InputAction, InputKey, InputMouse, ModifierKey};
use fvr_engine::input_manager::{
    InputBinding, InputManager, KEYCODE_K, KEYCODE_LALT, KEYCODE_LSHIFT, KEYCODE_TAB,
};

fn key(k: i32) -> InputKey {
    InputKey(k)
}

#[test]
fn test_input_manager_key_presses() {
    let mut input = InputManager::with_default_bindings();
    let k = key(KEYCODE_K);

    // Held since before the first update: pressed, but not just pressed.
    input.update(&vec![(k, true)], (false, false), None);
    assert!(input.key_pressed(k));
    assert!(!input.key_just_pressed(k));
    assert!(input.action_pressed(InputAction::North));
    assert!(!input.action_just_pressed(InputAction::North));
    assert!(input.any_key_pressed());
    assert!(input.any_action_pressed());

    // Released, then pressed again: just pressed.
    input.reset();
    assert!(!input.key_pressed(k));
    assert!(!input.any_key_pressed());
    assert!(!input.any_action_pressed());
    input.update(&vec![(k, false)], (false, false), None);
    assert!(!input.key_pressed(k));
    assert!(!input.action_pressed(InputAction::North));
    input.reset();
    input.update(&vec![(k, true)], (false, false), None);
    assert!(input.key_pressed(k));
    assert!(input.key_just_pressed(k));
    assert!(input.action_just_pressed(InputAction::North));
    assert!(!input.action_pressed(InputAction::South));

    // Still held next frame: the just pressed state lasts until a reset.
    input.update(&vec![(k, true)], (false, false), None);
    assert!(input.key_just_pressed(k));
    input.reset();
    input.update(&vec![(k, true)], (false, false), None);
    assert!(input.key_pressed(k));
    assert!(!input.key_just_pressed(k));
}

#[test]
fn test_input_manager_modifiers_and_exclusions() {
    let mut input = InputManager::with_default_bindings();
    let tab = key(KEYCODE_TAB);
    let alt = key(KEYCODE_LALT);

    input.update(&vec![(tab, true)], (false, false), None);
    assert!(input.action_pressed(InputAction::Decline));

    input.reset();
    input.update(&vec![(alt, true), (tab, true)], (false, false), None);
    assert!(input.modifier_pressed(&ModifierKey::Alt));
    assert!(!input.modifier_pressed(&ModifierKey::Ctrl));
    assert!(!input.action_pressed(InputAction::Decline));

    // A modifier alone does not count as a key press.
    input.reset();
    input.update(&vec![(key(KEYCODE_LSHIFT), true)], (false, false), None);
    assert!(input.modifier_pressed(&ModifierKey::Shift));
    assert!(!input.any_key_pressed());
}

#[test]
fn test_input_manager_bind_action() {
    let mut input = InputManager::new();
    let k = key(KEYCODE_K);
    input.update(&vec![(k, true)], (false, false), None);
    assert!(!input.action_pressed(InputAction::North));
    assert!(!input.any_action_pressed());

    input.bind_action(
        InputAction::Accept,
        &[InputBinding::SpecificKey(k), InputBinding::ModifierKey(ModifierKey::Shift)],
    );
    input.reset();
    input.update(&vec![(k, true)], (false, false), None);
    assert!(!input.action_pressed(InputAction::Accept));
    input.reset();
    input.update(&vec![(k, true), (key(KEYCODE_LSHIFT), true)], (false, false), None);
    assert!(input.action_pressed(InputAction::Accept));

    input.bind_action(InputAction::Quit, &[InputBinding::ExcludeSpecificKey(k)]);
    input.reset();
    input.update(&vec![(key(KEYCODE_TAB), true)], (false, false), None);
    assert!(input.action_pressed(InputAction::Quit));
}

#[test]
fn test_input_manager_mouse() {
    let mut input = InputManager::new();
    assert_eq!(input.mouse_coord(), None);

    input.update(&vec![], (true, false), Some((3, 4)));
    assert!(input.mouse_pressed(InputMouse::Left));
    assert!(!input.mouse_pressed(InputMouse::Right));
    assert!(input.mouse_clicked(InputMouse::Left));
    assert_eq!(input.mouse_clicked_state(), (true, false));
    assert_eq!(input.mouse_pressed_state(), (true, false));
    assert_eq!(input.mouse_coord(), Some((3, 4)));
    assert!(input.mouse_moved());

    // Held: no new click, and the click stays until a reset.
    input.update(&vec![], (true, true), Some((3, 4)));
    assert_eq!(input.mouse_clicked_state(), (true, true));
    input.reset();
    assert_eq!(input.mouse_clicked_state(), (false, false));
    assert!(!input.mouse_moved());
    input.update(&vec![], (true, true), Some((3, 4)));
    assert_eq!(input.mouse_clicked_state(), (false, false));
    assert!(!input.mouse_moved());
    input.update(&vec![], (false, true), None);
    assert!(input.mouse_moved());
    assert_eq!(input.mouse_coord(), None);
}
