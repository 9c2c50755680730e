use sprite_batch::frac::Frac;
use sprite_batch::input::{
    Action, Button, Input, Key, KeyModifier, KeyModifiers, MouseButton, WheelAction,
    MODIFIER_ALT, MODIFIER_CTRL, MODIFIER_NONE, MODIFIER_SHIFT, SCANCODE_F11,
};
use sprite_batch::math::Point;

fn fr(num: i64, den: i64) -> Frac {
    Frac::new(num, den)
}

#[test]
fn default_actions_toggle_fullscreen_on_f11_release() {
    let mut input = Input::with_default_actions();
    // the pointer state starts at zero
    assert!(input.absolute_mouse_position().x.eqv(fr(0, 1)));
    assert!(input.absolute_mouse_position().y.eqv(fr(0, 1)));
    assert!(input.mouse_wheel().eqv(fr(0, 1)));
    assert!(input.viewport_size.x.eqv(fr(0, 1)));
    let f11 = Key { scancode: SCANCODE_F11, modifiers: MODIFIER_NONE };
    // press: the state changes, but nothing is bound to the press
    assert_eq!(input.process_key(f11, true), Some(Action::Nothing));
    // holding it down repeats nothing
    assert_eq!(input.process_key(f11, true), None);
    // release fires the toggle
    assert_eq!(input.process_key(f11, false), Some(Action::ToggleFullscreen));
    assert_eq!(input.process_key(f11, false), None);
}

#[test]
fn unknown_keys_do_nothing() {
    let mut input = Input::with_default_actions();
    let key = Key { scancode: 0x10, modifiers: MODIFIER_NONE };
    assert_eq!(input.process_key(key, true), None);
}

#[test]
fn rebinding_keeps_the_other_direction() {
    let mut input = Input::default();
    let key = Key { scancode: 0x10, modifiers: MODIFIER_SHIFT };
    input.set_on_key_up(key, Action::ToggleFullscreen);
    input.set_on_key_down(key, Action::ToggleFullscreen);
    assert_eq!(input.process_key(key, true), Some(Action::ToggleFullscreen));
    assert_eq!(input.process_key(key, false), Some(Action::ToggleFullscreen));
}

#[test]
fn cleared_keys_are_forgotten() {
    let mut input = Input::with_default_actions();
    let f11 = Key { scancode: SCANCODE_F11, modifiers: MODIFIER_NONE };
    input.clear_key(f11);
    assert_eq!(input.process_key(f11, true), None);
}

#[test]
fn buttons_swallow_the_idle_action() {
    let mut input = Input::default();
    let button = Button { modifiers: MODIFIER_NONE, button: MouseButton::Left };
    input.set_on_button_down(button, Action::Nothing);
    input.set_on_button_up(button, Action::ToggleFullscreen);
    // bound to Nothing: swallowed even though the state changed
    assert_eq!(input.process_button(true, MouseButton::Left, MODIFIER_NONE), None);
    assert_eq!(
        input.process_button(false, MouseButton::Left, MODIFIER_NONE),
        Some(Action::ToggleFullscreen)
    );
    // no binding under other modifiers
    assert_eq!(input.process_button(true, MouseButton::Left, MODIFIER_CTRL), None);
}

#[test]
fn wheel_bindings_follow_modifiers() {
    let mut input = Input::with_default_actions();
    assert_eq!(input.process_mouse_wheel(MODIFIER_NONE), Some(WheelAction::ChangeViewSize));
    assert_eq!(
        input.process_mouse_wheel(MODIFIER_SHIFT),
        Some(WheelAction::ChangeViewSharpness)
    );
    assert_eq!(input.process_mouse_wheel(MODIFIER_ALT), Some(WheelAction::ChangeSceneSize));
    assert_eq!(input.process_mouse_wheel(MODIFIER_CTRL), None);
    input.clear_wheel_delta(MODIFIER_SHIFT);
    assert_eq!(input.process_mouse_wheel(MODIFIER_SHIFT), None);
    input.set_on_wheel_delta(MODIFIER_CTRL, WheelAction::ChangeViewSize);
    assert_eq!(input.process_mouse_wheel(MODIFIER_CTRL), Some(WheelAction::ChangeViewSize));
}

#[test]
fn modifier_bitfield_roundtrip() {
    let m: KeyModifiers = KeyModifier::from_state(true, false, true, false);
    assert_eq!(m, MODIFIER_SHIFT | MODIFIER_ALT);
    assert!(m.shift());
    assert!(!m.ctrl());
    assert!(m.alt());
    assert!(!m.logo());
    let none: KeyModifiers = KeyModifier::from_state(false, false, false, false);
    assert_eq!(none, MODIFIER_NONE);
}

#[test]
fn relative_mouse_position_is_normalized() {
    let mut input = Input::default();
    input.update_viewport_size(Point::new(fr(800, 1), fr(600, 1)));
    input.update_mouse_position(Point::new(fr(200, 1), fr(450, 1)));
    let rel = input.relative_mouse_position();
    assert!(rel.x.eqv(fr(1, 4)));
    assert!(rel.y.eqv(fr(3, 4)));
    assert!(input.absolute_mouse_position().x.eqv(fr(200, 1)));
    assert!(input.mouse_wheel().eqv(fr(0, 1)));
}
