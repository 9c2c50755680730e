//! Input handling: which action a key, button or wheel movement triggers.
//!
//! Keys are identified by scancode plus a modifier bit-field, so bindings
//! stay language-agnostic. The three binding tables are association lists
//! specified by the maps they denote; converting platform events into the
//! plain values here happens outside the library.

use vstd::prelude::*;

use crate::assoc::{
    assoc_map, erase_key, has_key, lemma_assoc_map_erase, lemma_assoc_map_last_match,
    lemma_assoc_map_no_match, lemma_assoc_map_push, lemma_assoc_map_replace, replace_key,
};
use crate::frac::{q_div, q_in_range, q_zero, Frac};
use crate::math::Point;

verus! {

/// A bit-field of key modifiers; combine the `MODIFIER_*` masks.
pub type KeyModifiers = u8;

/// A platform scancode.
pub type ScanCode = u32;

pub const MODIFIER_NONE: KeyModifiers = 0x0;

pub const MODIFIER_SHIFT: KeyModifiers = 0x1;

pub const MODIFIER_ALT: KeyModifiers = 0x2;

pub const MODIFIER_CTRL: KeyModifiers = 0x4;

pub const MODIFIER_LOGO: KeyModifiers = 0x8;

/// The scancode of the F11 key.
pub const SCANCODE_F11: ScanCode = 0x57;

/// An action identifier that input can cause.
#[derive(Clone, Copy, Debug, PartialEq, Eq, Structural)]
pub enum Action {
    /// No action needs to be performed.
    Nothing,
    ToggleFullscreen,
}

/// Action executed on mouse wheel movement; unlike a plain [`Action`] it
/// comes with a wheel delta value.
#[derive(Clone, Copy, Debug, PartialEq, Eq, Structural)]
pub enum WheelAction {
    Nothing,
    ChangeViewSharpness,
    ChangeSceneSize,
    ChangeViewSize,
}

/// A mouse button.
#[derive(Clone, Copy, Debug, PartialEq, Eq, Structural)]
pub enum MouseButton {
    Left,
    Right,
    Middle,
    Other(u8),
}

/// A key identifier: a unique modifier-scancode pair.
#[derive(Clone, Copy, Debug, PartialEq, Eq, Structural)]
pub struct Key {
    pub modifiers: KeyModifiers,
    pub scancode: ScanCode,
}

/// A button identifier: like a key, but for a mouse button.
#[derive(Clone, Copy, Debug, PartialEq, Eq, Structural)]
pub struct Button {
    pub modifiers: KeyModifiers,
    pub button: MouseButton,
}

/// What is known about a bound key.
#[derive(Clone, Copy, Debug, PartialEq, Eq, Structural)]
pub struct KeyInfo {
    pub pressed: bool,
    pub on_down: Action,
    pub on_up: Action,
}

impl Default for KeyInfo {
    fn default() -> (r: KeyInfo)
        ensures
            r == (KeyInfo { pressed: false, on_down: Action::Nothing, on_up: Action::Nothing }),
    {
        KeyInfo { pressed: false, on_down: Action::Nothing, on_up: Action::Nothing }
    }
}

/// What is known about a bound button.
#[derive(Clone, Copy, Debug, PartialEq, Eq, Structural)]
pub struct ButtonInfo {
    pub pressed: bool,
    pub on_down: Action,
    pub on_up: Action,
}

impl Default for ButtonInfo {
    fn default() -> (r: ButtonInfo)
        ensures
            r == (ButtonInfo { pressed: false, on_down: Action::Nothing, on_up: Action::Nothing }),
    {
        ButtonInfo { pressed: false, on_down: Action::Nothing, on_up: Action::Nothing }
    }
}

/// Reading and building modifier bit-fields.
pub trait KeyModifier: Sized {
    /// Is the given modifier mask fully set?
    spec fn modifier_set_spec(&self, mask: KeyModifiers) -> bool;

    /// What `from_state` builds.
    spec fn from_state_spec(shift: bool, ctrl: bool, alt: bool, logo: bool) -> Self;

    fn shift(&self) -> (r: bool)
        ensures
            r == self.modifier_set_spec(MODIFIER_SHIFT),
    ;

    fn alt(&self) -> (r: bool)
        ensures
            r == self.modifier_set_spec(MODIFIER_ALT),
    ;

    fn ctrl(&self) -> (r: bool)
        ensures
            r == self.modifier_set_spec(MODIFIER_CTRL),
    ;

    fn logo(&self) -> (r: bool)
        ensures
            r == self.modifier_set_spec(MODIFIER_LOGO),
    ;

    /// Build the bit-field from the four modifier states.
    fn from_state(shift: bool, ctrl: bool, alt: bool, logo: bool) -> (r: Self)
        ensures
            r == Self::from_state_spec(shift, ctrl, alt, logo),
    ;
}

/// The bit-field with exactly the given modifiers set.
pub open spec fn modifiers_of(shift: bool, ctrl: bool, alt: bool, logo: bool) -> KeyModifiers {
    ((if shift {
        MODIFIER_SHIFT
    } else {
        0
    }) | (if ctrl {
        MODIFIER_CTRL
    } else {
        0
    }) | (if alt {
        MODIFIER_ALT
    } else {
        0
    }) | (if logo {
        MODIFIER_LOGO
    } else {
        0
    })) as KeyModifiers
}

impl KeyModifier for KeyModifiers {
    open spec fn modifier_set_spec(&self, mask: KeyModifiers) -> bool {
        *self & mask == mask
    }

    open spec fn from_state_spec(shift: bool, ctrl: bool, alt: bool, logo: bool) -> KeyModifiers {
        modifiers_of(shift, ctrl, alt, logo)
    }

    fn shift(&self) -> (r: bool) {
        *self & MODIFIER_SHIFT == MODIFIER_SHIFT
    }

    fn alt(&self) -> (r: bool) {
        *self & MODIFIER_ALT == MODIFIER_ALT
    }

    fn ctrl(&self) -> (r: bool) {
        *self & MODIFIER_CTRL == MODIFIER_CTRL
    }

    fn logo(&self) -> (r: bool) {
        *self & MODIFIER_LOGO == MODIFIER_LOGO
    }

    fn from_state(shift: bool, ctrl: bool, alt: bool, logo: bool) -> (r: KeyModifiers) {
        let s: KeyModifiers = if shift {
            MODIFIER_SHIFT
        } else {
            0
        };
        let c: KeyModifiers = if ctrl {
            MODIFIER_CTRL
        } else {
            0
        };
        let a: KeyModifiers = if alt {
            MODIFIER_ALT
        } else {
            0
        };
        let l: KeyModifiers = if logo {
            MODIFIER_LOGO
        } else {
            0
        };
        s | c | a | l
    }
}

/// Holds the input context: the key, button and wheel bindings, and the
/// latest pointer state.
pub struct Input {
    pub keys: Vec<(Key, KeyInfo)>,
    pub buttons: Vec<(Button, ButtonInfo)>,
    pub wheel_deltas: Vec<(KeyModifiers, WheelAction)>,
    pub mouse_position: Point,
    pub mouse_wheel: Frac,
    pub viewport_size: Point,
}

impl Default for Input {
    fn default() -> (r: Input)
        ensures
            r.key_map() == Map::<Key, KeyInfo>::empty(),
            r.button_map() == Map::<Button, ButtonInfo>::empty(),
            r.wheel_map() == Map::<KeyModifiers, WheelAction>::empty(),
            r.mouse_position@.x == q_zero(),
            r.mouse_position@.y == q_zero(),
            r.mouse_wheel@ == q_zero(),
            r.viewport_size@.x == q_zero(),
            r.viewport_size@.y == q_zero(),
    {
        Input {
            keys: Vec::new(),
            buttons: Vec::new(),
            wheel_deltas: Vec::new(),
            mouse_position: Point::origin(),
            mouse_wheel: Frac::zero(),
            viewport_size: Point::origin(),
        }
    }
}

impl Input {
    /// The key bindings this input stands for.
    pub open spec fn key_map(&self) -> Map<Key, KeyInfo> {
        assoc_map(self.keys@)
    }

    /// The button bindings this input stands for.
    pub open spec fn button_map(&self) -> Map<Button, ButtonInfo> {
        assoc_map(self.buttons@)
    }

    /// The wheel bindings this input stands for.
    pub open spec fn wheel_map(&self) -> Map<KeyModifiers, WheelAction> {
        assoc_map(self.wheel_deltas@)
    }

    /// The default bindings: F11 toggles fullscreen on release, and the
    /// wheel changes the view size, sharpness (shift) or scene size (alt).
    pub fn with_default_actions() -> (r: Input)
        ensures
            r.key_map() == Map::<Key, KeyInfo>::empty().insert(
                Key { scancode: SCANCODE_F11, modifiers: MODIFIER_NONE },
                KeyInfo { pressed: false, on_down: Action::Nothing, on_up: Action::ToggleFullscreen },
            ),
            r.button_map() == Map::<Button, ButtonInfo>::empty(),
            r.wheel_map() == Map::<KeyModifiers, WheelAction>::empty().insert(
                MODIFIER_NONE,
                WheelAction::ChangeViewSize,
            ).insert(MODIFIER_SHIFT, WheelAction::ChangeViewSharpness).insert(
                MODIFIER_ALT,
                WheelAction::ChangeSceneSize,
            ),
            r.mouse_position@.x == q_zero(),
            r.mouse_position@.y == q_zero(),
            r.mouse_wheel@ == q_zero(),
            r.viewport_size@.x == q_zero(),
            r.viewport_size@.y == q_zero(),
    {
        let mut input = Input::default();
        input.set_on_key_up(
            Key { scancode: SCANCODE_F11, modifiers: MODIFIER_NONE },
            Action::ToggleFullscreen,
        );
        input.set_on_wheel_delta(MODIFIER_NONE, WheelAction::ChangeViewSize);
        input.set_on_wheel_delta(MODIFIER_SHIFT, WheelAction::ChangeViewSharpness);
        input.set_on_wheel_delta(MODIFIER_ALT, WheelAction::ChangeSceneSize);
        input
    }

    /// Look up the binding of `key`; the latest entry wins.
    fn find_key(&self, key: Key) -> (r: Option<KeyInfo>)
        ensures
            r == (if self.key_map().contains_key(key) {
                Some(self.key_map()[key])
            } else {
                None::<KeyInfo>
            }),
    {
        let n = self.keys.len();
        let mut i: usize = n;
        while i > 0
            invariant
                0 <= i <= n,
                n == self.keys@.len(),
                forall|j: int| i <= j < n ==> (#[trigger] self.keys@[j]).0 != key,
            decreases i,
        {
            i = i - 1;
            if self.keys[i].0 == key {
                proof {
                    lemma_assoc_map_last_match(self.keys@, i as int, key);
                }
                return Some(self.keys[i].1);
            }
        }
        proof {
            lemma_assoc_map_no_match(self.keys@, key);
        }
        None
    }

    /// Look up the binding of `button`; the latest entry wins.
    fn find_button(&self, button: Button) -> (r: Option<ButtonInfo>)
        ensures
            r == (if self.button_map().contains_key(button) {
                Some(self.button_map()[button])
            } else {
                None::<ButtonInfo>
            }),
    {
        let n = self.buttons.len();
        let mut i: usize = n;
        while i > 0
            invariant
                0 <= i <= n,
                n == self.buttons@.len(),
                forall|j: int| i <= j < n ==> (#[trigger] self.buttons@[j]).0 != button,
            decreases i,
        {
            i = i - 1;
            if self.buttons[i].0 == button {
                proof {
                    lemma_assoc_map_last_match(self.buttons@, i as int, button);
                }
                return Some(self.buttons[i].1);
            }
        }
        proof {
            lemma_assoc_map_no_match(self.buttons@, button);
        }
        None
    }

    /// Store `info` as the one binding of `key`.
    fn store_key(&mut self, key: Key, info: KeyInfo)
        ensures
            final(self).key_map() == old(self).key_map().insert(key, info),
            final(self).buttons == old(self).buttons,
            final(self).wheel_deltas == old(self).wheel_deltas,
            final(self).mouse_position == old(self).mouse_position,
            final(self).mouse_wheel == old(self).mouse_wheel,
            final(self).viewport_size == old(self).viewport_size,
    {
        let ghost s = self.keys@;
        let n = self.keys.len();
        let mut out: Vec<(Key, KeyInfo)> = Vec::new();
        let mut found = false;
        let mut i: usize = 0;
        while i < n
            invariant
                0 <= i <= n,
                n == s.len(),
                s == self.keys@,
                out@ =~= replace_key(s, key, info).take(i as int),
                found == has_key(s.take(i as int), key),
            decreases n - i,
        {
            if self.keys[i].0 == key {
                out.push((key, info));
                proof {
                    assert(s.take(i + 1)[i as int].0 == key);
                }
                found = true;
            } else {
                out.push((self.keys[i].0, self.keys[i].1));
                proof {
                    if has_key(s.take(i + 1), key) {
                        let w = choose|w: int|
                            0 <= w < s.take(i + 1).len() && (#[trigger] s.take(i + 1)[w]).0 == key;
                        assert(s.take(i as int)[w].0 == key);
                    }
                    if has_key(s.take(i as int), key) {
                        let w = choose|w: int|
                            0 <= w < s.take(i as int).len() && (#[trigger] s.take(
                                i as int,
                            )[w]).0 == key;
                        assert(s.take(i + 1)[w].0 == key);
                    }
                }
            }
            proof {
                assert(out@ =~= replace_key(s, key, info).take(i + 1));
            }
            i = i + 1;
        }
        proof {
            assert(replace_key(s, key, info).take(n as int) =~= replace_key(s, key, info));
            assert(s.take(n as int) =~= s);
            lemma_assoc_map_replace(s, key, info);
        }
        if !found {
            out.push((key, info));
            proof {
                lemma_assoc_map_push(replace_key(s, key, info), key, info);
                assert(replace_key(s, key, info) =~= s) by {
                    assert forall|j: int| 0 <= j < s.len() implies replace_key(s, key, info)[j]
                        == s[j] by {
                        assert(s[j].0 != key);
                    }
                }
            }
        }
        self.keys = out;
    }

    /// Store `info` as the one binding of `button`.
    fn store_button(&mut self, button: Button, info: ButtonInfo)
        ensures
            final(self).button_map() == old(self).button_map().insert(button, info),
            final(self).keys == old(self).keys,
            final(self).wheel_deltas == old(self).wheel_deltas,
            final(self).mouse_position == old(self).mouse_position,
            final(self).mouse_wheel == old(self).mouse_wheel,
            final(self).viewport_size == old(self).viewport_size,
    {
        let ghost s = self.buttons@;
        let n = self.buttons.len();
        let mut out: Vec<(Button, ButtonInfo)> = Vec::new();
        let mut found = false;
        let mut i: usize = 0;
        while i < n
            invariant
                0 <= i <= n,
                n == s.len(),
                s == self.buttons@,
                out@ =~= replace_key(s, button, info).take(i as int),
                found == has_key(s.take(i as int), button),
            decreases n - i,
        {
            if self.buttons[i].0 == button {
                out.push((button, info));
                proof {
                    assert(s.take(i + 1)[i as int].0 == button);
                }
                found = true;
            } else {
                out.push((self.buttons[i].0, self.buttons[i].1));
                proof {
                    if has_key(s.take(i + 1), button) {
                        let w = choose|w: int|
                            0 <= w < s.take(i + 1).len() && (#[trigger] s.take(i + 1)[w]).0
                                == button;
                        assert(s.take(i as int)[w].0 == button);
                    }
                    if has_key(s.take(i as int), button) {
                        let w = choose|w: int|
                            0 <= w < s.take(i as int).len() && (#[trigger] s.take(
                                i as int,
                            )[w]).0 == button;
                        assert(s.take(i + 1)[w].0 == button);
                    }
                }
            }
            proof {
                assert(out@ =~= replace_key(s, button, info).take(i + 1));
            }
            i = i + 1;
        }
        proof {
            assert(replace_key(s, button, info).take(n as int) =~= replace_key(s, button, info));
            assert(s.take(n as int) =~= s);
            lemma_assoc_map_replace(s, button, info);
        }
        if !found {
            out.push((button, info));
            proof {
                lemma_assoc_map_push(replace_key(s, button, info), button, info);
                assert(replace_key(s, button, info) =~= s) by {
                    assert forall|j: int| 0 <= j < s.len() implies replace_key(s, button, info)[j]
                        == s[j] by {
                        assert(s[j].0 != button);
                    }
                }
            }
        }
        self.buttons = out;
    }

    /// Bind `action` to pressing `key`, keeping any release binding.
    pub fn set_on_key_down(&mut self, key: Key, action: Action)
        ensures
            final(self).key_map() == old(self).key_map().insert(
                key,
                KeyInfo {
                    on_down: action,
                    ..(if old(self).key_map().contains_key(key) {
                        old(self).key_map()[key]
                    } else {
                        KeyInfo { pressed: false, on_down: Action::Nothing, on_up: Action::Nothing }
                    })
                },
            ),
            final(self).button_map() == old(self).button_map(),
            final(self).wheel_map() == old(self).wheel_map(),
            final(self).mouse_position == old(self).mouse_position,
            final(self).mouse_wheel == old(self).mouse_wheel,
            final(self).viewport_size == old(self).viewport_size,
    {
        let prev = match self.find_key(key) {
            Some(info) => info,
            None => KeyInfo { pressed: false, on_down: Action::Nothing, on_up: Action::Nothing },
        };
        self.store_key(key, KeyInfo { on_down: action, ..prev });
    }

    /// Bind `action` to releasing `key`, keeping any press binding.
    pub fn set_on_key_up(&mut self, key: Key, action: Action)
        ensures
            final(self).key_map() == old(self).key_map().insert(
                key,
                KeyInfo {
                    on_up: action,
                    ..(if old(self).key_map().contains_key(key) {
                        old(self).key_map()[key]
                    } else {
                        KeyInfo { pressed: false, on_down: Action::Nothing, on_up: Action::Nothing }
                    })
                },
            ),
            final(self).button_map() == old(self).button_map(),
            final(self).wheel_map() == old(self).wheel_map(),
            final(self).mouse_position == old(self).mouse_position,
            final(self).mouse_wheel == old(self).mouse_wheel,
            final(self).viewport_size == old(self).viewport_size,
    {
        let prev = match self.find_key(key) {
            Some(info) => info,
            None => KeyInfo { pressed: false, on_down: Action::Nothing, on_up: Action::Nothing },
        };
        self.store_key(key, KeyInfo { on_up: action, ..prev });
    }

    /// Bind `action` to pressing `button`, keeping any release binding.
    pub fn set_on_button_down(&mut self, button: Button, action: Action)
        ensures
            final(self).button_map() == old(self).button_map().insert(
                button,
                ButtonInfo {
                    on_down: action,
                    ..(if old(self).button_map().contains_key(button) {
                        old(self).button_map()[button]
                    } else {
                        ButtonInfo { pressed: false, on_down: Action::Nothing, on_up: Action::Nothing }
                    })
                },
            ),
            final(self).key_map() == old(self).key_map(),
            final(self).wheel_map() == old(self).wheel_map(),
            final(self).mouse_position == old(self).mouse_position,
            final(self).mouse_wheel == old(self).mouse_wheel,
            final(self).viewport_size == old(self).viewport_size,
    {
        let prev = match self.find_button(button) {
            Some(info) => info,
            None => ButtonInfo { pressed: false, on_down: Action::Nothing, on_up: Action::Nothing },
        };
        self.store_button(button, ButtonInfo { on_down: action, ..prev });
    }

    /// Bind `action` to releasing `button`, keeping any press binding.
    pub fn set_on_button_up(&mut self, button: Button, action: Action)
        ensures
            final(self).button_map() == old(self).button_map().insert(
                button,
                ButtonInfo {
                    on_up: action,
                    ..(if old(self).button_map().contains_key(button) {
                        old(self).button_map()[button]
                    } else {
                        ButtonInfo { pressed: false, on_down: Action::Nothing, on_up: Action::Nothing }
                    })
                },
            ),
            final(self).key_map() == old(self).key_map(),
            final(self).wheel_map() == old(self).wheel_map(),
            final(self).mouse_position == old(self).mouse_position,
            final(self).mouse_wheel == old(self).mouse_wheel,
            final(self).viewport_size == old(self).viewport_size,
    {
        let prev = match self.find_button(button) {
            Some(info) => info,
            None => ButtonInfo { pressed: false, on_down: Action::Nothing, on_up: Action::Nothing },
        };
        self.store_button(button, ButtonInfo { on_up: action, ..prev });
    }

    /// Bind a wheel action to a modifier combination.
    pub fn set_on_wheel_delta(&mut self, modifiers: KeyModifiers, action: WheelAction)
        ensures
            final(self).wheel_map() == old(self).wheel_map().insert(modifiers, action),
            final(self).key_map() == old(self).key_map(),
            final(self).button_map() == old(self).button_map(),
            final(self).mouse_position == old(self).mouse_position,
            final(self).mouse_wheel == old(self).mouse_wheel,
            final(self).viewport_size == old(self).viewport_size,
    {
        proof {
            lemma_assoc_map_push(self.wheel_deltas@, modifiers, action);
        }
        self.wheel_deltas.push((modifiers, action));
    }

    /// Forget everything about `key`.
    pub fn clear_key(&mut self, key: Key)
        ensures
            final(self).key_map() == old(self).key_map().remove(key),
            final(self).button_map() == old(self).button_map(),
            final(self).wheel_map() == old(self).wheel_map(),
            final(self).mouse_position == old(self).mouse_position,
            final(self).mouse_wheel == old(self).mouse_wheel,
            final(self).viewport_size == old(self).viewport_size,
    {
        let ghost s = self.keys@;
        let n = self.keys.len();
        let mut out: Vec<(Key, KeyInfo)> = Vec::new();
        let mut i: usize = 0;
        proof {
            assert(erase_key(s.take(0), key) =~= Seq::<(Key, KeyInfo)>::empty());
        }
        while i < n
            invariant
                0 <= i <= n,
                n == s.len(),
                s == self.keys@,
                out@ =~= erase_key(s.take(i as int), key),
            decreases n - i,
        {
            proof {
                assert(s.take(i + 1).drop_last() =~= s.take(i as int));
                assert(s.take(i + 1).last() == s[i as int]);
            }
            if !(self.keys[i].0 == key) {
                out.push((self.keys[i].0, self.keys[i].1));
            }
            i = i + 1;
        }
        proof {
            assert(s.take(n as int) =~= s);
            lemma_assoc_map_erase(s, key);
        }
        self.keys = out;
    }

    /// Forget everything about `button`.
    pub fn clear_button(&mut self, button: Button)
        ensures
            final(self).button_map() == old(self).button_map().remove(button),
            final(self).key_map() == old(self).key_map(),
            final(self).wheel_map() == old(self).wheel_map(),
            final(self).mouse_position == old(self).mouse_position,
            final(self).mouse_wheel == old(self).mouse_wheel,
            final(self).viewport_size == old(self).viewport_size,
    {
        let ghost s = self.buttons@;
        let n = self.buttons.len();
        let mut out: Vec<(Button, ButtonInfo)> = Vec::new();
        let mut i: usize = 0;
        proof {
            assert(erase_key(s.take(0), button) =~= Seq::<(Button, ButtonInfo)>::empty());
        }
        while i < n
            invariant
                0 <= i <= n,
                n == s.len(),
                s == self.buttons@,
                out@ =~= erase_key(s.take(i as int), button),
            decreases n - i,
        {
            proof {
                assert(s.take(i + 1).drop_last() =~= s.take(i as int));
                assert(s.take(i + 1).last() == s[i as int]);
            }
            if !(self.buttons[i].0 == button) {
                out.push((self.buttons[i].0, self.buttons[i].1));
            }
            i = i + 1;
        }
        proof {
            assert(s.take(n as int) =~= s);
            lemma_assoc_map_erase(s, button);
        }
        self.buttons = out;
    }

    /// Forget the wheel binding of a modifier combination.
    pub fn clear_wheel_delta(&mut self, modifiers: KeyModifiers)
        ensures
            final(self).wheel_map() == old(self).wheel_map().remove(modifiers),
            final(self).key_map() == old(self).key_map(),
            final(self).button_map() == old(self).button_map(),
            final(self).mouse_position == old(self).mouse_position,
            final(self).mouse_wheel == old(self).mouse_wheel,
            final(self).viewport_size == old(self).viewport_size,
    {
        let ghost s = self.wheel_deltas@;
        let n = self.wheel_deltas.len();
        let mut out: Vec<(KeyModifiers, WheelAction)> = Vec::new();
        let mut i: usize = 0;
        proof {
            assert(erase_key(s.take(0), modifiers) =~= Seq::<(KeyModifiers, WheelAction)>::empty());
        }
        while i < n
            invariant
                0 <= i <= n,
                n == s.len(),
                s == self.wheel_deltas@,
                out@ =~= erase_key(s.take(i as int), modifiers),
            decreases n - i,
        {
            proof {
                assert(s.take(i + 1).drop_last() =~= s.take(i as int));
                assert(s.take(i + 1).last() == s[i as int]);
            }
            if !(self.wheel_deltas[i].0 == modifiers) {
                out.push((self.wheel_deltas[i].0, self.wheel_deltas[i].1));
            }
            i = i + 1;
        }
        proof {
            assert(s.take(n as int) =~= s);
            lemma_assoc_map_erase(s, modifiers);
        }
        self.wheel_deltas = out;
    }

    /// Process a key event: on a change of pressed state of a bound key,
    /// record the new state and hand back the bound action — even an
    /// explicit `Action::Nothing`.
    pub fn process_key(&mut self, key: Key, pressed: bool) -> (r: Option<Action>)
        ensures
            r == (if old(self).key_map().contains_key(key) && old(self).key_map()[key].pressed
                != pressed {
                Some(
                    if pressed {
                        old(self).key_map()[key].on_down
                    } else {
                        old(self).key_map()[key].on_up
                    },
                )
            } else {
                None::<Action>
            }),
            final(self).key_map() == (if old(self).key_map().contains_key(key) && old(
                self,
            ).key_map()[key].pressed != pressed {
                old(self).key_map().insert(key, KeyInfo { pressed, ..old(self).key_map()[key] })
            } else {
                old(self).key_map()
            }),
            final(self).button_map() == old(self).button_map(),
            final(self).wheel_map() == old(self).wheel_map(),
            final(self).mouse_position == old(self).mouse_position,
            final(self).mouse_wheel == old(self).mouse_wheel,
            final(self).viewport_size == old(self).viewport_size,
    {
        if let Some(info) = self.find_key(key) {
            if info.pressed != pressed {
                self.store_key(key, KeyInfo { pressed, ..info });
                if pressed {
                    return Some(info.on_down);
                } else {
                    return Some(info.on_up);
                }
            }
        }
        None
    }

    /// Process a button event: like `process_key`, except that a bound
    /// `Action::Nothing` is swallowed.
    pub fn process_button(
        &mut self,
        pressed: bool,
        button: MouseButton,
        modifiers: KeyModifiers,
    ) -> (r: Option<Action>)
        ensures
            ({
                let b = Button { modifiers, button };
                let fired = old(self).button_map().contains_key(b) && old(self).button_map()[
                    b].pressed != pressed;
                let action = if pressed {
                    old(self).button_map()[b].on_down
                } else {
                    old(self).button_map()[b].on_up
                };
                &&& r == (if fired && action != Action::Nothing {
                    Some(action)
                } else {
                    None::<Action>
                })
                &&& final(self).button_map() == (if fired {
                    old(self).button_map().insert(
                        b,
                        ButtonInfo { pressed, ..old(self).button_map()[b] },
                    )
                } else {
                    old(self).button_map()
                })
            }),
            final(self).key_map() == old(self).key_map(),
            final(self).wheel_map() == old(self).wheel_map(),
            final(self).mouse_position == old(self).mouse_position,
            final(self).mouse_wheel == old(self).mouse_wheel,
            final(self).viewport_size == old(self).viewport_size,
    {
        let b = Button { modifiers, button };
        let mut action = Action::Nothing;
        if let Some(info) = self.find_button(b) {
            if info.pressed != pressed {
                self.store_button(b, ButtonInfo { pressed, ..info });
                if pressed {
                    action = info.on_down;
                } else {
                    action = info.on_up;
                }
            }
        }
        if let Action::Nothing = action {
            None
        } else {
            Some(action)
        }
    }

    /// The wheel action bound to a modifier combination; a bound
    /// `WheelAction::Nothing` is swallowed.
    pub fn process_mouse_wheel(&mut self, modifiers: KeyModifiers) -> (r: Option<WheelAction>)
        ensures
            r == (if old(self).wheel_map().contains_key(modifiers) && old(self).wheel_map()[
                modifiers] != WheelAction::Nothing {
                Some(old(self).wheel_map()[modifiers])
            } else {
                None::<WheelAction>
            }),
            *final(self) == *old(self),
    {
        let ghost s = self.wheel_deltas@;
        let n = self.wheel_deltas.len();
        let mut i: usize = n;
        while i > 0
            invariant
                0 <= i <= n,
                n == s.len(),
                s == self.wheel_deltas@,
                forall|j: int| i <= j < n ==> (#[trigger] s[j]).0 != modifiers,
            decreases i,
        {
            i = i - 1;
            if self.wheel_deltas[i].0 == modifiers {
                proof {
                    lemma_assoc_map_last_match(s, i as int, modifiers);
                }
                let action = self.wheel_deltas[i].1;
                if let WheelAction::Nothing = action {
                    return None;
                }
                return Some(action);
            }
        }
        proof {
            lemma_assoc_map_no_match(s, modifiers);
        }
        None
    }

    /// Record the latest pointer position, in window space.
    pub fn update_mouse_position(&mut self, mouse_position: Point)
        ensures
            *final(self) == (Input { mouse_position, ..*old(self) }),
    {
        self.mouse_position = mouse_position;
    }

    /// Record the viewport size used to normalize the pointer position.
    pub fn update_viewport_size(&mut self, viewport_size: Point)
        ensures
            *final(self) == (Input { viewport_size, ..*old(self) }),
    {
        self.viewport_size = viewport_size;
    }

    /// The pointer position in window space.
    pub fn absolute_mouse_position(&self) -> (r: Point)
        ensures
            r == self.mouse_position,
    {
        self.mouse_position
    }

    /// The pointer position normalized by the viewport size, so that both
    /// coordinates lie in `[0, 1]` while the pointer is inside the window.
    pub fn relative_mouse_position(&self) -> (r: Point)
        requires
            self.mouse_position.wf(),
            self.viewport_size.wf(),
            self.viewport_size@.x.num != 0,
            self.viewport_size@.y.num != 0,
            q_in_range(q_div(self.mouse_position@.x, self.viewport_size@.x)),
            q_in_range(q_div(self.mouse_position@.y, self.viewport_size@.y)),
        ensures
            r@.x == q_div(self.mouse_position@.x, self.viewport_size@.x),
            r@.y == q_div(self.mouse_position@.y, self.viewport_size@.y),
            r.wf(),
    {
        Point {
            x: self.mouse_position.x.div(self.viewport_size.x),
            y: self.mouse_position.y.div(self.viewport_size.y),
        }
    }

    /// The accumulated wheel coordinate.
    pub fn mouse_wheel(&self) -> (r: Frac)
        ensures
            r == self.mouse_wheel,
    {
        self.mouse_wheel
    }
}

} // verus!
