//! Client input: keys, buttons and wheel turns as wire events.

use vstd::prelude::*;

use crate::messages::InputEvent;

verus! {

/// A physical key. `Unmapped` stands for all keys without a Windows virtual-key code here.
#[derive(Debug, Clone, Copy, PartialEq, Eq, Structural)]
pub enum KeyCode {
    Escape,
    Enter,
    Tab,
    Backspace,
    Space,
    ShiftLeft,
    ShiftRight,
    ControlLeft,
    ControlRight,
    AltLeft,
    AltRight,
    ArrowLeft,
    ArrowUp,
    ArrowRight,
    ArrowDown,
    Digit0,
    Digit1,
    Digit2,
    Digit3,
    Digit4,
    Digit5,
    Digit6,
    Digit7,
    Digit8,
    Digit9,
    KeyA,
    KeyB,
    KeyC,
    KeyD,
    KeyE,
    KeyF,
    KeyG,
    KeyH,
    KeyI,
    KeyJ,
    KeyK,
    KeyL,
    KeyM,
    KeyN,
    KeyO,
    KeyP,
    KeyQ,
    KeyR,
    KeyS,
    KeyT,
    KeyU,
    KeyV,
    KeyW,
    KeyX,
    KeyY,
    KeyZ,
    F1,
    F2,
    F3,
    F4,
    F5,
    F6,
    F7,
    F8,
    F9,
    F10,
    F11,
    F12,
    Unmapped,
}

/// A mouse button.
#[derive(Debug, Clone, Copy, PartialEq, Eq, Structural)]
pub enum MouseButton {
    Left,
    Right,
    Middle,
    Back,
    Forward,
    Other(u16),
}

/// How far the wheel turned: in lines, or in pixels. Each amount is the sixteen-bit number
/// nearest to it on the side of zero.
#[derive(Debug, Clone, Copy, PartialEq, Eq, Structural)]
pub enum ScrollDelta {
    Lines { x: i16, y: i16 },
    Pixels { x: i16, y: i16 },
}

impl KeyCode {
    /// The key's Windows virtual-key code; zero where it has none.
    pub open spec fn vk(self) -> u16 {
        match self {
            KeyCode::Escape => 0x1B,
            KeyCode::Enter => 0x0D,
            KeyCode::Tab => 0x09,
            KeyCode::Backspace => 0x08,
            KeyCode::Space => 0x20,
            KeyCode::ShiftLeft => 0x10,
            KeyCode::ShiftRight => 0x10,
            KeyCode::ControlLeft => 0x11,
            KeyCode::ControlRight => 0x11,
            KeyCode::AltLeft => 0x12,
            KeyCode::AltRight => 0x12,
            KeyCode::ArrowLeft => 0x25,
            KeyCode::ArrowUp => 0x26,
            KeyCode::ArrowRight => 0x27,
            KeyCode::ArrowDown => 0x28,
            KeyCode::Digit0 => 0x30,
            KeyCode::Digit1 => 0x31,
            KeyCode::Digit2 => 0x32,
            KeyCode::Digit3 => 0x33,
            KeyCode::Digit4 => 0x34,
            KeyCode::Digit5 => 0x35,
            KeyCode::Digit6 => 0x36,
            KeyCode::Digit7 => 0x37,
            KeyCode::Digit8 => 0x38,
            KeyCode::Digit9 => 0x39,
            KeyCode::KeyA => 0x41,
            KeyCode::KeyB => 0x42,
            KeyCode::KeyC => 0x43,
            KeyCode::KeyD => 0x44,
            KeyCode::KeyE => 0x45,
            KeyCode::KeyF => 0x46,
            KeyCode::KeyG => 0x47,
            KeyCode::KeyH => 0x48,
            KeyCode::KeyI => 0x49,
            KeyCode::KeyJ => 0x4A,
            KeyCode::KeyK => 0x4B,
            KeyCode::KeyL => 0x4C,
            KeyCode::KeyM => 0x4D,
            KeyCode::KeyN => 0x4E,
            KeyCode::KeyO => 0x4F,
            KeyCode::KeyP => 0x50,
            KeyCode::KeyQ => 0x51,
            KeyCode::KeyR => 0x52,
            KeyCode::KeyS => 0x53,
            KeyCode::KeyT => 0x54,
            KeyCode::KeyU => 0x55,
            KeyCode::KeyV => 0x56,
            KeyCode::KeyW => 0x57,
            KeyCode::KeyX => 0x58,
            KeyCode::KeyY => 0x59,
            KeyCode::KeyZ => 0x5A,
            KeyCode::F1 => 0x70,
            KeyCode::F2 => 0x71,
            KeyCode::F3 => 0x72,
            KeyCode::F4 => 0x73,
            KeyCode::F5 => 0x74,
            KeyCode::F6 => 0x75,
            KeyCode::F7 => 0x76,
            KeyCode::F8 => 0x77,
            KeyCode::F9 => 0x78,
            KeyCode::F10 => 0x79,
            KeyCode::F11 => 0x7A,
            KeyCode::F12 => 0x7B,
            KeyCode::Unmapped => 0,
        }
    }
}

/// The key's Windows virtual-key code; zero where it has none.
pub fn keycode_to_vk(code: KeyCode) -> (r: u16)
    ensures
        r == code.vk(),
{
    match code {
        KeyCode::Escape => 0x1B,
        KeyCode::Enter => 0x0D,
        KeyCode::Tab => 0x09,
        KeyCode::Backspace => 0x08,
        KeyCode::Space => 0x20,
        KeyCode::ShiftLeft => 0x10,
        KeyCode::ShiftRight => 0x10,
        KeyCode::ControlLeft => 0x11,
        KeyCode::ControlRight => 0x11,
        KeyCode::AltLeft => 0x12,
        KeyCode::AltRight => 0x12,
        KeyCode::ArrowLeft => 0x25,
        KeyCode::ArrowUp => 0x26,
        KeyCode::ArrowRight => 0x27,
        KeyCode::ArrowDown => 0x28,
        KeyCode::Digit0 => 0x30,
        KeyCode::Digit1 => 0x31,
        KeyCode::Digit2 => 0x32,
        KeyCode::Digit3 => 0x33,
        KeyCode::Digit4 => 0x34,
        KeyCode::Digit5 => 0x35,
        KeyCode::Digit6 => 0x36,
        KeyCode::Digit7 => 0x37,
        KeyCode::Digit8 => 0x38,
        KeyCode::Digit9 => 0x39,
        KeyCode::KeyA => 0x41,
        KeyCode::KeyB => 0x42,
        KeyCode::KeyC => 0x43,
        KeyCode::KeyD => 0x44,
        KeyCode::KeyE => 0x45,
        KeyCode::KeyF => 0x46,
        KeyCode::KeyG => 0x47,
        KeyCode::KeyH => 0x48,
        KeyCode::KeyI => 0x49,
        KeyCode::KeyJ => 0x4A,
        KeyCode::KeyK => 0x4B,
        KeyCode::KeyL => 0x4C,
        KeyCode::KeyM => 0x4D,
        KeyCode::KeyN => 0x4E,
        KeyCode::KeyO => 0x4F,
        KeyCode::KeyP => 0x50,
        KeyCode::KeyQ => 0x51,
        KeyCode::KeyR => 0x52,
        KeyCode::KeyS => 0x53,
        KeyCode::KeyT => 0x54,
        KeyCode::KeyU => 0x55,
        KeyCode::KeyV => 0x56,
        KeyCode::KeyW => 0x57,
        KeyCode::KeyX => 0x58,
        KeyCode::KeyY => 0x59,
        KeyCode::KeyZ => 0x5A,
        KeyCode::F1 => 0x70,
        KeyCode::F2 => 0x71,
        KeyCode::F3 => 0x72,
        KeyCode::F4 => 0x73,
        KeyCode::F5 => 0x74,
        KeyCode::F6 => 0x75,
        KeyCode::F7 => 0x76,
        KeyCode::F8 => 0x77,
        KeyCode::F9 => 0x78,
        KeyCode::F10 => 0x79,
        KeyCode::F11 => 0x7A,
        KeyCode::F12 => 0x7B,
        KeyCode::Unmapped => 0,
    }
}

/// The number that stands for a button on the wire.
pub open spec fn button_number(button: MouseButton) -> u8 {
    match button {
        MouseButton::Left => 0,
        MouseButton::Right => 1,
        MouseButton::Middle => 2,
        MouseButton::Back => 3,
        MouseButton::Forward => 4,
        MouseButton::Other(n) => (n % 256) as u8,
    }
}

/// The event for a button that went down or up.
pub open spec fn button_event(button: MouseButton, down: bool) -> InputEvent {
    InputEvent::MouseButton { button: button_number(button), down }
}

/// The event for a wheel turn.
pub open spec fn wheel_event(delta: ScrollDelta) -> Option<InputEvent> {
    let (dx, dy) = match delta {
        ScrollDelta::Lines { x, y } => (x, y),
        ScrollDelta::Pixels { x, y } => (sixteenth(x), sixteenth(y)),
    };
    if dx == 0 && dy == 0 {
        None
    } else {
        Some(InputEvent::MouseWheel { dx, dy })
    }
}

/// The event for a key that went down or up.
pub open spec fn key_event(physical: Option<KeyCode>, pressed: bool) -> Option<InputEvent> {
    match physical {
        Some(code) => Some(InputEvent::Key { vk: code.vk(), down: pressed, scancode: 0 }),
        None => None,
    }
}

pub fn mouse_button(button: MouseButton, down: bool) -> (r: InputEvent)
    ensures
        r == (InputEvent::MouseButton { button: button_number(button), down }),
        r == button_event(button, down),
{
    let button: u8 = match button {
        MouseButton::Left => 0,
        MouseButton::Right => 1,
        MouseButton::Middle => 2,
        MouseButton::Back => 3,
        MouseButton::Forward => 4,
        MouseButton::Other(n) => (n % 256) as u8,
    };
    InputEvent::MouseButton { button, down }
}

/// A sixteenth of `v`, rounded toward zero.
pub open spec fn sixteenth(v: i16) -> i16 {
    if v >= 0 {
        (v as int / 16) as i16
    } else {
        (-(-(v as int) / 16)) as i16
    }
}

fn to_sixteenth(v: i16) -> (r: i16)
    ensures
        r == sixteenth(v),
{
    let wide: i32 = v as i32;
    if wide >= 0 {
        (wide / 16) as i16
    } else {
        (-(-wide / 16)) as i16
    }
}

/// The event for a wheel turn; sixteen pixels make a line. None where nothing is left of
/// it.
pub fn mouse_wheel(delta: ScrollDelta) -> (r: Option<InputEvent>)
    ensures
        ({
            let (dx, dy) = match delta {
                ScrollDelta::Lines { x, y } => (x, y),
                ScrollDelta::Pixels { x, y } => (sixteenth(x), sixteenth(y)),
            };
            r == if dx == 0 && dy == 0 {
                None::<InputEvent>
            } else {
                Some(InputEvent::MouseWheel { dx, dy })
            }
        }),
        r == wheel_event(delta),
{
    let (dx, dy) = match delta {
        ScrollDelta::Lines { x, y } => (x, y),
        ScrollDelta::Pixels { x, y } => (to_sixteenth(x), to_sixteenth(y)),
    };
    if dx == 0 && dy == 0 {
        None
    } else {
        Some(InputEvent::MouseWheel { dx, dy })
    }
}

/// The event for a key that went down or up; none for a key without a physical code.
pub fn key(physical: Option<KeyCode>, pressed: bool) -> (r: Option<InputEvent>)
    ensures
        r == match physical {
            Some(code) => Some(InputEvent::Key { vk: code.vk(), down: pressed, scancode: 0 }),
            None => None::<InputEvent>,
        },
        r == key_event(physical, pressed),
{
    match physical {
        Some(code) => Some(
            InputEvent::Key { vk: keycode_to_vk(code), down: pressed, scancode: 0 },
        ),
        None => None,
    }
}

/// Every key of a client that has a code has one on a Mac host too.
pub proof fn client_keys_reach_a_mac(code: KeyCode)
    requires
        code != KeyCode::Unmapped,
    ensures
        crate::input::cg_code(code.vk()) is Some,
{
}

/// Keys with a code keep apart, but for the left and right sides of a modifier.
pub proof fn virtual_keys_stay_apart(a: KeyCode, b: KeyCode)
    requires
        a.vk() == b.vk(),
        a != b,
        a != KeyCode::Unmapped,
        b != KeyCode::Unmapped,
    ensures
        a.vk() == 0x10 || a.vk() == 0x11 || a.vk() == 0x12,
{
}

/// The letter keys in alphabetical order.
pub open spec fn letters() -> Seq<KeyCode> {
    seq![
        KeyCode::KeyA,
        KeyCode::KeyB,
        KeyCode::KeyC,
        KeyCode::KeyD,
        KeyCode::KeyE,
        KeyCode::KeyF,
        KeyCode::KeyG,
        KeyCode::KeyH,
        KeyCode::KeyI,
        KeyCode::KeyJ,
        KeyCode::KeyK,
        KeyCode::KeyL,
        KeyCode::KeyM,
        KeyCode::KeyN,
        KeyCode::KeyO,
        KeyCode::KeyP,
        KeyCode::KeyQ,
        KeyCode::KeyR,
        KeyCode::KeyS,
        KeyCode::KeyT,
        KeyCode::KeyU,
        KeyCode::KeyV,
        KeyCode::KeyW,
        KeyCode::KeyX,
        KeyCode::KeyY,
        KeyCode::KeyZ,
    ]
}

/// The digit keys from zero to nine.
pub open spec fn digits() -> Seq<KeyCode> {
    seq![
        KeyCode::Digit0,
        KeyCode::Digit1,
        KeyCode::Digit2,
        KeyCode::Digit3,
        KeyCode::Digit4,
        KeyCode::Digit5,
        KeyCode::Digit6,
        KeyCode::Digit7,
        KeyCode::Digit8,
        KeyCode::Digit9,
    ]
}

/// The function keys in order.
pub open spec fn function_keys() -> Seq<KeyCode> {
    seq![
        KeyCode::F1,
        KeyCode::F2,
        KeyCode::F3,
        KeyCode::F4,
        KeyCode::F5,
        KeyCode::F6,
        KeyCode::F7,
        KeyCode::F8,
        KeyCode::F9,
        KeyCode::F10,
        KeyCode::F11,
        KeyCode::F12,
    ]
}

/// A letter's or a digit's code is its character's, and the function keys are numbered without
/// a gap.
pub proof fn keys_have_the_codes_of_their_characters(i: int)
    ensures
        letters().len() == 26,
        digits().len() == 10,
        function_keys().len() == 12,
        0 <= i < 26 ==> letters()[i].vk() == 'A' as u32 + i,
        0 <= i < 10 ==> digits()[i].vk() == '0' as u32 + i,
        0 <= i < 12 ==> function_keys()[i].vk() == 0x70 + i,
{
}

/// The other keys: those that make a control character or a blank have its code; the two sides
/// of a modifier share one; the arrows are numbered clockwise from the left. A key has no code
/// only where it is not known.
pub proof fn other_keys_have_codes(code: KeyCode)
    ensures
        KeyCode::Backspace.vk() == 8,
        KeyCode::Tab.vk() == 9,
        KeyCode::Enter.vk() == 13,
        KeyCode::Escape.vk() == 27,
        KeyCode::Space.vk() == ' ' as u32,
        KeyCode::ShiftLeft.vk() == 0x10 && KeyCode::ShiftRight.vk() == 0x10,
        KeyCode::ControlLeft.vk() == 0x11 && KeyCode::ControlRight.vk() == 0x11,
        KeyCode::AltLeft.vk() == 0x12 && KeyCode::AltRight.vk() == 0x12,
        KeyCode::ArrowUp.vk() == KeyCode::ArrowLeft.vk() + 1,
        KeyCode::ArrowRight.vk() == KeyCode::ArrowLeft.vk() + 2,
        KeyCode::ArrowDown.vk() == KeyCode::ArrowLeft.vk() + 3,
        KeyCode::ArrowLeft.vk() == 0x25,
        code.vk() == 0 <==> code == KeyCode::Unmapped,
{
}

/// Buttons keep apart and keep their direction; the ones without a name keep their own low
/// byte.
pub proof fn buttons_have_numbers(n: u16, a: MouseButton, b: MouseButton, down: bool)
    ensures
        button_event(MouseButton::Left, down) == (InputEvent::MouseButton { button: 0, down }),
        button_event(MouseButton::Right, down) == (InputEvent::MouseButton { button: 1, down }),
        button_event(MouseButton::Middle, down) == (InputEvent::MouseButton { button: 2, down }),
        button_event(MouseButton::Back, down) == (InputEvent::MouseButton { button: 3, down }),
        button_event(MouseButton::Forward, down) == (InputEvent::MouseButton {
            button: 4,
            down,
        }),
        n < 256 ==> button_event(MouseButton::Other(n), down) == (InputEvent::MouseButton {
            button: n as u8,
            down,
        }),
        n >= 256 ==> button_number(MouseButton::Other(n)) == button_number(
            MouseButton::Other((n - 256) as u16),
        ),
        !(a is Other) && !(b is Other) && a != b ==> button_event(a, down) != button_event(
            b,
            down,
        ),
        button_event(a, true) != button_event(b, false),
{
}

/// Lines turn the wheel by as much as they say; pixels by a sixteenth, cut off toward zero, so
/// that turning the other way gives the opposite. A turn of no line is no event.
pub proof fn wheel_turns_count_lines(x: i16, y: i16)
    ensures
        (x != 0 || y != 0) ==> wheel_event(ScrollDelta::Lines { x, y }) == Some(
            InputEvent::MouseWheel { dx: x, dy: y },
        ),
        wheel_event(ScrollDelta::Lines { x: 0, y: 0 }) is None,
        wheel_event(ScrollDelta::Pixels { x, y }) is None <==> -16 < x < 16 && -16 < y < 16,
        wheel_event(ScrollDelta::Pixels { x, y }) matches Some(e) ==> (e matches
            InputEvent::MouseWheel { dx, dy } && {
            &&& x >= 0 ==> 16 * dx <= x < 16 * dx + 16
            &&& x <= 0 ==> 16 * dx - 16 < x <= 16 * dx
            &&& y >= 0 ==> 16 * dy <= y < 16 * dy + 16
            &&& y <= 0 ==> 16 * dy - 16 < y <= 16 * dy
        }),
{
}

/// A key that is known by its place makes one event, with its direction and the code of the
/// key; one that is not makes none.
pub proof fn keys_make_one_event(code: KeyCode, pressed: bool)
    ensures
        key_event(None, pressed) is None,
        key_event(Some(code), pressed) matches Some(e) && (e matches InputEvent::Key {
            vk,
            down,
            scancode,
        } && vk == code.vk() && down == pressed && scancode == 0),
{
}

} // verus!
