//! Turning input events into what each platform injects.

use vstd::prelude::*;

use crate::caps::Platform;
use crate::messages::InputEvent;

verus! {

/// Why an event was not injected.
#[derive(Debug, Clone, Copy, PartialEq, Eq, Structural)]
pub enum InputError {
    /// The platform has no way of injecting.
    Unsupported,
    /// A Mac refused the event.
    CgMouseAbs,
    CgButton,
    CgWheel,
    CgKey,
    /// Windows refused the event.
    SendMouse,
    SendKey,
}

impl InputError {
    pub fn message(&self) -> (r: &'static str)
        ensures
            r@ == match self {
                InputError::Unsupported => "unsupported"@,
                InputError::CgMouseAbs => "CGEvent mouse abs failed"@,
                InputError::CgButton => "CGEvent button failed"@,
                InputError::CgWheel => "CGEvent wheel failed"@,
                InputError::CgKey => "CGEvent key failed"@,
                InputError::SendMouse => "SendInput mouse failed"@,
                InputError::SendKey => "SendInput key failed"@,
            },
    {
        match self {
            InputError::Unsupported => "unsupported",
            InputError::CgMouseAbs => "CGEvent mouse abs failed",
            InputError::CgButton => "CGEvent button failed",
            InputError::CgWheel => "CGEvent wheel failed",
            InputError::CgKey => "CGEvent key failed",
            InputError::SendMouse => "SendInput mouse failed",
            InputError::SendKey => "SendInput key failed",
        }
    }
}

/// Tracks which mouse buttons are down so moves become drag events on macOS.
#[derive(Debug, Clone, Copy)]
pub struct MouseButtons {
    pub left: bool,
    pub right: bool,
    pub middle: bool,
    pub back: bool,
    pub forward: bool,
    pub pos: Option<(u16, u16)>,
}

impl Default for MouseButtons {
    fn default() -> (r: MouseButtons)
        ensures
            r == MouseButtons::none(),
    {
        MouseButtons {
            left: false,
            right: false,
            middle: false,
            back: false,
            forward: false,
            pos: None,
        }
    }
}

/// What a Mac injects.
#[derive(Debug, Clone, Copy, PartialEq, Eq, Structural)]
pub enum MacInput {
    /// A move, or a drag with the numbered button; minus one stands for none.
    MouseAbs { x: u16, y: u16, drag_button: i32 },
    Button { button: u8, down: bool, x: u16, y: u16 },
    Wheel { dx: i16, dy: i16 },
    Key { code: u16, down: bool },
}

impl MacInput {
    /// What a return code says of injecting this.
    pub open spec fn told(self, rc: i32) -> Result<(), InputError> {
        if rc != 0 {
            Ok(())
        } else {
            Err(
                match self {
                    MacInput::MouseAbs { .. } => InputError::CgMouseAbs,
                    MacInput::Button { .. } => InputError::CgButton,
                    MacInput::Wheel { .. } => InputError::CgWheel,
                    MacInput::Key { .. } => InputError::CgKey,
                },
            )
        }
    }

    /// The outcome of injecting this on a Mac, by what the call returned: zero for failure.
    pub fn outcome(self, rc: i32) -> (r: Result<(), InputError>)
        ensures
            r == if rc != 0 {
                Ok::<(), InputError>(())
            } else {
                Err::<(), InputError>(
                    match self {
                        MacInput::MouseAbs { .. } => InputError::CgMouseAbs,
                        MacInput::Button { .. } => InputError::CgButton,
                        MacInput::Wheel { .. } => InputError::CgWheel,
                        MacInput::Key { .. } => InputError::CgKey,
                    },
                )
            },
            r == self.told(rc),
    {
        if rc != 0 {
            return Ok(());
        }
        match self {
            MacInput::MouseAbs { .. } => Err(InputError::CgMouseAbs),
            MacInput::Button { .. } => Err(InputError::CgButton),
            MacInput::Wheel { .. } => Err(InputError::CgWheel),
            MacInput::Key { .. } => Err(InputError::CgKey),
        }
    }
}

/// A coordinate moved by `d`, kept within sixteen bits.
pub open spec fn shifted(v: u16, d: i16) -> u16 {
    if v + d < 0 {
        0
    } else if v + d > u16::MAX {
        u16::MAX
    } else {
        (v + d) as u16
    }
}

fn shift(v: u16, d: i16) -> (r: u16)
    ensures
        r == shifted(v, d),
{
    let t: i32 = v as i32 + d as i32;
    if t < 0 {
        0
    } else if t > u16::MAX as i32 {
        u16::MAX
    } else {
        t as u16
    }
}

impl MouseButtons {
    pub open spec fn none() -> MouseButtons {
        MouseButtons {
            left: false,
            right: false,
            middle: false,
            back: false,
            forward: false,
            pos: None,
        }
    }

    /// Whether any button is down.
    pub open spec fn holds_any(self) -> bool {
        self.left || self.right || self.middle || self.back || self.forward
    }

    /// Whether the place of the pointer is not known.
    pub open spec fn lost(self) -> bool {
        self.pos is None
    }

    /// The button a drag is made with: the first of left, right and middle that is down.
    pub open spec fn dragging(self) -> i32 {
        if self.left {
            0
        } else if self.right {
            1
        } else if self.middle {
            2
        } else {
            (-1) as i32
        }
    }

    /// The buttons after one of the five went up or down. Others are not tracked.
    pub open spec fn with_button(self, button: u8, down: bool) -> MouseButtons {
        if button == 0 {
            MouseButtons { left: down, ..self }
        } else if button == 1 {
            MouseButtons { right: down, ..self }
        } else if button == 2 {
            MouseButtons { middle: down, ..self }
        } else if button == 3 {
            MouseButtons { back: down, ..self }
        } else if button == 4 {
            MouseButtons { forward: down, ..self }
        } else {
            self
        }
    }

    /// Where a click lands: at the last position seen, else at the cursor, else at the
    /// origin.
    pub open spec fn click_at(self, cursor: Option<(u16, u16)>) -> (u16, u16) {
        match self.pos {
            Some(p) => p,
            None => match cursor {
                Some(p) => p,
                None => (0, 0),
            },
        }
    }

    /// What an event does, and what is injected for it.
    pub open spec fn injected(self, ev: InputEvent, cursor: Option<(u16, u16)>) -> (
        MouseButtons,
        Option<MacInput>,
    ) {
        match ev {
            InputEvent::MouseMoveAbs { x, y, host_w, host_h } => (
                MouseButtons { pos: Some((x, y)), ..self },
                Some(MacInput::MouseAbs { x, y, drag_button: self.dragging() }),
            ),
            InputEvent::MouseMoveRel { dx, dy } => {
                let at = self.click_at(cursor);
                let x = shifted(at.0, dx);
                let y = shifted(at.1, dy);
                (
                    MouseButtons { pos: Some((x, y)), ..self },
                    Some(MacInput::MouseAbs { x, y, drag_button: self.dragging() }),
                )
            },
            InputEvent::MouseButton { button, down } => {
                let at = self.click_at(cursor);
                (
                    self.with_button(button, down),
                    Some(MacInput::Button { button, down, x: at.0, y: at.1 }),
                )
            },
            InputEvent::MouseWheel { dx, dy } => (self, Some(MacInput::Wheel { dx, dy })),
            InputEvent::Key { vk, down, scancode } => (
                self,
                match cg_code(vk) {
                    Some(code) => Some(MacInput::Key { code, down }),
                    None => None,
                },
            ),
        }
    }

    pub fn any_down(&self) -> (r: bool)
        ensures
            r == (self.left || self.right || self.middle || self.back || self.forward),
            r == self.holds_any(),
    {
        self.left || self.right || self.middle || self.back || self.forward
    }

    pub fn drag_button(&self) -> (r: i32)
        ensures
            r == self.dragging(),
    {
        if self.left {
            return 0;
        }
        if self.right {
            return 1;
        }
        if self.middle {
            return 2;
        }
        -1
    }

    /// Whether the cursor's position is needed to place the next click.
    pub fn needs_cursor(&self) -> (r: bool)
        ensures
            r == self.pos is None,
            r == self.lost(),
    {
        self.pos.is_none()
    }

    fn set_button(&mut self, button: u8, down: bool)
        ensures
            *final(self) == old(self).with_button(button, down),
    {
        match button {
            0 => {
                self.left = down;
            },
            1 => {
                self.right = down;
            },
            2 => {
                self.middle = down;
            },
            3 => {
                self.back = down;
            },
            4 => {
                self.forward = down;
            },
            _ => {},
        }
    }

    fn click_pos(&self, cursor: Option<(u16, u16)>) -> (r: (u16, u16))
        ensures
            r == self.click_at(cursor),
    {
        match self.pos {
            Some(p) => p,
            None => match cursor {
                Some(p) => p,
                None => (0, 0),
            },
        }
    }
}

/// What a Mac injects for an event. `cursor` is where the pointer is, if that is known; it
/// matters only before the first move. Nothing is injected for a key without a Mac code.
pub fn inject_with_buttons(
    ev: &InputEvent,
    buttons: &mut MouseButtons,
    cursor: Option<(u16, u16)>,
) -> (r: Option<MacInput>)
    ensures
        (*final(buttons), r) == old(buttons).injected(*ev, cursor),
{
    match *ev {
        InputEvent::MouseMoveAbs { x, y, .. } => {
            buttons.pos = Some((x, y));
            Some(MacInput::MouseAbs { x, y, drag_button: buttons.drag_button() })
        },
        InputEvent::MouseMoveRel { dx, dy } => {
            let at = buttons.click_pos(cursor);
            let x: u16 = shift(at.0, dx);
            let y: u16 = shift(at.1, dy);
            buttons.pos = Some((x, y));
            Some(MacInput::MouseAbs { x, y, drag_button: buttons.drag_button() })
        },
        InputEvent::MouseButton { button, down } => {
            let at = buttons.click_pos(cursor);
            buttons.set_button(button, down);
            Some(MacInput::Button { button, down, x: at.0, y: at.1 })
        },
        InputEvent::MouseWheel { dx, dy } => Some(MacInput::Wheel { dx, dy }),
        InputEvent::Key { vk, down, .. } => match windows_vk_to_cg(vk) {
            Some(code) => Some(MacInput::Key { code, down }),
            // Unknown VK — do not inject CGKeyCode 0 (that types 'A').
            None => None,
        },
    }
}

/// The Carbon `kVK_*` code of a Windows virtual key, on an ANSI US keyboard.
pub open spec fn cg_code(vk: u16) -> Option<u16> {
    if vk == 0x41 {
        Some(0x00)
    } else if vk == 0x53 {
        Some(0x01)
    } else if vk == 0x44 {
        Some(0x02)
    } else if vk == 0x46 {
        Some(0x03)
    } else if vk == 0x48 {
        Some(0x04)
    } else if vk == 0x47 {
        Some(0x05)
    } else if vk == 0x5A {
        Some(0x06)
    } else if vk == 0x58 {
        Some(0x07)
    } else if vk == 0x43 {
        Some(0x08)
    } else if vk == 0x56 {
        Some(0x09)
    } else if vk == 0x42 {
        Some(0x0B)
    } else if vk == 0x51 {
        Some(0x0C)
    } else if vk == 0x57 {
        Some(0x0D)
    } else if vk == 0x45 {
        Some(0x0E)
    } else if vk == 0x52 {
        Some(0x0F)
    } else if vk == 0x59 {
        Some(0x10)
    } else if vk == 0x54 {
        Some(0x11)
    } else if vk == 0x31 {
        Some(0x12)
    } else if vk == 0x32 {
        Some(0x13)
    } else if vk == 0x33 {
        Some(0x14)
    } else if vk == 0x34 {
        Some(0x15)
    } else if vk == 0x36 {
        Some(0x16)
    } else if vk == 0x35 {
        Some(0x17)
    } else if vk == 0xBB {
        Some(0x18)
    } else if vk == 0x39 {
        Some(0x19)
    } else if vk == 0x37 {
        Some(0x1A)
    } else if vk == 0xBD {
        Some(0x1B)
    } else if vk == 0x38 {
        Some(0x1C)
    } else if vk == 0x30 {
        Some(0x1D)
    } else if vk == 0xDD {
        Some(0x1E)
    } else if vk == 0x4F {
        Some(0x1F)
    } else if vk == 0x55 {
        Some(0x20)
    } else if vk == 0xDB {
        Some(0x21)
    } else if vk == 0x49 {
        Some(0x22)
    } else if vk == 0x50 {
        Some(0x23)
    } else if vk == 0x0D {
        Some(0x24)
    } else if vk == 0x4C {
        Some(0x25)
    } else if vk == 0x4A {
        Some(0x26)
    } else if vk == 0xDE {
        Some(0x27)
    } else if vk == 0x4B {
        Some(0x28)
    } else if vk == 0xBA {
        Some(0x29)
    } else if vk == 0xDC {
        Some(0x2A)
    } else if vk == 0xBC {
        Some(0x2B)
    } else if vk == 0xBF {
        Some(0x2C)
    } else if vk == 0x4E {
        Some(0x2D)
    } else if vk == 0x4D {
        Some(0x2E)
    } else if vk == 0xBE {
        Some(0x2F)
    } else if vk == 0x09 {
        Some(0x30)
    } else if vk == 0x20 {
        Some(0x31)
    } else if vk == 0xC0 {
        Some(0x32)
    } else if vk == 0x08 {
        Some(0x33)
    } else if vk == 0x1B {
        Some(0x35)
    } else if vk == 0x5B {
        Some(0x37)
    } else if vk == 0x5C {
        Some(0x37)
    } else if vk == 0x10 {
        Some(0x38)
    } else if vk == 0xA0 {
        Some(0x38)
    } else if vk == 0xA1 {
        Some(0x3C)
    } else if vk == 0x14 {
        Some(0x39)
    } else if vk == 0x12 {
        Some(0x3A)
    } else if vk == 0xA4 {
        Some(0x3A)
    } else if vk == 0xA5 {
        Some(0x3D)
    } else if vk == 0x11 {
        Some(0x3B)
    } else if vk == 0xA2 {
        Some(0x3B)
    } else if vk == 0xA3 {
        Some(0x3E)
    } else if vk == 0x25 {
        Some(0x7B)
    } else if vk == 0x27 {
        Some(0x7C)
    } else if vk == 0x28 {
        Some(0x7D)
    } else if vk == 0x26 {
        Some(0x7E)
    } else if vk == 0x2E {
        Some(0x75)
    } else if vk == 0x24 {
        Some(0x73)
    } else if vk == 0x23 {
        Some(0x77)
    } else if vk == 0x21 {
        Some(0x74)
    } else if vk == 0x22 {
        Some(0x79)
    } else if vk == 0x70 {
        Some(0x7A)
    } else if vk == 0x71 {
        Some(0x78)
    } else if vk == 0x72 {
        Some(0x63)
    } else if vk == 0x73 {
        Some(0x76)
    } else if vk == 0x74 {
        Some(0x60)
    } else if vk == 0x75 {
        Some(0x61)
    } else if vk == 0x76 {
        Some(0x62)
    } else if vk == 0x77 {
        Some(0x64)
    } else if vk == 0x78 {
        Some(0x65)
    } else if vk == 0x79 {
        Some(0x6D)
    } else if vk == 0x7A {
        Some(0x67)
    } else if vk == 0x7B {
        Some(0x6F)
    } else if vk == 0x60 {
        Some(0x52)
    } else if vk == 0x61 {
        Some(0x53)
    } else if vk == 0x62 {
        Some(0x54)
    } else if vk == 0x63 {
        Some(0x55)
    } else if vk == 0x64 {
        Some(0x56)
    } else if vk == 0x65 {
        Some(0x57)
    } else if vk == 0x66 {
        Some(0x58)
    } else if vk == 0x67 {
        Some(0x59)
    } else if vk == 0x68 {
        Some(0x5B)
    } else if vk == 0x69 {
        Some(0x5C)
    } else if vk == 0x6E {
        Some(0x41)
    } else if vk == 0x6A {
        Some(0x43)
    } else if vk == 0x6B {
        Some(0x45)
    } else if vk == 0x6D {
        Some(0x4E)
    } else if vk == 0x6F {
        Some(0x4B)
    } else if vk == 0x90 {
        Some(0x47)
    } else {
        None
    }
}

/// Wire format uses Windows virtual-key codes; CGEvent wants Carbon `kVK_*` codes.
/// Returns `None` for unmapped keys so we never fall through to a wrong CGKeyCode.
pub fn windows_vk_to_cg(vk: u16) -> (r: Option<u16>)
    ensures
        r == cg_code(vk),
{
    // Carbon Events.h / HIToolbox virtual key codes (ANSI US positions).
    match vk {
        // Letters A–Z
        0x41 => Some(0x00), // A
        0x53 => Some(0x01), // S
        0x44 => Some(0x02), // D
        0x46 => Some(0x03), // F
        0x48 => Some(0x04), // H
        0x47 => Some(0x05), // G
        0x5A => Some(0x06), // Z
        0x58 => Some(0x07), // X
        0x43 => Some(0x08), // C
        0x56 => Some(0x09), // V
        0x42 => Some(0x0B), // B
        0x51 => Some(0x0C), // Q
        0x57 => Some(0x0D), // W
        0x45 => Some(0x0E), // E
        0x52 => Some(0x0F), // R
        0x59 => Some(0x10), // Y
        0x54 => Some(0x11), // T
        0x31 => Some(0x12), // 1
        0x32 => Some(0x13), // 2
        0x33 => Some(0x14), // 3
        0x34 => Some(0x15), // 4
        0x36 => Some(0x16), // 6
        0x35 => Some(0x17), // 5
        0xBB => Some(0x18), // OEM_PLUS =
        0x39 => Some(0x19), // 9
        0x37 => Some(0x1A), // 7
        0xBD => Some(0x1B), // OEM_MINUS -
        0x38 => Some(0x1C), // 8
        0x30 => Some(0x1D), // 0
        0xDD => Some(0x1E), // OEM_6 ]
        0x4F => Some(0x1F), // O
        0x55 => Some(0x20), // U
        0xDB => Some(0x21), // OEM_4 [
        0x49 => Some(0x22), // I
        0x50 => Some(0x23), // P
        0x0D => Some(0x24), // Return
        0x4C => Some(0x25), // L
        0x4A => Some(0x26), // J
        0xDE => Some(0x27), // OEM_7 '
        0x4B => Some(0x28), // K
        0xBA => Some(0x29), // OEM_1 ;
        0xDC => Some(0x2A), // OEM_5 \
        0xBC => Some(0x2B), // OEM_COMMA ,
        0xBF => Some(0x2C), // OEM_2 /
        0x4E => Some(0x2D), // N
        0x4D => Some(0x2E), // M
        0xBE => Some(0x2F), // OEM_PERIOD .
        0x09 => Some(0x30), // Tab
        0x20 => Some(0x31), // Space
        0xC0 => Some(0x32), // OEM_3 `
        0x08 => Some(0x33), // Backspace (Mac Delete)
        0x1B => Some(0x35), // Escape
        // Modifiers — Win/Super maps to Command so Ctrl+C on Win client can be
        // remapped by the user; physical Ctrl/Alt still map to Control/Option.
        0x5B | 0x5C => Some(0x37), // LWIN/RWIN → Command (left; right also 0x36 if needed)
        0x10 | 0xA0 => Some(0x38), // Shift / LShift
        0xA1 => Some(0x3C), // RShift
        0x14 => Some(0x39), // CapsLock
        0x12 | 0xA4 => Some(0x3A), // Alt / LMenu → Option
        0xA5 => Some(0x3D), // RMenu → Right Option
        0x11 | 0xA2 => Some(0x3B), // Control / LControl
        0xA3 => Some(0x3E), // RControl
        // Navigation
        0x25 => Some(0x7B), // Left
        0x27 => Some(0x7C), // Right
        0x28 => Some(0x7D), // Down
        0x26 => Some(0x7E), // Up
        0x2E => Some(0x75), // DELETE → ForwardDelete
        0x24 => Some(0x73), // HOME
        0x23 => Some(0x77), // END
        0x21 => Some(0x74), // PRIOR PageUp
        0x22 => Some(0x79), // NEXT PageDown
        // F-keys (non-sequential on Mac)
        0x70 => Some(0x7A), // F1
        0x71 => Some(0x78), // F2
        0x72 => Some(0x63), // F3
        0x73 => Some(0x76), // F4
        0x74 => Some(0x60), // F5
        0x75 => Some(0x61), // F6
        0x76 => Some(0x62), // F7
        0x77 => Some(0x64), // F8
        0x78 => Some(0x65), // F9
        0x79 => Some(0x6D), // F10
        0x7A => Some(0x67), // F11
        0x7B => Some(0x6F), // F12
        // Numpad
        0x60 => Some(0x52), // Numpad0
        0x61 => Some(0x53), // Numpad1
        0x62 => Some(0x54), // Numpad2
        0x63 => Some(0x55), // Numpad3
        0x64 => Some(0x56), // Numpad4
        0x65 => Some(0x57), // Numpad5
        0x66 => Some(0x58), // Numpad6
        0x67 => Some(0x59), // Numpad7
        0x68 => Some(0x5B), // Numpad8
        0x69 => Some(0x5C), // Numpad9
        0x6E => Some(0x41), // Decimal
        0x6A => Some(0x43), // Multiply
        0x6B => Some(0x45), // Add
        0x6D => Some(0x4E), // Subtract
        0x6F => Some(0x4B), // Divide
        0x90 => Some(0x47), // NumLock → KeypadClear
        _ => None,
    }
}

/// Different keys stay different on a Mac, but for the sided modifiers that share the code
/// of the plain one.
pub proof fn key_codes_stay_apart(a: u16, b: u16)
    requires
        cg_code(a) is Some,
        cg_code(a) == cg_code(b),
        a < b,
    ensures
        (a == 0x5B && b == 0x5C) || (a == 0x10 && b == 0xA0) || (a == 0x12 && b == 0xA4) || (a
            == 0x11 && b == 0xA2),
{
}

/// A mouse button event of Windows.
#[derive(Debug, Clone, Copy, PartialEq, Eq, Structural)]
pub enum WinButton {
    LeftDown,
    LeftUp,
    RightDown,
    RightUp,
    MiddleDown,
    MiddleUp,
}

/// What Windows injects.
#[derive(Debug, Clone, Copy, PartialEq, Eq, Structural)]
pub enum WinInput {
    /// A move to a place on a screen 65535 units wide and high.
    MoveAbs { x: i32, y: i32 },
    MoveRel { dx: i32, dy: i32 },
    Button(WinButton),
    Wheel { amount: i32 },
    HWheel { amount: i32 },
    Key { vk: u16, down: bool },
}

impl WinInput {
    /// What the number of events taken says of injecting this.
    pub open spec fn told(self, taken: u32) -> Result<(), InputError> {
        if taken != 0 {
            Ok(())
        } else if self is Key {
            Err(InputError::SendKey)
        } else {
            Err(InputError::SendMouse)
        }
    }

    /// The outcome of injecting this on Windows, by how many events were taken.
    pub fn outcome(self, taken: u32) -> (r: Result<(), InputError>)
        ensures
            r == if taken != 0 {
                Ok::<(), InputError>(())
            } else if self is Key {
                Err::<(), InputError>(InputError::SendKey)
            } else {
                Err::<(), InputError>(InputError::SendMouse)
            },
            r == self.told(taken),
    {
        if taken != 0 {
            return Ok(());
        }
        match self {
            WinInput::Key { .. } => Err(InputError::SendKey),
            _ => Err(InputError::SendMouse),
        }
    }
}

/// A coordinate on a screen of `size` as one on a screen of 65535.
pub open spec fn scaled(v: u16, size: u16) -> i32 {
    if size == 0 {
        0
    } else {
        (v * 65535 / size as int) as i32
    }
}

/// The button event for a numbered button; every one past the second is the middle one.
pub open spec fn win_button(button: u8, down: bool) -> WinButton {
    if button == 0 {
        if down {
            WinButton::LeftDown
        } else {
            WinButton::LeftUp
        }
    } else if button == 1 {
        if down {
            WinButton::RightDown
        } else {
            WinButton::RightUp
        }
    } else if down {
        WinButton::MiddleDown
    } else {
        WinButton::MiddleUp
    }
}

/// What Windows injects for an event, in order.
pub open spec fn win_inputs(ev: InputEvent) -> Seq<WinInput> {
    match ev {
        InputEvent::MouseMoveAbs { x, y, host_w, host_h } => seq![
            WinInput::MoveAbs { x: scaled(x, host_w), y: scaled(y, host_h) },
        ],
        InputEvent::MouseMoveRel { dx, dy } => seq![
            WinInput::MoveRel { dx: dx as i32, dy: dy as i32 },
        ],
        InputEvent::MouseButton { button, down } => seq![
            WinInput::Button(win_button(button, down)),
        ],
        InputEvent::MouseWheel { dx, dy } => (if dy != 0 {
            seq![WinInput::Wheel { amount: (dy * 120) as i32 }]
        } else {
            Seq::empty()
        }) + (if dx != 0 {
            seq![WinInput::HWheel { amount: (dx * 120) as i32 }]
        } else {
            Seq::empty()
        }),
        InputEvent::Key { vk, down, scancode } => seq![WinInput::Key { vk, down }],
    }
}

/// Whether an absolute position can be scaled in thirty-two bits.
pub open spec fn scales(ev: InputEvent) -> bool {
    ev matches InputEvent::MouseMoveAbs { x, y, host_w, host_h } ==> (host_w != 0 ==> x
        <= 32768) && (host_h != 0 ==> y <= 32768)
}

/// Whether an absolute position can be scaled in thirty-two bits.
pub fn can_scale(ev: &InputEvent) -> (r: bool)
    ensures
        r == scales(*ev),
{
    match *ev {
        InputEvent::MouseMoveAbs { x, y, host_w, host_h } => (host_w == 0 || x <= 32768)
            && (host_h == 0 || y <= 32768),
        _ => true,
    }
}

fn scale(v: u16, size: u16) -> (r: i32)
    requires
        size != 0 ==> v <= 32768,
    ensures
        r == scaled(v, size),
{
    if size == 0 {
        0
    } else {
        let wide: u32 = v as u32 * 65535;
        let q: u32 = wide / size as u32;
        assert(q <= wide) by (nonlinear_arith)
            requires
                q == wide / size as u32,
                size > 0,
        ;
        q as i32
    }
}

/// What Windows injects for an event, in order.
pub fn windows_inputs(ev: &InputEvent) -> (r: Vec<WinInput>)
    requires
        scales(*ev),
    ensures
        r@ == win_inputs(*ev),
{
    let mut out: Vec<WinInput> = Vec::new();
    match *ev {
        InputEvent::MouseMoveAbs { x, y, host_w, host_h } => {
            out.push(WinInput::MoveAbs { x: scale(x, host_w), y: scale(y, host_h) });
        },
        InputEvent::MouseMoveRel { dx, dy } => {
            out.push(WinInput::MoveRel { dx: dx as i32, dy: dy as i32 });
        },
        InputEvent::MouseButton { button, down } => {
            let b = match (button, down) {
                (0, true) => WinButton::LeftDown,
                (0, false) => WinButton::LeftUp,
                (1, true) => WinButton::RightDown,
                (1, false) => WinButton::RightUp,
                (_, true) => WinButton::MiddleDown,
                (_, false) => WinButton::MiddleUp,
            };
            out.push(WinInput::Button(b));
        },
        InputEvent::MouseWheel { dx, dy } => {
            if dy != 0 {
                out.push(WinInput::Wheel { amount: dy as i32 * 120 });
            }
            if dx != 0 {
                out.push(WinInput::HWheel { amount: dx as i32 * 120 });
            }
        },
        InputEvent::Key { vk, down, .. } => {
            out.push(WinInput::Key { vk, down });
        },
    }
    assert(out@ =~= win_inputs(*ev));
    out
}

/// What a platform injects.
pub enum NativeInput {
    Mac(MacInput),
    Win(WinInput),
}

/// What `platform` injects for a single event, with no buttons held before it.
pub fn inject(ev: &InputEvent, platform: Platform, cursor: Option<(u16, u16)>) -> (r: Result<
    Vec<NativeInput>,
    InputError,
>)
    requires
        platform == Platform::Windows ==> scales(*ev),
    ensures
        match r {
            Ok(v) => match platform {
                Platform::Windows => v@ == win_inputs(*ev).map_values(
                    |w: WinInput| NativeInput::Win(w),
                ),
                Platform::Macos => match MouseButtons::none().injected(*ev, cursor).1 {
                    Some(m) => v@ == seq![NativeInput::Mac(m)],
                    None => v@.len() == 0,
                },
                Platform::Unknown => false,
            },
            Err(e) => platform == Platform::Unknown && e == InputError::Unsupported,
        },
        r matches Ok(v) ==> native(*ev, platform, cursor) == Some(v@),
        r is Err ==> native(*ev, platform, cursor) is None,
{
    let mut out: Vec<NativeInput> = Vec::new();
    match platform {
        Platform::Windows => {
            let w = windows_inputs(ev);
            let mut i: usize = 0;
            let ghost all = w@.map_values(|w: WinInput| NativeInput::Win(w));
            assert(out@ =~= all.take(0));
            while i < w.len()
                invariant
                    i <= w@.len(),
                    all == w@.map_values(|w: WinInput| NativeInput::Win(w)),
                    out@ == all.take(i as int),
                decreases w@.len() - i,
            {
                out.push(NativeInput::Win(w[i]));
                i = i + 1;
                assert(out@ =~= all.take(i as int));
            }
            assert(all.take(i as int) =~= all);
            Ok(out)
        },
        Platform::Macos => {
            let mut buttons = MouseButtons::default();
            if let Some(m) = inject_with_buttons(ev, &mut buttons, cursor) {
                out.push(NativeInput::Mac(m));
                assert(out@ =~= seq![NativeInput::Mac(m)]);
            }
            Ok(out)
        },
        Platform::Unknown => Err(InputError::Unsupported),
    }
}

/// The state on a Mac after a history of events, none of them needing the cursor's place.
pub open spec fn after_events(events: Seq<InputEvent>, cursor: Option<(u16, u16)>) -> MouseButtons
    decreases events.len(),
{
    if events.len() == 0 {
        MouseButtons::none()
    } else {
        after_events(events.drop_last(), cursor).injected(events.last(), cursor).0
    }
}

/// Whether `button` was pressed and not released since.
pub open spec fn pressed(events: Seq<InputEvent>, button: u8) -> bool
    decreases events.len(),
{
    if events.len() == 0 {
        false
    } else {
        match events.last() {
            InputEvent::MouseButton { button: b, down } => if b == button {
                down
            } else {
                pressed(events.drop_last(), button)
            },
            _ => pressed(events.drop_last(), button),
        }
    }
}

proof fn lemma_pressed(events: Seq<InputEvent>, cursor: Option<(u16, u16)>)
    ensures
        ({
            let m = after_events(events, cursor);
            &&& m.left == pressed(events, 0)
            &&& m.right == pressed(events, 1)
            &&& m.middle == pressed(events, 2)
            &&& m.back == pressed(events, 3)
            &&& m.forward == pressed(events, 4)
        }),
    decreases events.len(),
{
    if events.len() > 0 {
        lemma_pressed(events.drop_last(), cursor);
    }
}

/// While the left, right or middle button is pressed and not released, every move carries the
/// number of a button that is down, the lowest of them; minus one stands only where none of
/// the three is.
pub proof fn moves_drag_what_is_held(
    events: Seq<InputEvent>,
    cursor: Option<(u16, u16)>,
    mv: InputEvent,
)
    requires
        mv is MouseMoveAbs || mv is MouseMoveRel,
    ensures
        after_events(events, cursor).injected(mv, cursor).1 matches Some(
            MacInput::MouseAbs { drag_button, .. },
        ) && {
            &&& -1 <= drag_button <= 2
            &&& drag_button >= 0 ==> pressed(events, drag_button as u8)
            &&& drag_button == -1 ==> !pressed(events, 0) && !pressed(events, 1) && !pressed(
                events,
                2,
            )
            &&& forall|b: u8| b < 3 && #[trigger] pressed(events, b) ==> drag_button <= b
        },
{
    lemma_pressed(events, cursor);
}

/// A move lands where it says, a relative one that far from the place before, and what is
/// clicked next is clicked there: the button that was meant, in the direction that was meant.
pub proof fn clicks_land_where_the_pointer_is(
    m: MouseButtons,
    x: u16,
    y: u16,
    host_w: u16,
    host_h: u16,
    dx: i16,
    dy: i16,
    button: u8,
    down: bool,
    cursor: Option<(u16, u16)>,
)
    ensures
        ({
            let (a, moved) = m.injected(
                InputEvent::MouseMoveAbs { x, y, host_w, host_h },
                cursor,
            );
            let (b, shoved) = a.injected(InputEvent::MouseMoveRel { dx, dy }, cursor);
            let click = InputEvent::MouseButton { button, down };
            &&& moved matches Some(MacInput::MouseAbs { x: mx, y: my, .. }) && mx == x && my == y
            &&& a.injected(click, cursor).1 == Some(MacInput::Button { button, down, x, y })
            &&& shoved matches Some(MacInput::MouseAbs { x: sx, y: sy, .. }) && {
                &&& 0 <= x + dx <= 65535 ==> sx == x + dx
                &&& x + dx < 0 ==> sx == 0
                &&& x + dx > 65535 ==> sx == 65535
                &&& 0 <= y + dy <= 65535 ==> sy == y + dy
                &&& y + dy < 0 ==> sy == 0
                &&& y + dy > 65535 ==> sy == 65535
                &&& b.injected(click, cursor).1 == Some(
                    MacInput::Button { button, down, x: sx, y: sy },
                )
            }
        }),
{
}

/// Before the first move a click lands at the cursor, or at the origin where that is not
/// known; a click does not move the pointer.
pub proof fn first_clicks_land_at_the_cursor(
    button: u8,
    down: bool,
    cursor: (u16, u16),
    events: Seq<InputEvent>,
)
    requires
        forall|i: int|
            0 <= i < events.len() ==> !((#[trigger] events[i]) is MouseMoveAbs)
                && !(events[i] is MouseMoveRel),
    ensures
        after_events(events, Some(cursor)).injected(
            InputEvent::MouseButton { button, down },
            Some(cursor),
        ).1 == Some(MacInput::Button { button, down, x: cursor.0, y: cursor.1 }),
        after_events(events, None).injected(InputEvent::MouseButton { button, down }, None).1
            == Some(MacInput::Button { button, down, x: 0, y: 0 }),
{
    lemma_no_place(events, Some(cursor));
    lemma_no_place(events, None);
}

proof fn lemma_no_place(events: Seq<InputEvent>, cursor: Option<(u16, u16)>)
    requires
        forall|i: int|
            0 <= i < events.len() ==> !((#[trigger] events[i]) is MouseMoveAbs)
                && !(events[i] is MouseMoveRel),
    ensures
        after_events(events, cursor).pos is None,
    decreases events.len(),
{
    if events.len() > 0 {
        let head = events.drop_last();
        assert forall|i: int| 0 <= i < head.len() implies !((#[trigger] head[i]) is MouseMoveAbs)
            && !(head[i] is MouseMoveRel) by {
            assert(head[i] == events[i]);
        }
        lemma_no_place(head, cursor);
        assert(events[events.len() - 1] == events.last());
    }
}

/// Wheel turns and keys come through on a Mac as they are, change nothing of the pointer, and
/// a key goes down and up under one code.
pub proof fn wheels_and_keys_come_through(
    m: MouseButtons,
    dx: i16,
    dy: i16,
    vk: u16,
    scancode: u16,
    other: u16,
    cursor: Option<(u16, u16)>,
)
    ensures
        m.injected(InputEvent::MouseWheel { dx, dy }, cursor) == (
            m,
            Some(MacInput::Wheel { dx, dy }),
        ),
        ({
            let down = m.injected(InputEvent::Key { vk, down: true, scancode }, cursor);
            let up = m.injected(InputEvent::Key { vk, down: false, scancode: other }, cursor);
            &&& down.0 == m && up.0 == m
            &&& match (down.1, up.1) {
                (
                    Some(MacInput::Key { code: a, down: d }),
                    Some(MacInput::Key { code: b, down: u }),
                ) => a == b && d && !u && cg_code(vk) == Some(a),
                (None, None) => cg_code(vk) is None,
                _ => false,
            }
        }),
{
}

/// On Windows a position keeps its share of the screen: the left edge stays the left edge, the
/// right one the right one, and what is further right stays so; it is never off by a whole
/// unit.
pub proof fn positions_keep_their_share(v: u16, w: u16, size: u16)
    requires
        size > 0,
        v <= w <= 32768,
    ensures
        scaled(0, size) == 0,
        size <= 32768 ==> scaled(size, size) == 65535,
        scaled(v, size) <= scaled(w, size),
        scaled(v, size) * size <= v * 65535 < (scaled(v, size) + 1) * size,
{
    let q = v * 65535 / size as int;
    let p = w * 65535 / size as int;
    assert(0 <= q <= p <= w * 65535 && q * size <= v * 65535 < (q + 1) * size) by (nonlinear_arith)
        requires
            size > 0,
            v <= w,
            0 <= v,
            q == v * 65535 / size as int,
            p == w * 65535 / size as int,
    ;
    assert(0int / size as int == 0) by (nonlinear_arith)
        requires
            size > 0,
    ;
    assert(size * 65535 / size as int == 65535) by (nonlinear_arith)
        requires
            size > 0,
    ;
}

/// What Windows injects for a button, a wheel or a key: the button that was meant, a hundred
/// and twenty units for each notch on its own axis, and the key as it is. A press and its
/// release differ.
pub proof fn windows_events_come_through(
    x: u16,
    y: u16,
    host_w: u16,
    host_h: u16,
    dx: i16,
    dy: i16,
    vk: u16,
    down: bool,
    scancode: u16,
    button: u8,
)
    ensures
        win_inputs(InputEvent::MouseMoveAbs { x, y, host_w, host_h }) == seq![
            WinInput::MoveAbs { x: scaled(x, host_w), y: scaled(y, host_h) },
        ],
        win_inputs(InputEvent::MouseMoveRel { dx, dy }) == seq![
            WinInput::MoveRel { dx: dx as i32, dy: dy as i32 },
        ],
        win_inputs(InputEvent::Key { vk, down, scancode }) == seq![WinInput::Key { vk, down }],
        ({
            let turned = win_inputs(InputEvent::MouseWheel { dx, dy });
            &&& forall|amount: i32|
                #[trigger] turned.contains(WinInput::Wheel { amount }) <==> dy != 0 && amount
                    == 120 * dy
            &&& forall|amount: i32|
                #[trigger] turned.contains(WinInput::HWheel { amount }) <==> dx != 0 && amount
                    == 120 * dx
            &&& turned.len() == (if dy != 0 {
                1int
            } else {
                0
            }) + (if dx != 0 {
                1int
            } else {
                0
            })
        }),
        win_inputs(InputEvent::MouseButton { button, down: true }) == seq![
            WinInput::Button(
                if button == 0 {
                    WinButton::LeftDown
                } else if button == 1 {
                    WinButton::RightDown
                } else {
                    WinButton::MiddleDown
                },
            ),
        ],
        win_inputs(InputEvent::MouseButton { button, down: false }) == seq![
            WinInput::Button(
                if button == 0 {
                    WinButton::LeftUp
                } else if button == 1 {
                    WinButton::RightUp
                } else {
                    WinButton::MiddleUp
                },
            ),
        ],
{
    let turned = win_inputs(InputEvent::MouseWheel { dx, dy });
    if dy != 0 {
        assert(turned[0] == (WinInput::Wheel { amount: (dy * 120) as i32 }));
        if dx != 0 {
            assert(turned[1] == (WinInput::HWheel { amount: (dx * 120) as i32 }));
        }
    } else if dx != 0 {
        assert(turned[0] == (WinInput::HWheel { amount: (dx * 120) as i32 }));
    }
}

/// Injecting fails just where the system says that nothing came of it, and the error names what
/// was to be injected.
pub proof fn failures_name_the_event(m: MacInput, w: WinInput, rc: i32, taken: u32)
    ensures
        m.told(rc) is Ok <==> rc != 0,
        m.told(0) == Err::<(), InputError>(InputError::CgMouseAbs) <==> m is MouseAbs,
        m.told(0) == Err::<(), InputError>(InputError::CgButton) <==> m is Button,
        m.told(0) == Err::<(), InputError>(InputError::CgWheel) <==> m is Wheel,
        m.told(0) == Err::<(), InputError>(InputError::CgKey) <==> m is Key,
        w.told(taken) is Ok <==> taken > 0,
        w.told(0) == Err::<(), InputError>(InputError::SendKey) <==> w is Key,
        w.told(0) == Err::<(), InputError>(InputError::SendMouse) <==> !(w is Key),
{
}

/// The letters and digits of a Mac keyboard by their code; a blank where the code is another
/// key's.
pub open spec fn mac_characters() -> Seq<char> {
    "ASDFHGZXCV BQWERYT123465 97 80 OU IP LJ K    NM"@
}

/// The key of a letter or a digit lands on the Mac's key for it.
pub proof fn characters_land_on_their_keys(vk: u16, i: int)
    requires
        0 <= i < mac_characters().len(),
        mac_characters()[i] != ' ',
        vk == mac_characters()[i] as u32,
    ensures
        mac_characters().len() == 0x2F,
        cg_code(vk) == Some(i as u16),
{
    reveal_strlit("ASDFHGZXCV BQWERYT123465 97 80 OU IP LJ K    NM");
}

/// Every letter and every digit has a key.
pub proof fn every_character_has_a_key(vk: u16)
    requires
        'A' as u32 <= vk <= 'Z' as u32 || '0' as u32 <= vk <= '9' as u32,
    ensures
        exists|i: int|
            0 <= i < mac_characters().len() && vk == #[trigger] mac_characters()[i] as u32,
{
    reveal_strlit("ASDFHGZXCV BQWERYT123465 97 80 OU IP LJ K    NM");
    let c = cg_code(vk)->0 as int;
    assert(mac_characters()[c] as u32 == vk);
}

/// The keypad's digits lie in a row, but for a gap below the eight; the function keys go by the
/// Mac's own order.
pub proof fn keypad_and_function_keys_land(d: u16, n: int)
    requires
        d < 10,
        0 <= n < 12,
    ensures
        cg_code((0x60 + d) as u16) == Some(
            if d < 8 {
                (0x52 + d) as u16
            } else {
                (0x53 + d) as u16
            },
        ),
        cg_code((0x70 + n) as u16) == Some(
            seq![
                0x7Au16,
                0x78u16,
                0x63u16,
                0x76u16,
                0x60u16,
                0x61u16,
                0x62u16,
                0x64u16,
                0x65u16,
                0x6Du16,
                0x67u16,
                0x6Fu16,
            ][n],
        ),
{
}

/// Both Windows keys are the command key; control, option and shift keep their sides, the left
/// one where none is said. The arrows and the keys around them land on those of the Mac, where
/// the one that deletes forward is told from the one that deletes back.
pub proof fn modifiers_and_arrows_land()
    ensures
        cg_code(0x5B) == Some(0x37u16) && cg_code(0x5C) == cg_code(0x5B),
        cg_code(0x10) == Some(0x38u16) && cg_code(0xA0) == cg_code(0x10),
        cg_code(0x12) == Some(0x3Au16) && cg_code(0xA4) == cg_code(0x12),
        cg_code(0x11) == Some(0x3Bu16) && cg_code(0xA2) == cg_code(0x11),
        cg_code(0xA1) == Some(0x3Cu16),
        cg_code(0xA5) == Some(0x3Du16),
        cg_code(0xA3) == Some(0x3Eu16),
        cg_code(0x14) == Some(0x39u16),
        cg_code(0x25) == Some(0x7Bu16),
        cg_code(0x27) == Some(0x7Cu16),
        cg_code(0x28) == Some(0x7Du16),
        cg_code(0x26) == Some(0x7Eu16),
        cg_code(0x2E) == Some(0x75u16),
        cg_code(0x08) == Some(0x33u16),
        cg_code(0x24) == Some(0x73u16),
        cg_code(0x23) == Some(0x77u16),
        cg_code(0x21) == Some(0x74u16),
        cg_code(0x22) == Some(0x79u16),
        cg_code(0x0D) == Some(0x24u16),
        cg_code(0x09) == Some(0x30u16),
        cg_code(0x20) == Some(0x31u16),
        cg_code(0x1B) == Some(0x35u16),
        cg_code(0) is None,
{
}

/// The keys for signs land where the sign stands on a Mac, those of the keypad on the keypad.
pub proof fn signs_land_on_their_keys()
    ensures
        cg_code(0xBB) == Some(0x18u16),
        cg_code(0xBD) == Some(0x1Bu16),
        cg_code(0xDD) == Some(0x1Eu16),
        cg_code(0xDB) == Some(0x21u16),
        cg_code(0xDE) == Some(0x27u16),
        cg_code(0xBA) == Some(0x29u16),
        cg_code(0xDC) == Some(0x2Au16),
        cg_code(0xBC) == Some(0x2Bu16),
        cg_code(0xBF) == Some(0x2Cu16),
        cg_code(0xBE) == Some(0x2Fu16),
        cg_code(0xC0) == Some(0x32u16),
        cg_code(0x6E) == Some(0x41u16),
        cg_code(0x6A) == Some(0x43u16),
        cg_code(0x6B) == Some(0x45u16),
        cg_code(0x6D) == Some(0x4Eu16),
        cg_code(0x6F) == Some(0x4Bu16),
        cg_code(0x90) == Some(0x47u16),
{
}

/// A button is down just while one of the five that are tracked has been pressed and not
/// released. The place of the pointer is known from the first move on.
pub proof fn buttons_are_down_until_released(
    events: Seq<InputEvent>,
    cursor: Option<(u16, u16)>,
    x: u16,
    y: u16,
    host_w: u16,
    host_h: u16,
)
    ensures
        after_events(events, cursor).holds_any() <==> pressed(events, 0) || pressed(events, 1)
            || pressed(events, 2) || pressed(events, 3) || pressed(events, 4),
        after_events(Seq::empty(), cursor).lost(),
        !after_events(events, cursor).injected(
            InputEvent::MouseMoveAbs { x, y, host_w, host_h },
            cursor,
        ).0.lost(),
{
    lemma_pressed(events, cursor);
}

/// What a platform injects for a single event.
pub open spec fn native(ev: InputEvent, platform: Platform, cursor: Option<(u16, u16)>) -> Option<
    Seq<NativeInput>,
> {
    match platform {
        Platform::Windows => Some(win_inputs(ev).map_values(|w: WinInput| NativeInput::Win(w))),
        Platform::Macos => match MouseButtons::none().injected(ev, cursor).1 {
            Some(m) => Some(seq![NativeInput::Mac(m)]),
            None => Some(Seq::empty()),
        },
        Platform::Unknown => None,
    }
}

/// Each platform injects its own kind of input, and an unknown one none at all. A key goes
/// through Windows as it is and through a Mac by the Mac's code; a click lands at the cursor
/// where one is known; a wheel that does not turn injects nothing on Windows.
pub proof fn platforms_inject_their_own(
    ev: InputEvent,
    cursor: Option<(u16, u16)>,
    x: u16,
    y: u16,
    button: u8,
    down: bool,
    vk: u16,
    scancode: u16,
    i: int,
)
    ensures
        native(ev, Platform::Unknown, cursor) is None,
        native(ev, Platform::Windows, cursor) matches Some(v) && (0 <= i < v.len()
            ==> v[i] is Win),
        native(ev, Platform::Macos, cursor) matches Some(v) && v.len() <= 1 && (0 <= i < v.len()
            ==> v[i] is Mac),
        native(InputEvent::Key { vk, down, scancode }, Platform::Windows, cursor) == Some(
            seq![NativeInput::Win(WinInput::Key { vk, down })],
        ),
        native(InputEvent::Key { vk, down, scancode }, Platform::Macos, cursor) == Some(
            match cg_code(vk) {
                Some(code) => seq![NativeInput::Mac(MacInput::Key { code, down })],
                None => Seq::empty(),
            },
        ),
        native(InputEvent::MouseButton { button, down }, Platform::Macos, Some((x, y))) == Some(
            seq![NativeInput::Mac(MacInput::Button { button, down, x, y })],
        ),
        native(InputEvent::MouseWheel { dx: 0, dy: 0 }, Platform::Windows, cursor) matches Some(v)
            && v.len() == 0,
{
    let key = InputEvent::Key { vk, down, scancode };
    assert(win_inputs(key).map_values(|w: WinInput| NativeInput::Win(w)) =~= seq![
        NativeInput::Win(WinInput::Key { vk, down }),
    ]);
}

} // verus!
