use lansec::caps::Platform;
use lansec::input::{
    can_scale, inject, inject_with_buttons, windows_inputs, windows_vk_to_cg, InputError, MacInput,
    MouseButtons, NativeInput, WinButton, WinInput,
};
use lansec::keys::{key, keycode_to_vk, mouse_button, mouse_wheel, KeyCode, MouseButton, ScrollDelta};
use lansec::messages::InputEvent;

#[test]
fn maps_punctuation_and_rejects_unknown() {
    assert_eq!(windows_vk_to_cg(0xBE), Some(0x2F)); // period
    assert_eq!(windows_vk_to_cg(0xBC), Some(0x2B)); // comma
    assert_eq!(windows_vk_to_cg(0xBD), Some(0x1B)); // minus
    assert_eq!(windows_vk_to_cg(0x41), Some(0x00)); // A
    assert_eq!(windows_vk_to_cg(0), None);
    assert_eq!(windows_vk_to_cg(0xFF), None);
}

#[test]
fn moves_become_drags_on_a_mac() {
    let mut b = MouseButtons::default();
    assert!(b.needs_cursor() && !b.any_down() && b.drag_button() == -1);
    let click = InputEvent::MouseButton { button: 1, down: true };
    assert_eq!(
        inject_with_buttons(&click, &mut b, Some((3, 4))),
        Some(MacInput::Button { button: 1, down: true, x: 3, y: 4 })
    );
    let mv = InputEvent::MouseMoveAbs { x: 10, y: 20, host_w: 0, host_h: 0 };
    assert_eq!(
        inject_with_buttons(&mv, &mut b, None),
        Some(MacInput::MouseAbs { x: 10, y: 20, drag_button: 1 })
    );
    let rel = InputEvent::MouseMoveRel { dx: -11, dy: 5 };
    assert_eq!(
        inject_with_buttons(&rel, &mut b, Some((99, 99))),
        Some(MacInput::MouseAbs { x: 0, y: 25, drag_button: 1 })
    );
    let up = InputEvent::MouseButton { button: 1, down: false };
    inject_with_buttons(&up, &mut b, None);
    assert!(!b.any_down() && !b.needs_cursor());
    let far = InputEvent::MouseButton { button: 9, down: true };
    inject_with_buttons(&far, &mut b, None);
    assert!(!b.any_down());
    let back = InputEvent::MouseButton { button: 3, down: true };
    inject_with_buttons(&back, &mut b, None);
    assert!(b.any_down() && b.drag_button() == -1);
}

#[test]
fn unknown_keys_are_not_typed_on_a_mac() {
    let mut b = MouseButtons::default();
    let a = InputEvent::Key { vk: 0x41, down: true, scancode: 0 };
    assert_eq!(inject_with_buttons(&a, &mut b, None), Some(MacInput::Key { code: 0, down: true }));
    let unknown = InputEvent::Key { vk: 0, down: true, scancode: 0 };
    assert_eq!(inject_with_buttons(&unknown, &mut b, None), None);
    let wheel = InputEvent::MouseWheel { dx: 1, dy: -1 };
    assert_eq!(inject_with_buttons(&wheel, &mut b, None), Some(MacInput::Wheel { dx: 1, dy: -1 }));
}

#[test]
fn windows_positions_are_scaled() {
    let mv = InputEvent::MouseMoveAbs { x: 960, y: 1080, host_w: 1920, host_h: 1080 };
    assert_eq!(windows_inputs(&mv), vec![WinInput::MoveAbs { x: 32767, y: 65535 }]);
    let odd = InputEvent::MouseMoveAbs { x: 65535, y: 3, host_w: 0, host_h: 2 };
    assert!(can_scale(&odd));
    assert_eq!(windows_inputs(&odd), vec![WinInput::MoveAbs { x: 0, y: 98302 }]);
    assert!(!can_scale(&InputEvent::MouseMoveAbs { x: 32769, y: 0, host_w: 1, host_h: 1 }));
    let rel = InputEvent::MouseMoveRel { dx: -5, dy: 6 };
    assert_eq!(windows_inputs(&rel), vec![WinInput::MoveRel { dx: -5, dy: 6 }]);
}

#[test]
fn windows_buttons_wheels_and_keys() {
    let press = |button, down| windows_inputs(&InputEvent::MouseButton { button, down });
    assert_eq!(press(0, true), vec![WinInput::Button(WinButton::LeftDown)]);
    assert_eq!(press(0, false), vec![WinInput::Button(WinButton::LeftUp)]);
    assert_eq!(press(1, true), vec![WinInput::Button(WinButton::RightDown)]);
    assert_eq!(press(1, false), vec![WinInput::Button(WinButton::RightUp)]);
    assert_eq!(press(4, true), vec![WinInput::Button(WinButton::MiddleDown)]);
    assert_eq!(press(2, false), vec![WinInput::Button(WinButton::MiddleUp)]);
    let wheel = |dx, dy| windows_inputs(&InputEvent::MouseWheel { dx, dy });
    assert_eq!(wheel(1, -2), vec![WinInput::Wheel { amount: -240 }, WinInput::HWheel { amount: 120 }]);
    assert!(wheel(0, 0).is_empty());
    let k = InputEvent::Key { vk: 0x41, down: false, scancode: 9 };
    assert_eq!(windows_inputs(&k), vec![WinInput::Key { vk: 0x41, down: false }]);
}

#[test]
fn each_platform_injects_its_own() {
    let wheel = InputEvent::MouseWheel { dx: 1, dy: 1 };
    assert_eq!(inject(&wheel, Platform::Windows, None).unwrap().len(), 2);
    let mac = inject(&wheel, Platform::Macos, None).unwrap();
    assert!(matches!(mac[..], [NativeInput::Mac(MacInput::Wheel { dx: 1, dy: 1 })]));
    assert!(matches!(inject(&wheel, Platform::Unknown, None), Err(InputError::Unsupported)));
}

#[test]
fn refused_events_are_reported() {
    let say = |r: Result<(), InputError>| r.map_err(|e| e.message()).unwrap_err();
    assert_eq!(InputError::Unsupported.message(), "unsupported");
    let mac = MacInput::MouseAbs { x: 1, y: 2, drag_button: -1 };
    assert!(mac.outcome(1).is_ok());
    assert_eq!(say(mac.outcome(0)), "CGEvent mouse abs failed");
    let press = MacInput::Button { button: 0, down: true, x: 1, y: 2 };
    assert_eq!(say(press.outcome(0)), "CGEvent button failed");
    assert_eq!(say(MacInput::Wheel { dx: 1, dy: 1 }.outcome(0)), "CGEvent wheel failed");
    assert_eq!(say(MacInput::Key { code: 0, down: true }.outcome(0)), "CGEvent key failed");
    assert!(WinInput::Wheel { amount: 120 }.outcome(1).is_ok());
    assert_eq!(say(WinInput::Wheel { amount: 120 }.outcome(0)), "SendInput mouse failed");
    assert_eq!(say(WinInput::Key { vk: 65, down: true }.outcome(0)), "SendInput key failed");
}

#[test]
fn keys_become_virtual_keys() {
    assert_eq!(keycode_to_vk(KeyCode::KeyA), 0x41);
    assert_eq!(keycode_to_vk(KeyCode::Digit9), 0x39);
    assert_eq!(keycode_to_vk(KeyCode::F12), 0x7B);
    assert_eq!(keycode_to_vk(KeyCode::ShiftLeft), keycode_to_vk(KeyCode::ShiftRight));
    assert_eq!(keycode_to_vk(KeyCode::Unmapped), 0);
    assert_eq!(key(Some(KeyCode::Enter), true), Some(InputEvent::Key { vk: 0x0D, down: true, scancode: 0 }));
    assert_eq!(key(Some(KeyCode::Unmapped), false), Some(InputEvent::Key { vk: 0, down: false, scancode: 0 }));
    assert_eq!(key(None, true), None);
}

#[test]
fn buttons_and_wheels_become_events() {
    let number = |b| match mouse_button(b, true) {
        InputEvent::MouseButton { button, down: true } => button,
        _ => panic!("not a button"),
    };
    assert_eq!(number(MouseButton::Left), 0);
    assert_eq!(number(MouseButton::Right), 1);
    assert_eq!(number(MouseButton::Middle), 2);
    assert_eq!(number(MouseButton::Back), 3);
    assert_eq!(number(MouseButton::Forward), 4);
    assert_eq!(number(MouseButton::Other(300)), 44);
    assert_eq!(mouse_wheel(ScrollDelta::Lines { x: 0, y: 0 }), None);
    assert_eq!(
        mouse_wheel(ScrollDelta::Lines { x: 0, y: -2 }),
        Some(InputEvent::MouseWheel { dx: 0, dy: -2 })
    );
    assert_eq!(mouse_wheel(ScrollDelta::Pixels { x: 15, y: -15 }), None);
    assert_eq!(
        mouse_wheel(ScrollDelta::Pixels { x: 32, y: -33 }),
        Some(InputEvent::MouseWheel { dx: 2, dy: -2 })
    );
}
