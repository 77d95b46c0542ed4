//! Input that is injected on the host.
use remote_play::host::input::KeySet;
use remote_play::host::input_injector::{
    MacInput, MacInputInjector, MouseButton, PointerEvent, PointerTarget, modifier_event_flags,
    modifier_key_codes, mouse_button, mouse_event_type, pointer_event_type,
    pointer_mouse_button,
};
use remote_play::host::linux_device::{DeviceBit, device_record, device_setup, event_record};
use remote_play::host::linux_input::{LinuxUinputInjector, RawEvent, map_gpui_or_mac_to_linux_key};
use remote_play::host::windows_input::{WindowsInput, WindowsInputInjector};
use remote_play::host::windows_keymap::mac_key_to_vk;
use remote_play::protocol::{InputEvent, TouchAction, input_modifiers};

fn raw(ev_type: u16, code: u16, value: i32) -> RawEvent {
    RawEvent { ev_type, code, value }
}

#[test]
fn physical_letter_and_digit_keys_do_not_become_virtual_key_codes() {
    let letters = [
        0, 11, 8, 2, 14, 3, 5, 4, 34, 38, 40, 37, 46, 45, 31, 35, 12, 15, 1, 17, 32, 9, 13, 7, 16,
        6,
    ];
    for (code, expected) in letters.into_iter().zip(b'A'..=b'Z') {
        assert_eq!(mac_key_to_vk(code), Some(u16::from(expected)));
    }
    for (code, expected) in [29, 18, 19, 20, 21, 23, 22, 26, 28, 25]
        .into_iter()
        .zip(b'0'..=b'9')
    {
        assert_eq!(mac_key_to_vk(code), Some(u16::from(expected)));
    }
}

#[test]
fn navigation_modifiers_and_unknown_keys_are_explicit() {
    assert_eq!(mac_key_to_vk(49), Some(0x20));
    assert_eq!(mac_key_to_vk(59), Some(0xA2));
    assert_eq!(mac_key_to_vk(117), Some(0x2E));
    assert_eq!(mac_key_to_vk(63), None); // Fn has no Windows virtual key.
    assert_eq!(mac_key_to_vk(0xFF), None);
    assert_eq!(mac_key_to_vk(u16::MAX), None);
}

#[test]
fn protocol_buttons_map_to_core_graphics_buttons_and_event_types() {
    assert_eq!(mouse_button(0).map(|button| button.code()), Some(0));
    assert_eq!(mouse_button(1).map(|button| button.code()), Some(1));
    assert_eq!(mouse_button(2).map(|button| button.code()), Some(2));
    assert!(mouse_button(3).is_none());

    assert_eq!(mouse_event_type(0, true).map(|kind| kind.code()), Some(1));
    assert_eq!(mouse_event_type(0, false).map(|kind| kind.code()), Some(2));
    assert_eq!(mouse_event_type(1, true).map(|kind| kind.code()), Some(3));
    assert_eq!(mouse_event_type(1, false).map(|kind| kind.code()), Some(4));
    assert_eq!(mouse_event_type(2, true).map(|kind| kind.code()), Some(25));
    assert_eq!(mouse_event_type(2, false).map(|kind| kind.code()), Some(26));
}

#[test]
fn drag_event_type_follows_the_pressed_button() {
    assert_eq!(pointer_event_type(0).code(), 5);
    assert_eq!(pointer_event_type(1 << 0).code(), 6);
    assert_eq!(pointer_event_type(1 << 1).code(), 7);
    assert_eq!(pointer_event_type(1 << 2).code(), 27);
    assert_eq!(pointer_mouse_button(0).code(), 0);
    assert_eq!(pointer_mouse_button(1 << 0).code(), 0);
    assert_eq!(pointer_mouse_button(1 << 1).code(), 1);
    assert_eq!(pointer_mouse_button(1 << 2).code(), 2);
}

#[test]
fn linux_records_end_with_a_report() {
    let mut state = LinuxUinputInjector::new();
    assert_eq!(
        state.inject_input(InputEvent::MouseMove { dx: -3, dy: 0 }),
        vec![raw(2, 0, -3), raw(0, 0, 0)]
    );
    assert_eq!(
        state.inject_input(InputEvent::MouseMoveAbsolute { x: 7, y: 65_535 }),
        vec![raw(3, 0, 7), raw(3, 1, 65_535), raw(0, 0, 0)]
    );
    assert_eq!(
        state.inject_input(InputEvent::MouseScroll { delta_x: 40, delta_y: -9 }),
        vec![raw(2, 8, -1), raw(2, 6, 1), raw(0, 0, 0)]
    );
    assert_eq!(
        state.inject_input(InputEvent::MouseDown(2)),
        vec![raw(1, 0x112, 1), raw(0, 0, 0)]
    );
    assert_eq!(
        state.inject_input(InputEvent::Key { key_code: 0x31, pressed: true, modifiers: 0 }),
        vec![raw(1, 57, 1), raw(0, 0, 0)]
    );
    assert_eq!(state.inject_input(InputEvent::ModifiersChanged(1)), vec![]);
}

#[test]
fn linux_keys_follow_their_labels() {
    assert_eq!(map_gpui_or_mac_to_linux_key(0x00), 30);
    assert_eq!(map_gpui_or_mac_to_linux_key(0x7E), 103);
    assert_eq!(map_gpui_or_mac_to_linux_key(200), 200);
    assert_eq!(map_gpui_or_mac_to_linux_key(0xFFFF), 30);
}

#[test]
fn windows_modifiers_go_down_before_the_key_and_up_after_it() {
    let mut state = WindowsInputInjector::new();
    let down = state.inject_input(
        InputEvent::Key { key_code: 0, pressed: true, modifiers: input_modifiers::SHIFT },
        1920,
        1080,
    );
    assert_eq!(
        down,
        vec![
            WindowsInput::Keyboard { vk: 0xA0, flags: 0 },
            WindowsInput::Keyboard { vk: 0x41, flags: 0 },
        ]
    );
    let up = state.inject_input(
        InputEvent::Key { key_code: 0, pressed: false, modifiers: 0 },
        1920,
        1080,
    );
    assert_eq!(
        up,
        vec![
            WindowsInput::Keyboard { vk: 0xA0, flags: 2 },
            WindowsInput::Keyboard { vk: 0x41, flags: 2 },
        ]
    );
    // A key that a keyboard has twice is marked.
    assert_eq!(
        state.inject_input(InputEvent::KeyDown(0x2E), 1, 1),
        vec![WindowsInput::Keyboard { vk: 0x2E, flags: 1 }]
    );
}

#[test]
fn windows_pointer_scales_to_the_screen_and_everything_is_let_go() {
    let mut state = WindowsInputInjector::new();
    assert_eq!(
        state.inject_input(InputEvent::MouseMoveAbsolute { x: 960, y: 540 }, 1920, 0),
        vec![WindowsInput::Mouse { flags: 0x8001, dx: 32_767, dy: 35_388_900, data: 0 }]
    );
    assert_eq!(
        state.inject_input(InputEvent::MouseScroll { delta_x: 5, delta_y: -1 }, 1, 1),
        vec![WindowsInput::Mouse { flags: 0x0800, dx: 0, dy: 0, data: 4_294_967_176 }]
    );
    state.inject_input(InputEvent::MouseDown(0), 1, 1);
    state.inject_input(InputEvent::KeyDown(0x41), 1, 1);
    let released = state.release_all_input();
    assert!(released.contains(&WindowsInput::Keyboard { vk: 0x41, flags: 2 }));
    assert!(released.contains(&WindowsInput::Mouse { flags: 4, dx: 0, dy: 0, data: 0 }));
    // The buttons go up in any case.
    assert_eq!(
        state.release_all_input(),
        [4, 0x10, 0x40].map(|flags| WindowsInput::Mouse { flags, dx: 0, dy: 0, data: 0 })
    );
}

#[test]
fn mac_touches_act_as_the_second_button() {
    let mut state = MacInputInjector::new();
    let touch = InputEvent::Touch {
        action: TouchAction::Down,
        pointer_id: 1,
        normalized_x_bits: 0,
        normalized_y_bits: 0,
        pressure_bits: 0,
    };
    assert_eq!(
        state.inject(touch, (5, 6)),
        vec![
            MacInput::Motion {
                event: PointerEvent::MouseMoved,
                button: MouseButton::Left,
                target: PointerTarget::To { x: 5, y: 6 },
            },
            MacInput::Button {
                event: PointerEvent::RightMouseDown,
                button: MouseButton::Right,
                number: 1,
                pressed: true,
            },
        ]
    );
    state.button_posted(1, true);
    assert_eq!(
        state.inject(InputEvent::MouseMove { dx: 1, dy: 2 }, (0, 0)),
        vec![MacInput::Motion {
            event: PointerEvent::RightMouseDragged,
            button: MouseButton::Right,
            target: PointerTarget::By { dx: 1, dy: 2 },
        }]
    );
    assert_eq!(state.inject(InputEvent::MouseDown(9), (0, 0)), vec![]);
    let released = state.release_all_input();
    assert!(released.iter().any(|event| matches!(
        event,
        MacInput::Button { event: PointerEvent::RightMouseUp, .. }
    )));
}

#[test]
fn mac_modifiers_are_keys_of_their_own() {
    assert_eq!(modifier_key_codes()[0], (input_modifiers::SHIFT, 0x38));
    assert!(modifier_event_flags(input_modifiers::META).command);
    let mut state = MacInputInjector::new();
    let events = state.inject(
        InputEvent::ModifiersChanged(input_modifiers::META | input_modifiers::ALT),
        (0, 0),
    );
    let keys: Vec<u16> = events
        .iter()
        .map(|event| match event {
            MacInput::Key { key_code, pressed: true, flags } => {
                assert!(flags.command && flags.alternate && !flags.shift);
                *key_code
            }
            other => panic!("unexpected event: {other:?}"),
        })
        .collect();
    assert_eq!(keys.len(), 2);
    assert!(keys.contains(&0x37) && keys.contains(&0x3A));
}

#[test]
fn keys_are_held_once() {
    let mut keys = KeySet::new();
    keys.insert(4);
    keys.insert(5);
    keys.insert(4);
    keys.remove(9);
    let mut held = keys.take_all();
    held.sort();
    assert_eq!(held, vec![4, 5]);
    assert!(keys.take_all().is_empty());
}

#[test]
fn linux_device_is_described_in_full() {
    let setup = device_setup();
    assert_eq!(setup.len(), 4 + 5 + 255 + 4 + 2);
    assert_eq!(setup[0], (DeviceBit::Event, 0));
    assert_eq!(setup[4], (DeviceBit::Key, 0x110));
    assert_eq!(setup[9], (DeviceBit::Key, 1));
    assert_eq!(setup[263], (DeviceBit::Key, 255));
    assert_eq!(setup[269], (DeviceBit::Absolute, 1));
    assert_eq!(DeviceBit::Key.request(), 0x4004_5565);
    let record = device_record();
    assert_eq!(record.len(), 1_116);
    assert!(record.starts_with(b"RemotePlay Virtual Controller\0"));
    assert_eq!(record[80..88], [3, 0, 0x34, 0x12, 0x78, 0x56, 1, 0]);
    assert_eq!(record[92..100], [0xff, 0xff, 0, 0, 0xff, 0xff, 0, 0]);
    assert!(record[100..].iter().all(|byte| *byte == 0));
    let mut bytes = vec![0; 16];
    bytes.extend_from_slice(&[1, 0, 0x10, 1, 0xff, 0xff, 0xff, 0xff]);
    assert_eq!(event_record(raw(1, 0x110, -1)), bytes);
}
