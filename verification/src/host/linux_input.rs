//! Input events as the Linux input subsystem takes them.
use crate::host::input::KeySet;
use crate::protocol::control::InputEvent;
use vstd::prelude::*;

verus! {

pub const EV_SYN: u16 = 0x00;

pub const EV_KEY: u16 = 0x01;

pub const EV_REL: u16 = 0x02;

pub const EV_ABS: u16 = 0x03;

pub const SYN_REPORT: u16 = 0;

pub const REL_X: u16 = 0x00;

pub const REL_Y: u16 = 0x01;

pub const REL_HWHEEL: u16 = 0x06;

pub const REL_WHEEL: u16 = 0x08;

pub const ABS_X: u16 = 0x00;

pub const ABS_Y: u16 = 0x01;

/// Absolute positions run from nought to this.
pub const ABS_MAX_RANGE: i32 = 65535;

pub const BTN_LEFT: u16 = 0x110;

pub const BTN_RIGHT: u16 = 0x111;

pub const BTN_MIDDLE: u16 = 0x112;

pub const BTN_SIDE: u16 = 0x113;

pub const BTN_EXTRA: u16 = 0x114;

/// One record of the input subsystem.
#[derive(Debug, Clone, Copy, PartialEq, Eq, Structural)]
pub struct RawEvent {
    pub ev_type: u16,
    pub code: u16,
    pub value: i32,
}

/// The key of the input subsystem for a physical key, by the label of the key on a US keyboard. A
/// code without a label stands for itself while it is in the range of keys.
pub open spec fn linux_key(code: u16) -> u16 {
    match code {
        0x00 => 30,  // KEY_A
        0x01 => 31,  // KEY_S
        0x02 => 32,  // KEY_D
        0x03 => 33,  // KEY_F
        0x04 => 35,  // KEY_H
        0x05 => 34,  // KEY_G
        0x06 => 44,  // KEY_Z
        0x07 => 45,  // KEY_X
        0x08 => 46,  // KEY_C
        0x09 => 47,  // KEY_V
        0x0B => 48,  // KEY_B
        0x0C => 16,  // KEY_Q
        0x0D => 17,  // KEY_W
        0x0E => 18,  // KEY_E
        0x0F => 19,  // KEY_R
        0x10 => 21,  // KEY_Y
        0x11 => 20,  // KEY_T
        0x12 => 2,  // KEY_1
        0x13 => 3,  // KEY_2
        0x14 => 4,  // KEY_3
        0x15 => 5,  // KEY_4
        0x16 => 7,  // KEY_6
        0x17 => 6,  // KEY_5
        0x18 => 13,  // KEY_EQUAL
        0x19 => 10,  // KEY_9
        0x1A => 8,  // KEY_7
        0x1B => 12,  // KEY_MINUS
        0x1C => 9,  // KEY_8
        0x1D => 11,  // KEY_0
        0x1E => 27,  // KEY_RIGHTBRACE
        0x1F => 24,  // KEY_O
        0x20 => 22,  // KEY_U
        0x21 => 26,  // KEY_LEFTBRACE
        0x22 => 23,  // KEY_I
        0x23 => 25,  // KEY_P
        0x24 => 28,  // KEY_ENTER
        0x25 => 38,  // KEY_L
        0x26 => 36,  // KEY_J
        0x27 => 40,  // KEY_APOSTROPHE
        0x28 => 37,  // KEY_K
        0x29 => 39,  // KEY_SEMICOLON
        0x2A => 43,  // KEY_BACKSLASH
        0x2B => 51,  // KEY_COMMA
        0x2C => 53,  // KEY_SLASH
        0x2D => 49,  // KEY_N
        0x2E => 50,  // KEY_M
        0x2F => 52,  // KEY_DOT
        0x30 => 15,  // KEY_TAB
        0x31 => 57,  // KEY_SPACE
        0x32 => 41,  // KEY_GRAVE
        0x33 => 14,  // KEY_BACKSPACE
        0x35 => 1,  // KEY_ESC
        0x37 => 125,  // KEY_LEFTMETA
        0x38 => 42,  // KEY_LEFTSHIFT
        0x39 => 58,  // KEY_CAPSLOCK
        0x3A => 56,  // KEY_LEFTALT
        0x3B => 29,  // KEY_LEFTCTRL
        0x3C => 54,  // KEY_RIGHTSHIFT
        0x3D => 100,  // KEY_RIGHTALT
        0x3E => 97,  // KEY_RIGHTCTRL
        0x7B => 105,  // KEY_LEFT
        0x7C => 106,  // KEY_RIGHT
        0x7D => 108,  // KEY_DOWN
        0x7E => 103,  // KEY_UP
        _ => if code < 255 {
            code
        } else {
            30
        },
    }
}

/// The key of the input subsystem for a physical key.
pub fn map_gpui_or_mac_to_linux_key(code: u16) -> (r: u16)
    ensures
        r == linux_key(code),
{
    match code {
        0x00 => 30,
        0x01 => 31,
        0x02 => 32,
        0x03 => 33,
        0x04 => 35,
        0x05 => 34,
        0x06 => 44,
        0x07 => 45,
        0x08 => 46,
        0x09 => 47,
        0x0B => 48,
        0x0C => 16,
        0x0D => 17,
        0x0E => 18,
        0x0F => 19,
        0x10 => 21,
        0x11 => 20,
        0x12 => 2,
        0x13 => 3,
        0x14 => 4,
        0x15 => 5,
        0x16 => 7,
        0x17 => 6,
        0x18 => 13,
        0x19 => 10,
        0x1A => 8,
        0x1B => 12,
        0x1C => 9,
        0x1D => 11,
        0x1E => 27,
        0x1F => 24,
        0x20 => 22,
        0x21 => 26,
        0x22 => 23,
        0x23 => 25,
        0x24 => 28,
        0x25 => 38,
        0x26 => 36,
        0x27 => 40,
        0x28 => 37,
        0x29 => 39,
        0x2A => 43,
        0x2B => 51,
        0x2C => 53,
        0x2D => 49,
        0x2E => 50,
        0x2F => 52,
        0x30 => 15,
        0x31 => 57,
        0x32 => 41,
        0x33 => 14,
        0x35 => 1,
        0x37 => 125,
        0x38 => 42,
        0x39 => 58,
        0x3A => 56,
        0x3B => 29,
        0x3C => 54,
        0x3D => 100,
        0x3E => 97,
        0x7B => 105,
        0x7C => 106,
        0x7D => 108,
        0x7E => 103,
        other => if other < 255 {
            other
        } else {
            30
        },
    }
}

/// The button of the input subsystem; buttons beyond the fifth are the left one.
pub open spec fn linux_button(button: u8) -> u16 {
    match button {
        0 => BTN_LEFT,
        1 => BTN_RIGHT,
        2 => BTN_MIDDLE,
        3 => BTN_SIDE,
        4 => BTN_EXTRA,
        _ => BTN_LEFT,
    }
}

fn button_code(button: u8) -> (r: u16)
    ensures
        r == linux_button(button),
{
    match button {
        0 => BTN_LEFT,
        1 => BTN_RIGHT,
        2 => BTN_MIDDLE,
        3 => BTN_SIDE,
        4 => BTN_EXTRA,
        _ => BTN_LEFT,
    }
}

/// The bit under which a button is remembered; all from the eighth on share one.
pub open spec fn button_bit(button: u8) -> u8 {
    1u8 << (if button < 7 {
        button
    } else {
        7u8
    })
}

fn bit_of(button: u8) -> (r: u8)
    ensures
        r == button_bit(button),
{
    let at: u8 = if button < 7 {
        button
    } else {
        7
    };
    1u8 << at
}

pub open spec fn record(ev_type: u16, code: u16, value: int) -> RawEvent {
    RawEvent { ev_type, code, value: value as i32 }
}

/// A record, unless its value is nought.
pub open spec fn moved(ev_type: u16, code: u16, value: int) -> Seq<RawEvent> {
    if value != 0 {
        seq![record(ev_type, code, value)]
    } else {
        Seq::empty()
    }
}

/// One step in the direction of `delta`.
pub open spec fn step(delta: i32) -> int {
    if delta > 0 {
        1
    } else if delta < 0 {
        -1
    } else {
        0
    }
}

/// The end of a group of records.
pub open spec fn report() -> Seq<RawEvent> {
    seq![record(EV_SYN, SYN_REPORT, 0)]
}

/// The records of an event.
pub open spec fn records(event: InputEvent) -> Seq<RawEvent> {
    match event {
        InputEvent::MouseMove { dx, dy } => moved(EV_REL, REL_X, dx as int) + moved(
            EV_REL,
            REL_Y,
            dy as int,
        ) + report(),
        InputEvent::MouseMoveAbsolute { x, y } => seq![
            record(EV_ABS, ABS_X, x as int),
            record(EV_ABS, ABS_Y, y as int),
        ] + report(),
        InputEvent::MouseDown(button) => seq![record(EV_KEY, linux_button(button), 1)] + report(),
        InputEvent::MouseUp(button) => seq![record(EV_KEY, linux_button(button), 0)] + report(),
        InputEvent::MouseScroll { delta_x, delta_y } => moved(EV_REL, REL_WHEEL, step(delta_y))
            + moved(EV_REL, REL_HWHEEL, step(delta_x)) + report(),
        InputEvent::KeyDown(scancode) => seq![
            record(EV_KEY, linux_key((scancode % 0x1_0000) as u16), 1),
        ] + report(),
        InputEvent::KeyUp(scancode) => seq![
            record(EV_KEY, linux_key((scancode % 0x1_0000) as u16), 0),
        ] + report(),
        InputEvent::Key { key_code, pressed, .. } => seq![
            record(
                EV_KEY,
                linux_key(key_code),
                if pressed {
                    1
                } else {
                    0
                },
            ),
        ] + report(),
        InputEvent::ModifiersChanged(_) => Seq::empty(),
        InputEvent::Touch { .. } => Seq::empty(),
    }
}

/// The keys that are held after an event.
pub open spec fn keys_after(keys: Set<u16>, event: InputEvent) -> Set<u16> {
    match event {
        InputEvent::KeyDown(scancode) => keys.insert(linux_key((scancode % 0x1_0000) as u16)),
        InputEvent::KeyUp(scancode) => keys.remove(linux_key((scancode % 0x1_0000) as u16)),
        InputEvent::Key { key_code, pressed, .. } => if pressed {
            keys.insert(linux_key(key_code))
        } else {
            keys.remove(linux_key(key_code))
        },
        _ => keys,
    }
}

/// The buttons that are held after an event.
pub open spec fn buttons_after(buttons: u8, event: InputEvent) -> u8 {
    match event {
        InputEvent::MouseDown(button) => buttons | button_bit(button),
        InputEvent::MouseUp(button) => buttons & !button_bit(button),
        _ => buttons,
    }
}

/// What a device that held `down` holds after it was given `records`: a key record with the value
/// one presses its code, one with the value nought lets it go.
pub open spec fn held_after(down: Set<u16>, records: Seq<RawEvent>) -> Set<u16>
    decreases records.len(),
{
    if records.len() == 0 {
        down
    } else {
        let last = records.last();
        let before = held_after(down, records.drop_last());
        if last.ev_type == 1 && last.value == 1 {
            before.insert(last.code)
        } else if last.ev_type == 1 && last.value == 0 {
            before.remove(last.code)
        } else {
            before
        }
    }
}

/// These are codes of keys, which lie below those of the buttons.
pub open spec fn keys_fit(keys: Set<u16>) -> bool {
    forall|code: u16| #[trigger] keys.contains(code) ==> code < 0x110
}

/// The codes of keys in `codes`.
pub open spec fn key_codes(codes: Set<u16>) -> Set<u16> {
    codes.intersect(Set::new(|code: u16| code < 0x110))
}

/// The device's view of held keys and buttons: bit `i` of `buttons` stands for the code `0x110 + i`.
pub open spec fn down_codes(keys: Set<u16>, buttons: u8) -> Set<u16> {
    keys.union(
        Set::new(
            |code: u16|
                0x110 <= code <= 0x114 && buttons & (1u8 << ((code - 0x110) as u8)) != 0,
        ),
    )
}

/// What is held down on the virtual device.
#[derive(Debug)]
pub struct LinuxUinputInjector {
    pressed_buttons: u8,
    active_modifiers: u8,
    pressed_keys: KeySet,
}

impl LinuxUinputInjector {
    /// The buttons that are held, one bit each.
    pub closed spec fn buttons(&self) -> u8 {
        self.pressed_buttons
    }

    pub closed spec fn modifiers(&self) -> u8 {
        self.active_modifiers
    }

    /// The keys that are held.
    pub closed spec fn keys(&self) -> Set<u16> {
        self.pressed_keys@
    }

    pub fn new() -> (r: Self)
        ensures
            r.buttons() == 0,
            r.modifiers() == 0,
            r.keys() == Set::<u16>::empty(),
    {
        LinuxUinputInjector { pressed_buttons: 0, active_modifiers: 0, pressed_keys: KeySet::new() }
    }

    /// Notes what an event holds down or lets go, and writes it as records.
    pub fn inject_input(&mut self, event: InputEvent) -> (r: Vec<RawEvent>)
        ensures
            r@ == records(event),
            final(self).buttons() == buttons_after(old(self).buttons(), event),
            final(self).modifiers() == (match event {
                InputEvent::Key { modifiers, .. } => modifiers,
                InputEvent::ModifiersChanged(modifiers) => modifiers,
                _ => old(self).modifiers(),
            }),
            final(self).keys() == keys_after(old(self).keys(), event),
            keys_fit(old(self).keys()) ==> {
                &&& keys_fit(final(self).keys())
                &&& key_codes(held_after(old(self).keys(), r@)) == final(self).keys()
            },
    {
        let mut out: Vec<RawEvent> = Vec::new();
        match event {
            InputEvent::MouseMove { dx, dy } => {
                if dx != 0 {
                    out.push(RawEvent { ev_type: EV_REL, code: REL_X, value: dx });
                }
                if dy != 0 {
                    out.push(RawEvent { ev_type: EV_REL, code: REL_Y, value: dy });
                }
                out.push(RawEvent { ev_type: EV_SYN, code: SYN_REPORT, value: 0 });
            },
            InputEvent::MouseMoveAbsolute { x, y } => {
                let abs_x: i64 = (x as i64 * ABS_MAX_RANGE as i64) / 65535;
                let abs_y: i64 = (y as i64 * ABS_MAX_RANGE as i64) / 65535;
                out.push(RawEvent { ev_type: EV_ABS, code: ABS_X, value: abs_x as i32 });
                out.push(RawEvent { ev_type: EV_ABS, code: ABS_Y, value: abs_y as i32 });
                out.push(RawEvent { ev_type: EV_SYN, code: SYN_REPORT, value: 0 });
            },
            InputEvent::MouseDown(button) => {
                self.pressed_buttons = self.pressed_buttons | bit_of(button);
                out.push(RawEvent { ev_type: EV_KEY, code: button_code(button), value: 1 });
                out.push(RawEvent { ev_type: EV_SYN, code: SYN_REPORT, value: 0 });
            },
            InputEvent::MouseUp(button) => {
                self.pressed_buttons = self.pressed_buttons & !bit_of(button);
                out.push(RawEvent { ev_type: EV_KEY, code: button_code(button), value: 0 });
                out.push(RawEvent { ev_type: EV_SYN, code: SYN_REPORT, value: 0 });
            },
            InputEvent::MouseScroll { delta_x, delta_y } => {
                if delta_y != 0 {
                    let steps: i32 = if delta_y > 0 {
                        1
                    } else {
                        -1
                    };
                    out.push(RawEvent { ev_type: EV_REL, code: REL_WHEEL, value: steps });
                }
                if delta_x != 0 {
                    let steps: i32 = if delta_x > 0 {
                        1
                    } else {
                        -1
                    };
                    out.push(RawEvent { ev_type: EV_REL, code: REL_HWHEEL, value: steps });
                }
                out.push(RawEvent { ev_type: EV_SYN, code: SYN_REPORT, value: 0 });
            },
            InputEvent::KeyDown(scancode) => {
                let key: u16 = map_gpui_or_mac_to_linux_key((scancode % 0x1_0000) as u16);
                self.pressed_keys.insert(key);
                out.push(RawEvent { ev_type: EV_KEY, code: key, value: 1 });
                out.push(RawEvent { ev_type: EV_SYN, code: SYN_REPORT, value: 0 });
            },
            InputEvent::KeyUp(scancode) => {
                let key: u16 = map_gpui_or_mac_to_linux_key((scancode % 0x1_0000) as u16);
                self.pressed_keys.remove(key);
                out.push(RawEvent { ev_type: EV_KEY, code: key, value: 0 });
                out.push(RawEvent { ev_type: EV_SYN, code: SYN_REPORT, value: 0 });
            },
            InputEvent::Key { key_code, pressed, modifiers } => {
                self.active_modifiers = modifiers;
                let key: u16 = map_gpui_or_mac_to_linux_key(key_code);
                if pressed {
                    self.pressed_keys.insert(key);
                    out.push(RawEvent { ev_type: EV_KEY, code: key, value: 1 });
                } else {
                    self.pressed_keys.remove(key);
                    out.push(RawEvent { ev_type: EV_KEY, code: key, value: 0 });
                }
                out.push(RawEvent { ev_type: EV_SYN, code: SYN_REPORT, value: 0 });
            },
            InputEvent::ModifiersChanged(modifiers) => {
                self.active_modifiers = modifiers;
            },
            InputEvent::Touch { .. } => {},
        }
        proof {
            assert(out@ =~= records(event));
            if keys_fit(old(self).keys()) {
                records_say_which_keys_are_held(old(self).keys(), event);
            }
        }
        out
    }
}

proof fn lemma_held_one(down: Set<u16>, first: RawEvent, last: RawEvent)
    requires
        first.ev_type == 1,
        last.ev_type == 0,
    ensures
        first.value == 1 ==> held_after(down, seq![first] + seq![last]) == down.insert(first.code),
        first.value == 0 ==> held_after(down, seq![first] + seq![last]) == down.remove(first.code),
{
    let s = seq![first] + seq![last];
    assert(s.drop_last() =~= seq![first]);
    assert(s.last() == last);
    assert(seq![first].drop_last() =~= Seq::<RawEvent>::empty());
    assert(seq![first].last() == first);
    reveal_with_fuel(held_after, 3);
}

proof fn lemma_held_none(down: Set<u16>, records: Seq<RawEvent>)
    requires
        forall|i: int| 0 <= i < records.len() ==> (#[trigger] records[i]).ev_type != 1,
    ensures
        held_after(down, records) == down,
    decreases records.len(),
{
    if records.len() > 0 {
        assert(records.last() == records[records.len() - 1]);
        assert forall|i: int| 0 <= i < records.drop_last().len() implies (
        #[trigger] records.drop_last()[i]).ev_type != 1 by {
            assert(records.drop_last()[i] == records[i]);
        }
        lemma_held_none(down, records.drop_last());
    }
}

/// What any event makes of a device's held codes: a press adds one, a release takes one away.
proof fn lemma_held_after(down: Set<u16>, event: InputEvent)
    ensures
        held_after(down, records(event)) == (match event {
            InputEvent::MouseDown(button) => down.insert(linux_button(button)),
            InputEvent::MouseUp(button) => down.remove(linux_button(button)),
            _ => keys_after(down, event),
        }),
{
    match event {
        InputEvent::MouseDown(button) => {
            lemma_held_one(down, record(EV_KEY, linux_button(button), 1), report()[0]);
        },
        InputEvent::MouseUp(button) => {
            lemma_held_one(down, record(EV_KEY, linux_button(button), 0), report()[0]);
        },
        InputEvent::KeyDown(scancode) => {
            lemma_held_one(
                down,
                record(EV_KEY, linux_key((scancode % 0x1_0000) as u16), 1),
                report()[0],
            );
        },
        InputEvent::KeyUp(scancode) => {
            lemma_held_one(
                down,
                record(EV_KEY, linux_key((scancode % 0x1_0000) as u16), 0),
                report()[0],
            );
        },
        InputEvent::Key { key_code, pressed, .. } => {
            let value: int = if pressed {
                1
            } else {
                0
            };
            lemma_held_one(down, record(EV_KEY, linux_key(key_code), value), report()[0]);
        },
        _ => {
            lemma_held_none(down, records(event));
        },
    }
}

/// A device that held the keys that were held before an event holds, once it was given the event's
/// records, those that are held after it. Letting a key go writes the value nought for the code for
/// which pressing it wrote the value one.
pub proof fn records_say_which_keys_are_held(keys: Set<u16>, event: InputEvent)
    requires
        keys_fit(keys),
    ensures
        key_codes(held_after(keys, records(event))) == keys_after(keys, event),
        keys_fit(keys_after(keys, event)),
{
    lemma_held_after(keys, event);
    assert(key_codes(held_after(keys, records(event))) =~= keys_after(keys, event));
}

proof fn lemma_bits(buttons: u8, i: u8, j: u8)
    by (bit_vector)
    requires
        i < 8,
        j < 8,
    ensures
        ((buttons | (1u8 << i)) & (1u8 << j) != 0) == (i == j || buttons & (1u8 << j) != 0),
        ((buttons & !(1u8 << i)) & (1u8 << j) != 0) == (i != j && buttons & (1u8 << j) != 0),
{
}

/// The same of keys and buttons together. Buttons beyond the fifth are left out: the device knows
/// no more of them.
pub proof fn records_say_what_is_held(keys: Set<u16>, buttons: u8, event: InputEvent)
    requires
        keys_fit(keys),
        match event {
            InputEvent::MouseDown(button) => button <= 4,
            InputEvent::MouseUp(button) => button <= 4,
            _ => true,
        },
    ensures
        held_after(down_codes(keys, buttons), records(event)) == down_codes(
            keys_after(keys, event),
            buttons_after(buttons, event),
        ),
{
    let down = down_codes(keys, buttons);
    lemma_held_after(down, event);
    let after = down_codes(keys_after(keys, event), buttons_after(buttons, event));
    match event {
        InputEvent::MouseDown(button) => {
            assert forall|code: u16| 0x110 <= code <= 0x114 implies after.contains(code) == (code
                == 0x110 + button || down.contains(code)) by {
                lemma_bits(buttons, button, (code - 0x110) as u8);
            }
            assert(linux_button(button) == 0x110 + button);
            assert(down.insert(linux_button(button)) =~= after);
        },
        InputEvent::MouseUp(button) => {
            assert forall|code: u16| 0x110 <= code <= 0x114 implies after.contains(code) == (code
                != 0x110 + button && down.contains(code)) by {
                lemma_bits(buttons, button, (code - 0x110) as u8);
            }
            assert(linux_button(button) == 0x110 + button);
            assert(down.remove(linux_button(button)) =~= after);
        },
        _ => {
            assert(held_after(down, records(event)) =~= after);
        },
    }
}

/// What is written of each event: motion, wheel steps and positions on their own axes, one key
/// record for a key or a button, and one report behind them. Nothing is written for a change of the
/// modifiers or a touch.
pub proof fn records_say_what_happened(event: InputEvent)
    ensures
        match event {
            InputEvent::MouseMove { dx, dy } => {
                let x = RawEvent { ev_type: 2, code: 0, value: dx };
                let y = RawEvent { ev_type: 2, code: 1, value: dy };
                let end = RawEvent { ev_type: 0, code: 0, value: 0 };
                &&& dx != 0 && dy != 0 ==> records(event) == seq![x, y, end]
                &&& dx != 0 && dy == 0 ==> records(event) == seq![x, end]
                &&& dx == 0 && dy != 0 ==> records(event) == seq![y, end]
                &&& dx == 0 && dy == 0 ==> records(event) == seq![end]
            },
            InputEvent::MouseMoveAbsolute { x, y } => records(event) == seq![
                RawEvent { ev_type: 3, code: 0, value: x as i32 },
                RawEvent { ev_type: 3, code: 1, value: y as i32 },
                RawEvent { ev_type: 0, code: 0, value: 0 },
            ],
            InputEvent::MouseScroll { delta_x, delta_y } => {
                let up = RawEvent { ev_type: 2, code: 8, value: 1 };
                let down = RawEvent { ev_type: 2, code: 8, value: (-1) as i32 };
                let right = RawEvent { ev_type: 2, code: 6, value: 1 };
                let left = RawEvent { ev_type: 2, code: 6, value: (-1) as i32 };
                let end = RawEvent { ev_type: 0, code: 0, value: 0 };
                &&& delta_y > 0 && delta_x > 0 ==> records(event) == seq![up, right, end]
                &&& delta_y > 0 && delta_x < 0 ==> records(event) == seq![up, left, end]
                &&& delta_y < 0 && delta_x > 0 ==> records(event) == seq![down, right, end]
                &&& delta_y < 0 && delta_x < 0 ==> records(event) == seq![down, left, end]
                &&& delta_y > 0 && delta_x == 0 ==> records(event) == seq![up, end]
                &&& delta_y < 0 && delta_x == 0 ==> records(event) == seq![down, end]
                &&& delta_y == 0 && delta_x > 0 ==> records(event) == seq![right, end]
                &&& delta_y == 0 && delta_x < 0 ==> records(event) == seq![left, end]
                &&& delta_y == 0 && delta_x == 0 ==> records(event) == seq![end]
            },
            InputEvent::ModifiersChanged(_) | InputEvent::Touch { .. } => records(event).len() == 0,
            InputEvent::MouseDown(button) | InputEvent::MouseUp(button) => {
                &&& records(event).len() == 2
                &&& records(event)[0].ev_type == 1
                &&& records(event)[0].code == 0x110 + (if button <= 4 {
                    button as int
                } else {
                    0
                })
                &&& records(event)[0].value == (if event is MouseDown {
                    1int
                } else {
                    0
                })
                &&& records(event)[1] == (RawEvent { ev_type: 0, code: 0, value: 0 })
            },
            _ => {
                &&& records(event).len() == 2
                &&& records(event)[0].ev_type == 1
                &&& records(event)[0].code < 0x110
                &&& 0 <= records(event)[0].value <= 1
                &&& records(event)[1] == (RawEvent { ev_type: 0, code: 0, value: 0 })
            },
        },
{
    let all = records(event);
    match event {
        InputEvent::MouseMove { dx, dy } => {
            let x = RawEvent { ev_type: 2, code: 0, value: dx };
            let y = RawEvent { ev_type: 2, code: 1, value: dy };
            let end = RawEvent { ev_type: 0, code: 0, value: 0 };
            assert(dx != 0 && dy != 0 ==> all =~= seq![x, y, end]);
            assert(dx != 0 && dy == 0 ==> all =~= seq![x, end]);
            assert(dx == 0 && dy != 0 ==> all =~= seq![y, end]);
            assert(dx == 0 && dy == 0 ==> all =~= seq![end]);
        },
        InputEvent::MouseMoveAbsolute { x, y } => {
            assert(all =~= seq![
                RawEvent { ev_type: 3, code: 0, value: x as i32 },
                RawEvent { ev_type: 3, code: 1, value: y as i32 },
                RawEvent { ev_type: 0, code: 0, value: 0 },
            ]);
        },
        InputEvent::MouseScroll { delta_x, delta_y } => {
            let up = RawEvent { ev_type: 2, code: 8, value: 1 };
            let down = RawEvent { ev_type: 2, code: 8, value: (-1) as i32 };
            let right = RawEvent { ev_type: 2, code: 6, value: 1 };
            let left = RawEvent { ev_type: 2, code: 6, value: (-1) as i32 };
            let end = RawEvent { ev_type: 0, code: 0, value: 0 };
            assert(delta_y > 0 && delta_x > 0 ==> all =~= seq![up, right, end]);
            assert(delta_y > 0 && delta_x < 0 ==> all =~= seq![up, left, end]);
            assert(delta_y < 0 && delta_x > 0 ==> all =~= seq![down, right, end]);
            assert(delta_y < 0 && delta_x < 0 ==> all =~= seq![down, left, end]);
            assert(delta_y > 0 && delta_x == 0 ==> all =~= seq![up, end]);
            assert(delta_y < 0 && delta_x == 0 ==> all =~= seq![down, end]);
            assert(delta_y == 0 && delta_x > 0 ==> all =~= seq![right, end]);
            assert(delta_y == 0 && delta_x < 0 ==> all =~= seq![left, end]);
            assert(delta_y == 0 && delta_x == 0 ==> all =~= seq![end]);
        },
        _ => {},
    }
}

/// The events that press and let go one key write the same code, once with the value one and once
/// with nought, and so do those of a button. The two ways to report a key agree.
pub proof fn presses_and_releases_share_a_code(scancode: u32, modifiers: u8, button: u8)
    ensures
        ({
            let down = records(InputEvent::KeyDown(scancode))[0];
            let up = records(InputEvent::KeyUp(scancode))[0];
            let key_code = (scancode % 0x1_0000) as u16;
            let pressed = InputEvent::Key { key_code, pressed: true, modifiers };
            let released = InputEvent::Key { key_code, pressed: false, modifiers };
            &&& down.code == up.code && down.value == 1 && up.value == 0
            &&& records(pressed) == records(InputEvent::KeyDown(scancode))
            &&& records(released) == records(InputEvent::KeyUp(scancode))
        }),
        ({
            let down = records(InputEvent::MouseDown(button))[0];
            let up = records(InputEvent::MouseUp(button))[0];
            down.code == up.code && down.value == 1 && up.value == 0
        }),
{
}

/// The keys of one row of a keyboard have successive codes of the input subsystem: the digits with
/// what stands right of them from two on, the letter rows from sixteen, thirty and forty-four on.
pub proof fn rows_of_keys_have_successive_codes(i: int)
    ensures
        ({
            let digits = seq![
                0x12u16, 0x13, 0x14, 0x15, 0x17, 0x16, 0x1A, 0x1C, 0x19, 0x1D, 0x1B, 0x18, 0x33,
                0x30,
            ];
            let upper = seq![
                0x0Cu16, 0x0D, 0x0E, 0x0F, 0x11, 0x10, 0x20, 0x22, 0x1F, 0x23, 0x21, 0x1E, 0x24,
                0x3B,
            ];
            let home = seq![
                0x00u16, 0x01, 0x02, 0x03, 0x05, 0x04, 0x26, 0x28, 0x25, 0x29, 0x27, 0x32, 0x38,
                0x2A,
            ];
            let lower = seq![
                0x06u16, 0x07, 0x08, 0x09, 0x0B, 0x2D, 0x2E, 0x2B, 0x2F, 0x2C, 0x3C,
            ];
            &&& 0 <= i < 14 ==> linux_key(digits[i]) == 2 + i
            &&& 0 <= i < 14 ==> linux_key(upper[i]) == 16 + i
            &&& 0 <= i < 14 ==> linux_key(home[i]) == 30 + i
            &&& 0 <= i < 11 ==> linux_key(lower[i]) == 44 + i
        }),
        linux_key(0x35) == 1,
        linux_key(0x3A) == 56 && linux_key(0x31) == 57 && linux_key(0x39) == 58,
        linux_key(0x3E) == 97 && linux_key(0x3D) == 100 && linux_key(0x37) == 125,
        linux_key(0x7E) == 103 && linux_key(0x7B) == 105 && linux_key(0x7C) == 106,
        linux_key(0x7D) == 108,
{
}

/// Keys without a label keep their code while there is a key with it; no code leaves the range.
pub proof fn unlabelled_keys_stand_for_themselves(code: u16)
    ensures
        linux_key(code) < 255,
        0x3F <= code < 0x7B || 0x7F <= code < 255 || code == 0x0A || code == 0x34 || code == 0x36
            ==> linux_key(code) == code,
        code >= 255 ==> linux_key(code) == linux_key(0),
{
}

/// Each of the first seven buttons has a bit of its own, and the others share the eighth: after a
/// press the bit is set, after a release it is not, and every other bit is as it was.
pub proof fn buttons_have_bits_of_their_own(buttons: u8, button: u8, other: u8)
    requires
        other < 8,
    ensures
        ({
            let own = if button < 7 {
                button as int
            } else {
                7
            };
            let mask = 1u8 << other;
            &&& (buttons_after(buttons, InputEvent::MouseDown(button)) & mask != 0) == (own == other
                || buttons & mask != 0)
            &&& (buttons_after(buttons, InputEvent::MouseUp(button)) & mask != 0) == (own != other
                && buttons & mask != 0)
        }),
{
    lemma_bits(
        buttons,
        if button < 7 {
            button
        } else {
            7
        },
        other,
    );
}

} // verus!
