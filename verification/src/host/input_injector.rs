//! Input events as the Mac's event system takes them.
use crate::host::input::{ascending, KeySet};
use crate::protocol::control::{InputEvent, TouchAction};
use crate::protocol::input_modifiers::{ALT, CAPS_LOCK, CONTROL, FUNCTION, META, SHIFT};
use vstd::prelude::*;

verus! {

#[derive(Debug, Clone, Copy, PartialEq, Eq, Structural)]
pub enum MouseButton {
    Left,
    Right,
    Center,
}

impl MouseButton {
    /// The button's number in the event system.
    pub fn code(self) -> (r: u32)
        ensures
            r == (match self {
                MouseButton::Left => 0u32,
                MouseButton::Right => 1u32,
                MouseButton::Center => 2u32,
            }),
    {
        match self {
            MouseButton::Left => 0,
            MouseButton::Right => 1,
            MouseButton::Center => 2,
        }
    }
}

#[derive(Debug, Clone, Copy, PartialEq, Eq, Structural)]
pub enum PointerEvent {
    LeftMouseDown,
    LeftMouseUp,
    RightMouseDown,
    RightMouseUp,
    MouseMoved,
    LeftMouseDragged,
    RightMouseDragged,
    OtherMouseDown,
    OtherMouseUp,
    OtherMouseDragged,
}

impl PointerEvent {
    /// The event's number in the event system.
    pub fn code(self) -> (r: u32)
        ensures
            r == (match self {
                PointerEvent::LeftMouseDown => 1u32,
                PointerEvent::LeftMouseUp => 2u32,
                PointerEvent::RightMouseDown => 3u32,
                PointerEvent::RightMouseUp => 4u32,
                PointerEvent::MouseMoved => 5u32,
                PointerEvent::LeftMouseDragged => 6u32,
                PointerEvent::RightMouseDragged => 7u32,
                PointerEvent::OtherMouseDown => 25u32,
                PointerEvent::OtherMouseUp => 26u32,
                PointerEvent::OtherMouseDragged => 27u32,
            }),
    {
        match self {
            PointerEvent::LeftMouseDown => 1,
            PointerEvent::LeftMouseUp => 2,
            PointerEvent::RightMouseDown => 3,
            PointerEvent::RightMouseUp => 4,
            PointerEvent::MouseMoved => 5,
            PointerEvent::LeftMouseDragged => 6,
            PointerEvent::RightMouseDragged => 7,
            PointerEvent::OtherMouseDown => 25,
            PointerEvent::OtherMouseUp => 26,
            PointerEvent::OtherMouseDragged => 27,
        }
    }
}

/// The buttons that can be pressed from afar are the first three.
pub open spec fn button_of(button: u8) -> Option<MouseButton> {
    match button {
        0 => Some(MouseButton::Left),
        1 => Some(MouseButton::Right),
        2 => Some(MouseButton::Center),
        _ => None,
    }
}

pub fn mouse_button(button: u8) -> (r: Option<MouseButton>)
    ensures
        r == button_of(button),
{
    match button {
        0 => Some(MouseButton::Left),
        1 => Some(MouseButton::Right),
        2 => Some(MouseButton::Center),
        _ => None,
    }
}

/// What pressing or releasing a button is.
pub open spec fn press_of(button: u8, pressed: bool) -> Option<PointerEvent> {
    match (button, pressed) {
        (0, true) => Some(PointerEvent::LeftMouseDown),
        (0, false) => Some(PointerEvent::LeftMouseUp),
        (1, true) => Some(PointerEvent::RightMouseDown),
        (1, false) => Some(PointerEvent::RightMouseUp),
        (2, true) => Some(PointerEvent::OtherMouseDown),
        (2, false) => Some(PointerEvent::OtherMouseUp),
        _ => None,
    }
}

pub fn mouse_event_type(button: u8, pressed: bool) -> (r: Option<PointerEvent>)
    ensures
        r == press_of(button, pressed),
{
    match (button, pressed) {
        (0, true) => Some(PointerEvent::LeftMouseDown),
        (0, false) => Some(PointerEvent::LeftMouseUp),
        (1, true) => Some(PointerEvent::RightMouseDown),
        (1, false) => Some(PointerEvent::RightMouseUp),
        (2, true) => Some(PointerEvent::OtherMouseDown),
        (2, false) => Some(PointerEvent::OtherMouseUp),
        _ => None,
    }
}

/// What moving the pointer is while buttons are held: a drag of the first of them.
pub open spec fn motion_of(pressed_buttons: u8) -> PointerEvent {
    if pressed_buttons & 0x01 != 0 {
        PointerEvent::LeftMouseDragged
    } else if pressed_buttons & 0x02 != 0 {
        PointerEvent::RightMouseDragged
    } else if pressed_buttons & 0x04 != 0 {
        PointerEvent::OtherMouseDragged
    } else {
        PointerEvent::MouseMoved
    }
}

pub fn pointer_event_type(pressed_buttons: u8) -> (r: PointerEvent)
    ensures
        r == motion_of(pressed_buttons),
{
    if pressed_buttons & 0x01 != 0 {
        PointerEvent::LeftMouseDragged
    } else if pressed_buttons & 0x02 != 0 {
        PointerEvent::RightMouseDragged
    } else if pressed_buttons & 0x04 != 0 {
        PointerEvent::OtherMouseDragged
    } else {
        PointerEvent::MouseMoved
    }
}

/// The button that a motion names: the right one before the centre one, else the left one.
pub open spec fn motion_button(pressed_buttons: u8) -> MouseButton {
    if pressed_buttons & 0x02 != 0 {
        MouseButton::Right
    } else if pressed_buttons & 0x04 != 0 {
        MouseButton::Center
    } else {
        MouseButton::Left
    }
}

pub fn pointer_mouse_button(pressed_buttons: u8) -> (r: MouseButton)
    ensures
        r == motion_button(pressed_buttons),
{
    if pressed_buttons & 0x02 != 0 {
        MouseButton::Right
    } else if pressed_buttons & 0x04 != 0 {
        MouseButton::Center
    } else {
        MouseButton::Left
    }
}

/// The modifiers and their keys.
pub open spec fn modifier_table() -> Seq<(u8, u16)> {
    seq![
        (SHIFT, 0x38u16),
        (CONTROL, 0x3bu16),
        (ALT, 0x3au16),
        (META, 0x37u16),
        (FUNCTION, 0x3fu16),
        (CAPS_LOCK, 0x39u16),
    ]
}

pub fn modifier_key_codes() -> (r: [(u8, u16); 6])
    ensures
        r@ == modifier_table(),
{
    let r = [
        (SHIFT, 0x38u16),
        (CONTROL, 0x3bu16),
        (ALT, 0x3au16),
        (META, 0x37u16),
        (FUNCTION, 0x3fu16),
        (CAPS_LOCK, 0x39u16),
    ];
    proof {
        assert(r@ =~= modifier_table());
    }
    r
}

/// The flags that a key event carries, one for each modifier.
#[derive(Debug, Clone, Copy, PartialEq, Eq, Structural)]
pub struct EventFlags {
    pub shift: bool,
    pub control: bool,
    pub alternate: bool,
    pub command: bool,
    pub secondary_fn: bool,
    pub alpha_shift: bool,
}

pub open spec fn flags_for(modifiers: u8) -> EventFlags {
    EventFlags {
        shift: modifiers & SHIFT != 0,
        control: modifiers & CONTROL != 0,
        alternate: modifiers & ALT != 0,
        command: modifiers & META != 0,
        secondary_fn: modifiers & FUNCTION != 0,
        alpha_shift: modifiers & CAPS_LOCK != 0,
    }
}

pub fn modifier_event_flags(modifiers: u8) -> (r: EventFlags)
    ensures
        r == flags_for(modifiers),
{
    EventFlags {
        shift: modifiers & SHIFT != 0,
        control: modifiers & CONTROL != 0,
        alternate: modifiers & ALT != 0,
        command: modifiers & META != 0,
        secondary_fn: modifiers & FUNCTION != 0,
        alpha_shift: modifiers & CAPS_LOCK != 0,
    }
}

/// Where the pointer goes.
#[derive(Debug, Clone, Copy, PartialEq, Eq, Structural)]
pub enum PointerTarget {
    /// From where it is.
    By { dx: i32, dy: i32 },
    /// To a place on the main display, whose sides are `u16::MAX` long.
    To { x: u16, y: u16 },
}

/// One event to post.
#[derive(Debug, Clone, Copy, PartialEq, Eq, Structural)]
pub enum MacInput {
    Key { key_code: u16, pressed: bool, flags: EventFlags },
    Motion { event: PointerEvent, button: MouseButton, target: PointerTarget },
    /// A button, where the pointer is. Tell `button_posted` once it was posted.
    Button { event: PointerEvent, button: MouseButton, number: u8, pressed: bool },
    Scroll { delta_y: i32, delta_x: i32 },
}

pub open spec fn key_event(key_code: u16, pressed: bool, modifiers: u8) -> MacInput {
    MacInput::Key { key_code, pressed, flags: flags_for(modifiers) }
}

pub open spec fn motion(pressed_buttons: u8, target: PointerTarget) -> MacInput {
    MacInput::Motion {
        event: motion_of(pressed_buttons),
        button: motion_button(pressed_buttons),
        target,
    }
}

pub open spec fn button_events(button: u8, pressed: bool) -> Seq<MacInput> {
    if button < 3 {
        seq![
            MacInput::Button {
                event: press_of(button, pressed)->0,
                button: button_of(button)->0,
                number: button,
                pressed,
            },
        ]
    } else {
        Seq::empty()
    }
}

/// The keys of the first `n` modifiers that change.
pub open spec fn modifier_events(previous: u8, modifiers: u8, n: int) -> Seq<MacInput>
    decreases n,
{
    if n <= 0 {
        Seq::empty()
    } else {
        let (flag, key_code) = modifier_table()[n - 1];
        let before = modifier_events(previous, modifiers, n - 1);
        if (previous & flag != 0) != (modifiers & flag != 0) {
            before.push(key_event(key_code, modifiers & flag != 0, modifiers))
        } else {
            before
        }
    }
}

/// The events to post for an event from afar. A touch is at `touch` and acts as the second button.
pub open spec fn events_for(
    event: InputEvent,
    buttons: u8,
    modifiers_before: u8,
    touch: (u16, u16),
) -> Seq<MacInput> {
    match event {
        InputEvent::KeyDown(scancode) => seq![
            key_event((scancode % 0x1_0000) as u16, true, modifiers_before),
        ],
        InputEvent::KeyUp(scancode) => seq![
            key_event((scancode % 0x1_0000) as u16, false, modifiers_before),
        ],
        InputEvent::Key { key_code, pressed, modifiers } => modifier_events(
            modifiers_before,
            modifiers,
            6,
        ).push(key_event(key_code, pressed, modifiers)),
        InputEvent::ModifiersChanged(modifiers) => modifier_events(modifiers_before, modifiers, 6),
        InputEvent::MouseMove { dx, dy } => seq![motion(buttons, PointerTarget::By { dx, dy })],
        InputEvent::MouseMoveAbsolute { x, y } => seq![motion(buttons, PointerTarget::To { x, y })],
        InputEvent::MouseDown(button) => button_events(button, true),
        InputEvent::MouseUp(button) => button_events(button, false),
        InputEvent::MouseScroll { delta_x, delta_y } => seq![
            MacInput::Scroll { delta_y, delta_x },
        ],
        InputEvent::Touch { action, .. } => seq![
            motion(buttons, PointerTarget::To { x: touch.0, y: touch.1 }),
        ] + match action {
            TouchAction::Down => button_events(1, true),
            TouchAction::Move => Seq::empty(),
            TouchAction::Up | TouchAction::Cancel => button_events(1, false),
        },
    }
}

/// What is held down.
#[derive(Debug)]
pub struct MacInputInjector {
    pressed_buttons: u8,
    active_modifiers: u8,
    pressed_keys: KeySet,
}

impl MacInputInjector {
    /// The buttons that are held, one bit each.
    pub closed spec fn buttons(&self) -> u8 {
        self.pressed_buttons
    }

    pub closed spec fn modifiers(&self) -> u8 {
        self.active_modifiers
    }

    /// The keys that are held; modifiers that change by themselves are not among them.
    pub closed spec fn keys(&self) -> Set<u16> {
        self.pressed_keys@
    }

    pub fn new() -> (r: Self)
        ensures
            r.buttons() == 0,
            r.modifiers() == 0,
            r.keys() == Set::<u16>::empty(),
    {
        MacInputInjector { pressed_buttons: 0, active_modifiers: 0, pressed_keys: KeySet::new() }
    }

    fn key(&self, key_code: u16, pressed: bool, modifiers: u8) -> (r: MacInput)
        ensures
            r == key_event(key_code, pressed, modifiers),
    {
        MacInput::Key { key_code, pressed, flags: modifier_event_flags(modifiers) }
    }

    fn track_key(&mut self, key_code: u16, pressed: bool)
        ensures
            final(self).keys() == (if pressed {
                old(self).keys().insert(key_code)
            } else {
                old(self).keys().remove(key_code)
            }),
            final(self).buttons() == old(self).buttons(),
            final(self).modifiers() == old(self).modifiers(),
    {
        if pressed {
            self.pressed_keys.insert(key_code);
        } else {
            self.pressed_keys.remove(key_code);
        }
    }

    fn set_modifiers(&mut self, modifiers: u8) -> (out: Vec<MacInput>)
        ensures
            out@ == modifier_events(old(self).modifiers(), modifiers, 6),
            final(self).modifiers() == modifiers,
            final(self).buttons() == old(self).buttons(),
            final(self).keys() == old(self).keys(),
    {
        let previous: u8 = self.active_modifiers;
        self.active_modifiers = modifiers;
        let table = modifier_key_codes();
        let mut out: Vec<MacInput> = Vec::new();
        let mut i: usize = 0;
        while i < 6
            invariant
                i <= 6,
                table@ == modifier_table(),
                out@ == modifier_events(previous, modifiers, i as int),
            decreases 6 - i,
        {
            let (flag, key_code) = table[i];
            let before = previous & flag != 0;
            let now = modifiers & flag != 0;
            if before != now {
                out.push(self.key(key_code, now, modifiers));
            }
            i += 1;
        }
        out
    }

    fn push_motion(&self, target: PointerTarget, out: &mut Vec<MacInput>)
        ensures
            final(out)@ == old(out)@.push(motion(self.buttons(), target)),
    {
        out.push(
            MacInput::Motion {
                event: pointer_event_type(self.pressed_buttons),
                button: pointer_mouse_button(self.pressed_buttons),
                target,
            },
        );
    }

    fn push_button(button: u8, pressed: bool, out: &mut Vec<MacInput>)
        ensures
            final(out)@ == old(out)@ + button_events(button, pressed),
    {
        match (mouse_button(button), mouse_event_type(button, pressed)) {
            (Some(which), Some(event)) => {
                out.push(MacInput::Button { event, button: which, number: button, pressed });
            },
            _ => {},
        }
        proof {
            assert(out@ =~= old(out)@ + button_events(button, pressed));
        }
    }

    /// Notes the keys and modifiers that an event changes, and tells what to post. `touch` is where a
    /// touch is on the main display.
    pub fn inject(&mut self, event: InputEvent, touch: (u16, u16)) -> (r: Vec<MacInput>)
        ensures
            r@ == events_for(event, old(self).buttons(), old(self).modifiers(), touch),
            final(self).buttons() == old(self).buttons(),
            final(self).modifiers() == (match event {
                InputEvent::Key { modifiers, .. } => modifiers,
                InputEvent::ModifiersChanged(modifiers) => modifiers,
                _ => old(self).modifiers(),
            }),
            final(self).keys() == (match event {
                InputEvent::KeyDown(scancode) => old(self).keys().insert(
                    (scancode % 0x1_0000) as u16,
                ),
                InputEvent::KeyUp(scancode) => old(self).keys().remove(
                    (scancode % 0x1_0000) as u16,
                ),
                InputEvent::Key { key_code, pressed, .. } => if pressed {
                    old(self).keys().insert(key_code)
                } else {
                    old(self).keys().remove(key_code)
                },
                _ => old(self).keys(),
            }),
    {
        let mut out: Vec<MacInput> = Vec::new();
        match event {
            InputEvent::KeyDown(scancode) => {
                let key_code: u16 = (scancode % 0x1_0000) as u16;
                out.push(self.key(key_code, true, self.active_modifiers));
                self.track_key(key_code, true);
            },
            InputEvent::KeyUp(scancode) => {
                let key_code: u16 = (scancode % 0x1_0000) as u16;
                out.push(self.key(key_code, false, self.active_modifiers));
                self.track_key(key_code, false);
            },
            InputEvent::Key { key_code, pressed, modifiers } => {
                out = self.set_modifiers(modifiers);
                out.push(self.key(key_code, pressed, modifiers));
                self.track_key(key_code, pressed);
            },
            InputEvent::ModifiersChanged(modifiers) => {
                out = self.set_modifiers(modifiers);
            },
            InputEvent::MouseMove { dx, dy } => {
                self.push_motion(PointerTarget::By { dx, dy }, &mut out);
            },
            InputEvent::MouseMoveAbsolute { x, y } => {
                self.push_motion(PointerTarget::To { x, y }, &mut out);
            },
            InputEvent::MouseDown(button) => {
                Self::push_button(button, true, &mut out);
            },
            InputEvent::MouseUp(button) => {
                Self::push_button(button, false, &mut out);
            },
            InputEvent::MouseScroll { delta_x, delta_y } => {
                out.push(MacInput::Scroll { delta_y, delta_x });
            },
            InputEvent::Touch { action, .. } => {
                self.push_motion(PointerTarget::To { x: touch.0, y: touch.1 }, &mut out);
                match action {
                    TouchAction::Down => {
                        Self::push_button(1, true, &mut out);
                    },
                    TouchAction::Move => {},
                    TouchAction::Up | TouchAction::Cancel => {
                        Self::push_button(1, false, &mut out);
                    },
                }
            },
        }
        proof {
            assert(out@ =~= events_for(event, old(self).buttons(), old(self).modifiers(), touch));
        }
        out
    }

    /// Notes that a button event was posted.
    pub fn button_posted(&mut self, button: u8, pressed: bool)
        ensures
            final(self).modifiers() == old(self).modifiers(),
            final(self).keys() == old(self).keys(),
            final(self).buttons() == (if button >= 3 {
                old(self).buttons()
            } else if pressed {
                old(self).buttons() | (1u8 << button)
            } else {
                old(self).buttons() & !(1u8 << button)
            }),
    {
        if button < 3 {
            let mask: u8 = 1u8 << button;
            if pressed {
                self.pressed_buttons = self.pressed_buttons | mask;
            } else {
                self.pressed_buttons = self.pressed_buttons & !mask;
            }
        }
    }

    /// Lets everything go: keys in ascending order, then buttons, then modifiers.
    pub fn release_all_input(&mut self) -> (r: Vec<MacInput>)
        ensures
            final(self).buttons() == 0,
            final(self).modifiers() == 0,
            final(self).keys() == Set::<u16>::empty(),
            exists|keys: Seq<u16>|
                {
                    &&& #[trigger] ascending(keys)
                    &&& keys.to_set() == old(self).keys()
                    &&& r@ == keys.map_values(|k: u16| key_event(k, false, 0)) + released_buttons(
                        old(self).buttons(),
                    ) + modifier_events(old(self).modifiers(), 0, 6)
                },
    {
        let keys = self.pressed_keys.take_all();
        let mut out: Vec<MacInput> = Vec::new();
        let mut i: usize = 0;
        while i < keys.len()
            invariant
                i <= keys@.len(),
                out@ == keys@.take(i as int).map_values(|k: u16| key_event(k, false, 0)),
            decreases keys.len() - i,
        {
            out.push(self.key(keys[i], false, 0));
            proof {
                assert(out@ =~= keys@.take(i + 1).map_values(|k: u16| key_event(k, false, 0)));
            }
            i += 1;
        }
        let buttons: u8 = self.pressed_buttons;
        self.pressed_buttons = 0;
        if buttons & 0x01 != 0 {
            Self::push_button(0, false, &mut out);
        }
        if buttons & 0x02 != 0 {
            Self::push_button(1, false, &mut out);
        }
        if buttons & 0x04 != 0 {
            Self::push_button(2, false, &mut out);
        }
        let mut last = self.set_modifiers(0);
        out.append(&mut last);
        proof {
            assert(keys@.take(keys@.len() as int) =~= keys@);
            assert(ascending(keys@));
            assert(out@ =~= keys@.map_values(|k: u16| key_event(k, false, 0)) + released_buttons(
                buttons,
            ) + modifier_events(old(self).modifiers(), 0, 6));
        }
        out
    }
}

/// The buttons that are let go of those that were held.
pub open spec fn released_buttons(buttons: u8) -> Seq<MacInput> {
    (if buttons & 0x01 != 0 {
        button_events(0, false)
    } else {
        Seq::empty()
    }) + (if buttons & 0x02 != 0 {
        button_events(1, false)
    } else {
        Seq::empty()
    }) + (if buttons & 0x04 != 0 {
        button_events(2, false)
    } else {
        Seq::empty()
    })
}

/// What a machine that held `down` holds after `events`, as far as keys go.
pub open spec fn held_after(down: Set<u16>, events: Seq<MacInput>) -> Set<u16>
    decreases events.len(),
{
    if events.len() == 0 {
        down
    } else {
        let before = held_after(down, events.drop_last());
        match events.last() {
            MacInput::Key { key_code, pressed: true, .. } => before.insert(key_code),
            MacInput::Key { key_code, pressed: false, .. } => before.remove(key_code),
            _ => before,
        }
    }
}

/// The flags of an event say which modifiers are held, each by its own bit.
pub open spec fn flags_tell(flags: EventFlags, modifiers: u8) -> bool {
    &&& flags.shift == (modifiers & 0x01 != 0)
    &&& flags.control == (modifiers & 0x02 != 0)
    &&& flags.alternate == (modifiers & 0x04 != 0)
    &&& flags.command == (modifiers & 0x08 != 0)
    &&& flags.secondary_fn == (modifiers & 0x10 != 0)
    &&& flags.alpha_shift == (modifiers & 0x20 != 0)
}

/// The keys of the modifiers are held exactly as the bits say.
pub open spec fn modifiers_held(keys: Set<u16>, modifiers: u8) -> bool {
    &&& keys.contains(0x38) == (modifiers & 0x01 != 0)
    &&& keys.contains(0x3b) == (modifiers & 0x02 != 0)
    &&& keys.contains(0x3a) == (modifiers & 0x04 != 0)
    &&& keys.contains(0x37) == (modifiers & 0x08 != 0)
    &&& keys.contains(0x3f) == (modifiers & 0x10 != 0)
    &&& keys.contains(0x39) == (modifiers & 0x20 != 0)
}

/// The key of a modifier.
pub open spec fn is_modifier_key(key_code: u16) -> bool {
    key_code == 0x37 || key_code == 0x38 || key_code == 0x39 || key_code == 0x3a || key_code == 0x3b
        || key_code == 0x3f
}

proof fn lemma_modifier(down: Set<u16>, previous: u8, modifiers: u8, n: int)
    requires
        0 <= n < 6,
    ensures
        ({
            let (flag, key_code) = modifier_table()[n];
            let before = modifier_events(previous, modifiers, n);
            let after = modifier_events(previous, modifiers, n + 1);
            let was = previous & flag != 0;
            let now = modifiers & flag != 0;
            &&& was == now ==> after == before
            &&& was != now ==> after.len() == before.len() + 1 && after.drop_last() == before
                && after.last() == (MacInput::Key {
                key_code,
                pressed: now,
                flags: flags_for(modifiers),
            })
            &&& was != now && now ==> held_after(down, after) == held_after(down, before).insert(
                key_code,
            )
            &&& was != now && !now ==> held_after(down, after) == held_after(down, before).remove(
                key_code,
            )
        }),
{
    let (flag, key_code) = modifier_table()[n];
    let before = modifier_events(previous, modifiers, n);
    let now = modifiers & flag != 0;
    if (previous & flag != 0) != now {
        let event = key_event(key_code, now, modifiers);
        assert(modifier_events(previous, modifiers, n + 1) == before.push(event));
        assert(before.push(event).drop_last() =~= before);
        assert(before.push(event).last() == event);
    }
}

/// If the keys of the modifiers were held as told before, they are held as told once a change of the
/// modifiers was posted. Nothing is posted for a modifier that stays as it was, nor for another key,
/// and every event posted carries the modifiers that hold from then on.
pub proof fn modifiers_are_held_as_told(down: Set<u16>, previous: u8, modifiers: u8, key_code: u16)
    requires
        modifiers_held(down, previous),
    ensures
        ({
            let events = modifier_events(previous, modifiers, 6);
            let after = held_after(down, events);
            &&& modifiers_held(after, modifiers)
            &&& !is_modifier_key(key_code) ==> after.contains(key_code) == down.contains(key_code)
            &&& previous == modifiers ==> events.len() == 0
        }),
{
    lemma_modifier(down, previous, modifiers, 0);
    lemma_modifier(down, previous, modifiers, 1);
    lemma_modifier(down, previous, modifiers, 2);
    lemma_modifier(down, previous, modifiers, 3);
    lemma_modifier(down, previous, modifiers, 4);
    lemma_modifier(down, previous, modifiers, 5);
    assert(modifier_events(previous, modifiers, 0).len() == 0);
    assert(held_after(down, modifier_events(previous, modifiers, 0)) == down);
    assert(modifier_table()[0] == (0x01u8, 0x38u16));
    assert(modifier_table()[1] == (0x02u8, 0x3bu16));
    assert(modifier_table()[2] == (0x04u8, 0x3au16));
    assert(modifier_table()[3] == (0x08u8, 0x37u16));
    assert(modifier_table()[4] == (0x10u8, 0x3fu16));
    assert(modifier_table()[5] == (0x20u8, 0x39u16));
}

/// Every event that a change of the modifiers posts is a key event that carries the modifiers that
/// hold from then on.
pub proof fn modifier_events_carry_what_holds(previous: u8, modifiers: u8, n: int, i: int)
    requires
        0 <= n <= 6,
        0 <= i < modifier_events(previous, modifiers, n).len(),
    ensures
        modifier_events(previous, modifiers, n)[i] is Key,
        flags_tell(modifier_events(previous, modifiers, n)[i]->flags, modifiers),
        is_modifier_key(modifier_events(previous, modifiers, n)[i]->key_code),
    decreases n,
{
    if n > 0 {
        lemma_modifier(Set::empty(), previous, modifiers, n - 1);
        let before = modifier_events(previous, modifiers, n - 1);
        if i < before.len() {
            modifier_events_carry_what_holds(previous, modifiers, n - 1, i);
        } else {
            assert(modifier_table()[0] == (0x01u8, 0x38u16));
            assert(modifier_table()[1] == (0x02u8, 0x3bu16));
            assert(modifier_table()[2] == (0x04u8, 0x3au16));
            assert(modifier_table()[3] == (0x08u8, 0x37u16));
            assert(modifier_table()[4] == (0x10u8, 0x3fu16));
            assert(modifier_table()[5] == (0x20u8, 0x39u16));
        }
    }
}

/// A key event is posted last for its own key, as pressed as the event says, and with the modifiers
/// that hold then.
pub proof fn keys_are_posted_as_told(
    event: InputEvent,
    buttons: u8,
    modifiers_before: u8,
    touch: (u16, u16),
)
    ensures
        ({
            let events = events_for(event, buttons, modifiers_before, touch);
            match event {
                InputEvent::KeyDown(code) => {
                    &&& events.len() == 1
                    &&& events[0] is Key
                    &&& events[0]->key_code == code % 0x1_0000
                    &&& events[0]->Key_pressed
                    &&& flags_tell(events[0]->flags, modifiers_before)
                },
                InputEvent::KeyUp(code) => {
                    &&& events.len() == 1
                    &&& events[0] is Key
                    &&& events[0]->key_code == code % 0x1_0000
                    &&& !events[0]->Key_pressed
                    &&& flags_tell(events[0]->flags, modifiers_before)
                },
                InputEvent::Key { key_code, pressed, modifiers } => {
                    &&& events.len() > 0
                    &&& events.last() is Key
                    &&& events.last()->key_code == key_code
                    &&& events.last()->Key_pressed == pressed
                    &&& flags_tell(events.last()->flags, modifiers)
                    &&& events.drop_last() == events_for(
                        InputEvent::ModifiersChanged(modifiers),
                        buttons,
                        modifiers_before,
                        touch,
                    )
                },
                InputEvent::ModifiersChanged(modifiers) => {
                    &&& modifiers == modifiers_before ==> events.len() == 0
                    &&& events == modifier_events(modifiers_before, modifiers, 6)
                },
                _ => forall|i: int| 0 <= i < events.len() ==> !((#[trigger] events[i]) is Key),
            }
        }),
{
    match event {
        InputEvent::Key { key_code, pressed, modifiers } => {
            let events = events_for(event, buttons, modifiers_before, touch);
            assert(events.drop_last() =~= modifier_events(modifiers_before, modifiers, 6));
        },
        InputEvent::ModifiersChanged(modifiers) => {
            if modifiers == modifiers_before {
                lemma_modifier(Set::empty(), modifiers, modifiers, 0);
                lemma_modifier(Set::empty(), modifiers, modifiers, 1);
                lemma_modifier(Set::empty(), modifiers, modifiers, 2);
                lemma_modifier(Set::empty(), modifiers, modifiers, 3);
                lemma_modifier(Set::empty(), modifiers, modifiers, 4);
                lemma_modifier(Set::empty(), modifiers, modifiers, 5);
            }
        },
        _ => {},
    }
}

/// A motion as it is posted while `buttons` are held: a drag of the lowest button that is held, which
/// names the right one before the centre one before the left one.
pub open spec fn is_motion(input: MacInput, buttons: u8, target: PointerTarget) -> bool {
    &&& input is Motion
    &&& input->target == target
    &&& buttons & 0x01 != 0 ==> input->Motion_event == PointerEvent::LeftMouseDragged
    &&& buttons & 0x01 == 0 && buttons & 0x02 != 0 ==> input->Motion_event
        == PointerEvent::RightMouseDragged
    &&& buttons & 0x01 == 0 && buttons & 0x02 == 0 && buttons & 0x04 != 0 ==> input->Motion_event
        == PointerEvent::OtherMouseDragged
    &&& buttons & 0x01 == 0 && buttons & 0x02 == 0 && buttons & 0x04 == 0 ==> input->Motion_event
        == PointerEvent::MouseMoved
    &&& buttons & 0x02 != 0 ==> input->Motion_button == MouseButton::Right
    &&& buttons & 0x02 == 0 && buttons & 0x04 != 0 ==> input->Motion_button == MouseButton::Center
    &&& buttons & 0x02 == 0 && buttons & 0x04 == 0 ==> input->Motion_button == MouseButton::Left
}

/// A button as it is posted.
pub open spec fn is_press(input: MacInput, button: u8, pressed: bool) -> bool {
    &&& input is Button
    &&& input->number == button
    &&& input->Button_pressed == pressed
    &&& button == 0 ==> input->Button_button == MouseButton::Left && input->Button_event == (
    if pressed {
        PointerEvent::LeftMouseDown
    } else {
        PointerEvent::LeftMouseUp
    })
    &&& button == 1 ==> input->Button_button == MouseButton::Right && input->Button_event == (
    if pressed {
        PointerEvent::RightMouseDown
    } else {
        PointerEvent::RightMouseUp
    })
    &&& button == 2 ==> input->Button_button == MouseButton::Center && input->Button_event == (
    if pressed {
        PointerEvent::OtherMouseDown
    } else {
        PointerEvent::OtherMouseUp
    })
}

/// The pointer goes where the event says, the first three buttons are pressed and let go as it says
/// and no other is, and a wheel turns by what it says. A touch moves the pointer to where it is, and
/// holds the right button from when it comes down until it goes.
pub proof fn pointer_does_as_told(
    event: InputEvent,
    buttons: u8,
    modifiers_before: u8,
    touch: (u16, u16),
)
    ensures
        ({
            let events = events_for(event, buttons, modifiers_before, touch);
            match event {
                InputEvent::MouseMove { dx, dy } => events.len() == 1 && is_motion(
                    events[0],
                    buttons,
                    PointerTarget::By { dx, dy },
                ),
                InputEvent::MouseMoveAbsolute { x, y } => events.len() == 1 && is_motion(
                    events[0],
                    buttons,
                    PointerTarget::To { x, y },
                ),
                InputEvent::MouseDown(button) => if button <= 2 {
                    events.len() == 1 && is_press(events[0], button, true)
                } else {
                    events.len() == 0
                },
                InputEvent::MouseUp(button) => if button <= 2 {
                    events.len() == 1 && is_press(events[0], button, false)
                } else {
                    events.len() == 0
                },
                InputEvent::MouseScroll { delta_x, delta_y } => {
                    &&& events.len() == 1
                    &&& events[0] is Scroll
                    &&& events[0]->delta_x == delta_x
                    &&& events[0]->delta_y == delta_y
                },
                InputEvent::Touch { action, .. } => {
                    &&& events.len() >= 1
                    &&& is_motion(events[0], buttons, PointerTarget::To { x: touch.0, y: touch.1 })
                    &&& action == TouchAction::Down ==> events.len() == 2 && is_press(
                        events[1],
                        1,
                        true,
                    )
                    &&& action == TouchAction::Move ==> events.len() == 1
                    &&& action == TouchAction::Up || action == TouchAction::Cancel ==> events.len()
                        == 2 && is_press(events[1], 1, false)
                },
                _ => true,
            }
        }),
{
}

/// Of the first three buttons exactly those are let go that were held, the left one first.
pub proof fn held_buttons_are_let_go(buttons: u8)
    ensures
        ({
            let events = released_buttons(buttons);
            let left = buttons & 0x01 != 0;
            let right = buttons & 0x02 != 0;
            let center = buttons & 0x04 != 0;
            &&& events.len() == (if left {
                1int
            } else {
                0
            }) + (if right {
                1int
            } else {
                0
            }) + (if center {
                1int
            } else {
                0
            })
            &&& left ==> is_press(events[0], 0, false)
            &&& right ==> is_press(
                events[if left {
                    1int
                } else {
                    0
                }],
                1,
                false,
            )
            &&& center ==> is_press(events.last(), 2, false)
        }),
{
}

} // verus!
