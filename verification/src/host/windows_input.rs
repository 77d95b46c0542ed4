//! Input events as Windows takes them.
use crate::host::input::{ascending, KeySet};
use crate::host::windows_keymap::{mac_key_to_vk, virtual_key};
use crate::protocol::control::InputEvent;
use crate::protocol::input_modifiers::{ALT, CONTROL, META, SHIFT};
use vstd::prelude::*;

verus! {

pub const MOUSEEVENTF_MOVE: u32 = 0x0001;

pub const MOUSEEVENTF_LEFTDOWN: u32 = 0x0002;

pub const MOUSEEVENTF_LEFTUP: u32 = 0x0004;

pub const MOUSEEVENTF_RIGHTDOWN: u32 = 0x0008;

pub const MOUSEEVENTF_RIGHTUP: u32 = 0x0010;

pub const MOUSEEVENTF_MIDDLEDOWN: u32 = 0x0020;

pub const MOUSEEVENTF_MIDDLEUP: u32 = 0x0040;

pub const MOUSEEVENTF_WHEEL: u32 = 0x0800;

/// `MOUSEEVENTF_MOVE` together with `MOUSEEVENTF_ABSOLUTE`.
pub const MOUSEEVENTF_MOVE_ABSOLUTE: u32 = 0x8001;

pub const KEYEVENTF_EXTENDEDKEY: u32 = 0x0001;

pub const KEYEVENTF_KEYUP: u32 = 0x0002;

/// One record for `SendInput`.
#[derive(Debug, Clone, Copy, PartialEq, Eq, Structural)]
pub enum WindowsInput {
    Mouse { flags: u32, dx: i32, dy: i32, data: u32 },
    Keyboard { vk: u16, flags: u32 },
}

/// The keys that a keyboard has twice, in the place where they are marked.
pub open spec fn is_extended(vk: u16) -> bool {
    0x21 <= vk <= 0x28 || vk == 0x2D || vk == 0x2E || vk == 0x5B || vk == 0x5C || vk == 0xA3 || vk
        == 0xA5
}

/// The record of a key that goes down or up.
pub open spec fn key_record(vk: u16, pressed: bool) -> WindowsInput {
    WindowsInput::Keyboard {
        vk,
        flags: ((if pressed {
            0int
        } else {
            KEYEVENTF_KEYUP as int
        }) + (if is_extended(vk) {
            KEYEVENTF_EXTENDEDKEY as int
        } else {
            0
        })) as u32,
    }
}

fn key_input(vk: u16, pressed: bool) -> (r: WindowsInput)
    ensures
        r == key_record(vk, pressed),
{
    let extended = (0x21 <= vk && vk <= 0x28) || vk == 0x2D || vk == 0x2E || vk == 0x5B || vk
        == 0x5C || vk == 0xA3 || vk == 0xA5;
    let up: u32 = if pressed {
        0
    } else {
        KEYEVENTF_KEYUP
    };
    let mark: u32 = if extended {
        KEYEVENTF_EXTENDEDKEY
    } else {
        0
    };
    WindowsInput::Keyboard { vk, flags: up + mark }
}

/// A record of the mouse that moves nothing.
pub open spec fn click(flags: u32) -> WindowsInput {
    WindowsInput::Mouse { flags, dx: 0, dy: 0, data: 0 }
}

/// What a button does, if it is one of the three.
pub open spec fn button_flags(button: u8, down: bool) -> Option<u32> {
    match (button, down) {
        (0, true) => Some(MOUSEEVENTF_LEFTDOWN),
        (0, false) => Some(MOUSEEVENTF_LEFTUP),
        (1, true) => Some(MOUSEEVENTF_RIGHTDOWN),
        (1, false) => Some(MOUSEEVENTF_RIGHTUP),
        (2, true) => Some(MOUSEEVENTF_MIDDLEDOWN),
        (2, false) => Some(MOUSEEVENTF_MIDDLEUP),
        _ => None,
    }
}

fn flags_of(button: u8, down: bool) -> (r: Option<u32>)
    ensures
        r == button_flags(button, down),
{
    match (button, down) {
        (0, true) => Some(MOUSEEVENTF_LEFTDOWN),
        (0, false) => Some(MOUSEEVENTF_LEFTUP),
        (1, true) => Some(MOUSEEVENTF_RIGHTDOWN),
        (1, false) => Some(MOUSEEVENTF_RIGHTUP),
        (2, true) => Some(MOUSEEVENTF_MIDDLEDOWN),
        (2, false) => Some(MOUSEEVENTF_MIDDLEUP),
        _ => None,
    }
}

/// The modifiers that have a key here, and the key.
pub open spec fn modifier_keys() -> Seq<(u8, u16)> {
    seq![(SHIFT, 0xA0u16), (CONTROL, 0xA2u16), (ALT, 0xA4u16), (META, 0x5Bu16)]
}

/// The keys among the first `n` modifiers that change, each with whether it goes down.
pub open spec fn modifier_changes(previous: u8, modifiers: u8, n: int) -> Seq<(u16, bool)>
    decreases n,
{
    if n <= 0 {
        Seq::empty()
    } else {
        let (flag, vk) = modifier_keys()[n - 1];
        let before = modifier_changes(previous, modifiers, n - 1);
        if (previous & flag != 0) != (modifiers & flag != 0) {
            before.push((vk, modifiers & flag != 0))
        } else {
            before
        }
    }
}

/// The keys that are held after some went down or up.
pub open spec fn after_keys(held: Set<u16>, changes: Seq<(u16, bool)>) -> Set<u16>
    decreases changes.len(),
{
    if changes.len() == 0 {
        held
    } else {
        let (vk, pressed) = changes.last();
        let before = after_keys(held, changes.drop_last());
        if pressed {
            before.insert(vk)
        } else {
            before.remove(vk)
        }
    }
}

pub open spec fn key_records(changes: Seq<(u16, bool)>) -> Seq<WindowsInput> {
    changes.map_values(|c: (u16, bool)| key_record(c.0, c.1))
}

/// The keys that an event moves: first the modifiers that it changes, then its own.
pub open spec fn key_changes(event: InputEvent, modifiers_before: u8) -> Seq<(u16, bool)> {
    match event {
        InputEvent::Key { key_code, pressed, modifiers } => {
            let changes = modifier_changes(modifiers_before, modifiers, 4);
            match virtual_key(key_code) {
                Some(vk) => changes.push((vk, pressed)),
                None => changes,
            }
        },
        InputEvent::KeyDown(code) => seq![((code % 0x1_0000) as u16, true)],
        InputEvent::KeyUp(code) => seq![((code % 0x1_0000) as u16, false)],
        InputEvent::ModifiersChanged(modifiers) => modifier_changes(
            modifiers_before,
            modifiers,
            4,
        ),
        _ => Seq::empty(),
    }
}

/// What the mouse does at an event, on a screen of that size.
pub open spec fn mouse_records(event: InputEvent, screen_w: int, screen_h: int) -> Seq<
    WindowsInput,
> {
    match event {
        InputEvent::MouseMove { dx, dy } => seq![
            WindowsInput::Mouse { flags: MOUSEEVENTF_MOVE, dx, dy, data: 0 },
        ],
        InputEvent::MouseMoveAbsolute { x, y } => seq![
            WindowsInput::Mouse {
                flags: MOUSEEVENTF_MOVE_ABSOLUTE,
                dx: ((x * 65535) as int / screen_w) as i32,
                dy: ((y * 65535) as int / screen_h) as i32,
                data: 0,
            },
        ],
        InputEvent::MouseDown(button) => match button_flags(button, true) {
            Some(flags) => seq![click(flags)],
            None => Seq::empty(),
        },
        InputEvent::MouseUp(button) => match button_flags(button, false) {
            Some(flags) => seq![click(flags)],
            None => Seq::empty(),
        },
        InputEvent::MouseScroll { delta_y, .. } => seq![
            WindowsInput::Mouse {
                flags: MOUSEEVENTF_WHEEL,
                dx: 0,
                dy: 0,
                data: ((delta_y * 120) % 0x1_0000_0000) as u32,
            },
        ],
        _ => Seq::empty(),
    }
}

/// A screen is at least one pixel wide.
pub open spec fn at_least_one(n: i32) -> int {
    if n < 1 {
        1
    } else {
        n as int
    }
}

/// What is held down.
#[derive(Debug)]
pub struct WindowsInputInjector {
    pressed: u8,
    modifiers: u8,
    pressed_keys: KeySet,
}

impl WindowsInputInjector {
    /// The buttons that are held, one bit each.
    pub closed spec fn buttons(&self) -> u8 {
        self.pressed
    }

    pub closed spec fn modifiers(&self) -> u8 {
        self.modifiers
    }

    /// The keys that are held.
    pub closed spec fn keys(&self) -> Set<u16> {
        self.pressed_keys@
    }

    pub fn new() -> (r: Self)
        ensures
            r.buttons() == 0,
            r.modifiers() == 0,
            r.keys() == Set::<u16>::empty(),
    {
        WindowsInputInjector { pressed: 0, modifiers: 0, pressed_keys: KeySet::new() }
    }

    fn post_key(
        &mut self,
        vk: u16,
        pressed: bool,
        out: &mut Vec<WindowsInput>,
        Ghost(changes): Ghost<Seq<(u16, bool)>>,
        Ghost(held): Ghost<Set<u16>>,
    )
        requires
            old(out)@ == key_records(changes),
            old(self).keys() == after_keys(held, changes),
        ensures
            final(out)@ == key_records(changes.push((vk, pressed))),
            final(self).keys() == after_keys(held, changes.push((vk, pressed))),
            final(self).buttons() == old(self).buttons(),
            final(self).modifiers() == old(self).modifiers(),
    {
        out.push(key_input(vk, pressed));
        if pressed {
            self.pressed_keys.insert(vk);
        } else {
            self.pressed_keys.remove(vk);
        }
        proof {
            let more = changes.push((vk, pressed));
            assert(more.drop_last() =~= changes);
            assert(more.last() == (vk, pressed));
            assert(out@ =~= key_records(more));
        }
    }

    fn set_modifier(
        &mut self,
        flag: u8,
        vk: u16,
        previous: u8,
        modifiers: u8,
        out: &mut Vec<WindowsInput>,
        Ghost(n): Ghost<int>,
        Ghost(held): Ghost<Set<u16>>,
    )
        requires
            0 <= n < 4,
            modifier_keys()[n] == (flag, vk),
            old(out)@ == key_records(modifier_changes(previous, modifiers, n)),
            old(self).keys() == after_keys(held, modifier_changes(previous, modifiers, n)),
        ensures
            final(out)@ == key_records(modifier_changes(previous, modifiers, n + 1)),
            final(self).keys() == after_keys(held, modifier_changes(previous, modifiers, n + 1)),
            final(self).buttons() == old(self).buttons(),
            final(self).modifiers() == old(self).modifiers(),
    {
        let before = previous & flag != 0;
        let now = modifiers & flag != 0;
        if before != now {
            self.post_key(
                vk,
                now,
                out,
                Ghost(modifier_changes(previous, modifiers, n)),
                Ghost(held),
            );
        }
    }

    fn set_modifiers(&mut self, modifiers: u8) -> (out: Vec<WindowsInput>)
        ensures
            out@ == key_records(modifier_changes(old(self).modifiers(), modifiers, 4)),
            final(self).keys() == after_keys(
                old(self).keys(),
                modifier_changes(old(self).modifiers(), modifiers, 4),
            ),
            final(self).buttons() == old(self).buttons(),
            final(self).modifiers() == modifiers,
    {
        let previous: u8 = self.modifiers;
        let ghost held = self.keys();
        self.modifiers = modifiers;
        let mut out: Vec<WindowsInput> = Vec::new();
        proof {
            assert(out@ =~= key_records(modifier_changes(previous, modifiers, 0)));
        }
        self.set_modifier(SHIFT, 0xA0, previous, modifiers, &mut out, Ghost(0), Ghost(held));
        self.set_modifier(CONTROL, 0xA2, previous, modifiers, &mut out, Ghost(1), Ghost(held));
        self.set_modifier(ALT, 0xA4, previous, modifiers, &mut out, Ghost(2), Ghost(held));
        self.set_modifier(META, 0x5B, previous, modifiers, &mut out, Ghost(3), Ghost(held));
        out
    }

    /// Notes what an event holds down or lets go, and writes it as records for a screen of that
    /// size.
    pub fn inject_input(&mut self, event: InputEvent, screen_w: i32, screen_h: i32) -> (r: Vec<
        WindowsInput,
    >)
        requires
            match event {
                InputEvent::MouseMoveAbsolute { x, y } => x * 65535 <= i32::MAX && y * 65535
                    <= i32::MAX,
                InputEvent::MouseScroll { delta_y, .. } => i32::MIN <= delta_y * 120 <= i32::MAX,
                _ => true,
            },
        ensures
            r@ == mouse_records(event, at_least_one(screen_w), at_least_one(screen_h))
                + key_records(key_changes(event, old(self).modifiers())),
            final(self).keys() == after_keys(
                old(self).keys(),
                key_changes(event, old(self).modifiers()),
            ),
            final(self).modifiers() == (match event {
                InputEvent::Key { modifiers, .. } => modifiers,
                InputEvent::ModifiersChanged(modifiers) => modifiers,
                _ => old(self).modifiers(),
            }),
            final(self).buttons() == (match event {
                InputEvent::MouseDown(button) => if button < 3 {
                    old(self).buttons() | (1u8 << button)
                } else {
                    old(self).buttons()
                },
                InputEvent::MouseUp(button) => if button < 3 {
                    old(self).buttons() & !(1u8 << button)
                } else {
                    old(self).buttons()
                },
                _ => old(self).buttons(),
            }),
    {
        let mut out: Vec<WindowsInput> = Vec::new();
        let ghost held = self.keys();
        let ghost none: Seq<(u16, bool)> = Seq::empty();
        proof {
            assert(out@ =~= key_records(none));
            assert(after_keys(held, none) == held);
        }
        match event {
            InputEvent::MouseMove { dx, dy } => {
                out.push(WindowsInput::Mouse { flags: MOUSEEVENTF_MOVE, dx, dy, data: 0 });
            },
            InputEvent::MouseMoveAbsolute { x, y } => {
                let w: i32 = if screen_w < 1 {
                    1
                } else {
                    screen_w
                };
                let h: i32 = if screen_h < 1 {
                    1
                } else {
                    screen_h
                };
                proof {
                    lemma_quotient_fits((x * 65535) as int, w as int);
                    lemma_quotient_fits((y * 65535) as int, h as int);
                }
                out.push(
                    WindowsInput::Mouse {
                        flags: MOUSEEVENTF_MOVE_ABSOLUTE,
                        dx: (x as i32 * 65535) / w,
                        dy: (y as i32 * 65535) / h,
                        data: 0,
                    },
                );
            },
            InputEvent::MouseDown(button) => {
                if let Some(flags) = flags_of(button, true) {
                    out.push(WindowsInput::Mouse { flags, dx: 0, dy: 0, data: 0 });
                    self.pressed = self.pressed | (1u8 << button);
                }
            },
            InputEvent::MouseUp(button) => {
                if let Some(flags) = flags_of(button, false) {
                    out.push(WindowsInput::Mouse { flags, dx: 0, dy: 0, data: 0 });
                    self.pressed = self.pressed & !(1u8 << button);
                }
            },
            InputEvent::MouseScroll { delta_x: _, delta_y } => {
                let turned: i64 = delta_y as i64 * 120;
                let data: u32 = if turned < 0 {
                    (turned + 0x1_0000_0000) as u32
                } else {
                    turned as u32
                };
                out.push(WindowsInput::Mouse { flags: MOUSEEVENTF_WHEEL, dx: 0, dy: 0, data });
            },
            InputEvent::Key { key_code, pressed, modifiers } => {
                let ghost changes = modifier_changes(self.modifiers(), modifiers, 4);
                out = self.set_modifiers(modifiers);
                if let Some(vk) = mac_key_to_vk(key_code) {
                    self.post_key(vk, pressed, &mut out, Ghost(changes), Ghost(held));
                }
            },
            InputEvent::KeyDown(code) => {
                let vk: u16 = (code % 0x1_0000) as u16;
                self.post_key(vk, true, &mut out, Ghost(none), Ghost(held));
                proof {
                    assert(none.push((vk, true)) =~= seq![(vk, true)]);
                }
            },
            InputEvent::KeyUp(code) => {
                let vk: u16 = (code % 0x1_0000) as u16;
                self.post_key(vk, false, &mut out, Ghost(none), Ghost(held));
                proof {
                    assert(none.push((vk, false)) =~= seq![(vk, false)]);
                }
            },
            InputEvent::ModifiersChanged(modifiers) => {
                out = self.set_modifiers(modifiers);
            },
            InputEvent::Touch { .. } => {},
        }
        proof {
            let mouse = mouse_records(event, at_least_one(screen_w), at_least_one(screen_h));
            let keys = key_records(key_changes(event, old(self).modifiers()));
            assert(out@ =~= mouse + keys);
        }
        out
    }

    /// Lets everything go: keys in ascending order, then the three buttons.
    pub fn release_all_input(&mut self) -> (r: Vec<WindowsInput>)
        ensures
            final(self).buttons() == 0,
            final(self).modifiers() == 0,
            final(self).keys() == Set::<u16>::empty(),
            exists|keys: Seq<u16>|
                {
                    &&& #[trigger] ascending(keys)
                    &&& keys.to_set() == old(self).keys()
                    &&& r@ == keys.map_values(|vk: u16| key_record(vk, false)) + seq![
                        click(MOUSEEVENTF_LEFTUP),
                        click(MOUSEEVENTF_RIGHTUP),
                        click(MOUSEEVENTF_MIDDLEUP),
                    ]
                },
    {
        self.modifiers = 0;
        let keys = self.pressed_keys.take_all();
        let mut out: Vec<WindowsInput> = Vec::new();
        let mut i: usize = 0;
        while i < keys.len()
            invariant
                i <= keys@.len(),
                out@ == keys@.take(i as int).map_values(|vk: u16| key_record(vk, false)),
            decreases keys.len() - i,
        {
            out.push(key_input(keys[i], false));
            proof {
                assert(out@ =~= keys@.take(i + 1).map_values(|vk: u16| key_record(vk, false)));
            }
            i += 1;
        }
        self.pressed = 0;
        out.push(WindowsInput::Mouse { flags: MOUSEEVENTF_LEFTUP, dx: 0, dy: 0, data: 0 });
        out.push(WindowsInput::Mouse { flags: MOUSEEVENTF_RIGHTUP, dx: 0, dy: 0, data: 0 });
        out.push(WindowsInput::Mouse { flags: MOUSEEVENTF_MIDDLEUP, dx: 0, dy: 0, data: 0 });
        proof {
            assert(keys@.take(keys@.len() as int) =~= keys@);
            assert(ascending(keys@));
            assert(out@ =~= keys@.map_values(|vk: u16| key_record(vk, false)) + seq![
                click(MOUSEEVENTF_LEFTUP),
                click(MOUSEEVENTF_RIGHTUP),
                click(MOUSEEVENTF_MIDDLEUP),
            ]);
        }
        out
    }
}

proof fn lemma_quotient_fits(n: int, d: int)
    requires
        0 <= n <= i32::MAX,
        d >= 1,
    ensures
        0 <= n / d <= i32::MAX,
{
    assert(0 <= n / d <= n) by (nonlinear_arith)
        requires
            n >= 0,
            d >= 1,
    ;
}

/// What a machine that held `down` holds after `records`: a key record presses its key, unless it
/// is marked as one that lets it go.
pub open spec fn held_after(down: Set<u16>, records: Seq<WindowsInput>) -> Set<u16>
    decreases records.len(),
{
    if records.len() == 0 {
        down
    } else {
        let before = held_after(down, records.drop_last());
        match records.last() {
            WindowsInput::Keyboard { vk, flags } => if flags == 0 || flags == 1 {
                before.insert(vk)
            } else if flags == 2 || flags == 3 {
                before.remove(vk)
            } else {
                before
            },
            WindowsInput::Mouse { .. } => before,
        }
    }
}

/// A key record names its key, is marked as a release by its second bit, and by its first if the key
/// is one of those that a keyboard has twice: the arrows and the keys around them, the keys with the
/// logo, and the control and alternate keys on the right.
pub proof fn key_records_are_marked(vk: u16, pressed: bool)
    ensures
        ({
            let twice = (0x21 <= vk <= 0x28) || vk == 0x2D || vk == 0x2E || vk == 0x5B || vk == 0x5C
                || vk == 0xA3 || vk == 0xA5;
            &&& pressed && !twice ==> key_record(vk, pressed) == (WindowsInput::Keyboard {
                vk,
                flags: 0,
            })
            &&& pressed && twice ==> key_record(vk, pressed) == (WindowsInput::Keyboard {
                vk,
                flags: 1,
            })
            &&& !pressed && !twice ==> key_record(vk, pressed) == (WindowsInput::Keyboard {
                vk,
                flags: 2,
            })
            &&& !pressed && twice ==> key_record(vk, pressed) == (WindowsInput::Keyboard {
                vk,
                flags: 3,
            })
        }),
{
}

proof fn lemma_held_after(down: Set<u16>, mouse: Seq<WindowsInput>, changes: Seq<(u16, bool)>)
    requires
        forall|i: int| 0 <= i < mouse.len() ==> (#[trigger] mouse[i]) is Mouse,
    ensures
        held_after(down, mouse + key_records(changes)) == after_keys(down, changes),
    decreases mouse.len() + changes.len(),
{
    let all = mouse + key_records(changes);
    if changes.len() > 0 {
        let less = changes.drop_last();
        lemma_held_after(down, mouse, less);
        assert(all.drop_last() =~= mouse + key_records(less));
        assert(all.last() == key_record(changes.last().0, changes.last().1));
        key_records_are_marked(changes.last().0, changes.last().1);
    } else if mouse.len() > 0 {
        let less = mouse.drop_last();
        assert forall|i: int| 0 <= i < less.len() implies (#[trigger] less[i]) is Mouse by {
            assert(less[i] == mouse[i]);
        }
        lemma_held_after(down, less, changes);
        assert(all.drop_last() =~= less + key_records(changes));
        assert(all.last() == mouse[mouse.len() - 1]);
    } else {
        assert(all =~= Seq::<WindowsInput>::empty());
    }
}

/// A machine that held the keys that were held before an event holds, once it was given the event's
/// records, those that are held after it.
pub proof fn records_say_which_keys_are_held(
    keys: Set<u16>,
    modifiers: u8,
    event: InputEvent,
    screen_w: int,
    screen_h: int,
)
    ensures
        held_after(
            keys,
            mouse_records(event, screen_w, screen_h) + key_records(key_changes(event, modifiers)),
        ) == after_keys(keys, key_changes(event, modifiers)),
{
    lemma_held_after(
        keys,
        mouse_records(event, screen_w, screen_h),
        key_changes(event, modifiers),
    );
}

/// The keys of the modifiers are held exactly as the bits say: shift by the first, control by the
/// second, alternate by the third, the key with the logo by the fourth.
pub open spec fn modifiers_held(keys: Set<u16>, modifiers: u8) -> bool {
    &&& keys.contains(0xA0) == (modifiers & 0x01 != 0)
    &&& keys.contains(0xA2) == (modifiers & 0x02 != 0)
    &&& keys.contains(0xA4) == (modifiers & 0x04 != 0)
    &&& keys.contains(0x5B) == (modifiers & 0x08 != 0)
}

proof fn lemma_modifier(keys: Set<u16>, previous: u8, modifiers: u8, n: int)
    requires
        0 <= n < 4,
    ensures
        ({
            let (flag, vk) = modifier_keys()[n];
            let before = after_keys(keys, modifier_changes(previous, modifiers, n));
            let after = after_keys(keys, modifier_changes(previous, modifiers, n + 1));
            let was = previous & flag != 0;
            let now = modifiers & flag != 0;
            &&& was == now ==> after == before && modifier_changes(previous, modifiers, n + 1)
                == modifier_changes(previous, modifiers, n)
            &&& was != now && now ==> after == before.insert(vk)
            &&& was != now && !now ==> after == before.remove(vk)
        }),
{
    let (flag, vk) = modifier_keys()[n];
    let changes = modifier_changes(previous, modifiers, n);
    let now = modifiers & flag != 0;
    if (previous & flag != 0) != now {
        assert(modifier_changes(previous, modifiers, n + 1) == changes.push((vk, now)));
        assert(changes.push((vk, now)).drop_last() =~= changes);
        assert(changes.push((vk, now)).last() == (vk, now));
    }
}

proof fn lemma_modifiers(keys: Set<u16>, previous: u8, modifiers: u8)
    requires
        modifiers_held(keys, previous),
    ensures
        ({
            let changes = modifier_changes(previous, modifiers, 4);
            let after = after_keys(keys, changes);
            &&& modifiers_held(after, modifiers)
            &&& forall|vk: u16|
                vk != 0xA0 && vk != 0xA2 && vk != 0xA4 && vk != 0x5B ==> #[trigger] after.contains(vk)
                    == keys.contains(vk)
            &&& previous == modifiers ==> changes.len() == 0
        }),
{
    lemma_modifier(keys, previous, modifiers, 0);
    lemma_modifier(keys, previous, modifiers, 1);
    lemma_modifier(keys, previous, modifiers, 2);
    lemma_modifier(keys, previous, modifiers, 3);
    assert(modifier_changes(previous, modifiers, 0).len() == 0);
    assert(after_keys(keys, modifier_changes(previous, modifiers, 0)) == keys);
    assert(modifier_keys()[0] == (0x01u8, 0xA0u16));
    assert(modifier_keys()[1] == (0x02u8, 0xA2u16));
    assert(modifier_keys()[2] == (0x04u8, 0xA4u16));
    assert(modifier_keys()[3] == (0x08u8, 0x5Bu16));
}

/// If the keys of the modifiers were held as told before, they are held as told afterwards; no other
/// key is touched by that. An event's own key is then held exactly if the event pressed it.
pub proof fn modifiers_are_held_as_told(keys: Set<u16>, previous: u8, event: InputEvent, vk: u16)
    requires
        modifiers_held(keys, previous),
    ensures
        ({
            let after = after_keys(keys, key_changes(event, previous));
            let free = vk != 0xA0 && vk != 0xA2 && vk != 0xA4 && vk != 0x5B;
            match event {
                InputEvent::ModifiersChanged(modifiers) => {
                    &&& modifiers_held(after, modifiers)
                    &&& free ==> after.contains(vk) == keys.contains(vk)
                },
                InputEvent::Key { key_code, pressed, modifiers } => match virtual_key(key_code) {
                    Some(own) => {
                        &&& after.contains(own) == pressed
                        &&& free && vk != own ==> after.contains(vk) == keys.contains(vk)
                        &&& own != 0xA0 && own != 0xA2 && own != 0xA4 && own != 0x5B
                            ==> modifiers_held(after, modifiers)
                    },
                    None => {
                        &&& modifiers_held(after, modifiers)
                        &&& free ==> after.contains(vk) == keys.contains(vk)
                    },
                },
                InputEvent::KeyDown(code) => after.contains(vk) == (vk == code % 0x1_0000
                    || keys.contains(vk)),
                InputEvent::KeyUp(code) => after.contains(vk) == (vk != code % 0x1_0000
                    && keys.contains(vk)),
                _ => after == keys,
            }
        }),
{
    match event {
        InputEvent::ModifiersChanged(modifiers) => {
            lemma_modifiers(keys, previous, modifiers);
        },
        InputEvent::Key { key_code, pressed, modifiers } => {
            lemma_modifiers(keys, previous, modifiers);
            let changes = modifier_changes(previous, modifiers, 4);
            match virtual_key(key_code) {
                Some(own) => {
                    assert(changes.push((own, pressed)).drop_last() =~= changes);
                },
                None => {},
            }
        },
        InputEvent::KeyDown(code) => {
            let one = seq![((code % 0x1_0000) as u16, true)];
            assert(one.drop_last() =~= Seq::<(u16, bool)>::empty());
            reveal_with_fuel(after_keys, 2);
        },
        InputEvent::KeyUp(code) => {
            let one = seq![((code % 0x1_0000) as u16, false)];
            assert(one.drop_last() =~= Seq::<(u16, bool)>::empty());
            reveal_with_fuel(after_keys, 2);
        },
        _ => {},
    }
}

/// What is written of the mouse: a motion as it is, a position scaled to the screen, the bit of the
/// one button that goes down or up, and the turn of the wheel in hundred-and-twentieths.
pub proof fn mouse_records_say_what_happened(event: InputEvent, screen_w: int, screen_h: int)
    requires
        screen_w >= 1,
        screen_h >= 1,
    ensures
        ({
            let records = mouse_records(event, screen_w, screen_h);
            let one = |flags: u32, dx: int, dy: int, data: int|
                {
                    &&& records.len() == 1
                    &&& records[0] is Mouse
                    &&& records[0]->Mouse_flags == flags
                    &&& records[0]->dx == dx
                    &&& records[0]->dy == dy
                    &&& records[0]->data == data
                };
            match event {
                InputEvent::MouseMove { dx, dy } => one(0x0001, dx as int, dy as int, 0),
                InputEvent::MouseMoveAbsolute { x, y } => {
                    x * 65535 <= i32::MAX && y * 65535 <= i32::MAX ==> one(
                        0x8001,
                        (x * 65535) as int / screen_w,
                        (y * 65535) as int / screen_h,
                        0,
                    )
                },
                InputEvent::MouseDown(button) => {
                    &&& button == 0 ==> one(0x0002, 0, 0, 0)
                    &&& button == 1 ==> one(0x0008, 0, 0, 0)
                    &&& button == 2 ==> one(0x0020, 0, 0, 0)
                    &&& button > 2 ==> records.len() == 0
                },
                InputEvent::MouseUp(button) => {
                    &&& button == 0 ==> one(0x0004, 0, 0, 0)
                    &&& button == 1 ==> one(0x0010, 0, 0, 0)
                    &&& button == 2 ==> one(0x0040, 0, 0, 0)
                    &&& button > 2 ==> records.len() == 0
                },
                InputEvent::MouseScroll { delta_y, .. } => {
                    &&& 0 <= delta_y * 120 <= i32::MAX ==> one(0x0800, 0, 0, delta_y * 120)
                    &&& i32::MIN <= delta_y * 120 < 0 ==> one(
                        0x0800,
                        0,
                        0,
                        0x1_0000_0000 + delta_y * 120,
                    )
                },
                _ => records.len() == 0,
            }
        }),
{
    match event {
        InputEvent::MouseMoveAbsolute { x, y } => {
            if x * 65535 <= i32::MAX && y * 65535 <= i32::MAX {
                lemma_quotient_fits((x * 65535) as int, screen_w);
                lemma_quotient_fits((y * 65535) as int, screen_h);
            }
        },
        _ => {},
    }
}

/// A screen is taken to be as large as it is told, but no smaller than one pixel.
pub proof fn screens_have_a_pixel(n: i32)
    ensures
        n >= 1 ==> at_least_one(n) == n,
        n < 1 ==> at_least_one(n) == 1,
{
}

} // verus!
