//! The virtual device of the Linux input subsystem: how it is described, and its records as bytes on
//! a machine with words of eight bytes, the least significant byte first.
use crate::host::linux_input::{
    records, RawEvent, ABS_X, ABS_Y, BTN_EXTRA, BTN_LEFT, BTN_MIDDLE, BTN_RIGHT, BTN_SIDE, EV_ABS,
    EV_KEY, EV_REL, EV_SYN, REL_HWHEEL, REL_WHEEL, REL_X, REL_Y,
};
use crate::protocol::control::InputEvent;
use crate::wire::Wire;
use vstd::prelude::*;

verus! {

/// What the device is told that it has.
#[derive(Debug, Clone, Copy, PartialEq, Eq, Structural)]
pub enum DeviceBit {
    Event,
    Key,
    Relative,
    Absolute,
}

impl DeviceBit {
    /// The request that tells it.
    pub fn request(self) -> (r: u64)
        ensures
            r == (match self {
                DeviceBit::Event => 0x40045564u64,
                DeviceBit::Key => 0x40045565u64,
                DeviceBit::Relative => 0x40045566u64,
                DeviceBit::Absolute => 0x40045567u64,
            }),
    {
        match self {
            DeviceBit::Event => 0x40045564,
            DeviceBit::Key => 0x40045565,
            DeviceBit::Relative => 0x40045566,
            DeviceBit::Absolute => 0x40045567,
        }
    }
}

/// The request that makes the device.
pub const UI_DEV_CREATE: u64 = 0x5501;

/// The request that takes the device away.
pub const UI_DEV_DESTROY: u64 = 0x5502;

/// The keys of a keyboard.
pub open spec fn keyboard() -> Seq<(DeviceBit, u16)> {
    Seq::new(255, |i: int| (DeviceBit::Key, (i + 1) as u16))
}

/// All that the device has: a mouse with five buttons and two wheels, a keyboard, and a pointer that
/// can be put anywhere.
pub open spec fn abilities() -> Seq<(DeviceBit, u16)> {
    seq![
        (DeviceBit::Event, EV_SYN),
        (DeviceBit::Event, EV_KEY),
        (DeviceBit::Event, EV_REL),
        (DeviceBit::Event, EV_ABS),
        (DeviceBit::Key, BTN_LEFT),
        (DeviceBit::Key, BTN_RIGHT),
        (DeviceBit::Key, BTN_MIDDLE),
        (DeviceBit::Key, BTN_SIDE),
        (DeviceBit::Key, BTN_EXTRA),
    ] + keyboard() + seq![
        (DeviceBit::Relative, REL_X),
        (DeviceBit::Relative, REL_Y),
        (DeviceBit::Relative, REL_WHEEL),
        (DeviceBit::Relative, REL_HWHEEL),
        (DeviceBit::Absolute, ABS_X),
        (DeviceBit::Absolute, ABS_Y),
    ]
}

/// What to tell the device that it has, in this order.
pub fn device_setup() -> (r: Vec<(DeviceBit, u16)>)
    ensures
        r@ == abilities(),
{
    let mut out: Vec<(DeviceBit, u16)> = Vec::new();
    out.push((DeviceBit::Event, EV_SYN));
    out.push((DeviceBit::Event, EV_KEY));
    out.push((DeviceBit::Event, EV_REL));
    out.push((DeviceBit::Event, EV_ABS));
    out.push((DeviceBit::Key, BTN_LEFT));
    out.push((DeviceBit::Key, BTN_RIGHT));
    out.push((DeviceBit::Key, BTN_MIDDLE));
    out.push((DeviceBit::Key, BTN_SIDE));
    out.push((DeviceBit::Key, BTN_EXTRA));
    let ghost head = out@;
    let mut key: u16 = 1;
    while key <= 255
        invariant
            1 <= key <= 256,
            out@ == head + keyboard().take(key - 1),
        decreases 256 - key,
    {
        out.push((DeviceBit::Key, key));
        proof {
            assert(keyboard().take(key as int) =~= keyboard().take(key - 1).push(
                (DeviceBit::Key, key),
            ));
            assert(out@ =~= head + keyboard().take(key as int));
        }
        key += 1;
    }
    out.push((DeviceBit::Relative, REL_X));
    out.push((DeviceBit::Relative, REL_Y));
    out.push((DeviceBit::Relative, REL_WHEEL));
    out.push((DeviceBit::Relative, REL_HWHEEL));
    out.push((DeviceBit::Absolute, ABS_X));
    out.push((DeviceBit::Absolute, ABS_Y));
    proof {
        assert(keyboard().take(255) =~= keyboard());
        assert(out@ =~= abilities());
    }
    out
}

pub open spec fn zeros(n: nat) -> Seq<u8> {
    Seq::new(n, |i: int| 0u8)
}

fn put_zeros(out: &mut Vec<u8>, n: usize)
    ensures
        final(out)@ == old(out)@ + zeros(n as nat),
{
    let mut i: usize = 0;
    proof {
        assert(out@ =~= old(out)@ + zeros(0));
    }
    while i < n
        invariant
            i <= n,
            out@ == old(out)@ + zeros(i as nat),
        decreases n - i,
    {
        out.push(0);
        proof {
            assert(out@ =~= old(out)@ + zeros((i + 1) as nat));
        }
        i += 1;
    }
}

/// The name of the device, in ASCII.
pub open spec fn device_name() -> Seq<u8> {
    seq![
        0x52u8, 0x65, 0x6d, 0x6f, 0x74, 0x65, 0x50, 0x6c, 0x61, 0x79, 0x20, 0x56, 0x69, 0x72, 0x74,
        0x75, 0x61, 0x6c, 0x20, 0x43, 0x6f, 0x6e, 0x74, 0x72, 0x6f, 0x6c, 0x6c, 0x65, 0x72,
    ]
}

/// The largest values of the two axes, and nought for the other sixty-two.
pub open spec fn axis_limits() -> Seq<u8> {
    seq![0xffu8, 0xff, 0, 0, 0xff, 0xff, 0, 0] + zeros(248)
}

/// The description of the device: its name in eighty bytes, a bus of kind three with vendor, product
/// and version, no effects, and for the axes the largest values, the smallest, and twice nothing.
pub open spec fn description() -> Seq<u8> {
    device_name() + zeros(51) + seq![3u8, 0, 0x34, 0x12, 0x78, 0x56, 1, 0] + zeros(4)
        + axis_limits() + zeros(768)
}

/// The description of the device, to be written before it is made.
pub fn device_record() -> (r: Vec<u8>)
    ensures
        r@ == description(),
        r@.len() == 1116,
{
    let name: [u8; 29] = [
        0x52, 0x65, 0x6d, 0x6f, 0x74, 0x65, 0x50, 0x6c, 0x61, 0x79, 0x20, 0x56, 0x69, 0x72, 0x74,
        0x75, 0x61, 0x6c, 0x20, 0x43, 0x6f, 0x6e, 0x74, 0x72, 0x6f, 0x6c, 0x6c, 0x65, 0x72,
    ];
    let mut out: Vec<u8> = Vec::new();
    let mut i: usize = 0;
    while i < 29
        invariant
            i <= 29,
            out@ == name@.take(i as int),
        decreases 29 - i,
    {
        out.push(name[i]);
        proof {
            assert(out@ =~= name@.take(i + 1));
        }
        i += 1;
    }
    proof {
        assert(name@ =~= device_name());
        assert(name@.take(29) =~= name@);
    }
    put_zeros(&mut out, 51);
    let ghost named = out@;
    out.push(3);
    out.push(0);
    out.push(0x34);
    out.push(0x12);
    out.push(0x78);
    out.push(0x56);
    out.push(1);
    out.push(0);
    proof {
        assert(out@ =~= named + seq![3u8, 0, 0x34, 0x12, 0x78, 0x56, 1, 0]);
    }
    put_zeros(&mut out, 4);
    let ghost before = out@;
    out.push(0xff);
    out.push(0xff);
    out.push(0);
    out.push(0);
    out.push(0xff);
    out.push(0xff);
    out.push(0);
    out.push(0);
    put_zeros(&mut out, 248);
    proof {
        assert(out@ =~= before + axis_limits());
    }
    put_zeros(&mut out, 768);
    out
}

/// A record as the device takes it: no time, the type, the code and the value.
pub fn event_record(event: RawEvent) -> (r: Vec<u8>)
    ensures
        r@ == zeros(16) + u16::wire(event.ev_type) + u16::wire(event.code) + i32::wire(
            event.value,
        ),
{
    let mut out: Vec<u8> = Vec::new();
    put_zeros(&mut out, 16);
    proof {
        assert(out@ =~= zeros(16));
    }
    event.ev_type.put(&mut out);
    event.code.put(&mut out);
    event.value.put(&mut out);
    out
}

/// The device has announced whatever is ever written to it: every kind of record, every button and
/// key, and every axis.
pub proof fn whatever_is_written_was_announced(event: InputEvent, i: int)
    requires
        0 <= i < records(event).len(),
    ensures
        ({
            let record = records(event)[i];
            &&& abilities().contains((DeviceBit::Event, record.ev_type))
            &&& record.ev_type == 1 ==> abilities().contains((DeviceBit::Key, record.code))
            &&& record.ev_type == 2 ==> abilities().contains((DeviceBit::Relative, record.code))
            &&& record.ev_type == 3 ==> abilities().contains((DeviceBit::Absolute, record.code))
        }),
{
    let record = records(event)[i];
    let all = abilities();
    crate::host::linux_input::records_say_what_happened(event);
    assert(all[0] == (DeviceBit::Event, 0u16));
    assert(all[1] == (DeviceBit::Event, 1u16));
    assert(all[2] == (DeviceBit::Event, 2u16));
    assert(all[3] == (DeviceBit::Event, 3u16));
    assert(all[4] == (DeviceBit::Key, 0x110u16));
    assert(all[5] == (DeviceBit::Key, 0x111u16));
    assert(all[6] == (DeviceBit::Key, 0x112u16));
    assert(all[7] == (DeviceBit::Key, 0x113u16));
    assert(all[8] == (DeviceBit::Key, 0x114u16));
    assert(all[264] == (DeviceBit::Relative, 0u16));
    assert(all[265] == (DeviceBit::Relative, 1u16));
    assert(all[266] == (DeviceBit::Relative, 8u16));
    assert(all[267] == (DeviceBit::Relative, 6u16));
    assert(all[268] == (DeviceBit::Absolute, 0u16));
    assert(all[269] == (DeviceBit::Absolute, 1u16));
    if record.ev_type == 1 && record.code < 0x110 {
        assert(1 <= record.code <= 254);
        assert(all[8 + record.code] == keyboard()[record.code - 1]);
        assert(all[8 + record.code] == (DeviceBit::Key, record.code));
    }
}

/// The description of the device: its name, then what bus, maker, product and version it has, and in
/// the first table of limits how far both positions go.
pub proof fn devices_are_described_in_place()
    ensures
        description().len() == 1116,
        description()[0] == 'R' as u8 && description()[10] == ' ' as u8,
        description()[29] == 0,
        description()[80] == 3 && description()[81] == 0,
        description()[82] + 256 * description()[83] == 0x1234,
        description()[84] + 256 * description()[85] == 0x5678,
        description()[86] == 1 && description()[87] == 0,
        description()[92] + 256 * description()[93] == 65535,
        description()[94] == 0 && description()[95] == 0,
        description()[96] + 256 * description()[97] == 65535,
        description()[98] == 0 && description()[99] == 0,
        forall|i: int| 100 <= i < 1116 ==> #[trigger] description()[i] == 0,
{
}

} // verus!
