//! The bytes of RTP packets and control messages.
use crate::protocol::audio::AudioControlTarget;
use crate::protocol::codec::session::Command;
use crate::protocol::control::{ControlMessage, InputEvent, RtpHeader, RtpPacket, TouchAction};
use crate::protocol::session::SessionCommand;
use crate::wire::{
    begins, decode, encode, lemma_after_number, lemma_append, lemma_none_begins,
    lemma_rest_begins, put_bytes, put_number, reads, take_numbered, Bytes, Numbered, Wire,
    WireError,
};
use vstd::prelude::*;

verus! {

impl Numbered for TouchAction {
    open spec fn number(self) -> u32 {
        match self {
            TouchAction::Down => 0,
            TouchAction::Move => 1,
            TouchAction::Up => 2,
            TouchAction::Cancel => 3,
        }
    }

    proof fn told_apart(a: Self, b: Self) {
    }

    fn to_number(self) -> (r: u32) {
        match self {
            TouchAction::Down => 0,
            TouchAction::Move => 1,
            TouchAction::Up => 2,
            TouchAction::Cancel => 3,
        }
    }

    fn from_number(number: u32) -> (r: Option<Self>) {
        match number {
            0 => Some(TouchAction::Down),
            1 => Some(TouchAction::Move),
            2 => Some(TouchAction::Up),
            3 => Some(TouchAction::Cancel),
            _ => None,
        }
    }
}

impl Wire for TouchAction {
    type Model = TouchAction;

    open spec fn model(&self) -> TouchAction {
        *self
    }

    open spec fn fits(m: TouchAction) -> bool {
        true
    }

    open spec fn wire(m: TouchAction) -> Seq<u8> {
        u32::wire(m.number())
    }

    proof fn unique(a: TouchAction, b: TouchAction, s: Seq<u8>, t: Seq<u8>) {
        u32::unique(a.number(), b.number(), s, t);
        TouchAction::told_apart(a, b);
    }

    fn put(&self, out: &mut Vec<u8>) {
        self.to_number().put(out);
    }

    fn take(data: &[u8], from: usize) -> (r: Result<(TouchAction, usize), WireError>) {
        take_numbered::<TouchAction>(data, from)
    }
}

/// The fields of `RtpHeader`, in the order in which they are sent.
pub type RtpHeaderFields = (u8, (u8, (u16, (u32, u32))));

impl RtpHeader {
    pub open spec fn parts(m: RtpHeader) -> <RtpHeaderFields as Wire>::Model {
        (m.version, (m.payload_type, (m.sequence_number, (m.timestamp, m.ssrc))))
    }
}

impl Wire for RtpHeader {
    type Model = RtpHeader;

    open spec fn model(&self) -> RtpHeader {
        *self
    }

    open spec fn fits(m: RtpHeader) -> bool {
        RtpHeaderFields::fits(Self::parts(m))
    }

    open spec fn wire(m: RtpHeader) -> Seq<u8> {
        RtpHeaderFields::wire(Self::parts(m))
    }

    proof fn unique(a: RtpHeader, b: RtpHeader, s: Seq<u8>, t: Seq<u8>) {
        RtpHeaderFields::unique(Self::parts(a), Self::parts(b), s, t);
    }

    fn put(&self, out: &mut Vec<u8>) {
        let ghost s0 = out@;
        self.version.put(out);
        let ghost s1 = out@;
        self.payload_type.put(out);
        let ghost s2 = out@;
        self.sequence_number.put(out);
        let ghost s3 = out@;
        self.timestamp.put(out);
        self.ssrc.put(out);
        proof {
            let row = u32::wire(self.ssrc.model());
            lemma_append(s3, u32::wire(self.timestamp.model()), row);
            let row = u32::wire(self.timestamp.model()) + row;
            lemma_append(s2, u16::wire(self.sequence_number.model()), row);
            let row = u16::wire(self.sequence_number.model()) + row;
            lemma_append(s1, u8::wire(self.payload_type.model()), row);
            let row = u8::wire(self.payload_type.model()) + row;
            lemma_append(s0, u8::wire(self.version.model()), row);
        }
    }

    fn take(data: &[u8], from: usize) -> (r: Result<(RtpHeader, usize), WireError>) {
        match RtpHeaderFields::take(data, from) {
            Ok((fields, to)) => {
                let (version, (payload_type, (sequence_number, (timestamp, ssrc)))) = fields;
                Ok((RtpHeader { version, payload_type, sequence_number, timestamp, ssrc }, to))
            },
            Err(e) => {
                proof {
                    assert forall|m: RtpHeader| Self::fits(m) implies !begins(
                        data@.subrange(from as int, data@.len() as int),
                        #[trigger] Self::wire(m),
                    ) by {
                        assert(RtpHeaderFields::fits(Self::parts(m)));
                    }
                }
                Err(e)
            },
        }
    }
}

/// What is sent of `RtpPacket`.
pub ghost struct Packet {
    pub header: RtpHeader,
    pub payload: Seq<u8>,
}

/// The fields of `RtpPacket`, in the order in which they are sent.
pub type RtpPacketFields = (RtpHeader, Bytes);

impl RtpPacket {
    pub open spec fn parts(m: Packet) -> <RtpPacketFields as Wire>::Model {
        (m.header, m.payload)
    }
}

impl Wire for RtpPacket {
    type Model = Packet;

    open spec fn model(&self) -> Packet {
        Packet {
            header: self.header,
            payload: self.payload@,
        }
    }

    open spec fn fits(m: Packet) -> bool {
        RtpPacketFields::fits(Self::parts(m))
    }

    open spec fn wire(m: Packet) -> Seq<u8> {
        RtpPacketFields::wire(Self::parts(m))
    }

    proof fn unique(a: Packet, b: Packet, s: Seq<u8>, t: Seq<u8>) {
        RtpPacketFields::unique(Self::parts(a), Self::parts(b), s, t);
    }

    fn put(&self, out: &mut Vec<u8>) {
        let ghost s0 = out@;
        self.header.put(out);
        put_bytes(&self.payload, out);
        proof {
            let row = Bytes::wire(self.payload@);
            lemma_append(s0, RtpHeader::wire(self.header.model()), row);
        }
    }

    fn take(data: &[u8], from: usize) -> (r: Result<(RtpPacket, usize), WireError>) {
        match RtpPacketFields::take(data, from) {
            Ok((fields, to)) => {
                let (header, payload) = fields;
                Ok((RtpPacket { header, payload: payload.0 }, to))
            },
            Err(e) => {
                proof {
                    assert forall|m: Packet| Self::fits(m) implies !begins(
                        data@.subrange(from as int, data@.len() as int),
                        #[trigger] Self::wire(m),
                    ) by {
                        assert(RtpPacketFields::fits(Self::parts(m)));
                    }
                }
                Err(e)
            },
        }
    }
}

impl RtpPacket {
    /// The bytes of a packet.
    pub fn encode(&self) -> (r: Result<Vec<u8>, WireError>)
        ensures
            r is Ok,
            Self::fits(self.model()),
            r->Ok_0@ == Self::wire(self.model()),
    {
        encode(self)
    }

    /// Reads a packet from the start of `data`; what follows it is let be.
    pub fn decode(data: &[u8]) -> (r: Result<Self, WireError>)
        ensures
            reads(data@, r),
    {
        decode(data)
    }
}

impl InputEvent {
    /// The number of the variant.
    pub open spec fn number(m: InputEvent) -> u32 {
        match m {
            InputEvent::KeyDown(_) => 0,
            InputEvent::KeyUp(_) => 1,
            InputEvent::MouseMove { .. } => 2,
            InputEvent::MouseMoveAbsolute { .. } => 3,
            InputEvent::Key { .. } => 4,
            InputEvent::ModifiersChanged(_) => 5,
            InputEvent::MouseDown(_) => 6,
            InputEvent::MouseUp(_) => 7,
            InputEvent::MouseScroll { .. } => 8,
            InputEvent::Touch { .. } => 9,
        }
    }

    /// What stands behind the number.
    pub open spec fn body(m: InputEvent) -> Seq<u8> {
        match m {
            InputEvent::KeyDown(value) => u32::wire(value),
            InputEvent::KeyUp(value) => u32::wire(value),
            InputEvent::MouseMove { dx, dy } => <(i32, i32)>::wire((dx, dy)),
            InputEvent::MouseMoveAbsolute { x, y } => <(u16, u16)>::wire((x, y)),
            InputEvent::Key { key_code, pressed, modifiers } => <(u16, (bool,
                u8))>::wire((key_code, (pressed, modifiers))),
            InputEvent::ModifiersChanged(value) => u8::wire(value),
            InputEvent::MouseDown(value) => u8::wire(value),
            InputEvent::MouseUp(value) => u8::wire(value),
            InputEvent::MouseScroll { delta_x, delta_y } => <(i32, i32)>::wire((delta_x,
                delta_y)),
            InputEvent::Touch { action, pointer_id, normalized_x_bits, normalized_y_bits,
                pressure_bits } => <(TouchAction, (u32, (u32, (u32, u32))))>::wire((action,
                (pointer_id, (normalized_x_bits, (normalized_y_bits, pressure_bits))))),
        }
    }
}

impl Wire for InputEvent {
    type Model = InputEvent;

    open spec fn model(&self) -> InputEvent {
        *self
    }

    open spec fn fits(m: InputEvent) -> bool {
        match m {
            InputEvent::KeyDown(value) => u32::fits(value),
            InputEvent::KeyUp(value) => u32::fits(value),
            InputEvent::MouseMove { dx, dy } => <(i32, i32)>::fits((dx, dy)),
            InputEvent::MouseMoveAbsolute { x, y } => <(u16, u16)>::fits((x, y)),
            InputEvent::Key { key_code, pressed, modifiers } => <(u16, (bool,
                u8))>::fits((key_code, (pressed, modifiers))),
            InputEvent::ModifiersChanged(value) => u8::fits(value),
            InputEvent::MouseDown(value) => u8::fits(value),
            InputEvent::MouseUp(value) => u8::fits(value),
            InputEvent::MouseScroll { delta_x, delta_y } => <(i32, i32)>::fits((delta_x,
                delta_y)),
            InputEvent::Touch { action, pointer_id, normalized_x_bits, normalized_y_bits,
                pressure_bits } => <(TouchAction, (u32, (u32, (u32, u32))))>::fits((action,
                (pointer_id, (normalized_x_bits, (normalized_y_bits, pressure_bits))))),
        }
    }

    open spec fn wire(m: InputEvent) -> Seq<u8> {
        u32::wire(Self::number(m)) + Self::body(m)
    }

    proof fn unique(a: InputEvent, b: InputEvent, s: Seq<u8>, t: Seq<u8>) {
        lemma_after_number::<u32>(
            Self::number(a),
            Self::number(b),
            Self::body(a),
            Self::body(b),
            s,
            t,
        );
        match (a, b) {
            (InputEvent::KeyDown(value_a), InputEvent::KeyDown(value_b)) => {
                u32::unique(value_a, value_b, s, t);
            },
            (InputEvent::KeyUp(value_a), InputEvent::KeyUp(value_b)) => {
                u32::unique(value_a, value_b, s, t);
            },
            (InputEvent::MouseMove { dx: dx_a, dy: dy_a }, InputEvent::MouseMove { dx: dx_b,
                dy: dy_b }) => {
                <(i32, i32)>::unique((dx_a, dy_a), (dx_b, dy_b), s, t);
            },
            (InputEvent::MouseMoveAbsolute { x: x_a, y: y_a },
                InputEvent::MouseMoveAbsolute { x: x_b, y: y_b }) => {
                <(u16, u16)>::unique((x_a, y_a), (x_b, y_b), s, t);
            },
            (InputEvent::Key { key_code: key_code_a, pressed: pressed_a,
                modifiers: modifiers_a }, InputEvent::Key { key_code: key_code_b,
                pressed: pressed_b, modifiers: modifiers_b }) => {
                <(u16, (bool, u8))>::unique((key_code_a, (pressed_a, modifiers_a)), (key_code_b,
                    (pressed_b, modifiers_b)), s, t);
            },
            (InputEvent::ModifiersChanged(value_a), InputEvent::ModifiersChanged(value_b)) => {
                u8::unique(value_a, value_b, s, t);
            },
            (InputEvent::MouseDown(value_a), InputEvent::MouseDown(value_b)) => {
                u8::unique(value_a, value_b, s, t);
            },
            (InputEvent::MouseUp(value_a), InputEvent::MouseUp(value_b)) => {
                u8::unique(value_a, value_b, s, t);
            },
            (InputEvent::MouseScroll { delta_x: delta_x_a, delta_y: delta_y_a },
                InputEvent::MouseScroll { delta_x: delta_x_b, delta_y: delta_y_b }) => {
                <(i32, i32)>::unique((delta_x_a, delta_y_a), (delta_x_b, delta_y_b), s, t);
            },
            (InputEvent::Touch { action: action_a, pointer_id: pointer_id_a,
                normalized_x_bits: normalized_x_bits_a, normalized_y_bits: normalized_y_bits_a,
                pressure_bits: pressure_bits_a }, InputEvent::Touch { action: action_b,
                pointer_id: pointer_id_b, normalized_x_bits: normalized_x_bits_b,
                normalized_y_bits: normalized_y_bits_b, pressure_bits: pressure_bits_b }) => {
                <(TouchAction, (u32, (u32, (u32, u32))))>::unique((action_a, (pointer_id_a,
                    (normalized_x_bits_a, (normalized_y_bits_a, pressure_bits_a)))), (action_b,
                    (pointer_id_b, (normalized_x_bits_b, (normalized_y_bits_b,
                    pressure_bits_b)))), s, t);
            },
            _ => {},
        }
    }

    fn put(&self, out: &mut Vec<u8>) {
        match self {
            InputEvent::KeyDown(value) => {
                let ghost s0 = out@;
                put_number(0, out);
                value.put(out);
                proof {
                    let row = u32::wire(value.model());
                    lemma_append(s0, u32::wire(0), row);
                }
            },
            InputEvent::KeyUp(value) => {
                let ghost s0 = out@;
                put_number(1, out);
                value.put(out);
                proof {
                    let row = u32::wire(value.model());
                    lemma_append(s0, u32::wire(1), row);
                }
            },
            InputEvent::MouseMove { dx, dy } => {
                let ghost s0 = out@;
                put_number(2, out);
                let ghost s1 = out@;
                dx.put(out);
                dy.put(out);
                proof {
                    let row = i32::wire(dy.model());
                    lemma_append(s1, i32::wire(dx.model()), row);
                    let row = i32::wire(dx.model()) + row;
                    lemma_append(s0, u32::wire(2), row);
                }
            },
            InputEvent::MouseMoveAbsolute { x, y } => {
                let ghost s0 = out@;
                put_number(3, out);
                let ghost s1 = out@;
                x.put(out);
                y.put(out);
                proof {
                    let row = u16::wire(y.model());
                    lemma_append(s1, u16::wire(x.model()), row);
                    let row = u16::wire(x.model()) + row;
                    lemma_append(s0, u32::wire(3), row);
                }
            },
            InputEvent::Key { key_code, pressed, modifiers } => {
                let ghost s0 = out@;
                put_number(4, out);
                let ghost s1 = out@;
                key_code.put(out);
                let ghost s2 = out@;
                pressed.put(out);
                modifiers.put(out);
                proof {
                    let row = u8::wire(modifiers.model());
                    lemma_append(s2, bool::wire(pressed.model()), row);
                    let row = bool::wire(pressed.model()) + row;
                    lemma_append(s1, u16::wire(key_code.model()), row);
                    let row = u16::wire(key_code.model()) + row;
                    lemma_append(s0, u32::wire(4), row);
                }
            },
            InputEvent::ModifiersChanged(value) => {
                let ghost s0 = out@;
                put_number(5, out);
                value.put(out);
                proof {
                    let row = u8::wire(value.model());
                    lemma_append(s0, u32::wire(5), row);
                }
            },
            InputEvent::MouseDown(value) => {
                let ghost s0 = out@;
                put_number(6, out);
                value.put(out);
                proof {
                    let row = u8::wire(value.model());
                    lemma_append(s0, u32::wire(6), row);
                }
            },
            InputEvent::MouseUp(value) => {
                let ghost s0 = out@;
                put_number(7, out);
                value.put(out);
                proof {
                    let row = u8::wire(value.model());
                    lemma_append(s0, u32::wire(7), row);
                }
            },
            InputEvent::MouseScroll { delta_x, delta_y } => {
                let ghost s0 = out@;
                put_number(8, out);
                let ghost s1 = out@;
                delta_x.put(out);
                delta_y.put(out);
                proof {
                    let row = i32::wire(delta_y.model());
                    lemma_append(s1, i32::wire(delta_x.model()), row);
                    let row = i32::wire(delta_x.model()) + row;
                    lemma_append(s0, u32::wire(8), row);
                }
            },
            InputEvent::Touch {
                action,
                pointer_id,
                normalized_x_bits,
                normalized_y_bits,
                pressure_bits,
            } => {
                let ghost s0 = out@;
                put_number(9, out);
                let ghost s1 = out@;
                action.put(out);
                let ghost s2 = out@;
                pointer_id.put(out);
                let ghost s3 = out@;
                normalized_x_bits.put(out);
                let ghost s4 = out@;
                normalized_y_bits.put(out);
                pressure_bits.put(out);
                proof {
                    let row = u32::wire(pressure_bits.model());
                    lemma_append(s4, u32::wire(normalized_y_bits.model()), row);
                    let row = u32::wire(normalized_y_bits.model()) + row;
                    lemma_append(s3, u32::wire(normalized_x_bits.model()), row);
                    let row = u32::wire(normalized_x_bits.model()) + row;
                    lemma_append(s2, u32::wire(pointer_id.model()), row);
                    let row = u32::wire(pointer_id.model()) + row;
                    lemma_append(s1, TouchAction::wire(action.model()), row);
                    let row = TouchAction::wire(action.model()) + row;
                    lemma_append(s0, u32::wire(9), row);
                }
            },
        }
    }

    fn take(data: &[u8], from: usize) -> (r: Result<(InputEvent, usize), WireError>) {
        let ghost tail = data@.subrange(from as int, data@.len() as int);
        let (number, start) = match u32::take(data, from) {
            Ok((number, start)) => (number, start),
            Err(e) => {
                proof {
                    assert forall|m: InputEvent| Self::fits(m) implies !begins(
                        tail,
                        #[trigger] Self::wire(m),
                    ) by {
                        lemma_none_begins::<u32>(tail, Self::number(m), Self::body(m));
                    }
                }
                return Err(e);
            },
        };
        proof {
            assert forall|m: InputEvent|
                Self::fits(m) && begins(tail, #[trigger] Self::wire(m)) implies Self::number(m)
                == number && begins(
                data@.subrange(start as int, data@.len() as int),
                Self::body(m),
            ) by {
                lemma_rest_begins::<u32>(
                    data@,
                    from as int,
                    start as int,
                    number,
                    Self::number(m),
                    Self::body(m),
                );
            }
        }
        let (message, to) = match number {
            0 => match u32::take(data, start) {
                Ok((value, to)) => (InputEvent::KeyDown(value), to),
                Err(e) => {
                    return Err(e);
                },
            },
            1 => match u32::take(data, start) {
                Ok((value, to)) => (InputEvent::KeyUp(value), to),
                Err(e) => {
                    return Err(e);
                },
            },
            2 => match <(i32, i32)>::take(data, start) {
                Ok(((dx, dy), to)) => (InputEvent::MouseMove { dx, dy }, to),
                Err(e) => {
                    return Err(e);
                },
            },
            3 => match <(u16, u16)>::take(data, start) {
                Ok(((x, y), to)) => (InputEvent::MouseMoveAbsolute { x, y }, to),
                Err(e) => {
                    return Err(e);
                },
            },
            4 => match <(u16, (bool, u8))>::take(data, start) {
                Ok(((key_code, (pressed, modifiers)), to)) => (InputEvent::Key { key_code,
                    pressed, modifiers }, to),
                Err(e) => {
                    return Err(e);
                },
            },
            5 => match u8::take(data, start) {
                Ok((value, to)) => (InputEvent::ModifiersChanged(value), to),
                Err(e) => {
                    return Err(e);
                },
            },
            6 => match u8::take(data, start) {
                Ok((value, to)) => (InputEvent::MouseDown(value), to),
                Err(e) => {
                    return Err(e);
                },
            },
            7 => match u8::take(data, start) {
                Ok((value, to)) => (InputEvent::MouseUp(value), to),
                Err(e) => {
                    return Err(e);
                },
            },
            8 => match <(i32, i32)>::take(data, start) {
                Ok(((delta_x, delta_y), to)) => (InputEvent::MouseScroll { delta_x, delta_y },
                    to),
                Err(e) => {
                    return Err(e);
                },
            },
            9 => match <(TouchAction, (u32, (u32, (u32, u32))))>::take(data, start) {
                Ok(((action, (pointer_id, (normalized_x_bits, (normalized_y_bits,
                    pressure_bits)))), to)) => (InputEvent::Touch { action, pointer_id,
                    normalized_x_bits, normalized_y_bits, pressure_bits }, to),
                Err(e) => {
                    return Err(e);
                },
            },
            _ => {
                return Err(WireError);
            },
        };
        proof {
            assert(data@.subrange(from as int, to as int) =~= data@.subrange(
                from as int,
                start as int,
            ) + data@.subrange(start as int, to as int));
        }
        Ok((message, to))
    }
}

/// What is sent of `ControlMessage`.
pub ghost enum Message {
    HandshakeReq,
    HandshakeAck,
    Input(InputEvent),
    ForceFeedback,
    HostTelemetry {
        fps_bits: u32,
        encode_latency_ms_bits: u32,
        jitter_ms_bits: u32,
        bitrate_kbps: u32,
    },
    StartStream { width: u32, height: u32, fps: u32, bitrate_kbps: u32, session_id: u32 },
    StopStream,
    AudioControl { session_id: u32, target: AudioControlTarget, muted: bool, volume_percent: u8 },
    Heartbeat,
    UpdateStreamSettings { width: u32, height: u32, fps: u32, bitrate_kbps: u32, session_id: u32 },
    Ping { client_send_ts: u64 },
    Pong { client_send_ts: u64, host_recv_ts: u64, host_send_ts: u64 },
    RequestKeyframe { session_id: u32 },
    Session(Command),
    SessionHello { nonce: u128, timestamp_ms: u64, mac: Seq<u8> },
    SessionAccept { salt: u128, timestamp_ms: u64, mac: Seq<u8> },
    SessionReject { reason: Seq<char> },
    SetMediaPaused { session_id: u32, revision: u64, paused: bool },
    MediaPauseState { session_id: u32, revision: u64, paused: bool },
}

impl ControlMessage {
    /// The number of the variant.
    pub open spec fn number(m: Message) -> u32 {
        match m {
            Message::HandshakeReq => 0,
            Message::HandshakeAck => 1,
            Message::Input(_) => 2,
            Message::ForceFeedback => 3,
            Message::HostTelemetry { .. } => 4,
            Message::StartStream { .. } => 5,
            Message::StopStream => 6,
            Message::AudioControl { .. } => 7,
            Message::Heartbeat => 8,
            Message::UpdateStreamSettings { .. } => 9,
            Message::Ping { .. } => 10,
            Message::Pong { .. } => 11,
            Message::RequestKeyframe { .. } => 12,
            Message::Session(_) => 13,
            Message::SessionHello { .. } => 14,
            Message::SessionAccept { .. } => 15,
            Message::SessionReject { .. } => 16,
            Message::SetMediaPaused { .. } => 17,
            Message::MediaPauseState { .. } => 18,
        }
    }

    /// What stands behind the number.
    pub open spec fn body(m: Message) -> Seq<u8> {
        match m {
            Message::HandshakeReq => <()>::wire(()),
            Message::HandshakeAck => <()>::wire(()),
            Message::Input(value) => InputEvent::wire(value),
            Message::ForceFeedback => <()>::wire(()),
            Message::HostTelemetry { fps_bits, encode_latency_ms_bits, jitter_ms_bits,
                bitrate_kbps } => <(u32, (u32, (u32, u32)))>::wire((fps_bits,
                (encode_latency_ms_bits, (jitter_ms_bits, bitrate_kbps)))),
            Message::StartStream { width, height, fps, bitrate_kbps, session_id } => <(u32, (u32,
                (u32, (u32, u32))))>::wire((width, (height, (fps, (bitrate_kbps, session_id))))),
            Message::StopStream => <()>::wire(()),
            Message::AudioControl { session_id, target, muted, volume_percent } => <(u32,
                (AudioControlTarget, (bool, u8)))>::wire((session_id, (target, (muted,
                volume_percent)))),
            Message::Heartbeat => <()>::wire(()),
            Message::UpdateStreamSettings { width, height, fps, bitrate_kbps,
                session_id } => <(u32, (u32, (u32, (u32, u32))))>::wire((width, (height, (fps,
                (bitrate_kbps, session_id))))),
            Message::Ping { client_send_ts } => u64::wire(client_send_ts),
            Message::Pong { client_send_ts, host_recv_ts, host_send_ts } => <(u64, (u64,
                u64))>::wire((client_send_ts, (host_recv_ts, host_send_ts))),
            Message::RequestKeyframe { session_id } => u32::wire(session_id),
            Message::Session(value) => SessionCommand::wire(value),
            Message::SessionHello { nonce, timestamp_ms, mac } => <(u128, (u64,
                Bytes))>::wire((nonce, (timestamp_ms, mac))),
            Message::SessionAccept { salt, timestamp_ms, mac } => <(u128, (u64,
                Bytes))>::wire((salt, (timestamp_ms, mac))),
            Message::SessionReject { reason } => String::wire(reason),
            Message::SetMediaPaused { session_id, revision, paused } => <(u32, (u64,
                bool))>::wire((session_id, (revision, paused))),
            Message::MediaPauseState { session_id, revision, paused } => <(u32, (u64,
                bool))>::wire((session_id, (revision, paused))),
        }
    }
}

impl Wire for ControlMessage {
    type Model = Message;

    open spec fn model(&self) -> Message {
        match self {
            ControlMessage::HandshakeReq => Message::HandshakeReq,
            ControlMessage::HandshakeAck => Message::HandshakeAck,
            ControlMessage::Input(value) => Message::Input(*value),
            ControlMessage::ForceFeedback => Message::ForceFeedback,
            ControlMessage::HostTelemetry { fps_bits, encode_latency_ms_bits, jitter_ms_bits,
                bitrate_kbps } => Message::HostTelemetry { fps_bits: *fps_bits,
                encode_latency_ms_bits: *encode_latency_ms_bits, jitter_ms_bits: *jitter_ms_bits,
                bitrate_kbps: *bitrate_kbps },
            ControlMessage::StartStream { width, height, fps, bitrate_kbps,
                session_id } => Message::StartStream { width: *width, height: *height, fps: *fps,
                bitrate_kbps: *bitrate_kbps, session_id: *session_id },
            ControlMessage::StopStream => Message::StopStream,
            ControlMessage::AudioControl { session_id, target, muted,
                volume_percent } => Message::AudioControl { session_id: *session_id,
                target: *target, muted: *muted, volume_percent: *volume_percent },
            ControlMessage::Heartbeat => Message::Heartbeat,
            ControlMessage::UpdateStreamSettings { width, height, fps, bitrate_kbps,
                session_id } => Message::UpdateStreamSettings { width: *width, height: *height,
                fps: *fps, bitrate_kbps: *bitrate_kbps, session_id: *session_id },
            ControlMessage::Ping { client_send_ts } => Message::Ping {
                client_send_ts: *client_send_ts,
            },
            ControlMessage::Pong { client_send_ts, host_recv_ts,
                host_send_ts } => Message::Pong { client_send_ts: *client_send_ts,
                host_recv_ts: *host_recv_ts, host_send_ts: *host_send_ts },
            ControlMessage::RequestKeyframe { session_id } => Message::RequestKeyframe {
                session_id: *session_id,
            },
            ControlMessage::Session(value) => Message::Session(value.model()),
            ControlMessage::SessionHello { nonce, timestamp_ms,
                mac } => Message::SessionHello { nonce: *nonce, timestamp_ms: *timestamp_ms,
                mac: mac@ },
            ControlMessage::SessionAccept { salt, timestamp_ms,
                mac } => Message::SessionAccept { salt: *salt, timestamp_ms: *timestamp_ms,
                mac: mac@ },
            ControlMessage::SessionReject { reason } => Message::SessionReject { reason: reason@ },
            ControlMessage::SetMediaPaused { session_id, revision,
                paused } => Message::SetMediaPaused { session_id: *session_id,
                revision: *revision, paused: *paused },
            ControlMessage::MediaPauseState { session_id, revision,
                paused } => Message::MediaPauseState { session_id: *session_id,
                revision: *revision, paused: *paused },
        }
    }

    open spec fn fits(m: Message) -> bool {
        match m {
            Message::HandshakeReq => <()>::fits(()),
            Message::HandshakeAck => <()>::fits(()),
            Message::Input(value) => InputEvent::fits(value),
            Message::ForceFeedback => <()>::fits(()),
            Message::HostTelemetry { fps_bits, encode_latency_ms_bits, jitter_ms_bits,
                bitrate_kbps } => <(u32, (u32, (u32, u32)))>::fits((fps_bits,
                (encode_latency_ms_bits, (jitter_ms_bits, bitrate_kbps)))),
            Message::StartStream { width, height, fps, bitrate_kbps, session_id } => <(u32, (u32,
                (u32, (u32, u32))))>::fits((width, (height, (fps, (bitrate_kbps, session_id))))),
            Message::StopStream => <()>::fits(()),
            Message::AudioControl { session_id, target, muted, volume_percent } => <(u32,
                (AudioControlTarget, (bool, u8)))>::fits((session_id, (target, (muted,
                volume_percent)))),
            Message::Heartbeat => <()>::fits(()),
            Message::UpdateStreamSettings { width, height, fps, bitrate_kbps,
                session_id } => <(u32, (u32, (u32, (u32, u32))))>::fits((width, (height, (fps,
                (bitrate_kbps, session_id))))),
            Message::Ping { client_send_ts } => u64::fits(client_send_ts),
            Message::Pong { client_send_ts, host_recv_ts, host_send_ts } => <(u64, (u64,
                u64))>::fits((client_send_ts, (host_recv_ts, host_send_ts))),
            Message::RequestKeyframe { session_id } => u32::fits(session_id),
            Message::Session(value) => SessionCommand::fits(value),
            Message::SessionHello { nonce, timestamp_ms, mac } => <(u128, (u64,
                Bytes))>::fits((nonce, (timestamp_ms, mac))),
            Message::SessionAccept { salt, timestamp_ms, mac } => <(u128, (u64,
                Bytes))>::fits((salt, (timestamp_ms, mac))),
            Message::SessionReject { reason } => String::fits(reason),
            Message::SetMediaPaused { session_id, revision, paused } => <(u32, (u64,
                bool))>::fits((session_id, (revision, paused))),
            Message::MediaPauseState { session_id, revision, paused } => <(u32, (u64,
                bool))>::fits((session_id, (revision, paused))),
        }
    }

    open spec fn wire(m: Message) -> Seq<u8> {
        u32::wire(Self::number(m)) + Self::body(m)
    }

    proof fn unique(a: Message, b: Message, s: Seq<u8>, t: Seq<u8>) {
        lemma_after_number::<u32>(
            Self::number(a),
            Self::number(b),
            Self::body(a),
            Self::body(b),
            s,
            t,
        );
        match (a, b) {
            (Message::Input(value_a), Message::Input(value_b)) => {
                InputEvent::unique(value_a, value_b, s, t);
            },
            (Message::HostTelemetry { fps_bits: fps_bits_a,
                encode_latency_ms_bits: encode_latency_ms_bits_a,
                jitter_ms_bits: jitter_ms_bits_a, bitrate_kbps: bitrate_kbps_a },
                Message::HostTelemetry { fps_bits: fps_bits_b,
                encode_latency_ms_bits: encode_latency_ms_bits_b,
                jitter_ms_bits: jitter_ms_bits_b, bitrate_kbps: bitrate_kbps_b }) => {
                <(u32, (u32, (u32, u32)))>::unique((fps_bits_a, (encode_latency_ms_bits_a,
                    (jitter_ms_bits_a, bitrate_kbps_a))), (fps_bits_b, (encode_latency_ms_bits_b,
                    (jitter_ms_bits_b, bitrate_kbps_b))), s, t);
            },
            (Message::StartStream { width: width_a, height: height_a, fps: fps_a,
                bitrate_kbps: bitrate_kbps_a, session_id: session_id_a },
                Message::StartStream { width: width_b, height: height_b, fps: fps_b,
                bitrate_kbps: bitrate_kbps_b, session_id: session_id_b }) => {
                <(u32, (u32, (u32, (u32, u32))))>::unique((width_a, (height_a, (fps_a,
                    (bitrate_kbps_a, session_id_a)))), (width_b, (height_b, (fps_b,
                    (bitrate_kbps_b, session_id_b)))), s, t);
            },
            (Message::AudioControl { session_id: session_id_a, target: target_a, muted: muted_a,
                volume_percent: volume_percent_a },
                Message::AudioControl { session_id: session_id_b, target: target_b,
                muted: muted_b, volume_percent: volume_percent_b }) => {
                <(u32, (AudioControlTarget, (bool, u8)))>::unique((session_id_a, (target_a,
                    (muted_a, volume_percent_a))), (session_id_b, (target_b, (muted_b,
                    volume_percent_b))), s, t);
            },
            (Message::UpdateStreamSettings { width: width_a, height: height_a, fps: fps_a,
                bitrate_kbps: bitrate_kbps_a, session_id: session_id_a },
                Message::UpdateStreamSettings { width: width_b, height: height_b, fps: fps_b,
                bitrate_kbps: bitrate_kbps_b, session_id: session_id_b }) => {
                <(u32, (u32, (u32, (u32, u32))))>::unique((width_a, (height_a, (fps_a,
                    (bitrate_kbps_a, session_id_a)))), (width_b, (height_b, (fps_b,
                    (bitrate_kbps_b, session_id_b)))), s, t);
            },
            (Message::Ping { client_send_ts: client_send_ts_a },
                Message::Ping { client_send_ts: client_send_ts_b }) => {
                u64::unique(client_send_ts_a, client_send_ts_b, s, t);
            },
            (Message::Pong { client_send_ts: client_send_ts_a, host_recv_ts: host_recv_ts_a,
                host_send_ts: host_send_ts_a }, Message::Pong { client_send_ts: client_send_ts_b,
                host_recv_ts: host_recv_ts_b, host_send_ts: host_send_ts_b }) => {
                <(u64, (u64, u64))>::unique((client_send_ts_a, (host_recv_ts_a, host_send_ts_a)),
                    (client_send_ts_b, (host_recv_ts_b, host_send_ts_b)), s, t);
            },
            (Message::RequestKeyframe { session_id: session_id_a },
                Message::RequestKeyframe { session_id: session_id_b }) => {
                u32::unique(session_id_a, session_id_b, s, t);
            },
            (Message::Session(value_a), Message::Session(value_b)) => {
                SessionCommand::unique(value_a, value_b, s, t);
            },
            (Message::SessionHello { nonce: nonce_a, timestamp_ms: timestamp_ms_a, mac: mac_a },
                Message::SessionHello { nonce: nonce_b, timestamp_ms: timestamp_ms_b,
                mac: mac_b }) => {
                <(u128, (u64, Bytes))>::unique((nonce_a, (timestamp_ms_a, mac_a)), (nonce_b,
                    (timestamp_ms_b, mac_b)), s, t);
            },
            (Message::SessionAccept { salt: salt_a, timestamp_ms: timestamp_ms_a, mac: mac_a },
                Message::SessionAccept { salt: salt_b, timestamp_ms: timestamp_ms_b,
                mac: mac_b }) => {
                <(u128, (u64, Bytes))>::unique((salt_a, (timestamp_ms_a, mac_a)), (salt_b,
                    (timestamp_ms_b, mac_b)), s, t);
            },
            (Message::SessionReject { reason: reason_a },
                Message::SessionReject { reason: reason_b }) => {
                String::unique(reason_a, reason_b, s, t);
            },
            (Message::SetMediaPaused { session_id: session_id_a, revision: revision_a,
                paused: paused_a }, Message::SetMediaPaused { session_id: session_id_b,
                revision: revision_b, paused: paused_b }) => {
                <(u32, (u64, bool))>::unique((session_id_a, (revision_a, paused_a)),
                    (session_id_b, (revision_b, paused_b)), s, t);
            },
            (Message::MediaPauseState { session_id: session_id_a, revision: revision_a,
                paused: paused_a }, Message::MediaPauseState { session_id: session_id_b,
                revision: revision_b, paused: paused_b }) => {
                <(u32, (u64, bool))>::unique((session_id_a, (revision_a, paused_a)),
                    (session_id_b, (revision_b, paused_b)), s, t);
            },
            _ => {},
        }
    }

    fn put(&self, out: &mut Vec<u8>) {
        match self {
            ControlMessage::HandshakeReq => {
                let ghost s0 = out@;
                put_number(0, out);
                proof {
                    assert(out@ =~= s0 + (u32::wire(0) + Seq::<u8>::empty()));
                }
            },
            ControlMessage::HandshakeAck => {
                let ghost s0 = out@;
                put_number(1, out);
                proof {
                    assert(out@ =~= s0 + (u32::wire(1) + Seq::<u8>::empty()));
                }
            },
            ControlMessage::Input(value) => {
                let ghost s0 = out@;
                put_number(2, out);
                value.put(out);
                proof {
                    let row = InputEvent::wire(value.model());
                    lemma_append(s0, u32::wire(2), row);
                }
            },
            ControlMessage::ForceFeedback => {
                let ghost s0 = out@;
                put_number(3, out);
                proof {
                    assert(out@ =~= s0 + (u32::wire(3) + Seq::<u8>::empty()));
                }
            },
            ControlMessage::HostTelemetry {
                fps_bits,
                encode_latency_ms_bits,
                jitter_ms_bits,
                bitrate_kbps,
            } => {
                let ghost s0 = out@;
                put_number(4, out);
                let ghost s1 = out@;
                fps_bits.put(out);
                let ghost s2 = out@;
                encode_latency_ms_bits.put(out);
                let ghost s3 = out@;
                jitter_ms_bits.put(out);
                bitrate_kbps.put(out);
                proof {
                    let row = u32::wire(bitrate_kbps.model());
                    lemma_append(s3, u32::wire(jitter_ms_bits.model()), row);
                    let row = u32::wire(jitter_ms_bits.model()) + row;
                    lemma_append(s2, u32::wire(encode_latency_ms_bits.model()), row);
                    let row = u32::wire(encode_latency_ms_bits.model()) + row;
                    lemma_append(s1, u32::wire(fps_bits.model()), row);
                    let row = u32::wire(fps_bits.model()) + row;
                    lemma_append(s0, u32::wire(4), row);
                }
            },
            ControlMessage::StartStream { width, height, fps, bitrate_kbps, session_id } => {
                let ghost s0 = out@;
                put_number(5, out);
                let ghost s1 = out@;
                width.put(out);
                let ghost s2 = out@;
                height.put(out);
                let ghost s3 = out@;
                fps.put(out);
                let ghost s4 = out@;
                bitrate_kbps.put(out);
                session_id.put(out);
                proof {
                    let row = u32::wire(session_id.model());
                    lemma_append(s4, u32::wire(bitrate_kbps.model()), row);
                    let row = u32::wire(bitrate_kbps.model()) + row;
                    lemma_append(s3, u32::wire(fps.model()), row);
                    let row = u32::wire(fps.model()) + row;
                    lemma_append(s2, u32::wire(height.model()), row);
                    let row = u32::wire(height.model()) + row;
                    lemma_append(s1, u32::wire(width.model()), row);
                    let row = u32::wire(width.model()) + row;
                    lemma_append(s0, u32::wire(5), row);
                }
            },
            ControlMessage::StopStream => {
                let ghost s0 = out@;
                put_number(6, out);
                proof {
                    assert(out@ =~= s0 + (u32::wire(6) + Seq::<u8>::empty()));
                }
            },
            ControlMessage::AudioControl { session_id, target, muted, volume_percent } => {
                let ghost s0 = out@;
                put_number(7, out);
                let ghost s1 = out@;
                session_id.put(out);
                let ghost s2 = out@;
                target.put(out);
                let ghost s3 = out@;
                muted.put(out);
                volume_percent.put(out);
                proof {
                    let row = u8::wire(volume_percent.model());
                    lemma_append(s3, bool::wire(muted.model()), row);
                    let row = bool::wire(muted.model()) + row;
                    lemma_append(s2, AudioControlTarget::wire(target.model()), row);
                    let row = AudioControlTarget::wire(target.model()) + row;
                    lemma_append(s1, u32::wire(session_id.model()), row);
                    let row = u32::wire(session_id.model()) + row;
                    lemma_append(s0, u32::wire(7), row);
                }
            },
            ControlMessage::Heartbeat => {
                let ghost s0 = out@;
                put_number(8, out);
                proof {
                    assert(out@ =~= s0 + (u32::wire(8) + Seq::<u8>::empty()));
                }
            },
            ControlMessage::UpdateStreamSettings {
                width,
                height,
                fps,
                bitrate_kbps,
                session_id,
            } => {
                let ghost s0 = out@;
                put_number(9, out);
                let ghost s1 = out@;
                width.put(out);
                let ghost s2 = out@;
                height.put(out);
                let ghost s3 = out@;
                fps.put(out);
                let ghost s4 = out@;
                bitrate_kbps.put(out);
                session_id.put(out);
                proof {
                    let row = u32::wire(session_id.model());
                    lemma_append(s4, u32::wire(bitrate_kbps.model()), row);
                    let row = u32::wire(bitrate_kbps.model()) + row;
                    lemma_append(s3, u32::wire(fps.model()), row);
                    let row = u32::wire(fps.model()) + row;
                    lemma_append(s2, u32::wire(height.model()), row);
                    let row = u32::wire(height.model()) + row;
                    lemma_append(s1, u32::wire(width.model()), row);
                    let row = u32::wire(width.model()) + row;
                    lemma_append(s0, u32::wire(9), row);
                }
            },
            ControlMessage::Ping { client_send_ts } => {
                let ghost s0 = out@;
                put_number(10, out);
                client_send_ts.put(out);
                proof {
                    let row = u64::wire(client_send_ts.model());
                    lemma_append(s0, u32::wire(10), row);
                }
            },
            ControlMessage::Pong { client_send_ts, host_recv_ts, host_send_ts } => {
                let ghost s0 = out@;
                put_number(11, out);
                let ghost s1 = out@;
                client_send_ts.put(out);
                let ghost s2 = out@;
                host_recv_ts.put(out);
                host_send_ts.put(out);
                proof {
                    let row = u64::wire(host_send_ts.model());
                    lemma_append(s2, u64::wire(host_recv_ts.model()), row);
                    let row = u64::wire(host_recv_ts.model()) + row;
                    lemma_append(s1, u64::wire(client_send_ts.model()), row);
                    let row = u64::wire(client_send_ts.model()) + row;
                    lemma_append(s0, u32::wire(11), row);
                }
            },
            ControlMessage::RequestKeyframe { session_id } => {
                let ghost s0 = out@;
                put_number(12, out);
                session_id.put(out);
                proof {
                    let row = u32::wire(session_id.model());
                    lemma_append(s0, u32::wire(12), row);
                }
            },
            ControlMessage::Session(value) => {
                let ghost s0 = out@;
                put_number(13, out);
                value.put(out);
                proof {
                    let row = SessionCommand::wire(value.model());
                    lemma_append(s0, u32::wire(13), row);
                }
            },
            ControlMessage::SessionHello { nonce, timestamp_ms, mac } => {
                let ghost s0 = out@;
                put_number(14, out);
                let ghost s1 = out@;
                nonce.put(out);
                let ghost s2 = out@;
                timestamp_ms.put(out);
                put_bytes(mac, out);
                proof {
                    let row = Bytes::wire(mac@);
                    lemma_append(s2, u64::wire(timestamp_ms.model()), row);
                    let row = u64::wire(timestamp_ms.model()) + row;
                    lemma_append(s1, u128::wire(nonce.model()), row);
                    let row = u128::wire(nonce.model()) + row;
                    lemma_append(s0, u32::wire(14), row);
                }
            },
            ControlMessage::SessionAccept { salt, timestamp_ms, mac } => {
                let ghost s0 = out@;
                put_number(15, out);
                let ghost s1 = out@;
                salt.put(out);
                let ghost s2 = out@;
                timestamp_ms.put(out);
                put_bytes(mac, out);
                proof {
                    let row = Bytes::wire(mac@);
                    lemma_append(s2, u64::wire(timestamp_ms.model()), row);
                    let row = u64::wire(timestamp_ms.model()) + row;
                    lemma_append(s1, u128::wire(salt.model()), row);
                    let row = u128::wire(salt.model()) + row;
                    lemma_append(s0, u32::wire(15), row);
                }
            },
            ControlMessage::SessionReject { reason } => {
                let ghost s0 = out@;
                put_number(16, out);
                reason.put(out);
                proof {
                    let row = String::wire(reason.model());
                    lemma_append(s0, u32::wire(16), row);
                }
            },
            ControlMessage::SetMediaPaused { session_id, revision, paused } => {
                let ghost s0 = out@;
                put_number(17, out);
                let ghost s1 = out@;
                session_id.put(out);
                let ghost s2 = out@;
                revision.put(out);
                paused.put(out);
                proof {
                    let row = bool::wire(paused.model());
                    lemma_append(s2, u64::wire(revision.model()), row);
                    let row = u64::wire(revision.model()) + row;
                    lemma_append(s1, u32::wire(session_id.model()), row);
                    let row = u32::wire(session_id.model()) + row;
                    lemma_append(s0, u32::wire(17), row);
                }
            },
            ControlMessage::MediaPauseState { session_id, revision, paused } => {
                let ghost s0 = out@;
                put_number(18, out);
                let ghost s1 = out@;
                session_id.put(out);
                let ghost s2 = out@;
                revision.put(out);
                paused.put(out);
                proof {
                    let row = bool::wire(paused.model());
                    lemma_append(s2, u64::wire(revision.model()), row);
                    let row = u64::wire(revision.model()) + row;
                    lemma_append(s1, u32::wire(session_id.model()), row);
                    let row = u32::wire(session_id.model()) + row;
                    lemma_append(s0, u32::wire(18), row);
                }
            },
        }
    }

    fn take(data: &[u8], from: usize) -> (r: Result<(ControlMessage, usize), WireError>) {
        let ghost tail = data@.subrange(from as int, data@.len() as int);
        let (number, start) = match u32::take(data, from) {
            Ok((number, start)) => (number, start),
            Err(e) => {
                proof {
                    assert forall|m: Message| Self::fits(m) implies !begins(
                        tail,
                        #[trigger] Self::wire(m),
                    ) by {
                        lemma_none_begins::<u32>(tail, Self::number(m), Self::body(m));
                    }
                }
                return Err(e);
            },
        };
        proof {
            assert forall|m: Message|
                Self::fits(m) && begins(tail, #[trigger] Self::wire(m)) implies Self::number(m)
                == number && begins(
                data@.subrange(start as int, data@.len() as int),
                Self::body(m),
            ) by {
                lemma_rest_begins::<u32>(
                    data@,
                    from as int,
                    start as int,
                    number,
                    Self::number(m),
                    Self::body(m),
                );
            }
        }
        let (message, to) = match number {
            0 => (ControlMessage::HandshakeReq, start),
            1 => (ControlMessage::HandshakeAck, start),
            2 => match InputEvent::take(data, start) {
                Ok((value, to)) => (ControlMessage::Input(value), to),
                Err(e) => {
                    return Err(e);
                },
            },
            3 => (ControlMessage::ForceFeedback, start),
            4 => match <(u32, (u32, (u32, u32)))>::take(data, start) {
                Ok(((fps_bits, (encode_latency_ms_bits, (jitter_ms_bits, bitrate_kbps))),
                    to)) => (ControlMessage::HostTelemetry { fps_bits, encode_latency_ms_bits,
                    jitter_ms_bits, bitrate_kbps }, to),
                Err(e) => {
                    return Err(e);
                },
            },
            5 => match <(u32, (u32, (u32, (u32, u32))))>::take(data, start) {
                Ok(((width, (height, (fps, (bitrate_kbps, session_id)))),
                    to)) => (ControlMessage::StartStream { width, height, fps, bitrate_kbps,
                    session_id }, to),
                Err(e) => {
                    return Err(e);
                },
            },
            6 => (ControlMessage::StopStream, start),
            7 => match <(u32, (AudioControlTarget, (bool, u8)))>::take(data, start) {
                Ok(((session_id, (target, (muted, volume_percent))),
                    to)) => (ControlMessage::AudioControl { session_id, target, muted,
                    volume_percent }, to),
                Err(e) => {
                    return Err(e);
                },
            },
            8 => (ControlMessage::Heartbeat, start),
            9 => match <(u32, (u32, (u32, (u32, u32))))>::take(data, start) {
                Ok(((width, (height, (fps, (bitrate_kbps, session_id)))),
                    to)) => (ControlMessage::UpdateStreamSettings { width, height, fps,
                    bitrate_kbps, session_id }, to),
                Err(e) => {
                    return Err(e);
                },
            },
            10 => match u64::take(data, start) {
                Ok((client_send_ts, to)) => (ControlMessage::Ping { client_send_ts }, to),
                Err(e) => {
                    return Err(e);
                },
            },
            11 => match <(u64, (u64, u64))>::take(data, start) {
                Ok(((client_send_ts, (host_recv_ts, host_send_ts)),
                    to)) => (ControlMessage::Pong { client_send_ts, host_recv_ts, host_send_ts },
                    to),
                Err(e) => {
                    return Err(e);
                },
            },
            12 => match u32::take(data, start) {
                Ok((session_id, to)) => (ControlMessage::RequestKeyframe { session_id }, to),
                Err(e) => {
                    return Err(e);
                },
            },
            13 => match SessionCommand::take(data, start) {
                Ok((value, to)) => (ControlMessage::Session(value), to),
                Err(e) => {
                    return Err(e);
                },
            },
            14 => match <(u128, (u64, Bytes))>::take(data, start) {
                Ok(((nonce, (timestamp_ms, mac)), to)) => (ControlMessage::SessionHello { nonce,
                    timestamp_ms, mac: mac.0 }, to),
                Err(e) => {
                    return Err(e);
                },
            },
            15 => match <(u128, (u64, Bytes))>::take(data, start) {
                Ok(((salt, (timestamp_ms, mac)), to)) => (ControlMessage::SessionAccept { salt,
                    timestamp_ms, mac: mac.0 }, to),
                Err(e) => {
                    return Err(e);
                },
            },
            16 => match String::take(data, start) {
                Ok((reason, to)) => (ControlMessage::SessionReject { reason }, to),
                Err(e) => {
                    return Err(e);
                },
            },
            17 => match <(u32, (u64, bool))>::take(data, start) {
                Ok(((session_id, (revision, paused)),
                    to)) => (ControlMessage::SetMediaPaused { session_id, revision, paused },
                    to),
                Err(e) => {
                    return Err(e);
                },
            },
            18 => match <(u32, (u64, bool))>::take(data, start) {
                Ok(((session_id, (revision, paused)),
                    to)) => (ControlMessage::MediaPauseState { session_id, revision, paused },
                    to),
                Err(e) => {
                    return Err(e);
                },
            },
            _ => {
                return Err(WireError);
            },
        };
        proof {
            assert(data@.subrange(from as int, to as int) =~= data@.subrange(
                from as int,
                start as int,
            ) + data@.subrange(start as int, to as int));
            assert(data@.subrange(start as int, start as int) =~= Seq::<u8>::empty());
        }
        Ok((message, to))
    }
}

impl ControlMessage {
    /// The bytes of a message.
    pub fn encode(&self) -> (r: Result<Vec<u8>, WireError>)
        ensures
            r is Ok,
            Self::fits(self.model()),
            r->Ok_0@ == Self::wire(self.model()),
    {
        encode(self)
    }

    /// Reads a message from the start of `data`; what follows it is let be.
    pub fn decode(data: &[u8]) -> (r: Result<Self, WireError>)
        ensures
            reads(data@, r),
    {
        decode(data)
    }
}

} // verus!
