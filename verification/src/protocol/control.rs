//! RTP packets, control messages and input events.
use crate::protocol::audio::AudioControlTarget;
use crate::protocol::session::SessionCommand;
use vstd::prelude::*;

verus! {

#[derive(Debug, Clone, Copy, PartialEq, Eq, Structural)]
pub enum PayloadType {
    VideoH265,
    AudioOpus,
}

impl PayloadType {
    /// The payload type of an RTP header.
    pub fn wire_id(self) -> (r: u8)
        ensures
            r == (match self {
                PayloadType::VideoH265 => 96u8,
                PayloadType::AudioOpus => 97u8,
            }),
    {
        match self {
            PayloadType::VideoH265 => 96,
            PayloadType::AudioOpus => 97,
        }
    }
}

#[derive(Debug, Clone, Copy, PartialEq, Eq, Structural)]
pub struct RtpHeader {
    pub version: u8,
    pub payload_type: u8,
    pub sequence_number: u16,
    pub timestamp: u32,
    pub ssrc: u32,
}

#[derive(Debug, PartialEq, Eq)]
pub struct RtpPacket {
    pub header: RtpHeader,
    pub payload: Vec<u8>,
}

impl Clone for RtpPacket {
    fn clone(&self) -> (r: Self)
        ensures
            r.header == self.header,
            r.payload@ == self.payload@,
    {
        RtpPacket { header: self.header, payload: vstd::slice::slice_to_vec(&self.payload) }
    }
}

#[derive(Debug, Clone, Copy, PartialEq, Eq, Structural)]
pub enum TouchAction {
    Down,
    Move,
    Up,
    Cancel,
}

/// What the viewer does with keyboard, mouse and touch. The coordinates and the pressure of a touch
/// are single-precision numbers, held by their bits.
#[derive(Debug, Clone, Copy, PartialEq, Eq, Structural)]
pub enum InputEvent {
    KeyDown(u32),
    KeyUp(u32),
    MouseMove { dx: i32, dy: i32 },
    MouseMoveAbsolute { x: u16, y: u16 },
    Key { key_code: u16, pressed: bool, modifiers: u8 },
    ModifiersChanged(u8),
    MouseDown(u8),
    MouseUp(u8),
    MouseScroll { delta_x: i32, delta_y: i32 },
    Touch {
        action: TouchAction,
        pointer_id: u32,
        normalized_x_bits: u32,
        normalized_y_bits: u32,
        pressure_bits: u32,
    },
}

/// The control plane. Measurements in single precision are held by their bits.
#[derive(Debug, Clone, PartialEq, Eq)]
pub enum ControlMessage {
    HandshakeReq,
    HandshakeAck,
    /// Sent at 1000Hz from client to host
    Input(InputEvent),
    /// Sent from host to client for Force Feedback (Future)
    ForceFeedback,
    /// Sent at 1Hz from host to client with host-side telemetry
    HostTelemetry {
        fps_bits: u32,
        encode_latency_ms_bits: u32,
        jitter_ms_bits: u32,
        bitrate_kbps: u32,
    },
    /// Start capturing and streaming
    StartStream { width: u32, height: u32, fps: u32, bitrate_kbps: u32, session_id: u32 },
    /// Stop streaming and return to standby
    StopStream,
    /// Adjust active-session audio behavior without touching realtime media packets.
    AudioControl { session_id: u32, target: AudioControlTarget, muted: bool, volume_percent: u8 },
    /// Keep-alive ping from client to host
    Heartbeat,
    /// Update streaming parameters on the fly
    UpdateStreamSettings { width: u32, height: u32, fps: u32, bitrate_kbps: u32, session_id: u32 },
    /// Precise timestamp ping for RTT & Clock offset estimation
    Ping { client_send_ts: u64 },
    /// Precise timestamp pong response
    Pong { client_send_ts: u64, host_recv_ts: u64, host_send_ts: u64 },
    /// Request an immediate IDR keyframe from the host for fast auto-recovery (PLI/FIR)
    RequestKeyframe { session_id: u32 },
    /// A command of the session layer
    Session(SessionCommand),
    /// Ask for an authenticated session
    SessionHello { nonce: u128, timestamp_ms: u64, mac: Vec<u8> },
    /// Grant an authenticated session
    SessionAccept { salt: u128, timestamp_ms: u64, mac: Vec<u8> },
    /// Refuse a session
    SessionReject { reason: String },
    /// Pause or resume the media of a session
    SetMediaPaused { session_id: u32, revision: u64, paused: bool },
    /// Whether the media of a session are paused
    MediaPauseState { session_id: u32, revision: u64, paused: bool },
}

} // verus!
