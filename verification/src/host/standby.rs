//! A host that waits for one viewer at a time, and the plain stream that it sends.
use crate::client::talkback::AudioPacketizer;
use crate::hevc::{opens_keyframe, opens_with_keyframe};
use crate::host::service::PeerAddr;
use crate::protocol::audio::{
    remote_microphone_audio_stream_id, stream_at, REMOTE_MICROPHONE_AUDIO_STREAM_OFFSET,
};
use crate::protocol::control::{ControlMessage, InputEvent, PayloadType, RtpHeader, RtpPacket};
use vstd::prelude::*;

verus! {

/// A viewer that is not heard of for longer than this has left.
pub const HEARTBEAT_TIMEOUT_MS: u64 = 3000;

/// The stream that a viewer asks for.
#[derive(Debug, Clone, Copy, PartialEq, Eq, Structural)]
pub struct StreamOrder {
    pub viewer: PeerAddr,
    pub width: u32,
    pub height: u32,
    pub fps: u32,
    pub bitrate_kbps: u32,
    pub session_id: u32,
}

/// What to do with streams: end the one that runs, and then begin another.
#[derive(Debug, Clone, Copy, PartialEq, Eq, Structural)]
pub struct StandbyStep {
    pub stop: bool,
    pub start: Option<StreamOrder>,
}

/// A message as the waiting host understands it.
pub enum StandbyMessage {
    Input(InputEvent),
    Stream(StandbyStep),
}

/// The waiting host.
#[derive(Debug)]
pub struct StandbyHost {
    streaming: bool,
    last_heartbeat_ms: u64,
}

impl StandbyHost {
    pub closed spec fn is_streaming(&self) -> bool {
        self.streaming
    }

    pub closed spec fn heard_at(&self) -> u64 {
        self.last_heartbeat_ms
    }

    pub fn new(now_ms: u64) -> (r: Self)
        ensures
            !r.is_streaming(),
            r.heard_at() == now_ms,
    {
        StandbyHost { streaming: false, last_heartbeat_ms: now_ms }
    }

    /// Looks whether the viewer has left.
    pub fn tick(&mut self, now_ms: u64) -> (r: StandbyStep)
        ensures
            final(self).heard_at() == old(self).heard_at(),
            ({
                let gone = old(self).is_streaming() && now_ms - old(self).heard_at()
                    > HEARTBEAT_TIMEOUT_MS;
                &&& r == (StandbyStep { stop: gone, start: None })
                &&& final(self).is_streaming() == (old(self).is_streaming() && !gone)
            }),
    {
        let silent: u64 = now_ms.saturating_sub(self.last_heartbeat_ms);
        let gone = self.streaming && silent > HEARTBEAT_TIMEOUT_MS;
        if gone {
            self.streaming = false;
        }
        StandbyStep { stop: gone, start: None }
    }

    /// Takes a message of `viewer` in. Input goes on to the system.
    pub fn receive(&mut self, message: ControlMessage, viewer: PeerAddr, now_ms: u64) -> (r:
        StandbyMessage)
        ensures
            match message {
                ControlMessage::Input(event) => {
                    &&& r == StandbyMessage::Input(event)
                    &&& *final(self) == *old(self)
                },
                ControlMessage::Heartbeat => {
                    &&& r == StandbyMessage::Stream(StandbyStep { stop: false, start: None })
                    &&& final(self).heard_at() == now_ms
                    &&& final(self).is_streaming() == old(self).is_streaming()
                },
                ControlMessage::StopStream => {
                    &&& r == StandbyMessage::Stream(
                        StandbyStep { stop: old(self).is_streaming(), start: None },
                    )
                    &&& final(self).heard_at() == old(self).heard_at()
                    &&& !final(self).is_streaming()
                },
                ControlMessage::StartStream { width, height, fps, bitrate_kbps, session_id } => {
                    &&& r == StandbyMessage::Stream(
                        StandbyStep {
                            stop: old(self).is_streaming(),
                            start: Some(
                                StreamOrder {
                                    viewer,
                                    width,
                                    height,
                                    fps,
                                    bitrate_kbps,
                                    session_id,
                                },
                            ),
                        },
                    )
                    &&& final(self).heard_at() == now_ms
                    &&& final(self).is_streaming()
                },
                _ => {
                    &&& r == StandbyMessage::Stream(StandbyStep { stop: false, start: None })
                    &&& *final(self) == *old(self)
                },
            },
    {
        match message {
            ControlMessage::Input(event) => StandbyMessage::Input(event),
            ControlMessage::Heartbeat => {
                self.last_heartbeat_ms = now_ms;
                StandbyMessage::Stream(StandbyStep { stop: false, start: None })
            },
            ControlMessage::StopStream => {
                let stop = self.streaming;
                self.streaming = false;
                StandbyMessage::Stream(StandbyStep { stop, start: None })
            },
            ControlMessage::StartStream { width, height, fps, bitrate_kbps, session_id } => {
                let stop = self.streaming;
                self.streaming = true;
                self.last_heartbeat_ms = now_ms;
                let order = StreamOrder { viewer, width, height, fps, bitrate_kbps, session_id };
                StandbyMessage::Stream(StandbyStep { stop, start: Some(order) })
            },
            _ => StandbyMessage::Stream(StandbyStep { stop: false, start: None }),
        }
    }
}

/// A packet of the plain stream, with what is counted of it.
pub struct PlainPacket {
    pub packet: RtpPacket,
    pub keyframe: bool,
    /// Milliseconds from the capture to now, going round.
    pub latency_ms: u32,
}

/// A video stream whose packets carry the time of their capture. The encoder keeps the order, so
/// that the times of the frames it still holds form a queue.
#[derive(Debug)]
pub struct PlainVideoStream {
    session_id: u32,
    sequence_number: u16,
    captured: Vec<u32>,
}

impl PlainVideoStream {
    pub closed spec fn session(&self) -> u32 {
        self.session_id
    }

    pub closed spec fn next(&self) -> u16 {
        self.sequence_number
    }

    /// When the frames that the encoder still holds were captured.
    pub closed spec fn held(&self) -> Seq<u32> {
        self.captured@
    }

    pub fn new(session_id: u32) -> (r: Self)
        ensures
            r.session() == session_id,
            r.next() == 0,
            r.held() == Seq::<u32>::empty(),
    {
        PlainVideoStream { session_id, sequence_number: 0, captured: Vec::new() }
    }

    /// A frame was captured and goes to the encoder.
    pub fn frame_captured(&mut self, now_ms: u32)
        ensures
            final(self).held() == old(self).held().push(now_ms),
            final(self).session() == old(self).session(),
            final(self).next() == old(self).next(),
    {
        self.captured.push(now_ms);
    }

    /// The packet for what the encoder handed out, unless that is nothing. It stands for the oldest
    /// frame that the encoder holds; if it holds none, for one of now.
    pub fn frame_encoded(&mut self, nalu: Vec<u8>, now_ms: u32) -> (r: Option<PlainPacket>)
        ensures
            final(self).session() == old(self).session(),
            match r {
                None => {
                    &&& nalu@.len() == 0
                    &&& *final(self) == *old(self)
                },
                Some(sent) => {
                    let held = old(self).held();
                    let capture_time = if held.len() > 0 {
                        held[0]
                    } else {
                        now_ms
                    };
                    &&& nalu@.len() > 0
                    &&& final(self).held() == (if held.len() > 0 {
                        held.drop_first()
                    } else {
                        held
                    })
                    &&& final(self).next() == (old(self).next() + 1) % 0x1_0000
                    &&& sent.packet.header == (RtpHeader {
                        version: 2,
                        payload_type: 96,
                        sequence_number: old(self).next(),
                        timestamp: capture_time,
                        ssrc: old(self).session(),
                    })
                    &&& sent.packet.payload == nalu
                    &&& sent.keyframe == opens_with_keyframe(nalu@)
                    &&& sent.latency_ms == (now_ms - capture_time) % 0x1_0000_0000
                },
            },
    {
        if nalu.len() == 0 {
            return None;
        }
        let keyframe = opens_keyframe(nalu.as_slice());
        let capture_time: u32 = if self.captured.len() > 0 {
            let first = self.captured.remove(0);
            proof {
                assert(self.captured@ =~= old(self).captured@.drop_first());
            }
            first
        } else {
            now_ms
        };
        let packet = RtpPacket {
            header: RtpHeader {
                version: 2,
                payload_type: PayloadType::VideoH265.wire_id(),
                sequence_number: self.sequence_number,
                timestamp: capture_time,
                ssrc: self.session_id,
            },
            payload: nalu,
        };
        self.sequence_number = self.sequence_number.wrapping_add(1);
        Some(PlainPacket { packet, keyframe, latency_ms: now_ms.wrapping_sub(capture_time) })
    }
}

/// Numbers the sound that goes with a plain stream: one packet every hundredth of a second.
pub fn plain_audio(session_id: u32, sample_rate: u32) -> (r: AudioPacketizer)
    ensures
        r.stream() == stream_at(session_id, REMOTE_MICROPHONE_AUDIO_STREAM_OFFSET),
        r.step() == sample_rate as int / 100,
        r.next() == 0,
{
    AudioPacketizer::new(remote_microphone_audio_stream_id(session_id), sample_rate / 100)
}

} // verus!
