//! The viewer talks back: whether its microphone is sent, and how its packets are numbered.
use crate::protocol::audio::{
    stream_at, viewer_talkback_audio_stream_id, AudioDirection, AudioSource, AudioStreamConfig,
    VIEWER_TALKBACK_AUDIO_STREAM_OFFSET,
};
use crate::protocol::control::{PayloadType, RtpHeader, RtpPacket};
use crate::text::{decimal, push_decimal};
use vstd::prelude::*;

verus! {

pub const OPUS_FRAME_DURATION_MS: u16 = 20;

#[derive(Debug, Clone, Copy, PartialEq, Eq, Structural)]
pub struct TalkbackCaptureSettings {
    pub local_mic_muted: bool,
    pub push_to_talk: bool,
    pub push_to_talk_active: bool,
}

impl Default for TalkbackCaptureSettings {
    fn default() -> (r: Self)
        ensures
            r == (TalkbackCaptureSettings {
                local_mic_muted: false,
                push_to_talk: false,
                push_to_talk_active: true,
            }),
    {
        Self { local_mic_muted: false, push_to_talk: false, push_to_talk_active: true }
    }
}

impl TalkbackCaptureSettings {
    /// The microphone is sent: it is not muted, and the key is held where one has to be.
    pub open spec fn transmits(self) -> bool {
        !self.local_mic_muted && (self.push_to_talk ==> self.push_to_talk_active)
    }

    pub fn should_transmit(self) -> (r: bool)
        ensures
            r == self.transmits(),
    {
        !self.local_mic_muted && (!self.push_to_talk || self.push_to_talk_active)
    }
}

/// How far the clock of an audio stream goes on with each packet: by the samples of one channel, or
/// by a fiftieth of a second where their number does not fit.
pub fn timestamp_step(samples_per_packet: usize, sample_rate: u32) -> (r: u32)
    ensures
        r == (if samples_per_packet <= u32::MAX {
            samples_per_packet as int
        } else {
            sample_rate as int / 50
        }),
{
    if samples_per_packet <= u32::MAX as usize {
        samples_per_packet as u32
    } else {
        sample_rate / 50
    }
}

/// The RTP header of the audio packet with that number, at `step` samples a packet.
pub open spec fn audio_header(stream_id: u32, sequence_number: u16, step: u32) -> RtpHeader {
    RtpHeader {
        version: 2,
        payload_type: 97,
        sequence_number,
        timestamp: ((sequence_number * step) % 0x1_0000_0000) as u32,
        ssrc: stream_id,
    }
}

/// Numbers the packets of an audio stream, whose clock goes on with them.
#[derive(Debug)]
pub struct AudioPacketizer {
    stream_id: u32,
    timestamp_step: u32,
    sequence_number: u16,
}

impl AudioPacketizer {
    pub closed spec fn stream(&self) -> u32 {
        self.stream_id
    }

    pub closed spec fn step(&self) -> u32 {
        self.timestamp_step
    }

    /// The number of the next packet.
    pub closed spec fn next(&self) -> u16 {
        self.sequence_number
    }

    pub fn new(stream_id: u32, timestamp_step: u32) -> (r: Self)
        ensures
            r.stream() == stream_id,
            r.step() == timestamp_step,
            r.next() == 0,
    {
        AudioPacketizer { stream_id, timestamp_step, sequence_number: 0 }
    }

    /// The next packet of the stream.
    pub fn packet(&mut self, payload: Vec<u8>) -> (r: RtpPacket)
        ensures
            r.header == audio_header(old(self).stream(), old(self).next(), old(self).step()),
            r.payload == payload,
            final(self).stream() == old(self).stream(),
            final(self).step() == old(self).step(),
            final(self).next() == (old(self).next() + 1) % 0x1_0000,
    {
        let sequence_number: u16 = self.sequence_number;
        self.sequence_number = sequence_number.wrapping_add(1);
        RtpPacket {
            header: RtpHeader {
                version: 2,
                payload_type: PayloadType::AudioOpus.wire_id(),
                sequence_number,
                timestamp: (sequence_number as u32).wrapping_mul(self.timestamp_step),
                ssrc: self.stream_id,
            },
            payload,
        }
    }
}

/// One run of the viewer's microphone.
#[derive(Debug)]
pub struct TalkbackCapture {
    session_id: u32,
    sample_rate: u32,
    channels: u16,
    config_sequence_number: u64,
}

impl TalkbackCapture {
    pub closed spec fn session(&self) -> u32 {
        self.session_id
    }

    /// Samples a second, and channels.
    pub closed spec fn layout(&self) -> (u32, u16) {
        (self.sample_rate, self.channels)
    }

    /// How often the stream was announced, counted round.
    pub closed spec fn announced(&self) -> u64 {
        self.config_sequence_number
    }

    /// A run in the session, unless the microphone has more channels than can be sent.
    pub fn new(session_id: u32, sample_rate: u32, channels: u16) -> (r: Result<Self, String>)
        ensures
            match r {
                Ok(capture) => {
                    &&& channels == 1 || channels == 2
                    &&& capture.session() == session_id
                    &&& capture.layout() == (sample_rate, channels)
                    &&& capture.announced() == 0
                },
                Err(e) => channels != 1 && channels != 2 && e@
                    == "unsupported talkback channel count "@ + decimal(channels as nat),
            },
    {
        if channels != 1 && channels != 2 {
            let mut message = "unsupported talkback channel count ".to_owned();
            push_decimal(&mut message, channels as u64);
            return Err(message);
        }
        Ok(TalkbackCapture { session_id, sample_rate, channels, config_sequence_number: 0 })
    }

    pub fn stream_id(&self) -> (r: u32)
        ensures
            r == stream_at(self.session(), VIEWER_TALKBACK_AUDIO_STREAM_OFFSET),
    {
        viewer_talkback_audio_stream_id(self.session_id)
    }

    /// The announcement of the stream, and its number.
    pub fn announce(&mut self) -> (r: (AudioStreamConfig, u64))
        ensures
            r.0 == AudioStreamConfig::opus(
                stream_at(old(self).session(), VIEWER_TALKBACK_AUDIO_STREAM_OFFSET) as u32,
                AudioSource::ViewerMicrophoneTalkback,
                AudioDirection::ClientToHost,
                old(self).layout().0,
                old(self).layout().1,
                OPUS_FRAME_DURATION_MS,
            ),
            r.1 == old(self).announced(),
            final(self).session() == old(self).session(),
            final(self).layout() == old(self).layout(),
            final(self).announced() == (old(self).announced() + 1) % 0x1_0000_0000_0000_0000,
    {
        let number: u64 = self.config_sequence_number;
        self.config_sequence_number = number.wrapping_add(1);
        (
            AudioStreamConfig::viewer_microphone_talkback(
                self.stream_id(),
                self.sample_rate,
                self.channels,
                OPUS_FRAME_DURATION_MS,
            ),
            number,
        )
    }

    /// Whether samples that came in are sent: talkback is on, and they are laid out as announced.
    pub fn takes_frame(
        &self,
        settings: TalkbackCaptureSettings,
        sample_rate: u32,
        channels: u16,
    ) -> (r: bool)
        ensures
            r == (settings.transmits() && self.layout() == (sample_rate, channels)),
    {
        settings.should_transmit() && sample_rate == self.sample_rate && channels == self.channels
    }
}

/// The channels that the microphone is opened with: those of the device, but one or two.
pub fn talkback_channels(device_channels: u16) -> (r: u16)
    ensures
        r == (if device_channels < 1 {
            1u16
        } else if device_channels > 2 {
            2u16
        } else {
            device_channels
        }),
{
    if device_channels < 1 {
        1
    } else if device_channels > 2 {
        2
    } else {
        device_channels
    }
}

/// A muted microphone is never sent. One that is not is sent always, or, where a key has to be held,
/// exactly while it is held.
pub proof fn microphones_are_sent_when_wanted(settings: TalkbackCaptureSettings)
    ensures
        settings.local_mic_muted ==> !settings.transmits(),
        !settings.local_mic_muted && !settings.push_to_talk ==> settings.transmits(),
        !settings.local_mic_muted && settings.push_to_talk ==> settings.transmits()
            == settings.push_to_talk_active,
{
}

/// Audio packets are of the second version of the protocol and of the one payload type, belong to
/// their stream, and the clock of a packet is one step behind that of the next, until the numbers go
/// round.
pub proof fn audio_clocks_go_by_steps(stream_id: u32, number: u16, step: u32)
    ensures
        ({
            let header = audio_header(stream_id, number, step);
            &&& header.version == 2
            &&& header.payload_type == 97
            &&& header.sequence_number == number
            &&& header.ssrc == stream_id
            &&& number == 0 ==> header.timestamp == 0
            &&& number < u16::MAX ==> ({
                let next = audio_header(stream_id, (number + 1) as u16, step);
                next.timestamp == (header.timestamp + step) % 0x1_0000_0000
            })
        }),
{
    if number < u16::MAX {
        let n = number as int;
        let s = step as int;
        assert((n + 1) * s == n * s + s) by (nonlinear_arith);
        assert((n * s + s) % 0x1_0000_0000 == ((n * s) % 0x1_0000_0000 + s) % 0x1_0000_0000);
    }
    assert(0 * (step as int) == 0);
}

} // verus!
