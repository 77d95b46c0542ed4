//! The host's media loops: what a stream does when its settings change, when a frame was encoded,
//! and when sound was captured.
use crate::host::connection::StreamSettings;
use crate::host::video_encode::EncodedChunk;
use crate::protocol::audio::{
    remote_microphone_audio_stream_id, remote_system_audio_stream_id, stream_at, AudioSource,
    REMOTE_MICROPHONE_AUDIO_STREAM_OFFSET, REMOTE_SYSTEM_AUDIO_STREAM_OFFSET,
};
use crate::protocol::compact::COMPACT_REALTIME_HEADER_LEN;
use crate::protocol::control::{PayloadType, RtpHeader, RtpPacket};
use crate::protocol::timing::{FrameTimingCheckpoints, HOST_TIMING_WIRE_LEN};
use vstd::prelude::*;

verus! {

/// What a packet counts for: its payload and the header of the plane that it travels on, and the
/// timing record that goes with it. A timing record puts it on the data plane in any case.
pub open spec fn counted(payload_len: int, data_plane: bool, timed: bool) -> int {
    if timed {
        payload_len + COMPACT_REALTIME_HEADER_LEN + HOST_TIMING_WIRE_LEN
    } else if data_plane {
        payload_len + COMPACT_REALTIME_HEADER_LEN
    } else {
        payload_len + 12
    }
}

/// What a media packet counts for.
pub fn media_packet_size(payload_len: u64, data_plane: bool, timed: bool) -> (r: u64)
    requires
        payload_len + 50 <= u64::MAX,
    ensures
        r == counted(payload_len as int, data_plane, timed),
{
    if timed {
        payload_len + COMPACT_REALTIME_HEADER_LEN as u64 + HOST_TIMING_WIRE_LEN as u64
    } else if data_plane {
        payload_len + COMPACT_REALTIME_HEADER_LEN as u64
    } else {
        payload_len + 12
    }
}

/// What the announcement of an audio stream counts for: it travels on the data plane or not at all.
pub fn announcement_size(payload_len: u64, data_plane: bool) -> (r: u64)
    requires
        payload_len + 26 <= u64::MAX,
    ensures
        r == (if data_plane {
            payload_len + COMPACT_REALTIME_HEADER_LEN
        } else {
            0
        }),
{
    if data_plane {
        payload_len + COMPACT_REALTIME_HEADER_LEN as u64
    } else {
        0
    }
}

/// What new settings ask of capture and encoder, in this order.
#[derive(Debug, Clone, Copy, PartialEq, Eq, Structural)]
pub struct SettingsStep {
    /// Pause or resume both.
    pub pause: Option<bool>,
    /// The next frame is to be one that decoding can start at.
    pub keyframe: bool,
    /// Then take these over.
    pub apply: StreamSettings,
}

/// A packet with the timing record that goes with it.
pub struct TimedPacket {
    pub packet: RtpPacket,
    pub timing: FrameTimingCheckpoints,
}

/// The timing record of a frame that is sent at `now_us`: where nobody noted when it was captured,
/// the frame's own clock tells; times since then go round.
pub open spec fn sent_timing(
    timing: FrameTimingCheckpoints,
    capture_time_ms: u32,
    now_us: u64,
) -> FrameTimingCheckpoints {
    let capture_ts_us = if timing.capture_ts_us == 0 {
        (capture_time_ms * 1000) as u64
    } else {
        timing.capture_ts_us
    };
    let since = (if now_us > capture_ts_us {
        (now_us - capture_ts_us) % 0x1_0000_0000
    } else {
        0
    }) as u32;
    FrameTimingCheckpoints { capture_ts_us, packetize_ts_us: since, send_ts_us: since, ..timing }
}

/// One video stream.
#[derive(Debug)]
pub struct VideoStream {
    session_id: u32,
    paused: bool,
    sequence_number: u16,
    frames: u64,
    bytes: u64,
}

/// One more, while there is room.
pub open spec fn counted_up(n: u64, by: int) -> int {
    if n + by > u64::MAX {
        u64::MAX as int
    } else {
        n + by
    }
}

impl VideoStream {
    pub closed spec fn session(&self) -> u32 {
        self.session_id
    }

    pub closed spec fn is_paused(&self) -> bool {
        self.paused
    }

    /// The number of the next packet.
    pub closed spec fn next(&self) -> u16 {
        self.sequence_number
    }

    /// Frames and bytes since the last report.
    pub closed spec fn since_report(&self) -> (u64, u64) {
        (self.frames, self.bytes)
    }

    pub fn new(session_id: u32) -> (r: Self)
        ensures
            r.session() == session_id,
            !r.is_paused(),
            r.next() == 0,
            r.since_report() == (0u64, 0u64),
    {
        VideoStream { session_id, paused: false, sequence_number: 0, frames: 0, bytes: 0 }
    }

    /// Takes new settings over. Pausing and resuming start a new report.
    pub fn settings_changed(&mut self, settings: StreamSettings) -> (r: SettingsStep)
        ensures
            final(self).session() == old(self).session(),
            final(self).next() == old(self).next(),
            final(self).is_paused() == settings.paused,
            final(self).since_report() == (if settings.paused != old(self).is_paused() {
                (0u64, 0u64)
            } else {
                old(self).since_report()
            }),
            r == (SettingsStep {
                pause: if settings.paused != old(self).is_paused() {
                    Some(settings.paused)
                } else {
                    None
                },
                keyframe: old(self).is_paused() && !settings.paused,
                apply: settings,
            }),
    {
        let mut step = SettingsStep { pause: None, keyframe: false, apply: settings };
        if settings.paused != self.paused {
            step.pause = Some(settings.paused);
            step.keyframe = !settings.paused;
            self.paused = settings.paused;
            self.frames = 0;
            self.bytes = 0;
        }
        step
    }

    /// Whether frames are captured.
    pub fn captures(&self) -> (r: bool)
        ensures
            r == !self.is_paused(),
    {
        !self.paused
    }

    /// The packet for a frame that is sent at `now_us`, unless the stream is paused or there is
    /// nothing in the frame.
    pub fn chunk_encoded(&mut self, chunk: EncodedChunk, now_us: u64) -> (r: Option<TimedPacket>)
        ensures
            final(self).session() == old(self).session(),
            final(self).is_paused() == old(self).is_paused(),
            match r {
                None => {
                    &&& old(self).is_paused() || chunk.nalu@.len() == 0
                    &&& final(self).next() == old(self).next()
                    &&& final(self).since_report() == old(self).since_report()
                },
                Some(sent) => {
                    &&& !old(self).is_paused() && chunk.nalu@.len() > 0
                    &&& sent.packet.header == (RtpHeader {
                        version: 2,
                        payload_type: 96,
                        sequence_number: old(self).next(),
                        timestamp: chunk.capture_time_ms,
                        ssrc: old(self).session(),
                    })
                    &&& sent.packet.payload == chunk.nalu
                    &&& sent.timing == sent_timing(chunk.timing, chunk.capture_time_ms, now_us)
                    &&& final(self).next() == (old(self).next() + 1) % 0x1_0000
                    &&& final(self).since_report().0 == counted_up(old(self).since_report().0, 1)
                    &&& final(self).since_report().1 == counted_up(
                        old(self).since_report().1,
                        chunk.nalu@.len() as int,
                    )
                },
            },
    {
        if self.paused || chunk.nalu.len() == 0 {
            return None;
        }
        self.bytes = self.bytes.saturating_add(chunk.nalu.len() as u64);
        self.frames = self.frames.saturating_add(1);
        let mut timing = chunk.timing;
        if timing.capture_ts_us == 0 {
            timing.capture_ts_us = chunk.capture_time_ms as u64 * 1000;
        }
        let since: u64 = now_us.saturating_sub(timing.capture_ts_us) % 0x1_0000_0000;
        timing.packetize_ts_us = since as u32;
        timing.send_ts_us = timing.packetize_ts_us;
        let packet = RtpPacket {
            header: RtpHeader {
                version: 2,
                payload_type: PayloadType::VideoH265.wire_id(),
                sequence_number: self.sequence_number,
                timestamp: chunk.capture_time_ms,
                ssrc: self.session_id,
            },
            payload: chunk.nalu,
        };
        self.sequence_number = self.sequence_number.wrapping_add(1);
        Some(TimedPacket { packet, timing })
    }

    /// Frames and bytes since the last report; a new report starts.
    pub fn take_report(&mut self) -> (r: (u64, u64))
        ensures
            r == old(self).since_report(),
            final(self).since_report() == (0u64, 0u64),
            final(self).session() == old(self).session(),
            final(self).is_paused() == old(self).is_paused(),
            final(self).next() == old(self).next(),
    {
        let r = (self.frames, self.bytes);
        self.frames = 0;
        self.bytes = 0;
        r
    }
}

/// What to do with an audio capture whose stream was paused or resumed: the capture is told, and the
/// encoder starts anew, so that half a packet from before is not sent.
#[derive(Debug, Clone, Copy, PartialEq, Eq, Structural)]
pub enum AudioPauseStep {
    Nothing,
    Pause,
    Resume,
}

/// One audio stream that is captured.
#[derive(Debug)]
pub struct AudioStream {
    paused: bool,
}

impl AudioStream {
    pub closed spec fn is_paused(&self) -> bool {
        self.paused
    }

    pub fn new() -> (r: Self)
        ensures
            !r.is_paused(),
    {
        AudioStream { paused: false }
    }

    /// Takes over whether the stream is paused.
    pub fn settings_changed(&mut self, paused: bool) -> (r: AudioPauseStep)
        ensures
            final(self).is_paused() == paused,
            r == (if paused == old(self).is_paused() {
                AudioPauseStep::Nothing
            } else if paused {
                AudioPauseStep::Pause
            } else {
                AudioPauseStep::Resume
            }),
    {
        if paused == self.paused {
            return AudioPauseStep::Nothing;
        }
        self.paused = paused;
        if paused {
            AudioPauseStep::Pause
        } else {
            AudioPauseStep::Resume
        }
    }

    pub fn captures(&self) -> (r: bool)
        ensures
            r == !self.is_paused(),
    {
        !self.paused
    }
}

/// A stream of sound that is captured for a subscription.
#[derive(Debug, Clone, Copy, PartialEq, Eq, Structural)]
pub struct AudioCaptureStream {
    pub source: AudioSource,
    pub stream_id: u32,
}

/// The streams that are captured for a subscription: the microphone and then what the system plays,
/// as far as they are asked for. Where the system cannot hand out what it plays, there is only the
/// microphone.
pub open spec fn captured_streams(
    session_id: u32,
    system_capture: bool,
    include_audio: bool,
    include_microphone: bool,
) -> Seq<AudioCaptureStream> {
    let microphone = if include_microphone {
        seq![
            AudioCaptureStream {
                source: AudioSource::RemoteMicrophone,
                stream_id: stream_at(session_id, REMOTE_MICROPHONE_AUDIO_STREAM_OFFSET) as u32,
            },
        ]
    } else {
        Seq::empty()
    };
    let system = if system_capture && include_audio {
        seq![
            AudioCaptureStream {
                source: AudioSource::RemoteSystem,
                stream_id: stream_at(session_id, REMOTE_SYSTEM_AUDIO_STREAM_OFFSET) as u32,
            },
        ]
    } else {
        Seq::empty()
    };
    microphone + system
}

/// Plans what is captured for a subscription.
pub fn subscription_audio(
    session_id: u32,
    system_capture: bool,
    include_audio: bool,
    include_microphone: bool,
) -> (r: Vec<AudioCaptureStream>)
    ensures
        r@ == captured_streams(session_id, system_capture, include_audio, include_microphone),
{
    let mut streams: Vec<AudioCaptureStream> = Vec::new();
    if include_microphone {
        streams.push(
            AudioCaptureStream {
                source: AudioSource::RemoteMicrophone,
                stream_id: remote_microphone_audio_stream_id(session_id),
            },
        );
    }
    if system_capture && include_audio {
        streams.push(
            AudioCaptureStream {
                source: AudioSource::RemoteSystem,
                stream_id: remote_system_audio_stream_id(session_id),
            },
        );
    }
    proof {
        assert(streams@ =~= captured_streams(
            session_id,
            system_capture,
            include_audio,
            include_microphone,
        ));
    }
    streams
}

/// The pause between packets of one frame, in nanoseconds, that spreads them over the frame.
pub fn pacing_interval_ns(frame_duration_ns: u64, packets: u32) -> (r: Option<u64>)
    ensures
        r == (if packets == 0 {
            None
        } else {
            Some((frame_duration_ns / packets as u64) as u64)
        }),
{
    if packets == 0 {
        None
    } else {
        Some(frame_duration_ns / packets as u64)
    }
}

/// Packets that are paced leave within the frame.
pub proof fn paced_packets_fit_the_frame(frame_duration_ns: u64, packets: u32)
    requires
        packets > 0,
    ensures
        packets * (frame_duration_ns / packets as u64) <= frame_duration_ns,
        frame_duration_ns < packets * (frame_duration_ns / packets as u64) + packets,
{
    let n = frame_duration_ns as int;
    let d = packets as int;
    assert(d * (n / d) <= n < d * (n / d) + d) by (nonlinear_arith)
        requires
            d > 0,
            n >= 0,
    ;
}

/// A packet counts with what stands before its payload: the compact header and the host's timing
/// record, the compact header alone, or an RTP header.
pub proof fn packets_count_with_their_headers(payload_len: int)
    ensures
        counted(payload_len, true, true) == payload_len + 50,
        counted(payload_len, false, true) == payload_len + 50,
        counted(payload_len, true, false) == payload_len + 26,
        counted(payload_len, false, false) == payload_len + 12,
{
}

/// A frame is sent with the time since its capture, which is that of its timing record where that has
/// one and else that of its clock in milliseconds; a clock that ran backwards counts as no time.
/// Nothing else of the record changes.
pub proof fn frames_are_sent_with_their_age(
    timing: FrameTimingCheckpoints,
    capture_time_ms: u32,
    now_us: u64,
)
    ensures
        ({
            let sent = sent_timing(timing, capture_time_ms, now_us);
            &&& timing.capture_ts_us != 0 ==> sent.capture_ts_us == timing.capture_ts_us
            &&& timing.capture_ts_us == 0 ==> sent.capture_ts_us == capture_time_ms * 1000
            &&& now_us <= sent.capture_ts_us ==> sent.send_ts_us == 0
            &&& sent.capture_ts_us < now_us <= sent.capture_ts_us + u32::MAX
                ==> sent.capture_ts_us + sent.send_ts_us == now_us
            &&& sent.packetize_ts_us == sent.send_ts_us
            &&& sent.encode_queue_ts_us == timing.encode_queue_ts_us
            &&& sent.encode_done_ts_us == timing.encode_done_ts_us
            &&& sent.recv_ts_us == timing.recv_ts_us
            &&& sent.jitter_enter_ts_us == timing.jitter_enter_ts_us
            &&& sent.jitter_exit_ts_us == timing.jitter_exit_ts_us
            &&& sent.decode_enter_ts_us == timing.decode_enter_ts_us
            &&& sent.decode_done_ts_us == timing.decode_done_ts_us
            &&& sent.render_submit_ts_us == timing.render_submit_ts_us
            &&& sent.render_done_ts_us == timing.render_done_ts_us
        }),
{
}

/// Counts go up to the end of their range and stay there.
pub proof fn counts_stay_at_the_end(n: u64, by: int)
    requires
        by >= 0,
    ensures
        n <= counted_up(n, by) <= u64::MAX,
        n + by <= u64::MAX ==> counted_up(n, by) == n + by,
        n + by > u64::MAX ==> counted_up(n, by) == u64::MAX,
{
}

/// A subscription hears the microphone if it was asked for, and what is played if that was asked for
/// and can be captured, each under a stream of its own.
pub proof fn audio_is_captured_as_asked(
    session_id: u32,
    system_capture: bool,
    include_audio: bool,
    include_microphone: bool,
)
    requires
        session_id < u32::MAX - 1,
    ensures
        ({
            let streams = captured_streams(
                session_id,
                system_capture,
                include_audio,
                include_microphone,
            );
            let microphone = AudioCaptureStream {
                source: AudioSource::RemoteMicrophone,
                stream_id: (session_id + 1) as u32,
            };
            let system = AudioCaptureStream {
                source: AudioSource::RemoteSystem,
                stream_id: (session_id + 2) as u32,
            };
            let plays = system_capture && include_audio;
            &&& include_microphone && plays ==> streams == seq![microphone, system]
            &&& include_microphone && !plays ==> streams == seq![microphone]
            &&& !include_microphone && plays ==> streams == seq![system]
            &&& !include_microphone && !plays ==> streams.len() == 0
        }),
{
    let streams = captured_streams(session_id, system_capture, include_audio, include_microphone);
    let microphone = AudioCaptureStream {
        source: AudioSource::RemoteMicrophone,
        stream_id: (session_id + 1) as u32,
    };
    let system = AudioCaptureStream {
        source: AudioSource::RemoteSystem,
        stream_id: (session_id + 2) as u32,
    };
    let plays = system_capture && include_audio;
    assert(include_microphone && plays ==> streams =~= seq![microphone, system]);
    assert(include_microphone && !plays ==> streams =~= seq![microphone]);
    assert(!include_microphone && plays ==> streams =~= seq![system]);
}

} // verus!
