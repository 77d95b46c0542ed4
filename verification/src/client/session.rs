//! What the viewer does with what it receives: which packets belong to the session, and where they
//! go.
use crate::client::jitter_buffer::{drains, lemma_one_drains, pushed, JitterBuffer};
use crate::protocol::audio::{
    remote_microphone_audio_stream_id, remote_system_audio_stream_id, stream_at, AudioStreamConfig,
    REMOTE_MICROPHONE_AUDIO_STREAM_OFFSET, REMOTE_SYSTEM_AUDIO_STREAM_OFFSET,
};
use crate::protocol::control::{ControlMessage, PayloadType, RtpPacket};
use crate::protocol::lane::ContentKind;
use crate::table::Table;
use vstd::prelude::*;

verus! {

/// What the host last told of itself. Measurements in single precision are held by their bits.
#[derive(Debug, Clone, Copy, PartialEq, Eq, Structural)]
pub struct HostStats {
    pub fps_bits: u32,
    pub latency_bits: u32,
    pub jitter_bits: u32,
    pub bitrate_kbps: u32,
}

#[derive(Debug, Clone, Copy, PartialEq, Eq, Structural)]
pub enum ClientSessionEvent {
    HostTelemetry(HostStats),
    MediaReceived { session_id: u32, payload_type: u8 },
}

/// Which part of the viewer a packet of the data plane is for.
#[derive(Debug, Clone, Copy, PartialEq, Eq, Structural)]
pub enum DataRoute {
    Clipboard,
    Files,
    AudioConfig,
    Media,
}

/// Which part of the viewer a packet of the data plane is for.
pub fn data_route(kind: ContentKind) -> (r: DataRoute)
    ensures
        r == (match kind {
            ContentKind::ClipboardBundle => DataRoute::Clipboard,
            ContentKind::FileManifest | ContentKind::FileChunk | ContentKind::FileControl =>
                DataRoute::Files,
            ContentKind::AudioStreamConfig => DataRoute::AudioConfig,
            _ => DataRoute::Media,
        }),
{
    match kind {
        ContentKind::ClipboardBundle => DataRoute::Clipboard,
        ContentKind::FileManifest | ContentKind::FileChunk | ContentKind::FileControl =>
            DataRoute::Files,
        ContentKind::AudioStreamConfig => DataRoute::AudioConfig,
        _ => DataRoute::Media,
    }
}

/// What a control message tells the viewer of the host.
pub fn telemetry(message: &ControlMessage) -> (r: Option<HostStats>)
    ensures
        r == (match *message {
            ControlMessage::HostTelemetry {
                fps_bits,
                encode_latency_ms_bits,
                jitter_ms_bits,
                bitrate_kbps,
            } => Some(
                HostStats {
                    fps_bits,
                    latency_bits: encode_latency_ms_bits,
                    jitter_bits: jitter_ms_bits,
                    bitrate_kbps,
                },
            ),
            _ => None,
        }),
{
    match message {
        ControlMessage::HostTelemetry {
            fps_bits,
            encode_latency_ms_bits,
            jitter_ms_bits,
            bitrate_kbps,
        } => Some(
            HostStats {
                fps_bits: *fps_bits,
                latency_bits: *encode_latency_ms_bits,
                jitter_bits: *jitter_ms_bits,
                bitrate_kbps: *bitrate_kbps,
            },
        ),
        _ => None,
    }
}

pub open spec fn is_audio(packet: RtpPacket) -> bool {
    packet.header.payload_type == 97
}

pub open spec fn is_video(packet: RtpPacket) -> bool {
    packet.header.payload_type == 96
}

/// A packet belongs to the session: audio of a stream that is known, video under the session's own
/// identifier. Without a session everything is let through.
pub open spec fn belongs(packet: RtpPacket, session: u32, audio_ids: Set<u32>) -> bool {
    session != 0 ==> {
        &&& is_audio(packet) ==> audio_ids.contains(packet.header.ssrc)
        &&& is_video(packet) ==> packet.header.ssrc == session
    }
}

/// What a packet leads to.
pub struct MediaStep {
    pub event: Option<ClientSessionEvent>,
    /// For the audio player.
    pub audio: Option<RtpPacket>,
    /// For the decoder, in order.
    pub video: Vec<RtpPacket>,
}

/// What was counted of media since the last report. Counts go round.
#[derive(Debug, Clone, Copy, PartialEq, Eq, Structural)]
pub struct MediaCounts {
    /// Media packets that came in, whether or not they belong to the session.
    pub packets: u64,
    pub bytes: u64,
    /// Video packets that went into the jitter buffer, and that came out of it.
    pub jitter_pushed: u64,
    pub jitter_popped: u64,
}

/// A count that goes round.
pub open spec fn counted_on(count: u64, by: int) -> u64 {
    ((count + by) % 0x1_0000_0000_0000_0000) as u64
}

impl MediaCounts {
    pub open spec fn zero() -> Self {
        MediaCounts { packets: 0, bytes: 0, jitter_pushed: 0, jitter_popped: 0 }
    }

    /// One more packet came in.
    pub open spec fn received(self, packet_size: u64) -> Self {
        MediaCounts {
            packets: counted_on(self.packets, 1),
            bytes: counted_on(self.bytes, packet_size as int),
            ..self
        }
    }

    /// One packet went into the jitter buffer, and so many came out of it.
    pub open spec fn buffered(self, popped: int) -> Self {
        MediaCounts {
            jitter_pushed: counted_on(self.jitter_pushed, 1),
            jitter_popped: counted_on(self.jitter_popped, popped),
            ..self
        }
    }

    fn none() -> (r: Self)
        ensures
            r == Self::zero(),
    {
        MediaCounts { packets: 0, bytes: 0, jitter_pushed: 0, jitter_popped: 0 }
    }
}

pub struct MediaPacketHandler {
    counts: MediaCounts,
    video_jitter_buffer: JitterBuffer,
    video_started: bool,
    last_video_ssrc: u32,
    audio_stream_session_id: u32,
    audio_stream_ids: Table<u32, ()>,
}

impl MediaPacketHandler {
    pub closed spec fn counted(&self) -> MediaCounts {
        self.counts
    }

    pub closed spec fn jitter(&self) -> JitterBuffer {
        self.video_jitter_buffer
    }

    /// The stream whose packets wait in the jitter buffer, once there is one.
    pub closed spec fn video_ssrc(&self) -> Option<u32> {
        if self.video_started {
            Some(self.last_video_ssrc)
        } else {
            None
        }
    }

    pub closed spec fn audio_session(&self) -> u32 {
        self.audio_stream_session_id
    }

    /// The audio streams that are let through.
    pub closed spec fn audio_ids(&self) -> Set<u32> {
        self.audio_stream_ids@.dom()
    }

    pub closed spec fn wf(&self) -> bool {
        self.video_jitter_buffer.wf()
    }

    /// The audio streams that are let through in `session`: those that were announced in it, and the
    /// microphone.
    pub open spec fn ids_in(&self, session: u32) -> Set<u32> {
        if self.audio_session() == session {
            self.audio_ids()
        } else if session != 0 {
            set![stream_at(session, REMOTE_MICROPHONE_AUDIO_STREAM_OFFSET) as u32]
        } else {
            Set::empty()
        }
    }

    pub fn new() -> (r: Self)
        ensures
            r.wf(),
            r.counted() == MediaCounts::zero(),
            r.video_ssrc() is None,
            r.audio_session() == 0,
            r.audio_ids() == Set::<u32>::empty(),
    {
        let r = Self {
            counts: MediaCounts::none(),
            video_jitter_buffer: JitterBuffer::new(0),
            video_started: false,
            last_video_ssrc: 0,
            audio_stream_session_id: 0,
            audio_stream_ids: Table::new(),
        };
        proof {
            assert(r.audio_stream_ids@.dom() =~= Set::<u32>::empty());
        }
        r
    }

    /// Forgets the streams of another session.
    fn sync_audio_session(&mut self, current_session: u32)
        ensures
            final(self).audio_session() == current_session,
            final(self).audio_ids() == old(self).ids_in(current_session),
            final(self).counts == old(self).counts,
            final(self).video_jitter_buffer == old(self).video_jitter_buffer,
            final(self).video_started == old(self).video_started,
            final(self).last_video_ssrc == old(self).last_video_ssrc,
    {
        if self.audio_stream_session_id == current_session {
            return;
        }
        self.audio_stream_session_id = current_session;
        let mut ids: Table<u32, ()> = Table::new();
        if current_session != 0 {
            ids.insert(remote_microphone_audio_stream_id(current_session), ());
        }
        self.audio_stream_ids = ids;
        proof {
            assert(self.audio_stream_ids@.dom() =~= old(self).ids_in(current_session));
        }
    }

    /// Counts a media packet of `packet_size` bytes.
    fn count(&mut self, packet_size: u64)
        ensures
            final(self).counted() == old(self).counted().received(packet_size),
            final(self).video_jitter_buffer == old(self).video_jitter_buffer,
            final(self).video_started == old(self).video_started,
            final(self).last_video_ssrc == old(self).last_video_ssrc,
            final(self).audio_stream_session_id == old(self).audio_stream_session_id,
            final(self).audio_stream_ids == old(self).audio_stream_ids,
    {
        self.counts.packets = self.counts.packets.wrapping_add(1);
        self.counts.bytes = self.counts.bytes.wrapping_add(packet_size);
    }

    /// What was counted since the last report; counting starts anew.
    pub fn take_counts(&mut self) -> (r: MediaCounts)
        requires
            old(self).wf(),
        ensures
            r == old(self).counted(),
            final(self).wf(),
            final(self).counted() == MediaCounts::zero(),
            final(self).jitter() == old(self).jitter(),
            final(self).video_ssrc() == old(self).video_ssrc(),
            final(self).audio_session() == old(self).audio_session(),
            final(self).audio_ids() == old(self).audio_ids(),
    {
        let counts = self.counts;
        self.counts = MediaCounts::none();
        counts
    }

    /// Takes a media packet of `packet_size` bytes in while `current_session` is shown. It is
    /// counted also where it does not belong to the session.
    pub fn handle(&mut self, packet: RtpPacket, packet_size: u64, current_session: u32) -> (r:
        MediaStep)
        requires
            old(self).wf(),
        ensures
            final(self).wf(),
            final(self).audio_session() == current_session,
            final(self).audio_ids() == old(self).ids_in(current_session),
            ({
                let accepted = belongs(packet, current_session, old(self).ids_in(current_session));
                &&& r.event == (if accepted && is_video(packet) {
                    Some(
                        ClientSessionEvent::MediaReceived {
                            session_id: packet.header.ssrc,
                            payload_type: packet.header.payload_type,
                        },
                    )
                } else if accepted && is_audio(packet) && current_session != 0 {
                    Some(
                        ClientSessionEvent::MediaReceived {
                            session_id: current_session,
                            payload_type: packet.header.payload_type,
                        },
                    )
                } else {
                    None
                })
                &&& r.audio == (if accepted && is_audio(packet) {
                    Some(packet)
                } else {
                    None
                })
                &&& final(self).counted() == (if accepted && is_video(packet) {
                    old(self).counted().received(packet_size).buffered(r.video@.len() as int)
                } else {
                    old(self).counted().received(packet_size)
                })
                &&& if accepted && is_video(packet) {
                    takes_video(*old(self), packet, r.video@, *final(self))
                } else {
                    &&& r.video@.len() == 0
                    &&& final(self).jitter() == old(self).jitter()
                    &&& final(self).video_ssrc() == old(self).video_ssrc()
                }
            }),
    {
        self.count(packet_size);
        self.sync_audio_session(current_session);
        let audio = packet.header.payload_type == PayloadType::AudioOpus.wire_id();
        let video = packet.header.payload_type == PayloadType::VideoH265.wire_id();
        let mut step = MediaStep { event: None, audio: None, video: Vec::new() };
        if current_session != 0 {
            if audio && !self.audio_stream_ids.contains(&packet.header.ssrc) {
                return step;
            }
            if video && packet.header.ssrc != current_session {
                return step;
            }
        }
        if video {
            step.event = Some(
                ClientSessionEvent::MediaReceived {
                    session_id: packet.header.ssrc,
                    payload_type: packet.header.payload_type,
                },
            );
            step.video = self.handle_video(packet);
        } else if audio {
            if current_session != 0 {
                step.event = Some(
                    ClientSessionEvent::MediaReceived {
                        session_id: current_session,
                        payload_type: packet.header.payload_type,
                    },
                );
            }
            step.audio = Some(packet);
        }
        step
    }

    /// Takes the announcement of an audio stream in. Within a session only its own two streams are
    /// let through; the announcement is then for the audio player.
    pub fn handle_audio_stream_config(
        &mut self,
        config: &AudioStreamConfig,
        current_session: u32,
    ) -> (r: bool)
        requires
            old(self).wf(),
        ensures
            final(self).wf(),
            final(self).counted() == old(self).counted(),
            final(self).jitter() == old(self).jitter(),
            final(self).video_ssrc() == old(self).video_ssrc(),
            final(self).audio_session() == current_session,
            r == (current_session == 0 || config.stream_id == stream_at(
                current_session,
                REMOTE_MICROPHONE_AUDIO_STREAM_OFFSET,
            ) || config.stream_id == stream_at(current_session, REMOTE_SYSTEM_AUDIO_STREAM_OFFSET)),
            final(self).audio_ids() == (if r {
                old(self).ids_in(current_session).insert(config.stream_id)
            } else {
                old(self).ids_in(current_session)
            }),
    {
        self.sync_audio_session(current_session);
        if current_session != 0 && config.stream_id != remote_microphone_audio_stream_id(
            current_session,
        ) && config.stream_id != remote_system_audio_stream_id(current_session) {
            return false;
        }
        let ghost before = self.audio_stream_ids@;
        self.audio_stream_ids.insert(config.stream_id, ());
        proof {
            assert(self.audio_stream_ids@.dom() =~= before.dom().insert(config.stream_id));
        }
        true
    }

    fn handle_video(&mut self, packet: RtpPacket) -> (r: Vec<RtpPacket>)
        requires
            old(self).wf(),
        ensures
            final(self).wf(),
            final(self).audio_stream_ids == old(self).audio_stream_ids,
            final(self).audio_stream_session_id == old(self).audio_stream_session_id,
            final(self).counted() == old(self).counted().buffered(r@.len() as int),
            takes_video(*old(self), packet, r@, *final(self)),
    {
        if packet.header.ssrc != self.last_video_ssrc {
            self.last_video_ssrc = packet.header.ssrc;
            self.video_started = false;
        }
        if !self.video_started {
            self.video_jitter_buffer = JitterBuffer::new(packet.header.sequence_number);
            self.video_started = true;
        }
        let ghost start = self.video_jitter_buffer;
        self.video_jitter_buffer.push(packet);
        let ghost filled = self.video_jitter_buffer;
        let out = self.video_jitter_buffer.drain();
        self.counts.jitter_pushed = self.counts.jitter_pushed.wrapping_add(1);
        self.counts.jitter_popped = self.counts.jitter_popped.wrapping_add(out.len() as u64);
        proof {
            assert(pushed(start, packet, filled));
        }
        out
    }
}

/// What a video packet does: packets of another stream start from an empty buffer, the packet joins
/// those that wait, and what is due is handed out.
pub open spec fn takes_video(
    before: MediaPacketHandler,
    packet: RtpPacket,
    out: Seq<RtpPacket>,
    after: MediaPacketHandler,
) -> bool {
    &&& after.video_ssrc() == Some(packet.header.ssrc)
    &&& exists|start: JitterBuffer, filled: JitterBuffer|
        {
            &&& if before.video_ssrc() == Some(packet.header.ssrc) {
                start == before.jitter()
            } else {
                start.packets() == Seq::<RtpPacket>::empty() && start.expected() is None
            }
            &&& #[trigger] pushed(start, packet, filled)
            &&& drains(
                filled.packets(),
                filled.expected(),
                out,
                after.jitter().packets(),
                after.jitter().expected(),
            )
        }
}

/// The bytes that a media packet counts for: twelve for the header of an RTP packet.
pub fn rtp_packet_size(payload_len: u64) -> (r: u64)
    requires
        payload_len + 12 <= u64::MAX,
    ensures
        r == payload_len + 12,
{
    payload_len + 12
}

/// The bytes that a packet of the data plane counts for, with its compact header.
pub fn data_packet_size(payload_len: u64) -> (r: u64)
    requires
        payload_len + 26 <= u64::MAX,
    ensures
        r == payload_len + 26,
{
    payload_len + 26
}

/// Which packets are let through in a session: audio of the streams that are known in it, video under
/// its own identifier and no other, and whatever is neither. Without a session everything is.
pub proof fn packets_of_the_session_are_let_through(
    packet: RtpPacket,
    session: u32,
    audio_ids: Set<u32>,
)
    ensures
        session == 0 ==> belongs(packet, session, audio_ids),
        session != 0 && packet.header.payload_type == 96 ==> belongs(packet, session, audio_ids) == (
        packet.header.ssrc == session),
        session != 0 && packet.header.payload_type == 97 ==> belongs(packet, session, audio_ids)
            == audio_ids.contains(packet.header.ssrc),
        packet.header.payload_type != 96 && packet.header.payload_type != 97 ==> belongs(
            packet,
            session,
            audio_ids,
        ),
        is_video(packet) == (packet.header.payload_type == 96),
        is_audio(packet) == (packet.header.payload_type == 97),
{
}

/// In a new session only the stream of the microphone is known, which follows the session's own
/// identifier; in the one that goes on, what was announced stays known.
pub proof fn new_sessions_know_the_microphone(handler: MediaPacketHandler, session: u32, id: u32)
    ensures
        handler.audio_session() == session ==> handler.ids_in(session) == handler.audio_ids(),
        handler.audio_session() != session && session != 0 ==> handler.ids_in(session).contains(id)
            == (id == (session + 1) % 0x1_0000_0000),
        handler.audio_session() != 0 && session == 0 ==> !handler.ids_in(session).contains(id),
{
}

/// A packet counts once, and with all its bytes; what the jitter buffer does is counted apart.
pub proof fn packets_are_counted_once(counts: MediaCounts, packet_size: u64, popped: int)
    requires
        0 <= popped <= u64::MAX,
    ensures
        ({
            let now = counts.received(packet_size);
            &&& counts.packets < u64::MAX ==> now.packets == counts.packets + 1
            &&& counts.packets == u64::MAX ==> now.packets == 0
            &&& counts.bytes + packet_size <= u64::MAX ==> now.bytes == counts.bytes + packet_size
            &&& counts.bytes + packet_size > u64::MAX ==> now.bytes + u64::MAX + 1 == counts.bytes
                + packet_size
            &&& now.jitter_pushed == counts.jitter_pushed
            &&& now.jitter_popped == counts.jitter_popped
        }),
        ({
            let now = counts.buffered(popped);
            &&& counts.jitter_pushed < u64::MAX ==> now.jitter_pushed == counts.jitter_pushed + 1
            &&& counts.jitter_popped + popped <= u64::MAX ==> now.jitter_popped
                == counts.jitter_popped + popped
            &&& now.packets == counts.packets
            &&& now.bytes == counts.bytes
        }),
        MediaCounts::zero().packets == 0 && MediaCounts::zero().bytes == 0,
        MediaCounts::zero().jitter_pushed == 0 && MediaCounts::zero().jitter_popped == 0,
{
}

/// The first packet of a video stream is handed out at once, whatever waited of another stream, and
/// nothing waits behind it.
pub proof fn new_streams_start_with_their_packet(
    before: MediaPacketHandler,
    packet: RtpPacket,
    out: Seq<RtpPacket>,
    after: MediaPacketHandler,
)
    requires
        takes_video(before, packet, out, after),
        before.video_ssrc() != Some(packet.header.ssrc),
    ensures
        out == seq![packet],
        after.video_ssrc() == Some(packet.header.ssrc),
        after.jitter().packets().len() == 0,
        after.jitter().expected() == Some(
            ((packet.header.sequence_number + 1) % 0x1_0000) as u16,
        ),
{
    let (start, filled) = choose|start: JitterBuffer, filled: JitterBuffer|
        {
            &&& start.packets() == Seq::<RtpPacket>::empty() && start.expected() is None
            &&& #[trigger] pushed(start, packet, filled)
            &&& drains(
                filled.packets(),
                filled.expected(),
                out,
                after.jitter().packets(),
                after.jitter().expected(),
            )
        };
    lemma_one_drains(packet, out, after.jitter().packets(), after.jitter().expected());
}

} // verus!
