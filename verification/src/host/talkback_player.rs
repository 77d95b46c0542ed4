//! The host plays what the viewer says.
use crate::client::audio_player::{effective_volume, volume_in_effect};
use crate::client::jitter_buffer::{drains, pushed, JitterBuffer};
use crate::protocol::audio::{
    stream_at, viewer_talkback_audio_stream_id, AudioCodec, AudioDirection, AudioSource,
    AudioStreamConfig, VIEWER_TALKBACK_AUDIO_STREAM_OFFSET,
};
use crate::protocol::control::RtpPacket;
use vstd::prelude::*;

verus! {

#[derive(Debug, Clone, Copy, PartialEq, Eq, Structural)]
pub struct TalkbackPlaybackSettings {
    pub muted: bool,
    pub volume_percent: u8,
}

impl Default for TalkbackPlaybackSettings {
    fn default() -> (r: Self)
        ensures
            r == (TalkbackPlaybackSettings { muted: false, volume_percent: 100 }),
    {
        Self { muted: false, volume_percent: 100 }
    }
}

impl TalkbackPlaybackSettings {
    /// How loud talkback is played, in percent. At nought nothing is queued.
    pub fn gain(self) -> (r: u8)
        ensures
            r == effective_volume(self.volume_percent, self.muted),
    {
        volume_in_effect(self.volume_percent, self.muted)
    }
}

/// The announcement is of the viewer's microphone in this session.
pub open spec fn viewer_talkback(config: AudioStreamConfig, session_id: u32) -> bool {
    &&& config.stream_id == stream_at(session_id, VIEWER_TALKBACK_AUDIO_STREAM_OFFSET)
    &&& config.source is ViewerMicrophoneTalkback
    &&& config.direction is ClientToHost
    &&& config.codec is Opus
}

pub fn is_viewer_talkback_config(config: &AudioStreamConfig, session_id: u32) -> (r: bool)
    ensures
        r == viewer_talkback(*config, session_id),
{
    config.stream_id == viewer_talkback_audio_stream_id(session_id) && config.source
        == AudioSource::ViewerMicrophoneTalkback && config.direction
        == AudioDirection::ClientToHost && config.codec == AudioCodec::Opus
}

/// The viewer's stream, once it was announced.
pub struct TalkbackPlayer {
    session_id: u32,
    config: Option<AudioStreamConfig>,
    jitter_buffer: JitterBuffer,
}

impl TalkbackPlayer {
    pub closed spec fn session(&self) -> u32 {
        self.session_id
    }

    pub closed spec fn announced(&self) -> Option<AudioStreamConfig> {
        self.config
    }

    pub closed spec fn jitter(&self) -> JitterBuffer {
        self.jitter_buffer
    }

    pub closed spec fn wf(&self) -> bool {
        &&& self.jitter_buffer.wf()
        &&& match self.config {
            Some(config) => viewer_talkback(config, self.session_id),
            None => true,
        }
    }

    pub fn new(session_id: u32) -> (r: Self)
        ensures
            r.wf(),
            r.session() == session_id,
            r.announced() is None,
    {
        TalkbackPlayer { session_id, config: None, jitter_buffer: JitterBuffer::new(0) }
    }

    /// Whether an announcement calls for a decoder.
    pub fn accepts(&self, config: &AudioStreamConfig) -> (r: bool)
        ensures
            r == viewer_talkback(*config, self.session()),
    {
        is_viewer_talkback_config(config, self.session_id)
    }

    /// Opens the stream of an accepted announcement once it has a decoder; packets that wait are
    /// forgotten.
    pub fn open(&mut self, config: AudioStreamConfig)
        requires
            old(self).wf(),
            viewer_talkback(config, old(self).session()),
        ensures
            final(self).wf(),
            final(self).session() == old(self).session(),
            final(self).announced() == Some(config),
            final(self).jitter().packets() == Seq::<RtpPacket>::empty(),
            final(self).jitter().expected() is None,
    {
        self.config = Some(config);
        self.jitter_buffer = JitterBuffer::new(0);
    }

    /// Takes a packet in, and hands out what can be decoded in order. Packets of other streams, or
    /// before the announcement, are dropped.
    pub fn push_packet(&mut self, packet: RtpPacket) -> (r: Vec<RtpPacket>)
        requires
            old(self).wf(),
        ensures
            final(self).wf(),
            final(self).session() == old(self).session(),
            final(self).announced() == old(self).announced(),
            if old(self).announced() is Some && packet.header.ssrc == stream_at(
                old(self).session(),
                VIEWER_TALKBACK_AUDIO_STREAM_OFFSET,
            ) {
                exists|filled: JitterBuffer|
                    {
                        &&& #[trigger] pushed(old(self).jitter(), packet, filled)
                        &&& drains(
                            filled.packets(),
                            filled.expected(),
                            r@,
                            final(self).jitter().packets(),
                            final(self).jitter().expected(),
                        )
                    }
            } else {
                r@.len() == 0 && final(self).jitter() == old(self).jitter()
            },
    {
        if packet.header.ssrc != viewer_talkback_audio_stream_id(self.session_id)
            || self.config.is_none() {
            return Vec::new();
        }
        self.jitter_buffer.push(packet);
        let ghost filled = self.jitter_buffer;
        let out = self.jitter_buffer.drain();
        proof {
            assert(pushed(old(self).jitter(), packet, filled));
            assert(drains(
                filled.packets(),
                filled.expected(),
                out@,
                self.jitter().packets(),
                self.jitter().expected(),
            ));
        }
        out
    }
}

/// The host plays a stream exactly if it is the talkback of the session: under the identifier a
/// hundred behind the session's, from the viewer's microphone and towards the host.
pub proof fn only_talkback_is_played(config: AudioStreamConfig, session_id: u32)
    ensures
        viewer_talkback(config, session_id) <==> config.stream_id == (session_id + 100)
            % 0x1_0000_0000 && config.source == AudioSource::ViewerMicrophoneTalkback
            && config.direction == AudioDirection::ClientToHost,
{
}

} // verus!
