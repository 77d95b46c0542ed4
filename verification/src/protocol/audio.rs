//! Audio streams: where they come from, how their identifiers derive from a session's, and the
//! announcement that opens one.
use vstd::prelude::*;

verus! {

#[derive(Debug, Clone, Copy, PartialEq, Eq, Structural)]
pub enum AudioSource {
    RemoteSystem,
    RemoteMicrophone,
    RemoteMixed,
    ViewerMicrophoneTalkback,
}

#[derive(Debug, Clone, Copy, PartialEq, Eq, Structural)]
pub enum AudioDirection {
    HostToClient,
    ClientToHost,
}

#[derive(Debug, Clone, Copy, PartialEq, Eq, Structural)]
pub enum AudioCodec {
    Opus,
}

#[derive(Debug, Clone, Copy, PartialEq, Eq, Structural)]
pub enum AudioControlTarget {
    ViewerTalkbackPlayback,
}

pub const REMOTE_MICROPHONE_AUDIO_STREAM_OFFSET: u32 = 1;

pub const REMOTE_SYSTEM_AUDIO_STREAM_OFFSET: u32 = 2;

pub const VIEWER_TALKBACK_AUDIO_STREAM_OFFSET: u32 = 100;

/// The identifier `offset` behind `session_id`, going round at the end of the range.
pub open spec fn stream_at(session_id: u32, offset: u32) -> int {
    (session_id + offset) % 0x1_0000_0000
}

pub fn remote_microphone_audio_stream_id(session_id: u32) -> (r: u32)
    ensures
        r == stream_at(session_id, REMOTE_MICROPHONE_AUDIO_STREAM_OFFSET),
{
    session_id.wrapping_add(REMOTE_MICROPHONE_AUDIO_STREAM_OFFSET)
}

pub fn remote_system_audio_stream_id(session_id: u32) -> (r: u32)
    ensures
        r == stream_at(session_id, REMOTE_SYSTEM_AUDIO_STREAM_OFFSET),
{
    session_id.wrapping_add(REMOTE_SYSTEM_AUDIO_STREAM_OFFSET)
}

pub fn viewer_talkback_audio_stream_id(session_id: u32) -> (r: u32)
    ensures
        r == stream_at(session_id, VIEWER_TALKBACK_AUDIO_STREAM_OFFSET),
{
    session_id.wrapping_add(VIEWER_TALKBACK_AUDIO_STREAM_OFFSET)
}

/// The three audio streams of a session are told apart from each other and from its video, and two
/// sessions never share the stream of one role.
pub proof fn derived_streams_are_distinct(session_id: u32, other: u32)
    ensures
        stream_at(session_id, REMOTE_MICROPHONE_AUDIO_STREAM_OFFSET) != session_id,
        stream_at(session_id, REMOTE_SYSTEM_AUDIO_STREAM_OFFSET) != session_id,
        stream_at(session_id, VIEWER_TALKBACK_AUDIO_STREAM_OFFSET) != session_id,
        stream_at(session_id, REMOTE_MICROPHONE_AUDIO_STREAM_OFFSET) != stream_at(
            session_id,
            REMOTE_SYSTEM_AUDIO_STREAM_OFFSET,
        ),
        stream_at(session_id, REMOTE_MICROPHONE_AUDIO_STREAM_OFFSET) != stream_at(
            session_id,
            VIEWER_TALKBACK_AUDIO_STREAM_OFFSET,
        ),
        stream_at(session_id, REMOTE_SYSTEM_AUDIO_STREAM_OFFSET) != stream_at(
            session_id,
            VIEWER_TALKBACK_AUDIO_STREAM_OFFSET,
        ),
        forall|offset: u32|
            session_id != other ==> #[trigger] stream_at(session_id, offset) != stream_at(
                other,
                offset,
            ),
{
}

/// The announcement of an audio stream.
#[derive(Debug, Clone, Copy, PartialEq, Eq, Structural)]
pub struct AudioStreamConfig {
    pub stream_id: u32,
    pub source: AudioSource,
    pub direction: AudioDirection,
    pub codec: AudioCodec,
    pub sample_rate_hz: u32,
    pub channels: u16,
    pub frame_duration_ms: u16,
}

impl AudioStreamConfig {
    /// The stream announced as Opus with these parameters.
    pub open spec fn opus(
        stream_id: u32,
        source: AudioSource,
        direction: AudioDirection,
        sample_rate_hz: u32,
        channels: u16,
        frame_duration_ms: u16,
    ) -> Self {
        AudioStreamConfig {
            stream_id,
            source,
            direction,
            codec: AudioCodec::Opus,
            sample_rate_hz,
            channels,
            frame_duration_ms,
        }
    }

    pub fn new(
        stream_id: u32,
        source: AudioSource,
        direction: AudioDirection,
        sample_rate_hz: u32,
        channels: u16,
        frame_duration_ms: u16,
    ) -> (r: Self)
        ensures
            r == Self::opus(stream_id, source, direction, sample_rate_hz, channels, frame_duration_ms),
    {
        Self {
            stream_id,
            source,
            direction,
            codec: AudioCodec::Opus,
            sample_rate_hz,
            channels,
            frame_duration_ms,
        }
    }

    /// What the remote machine plays.
    pub fn remote_system(
        stream_id: u32,
        sample_rate_hz: u32,
        channels: u16,
        frame_duration_ms: u16,
    ) -> (r: Self)
        ensures
            r == Self::opus(
                stream_id,
                AudioSource::RemoteSystem,
                AudioDirection::HostToClient,
                sample_rate_hz,
                channels,
                frame_duration_ms,
            ),
    {
        Self::new(
            stream_id,
            AudioSource::RemoteSystem,
            AudioDirection::HostToClient,
            sample_rate_hz,
            channels,
            frame_duration_ms,
        )
    }

    /// What the remote microphone hears.
    pub fn remote_microphone(
        stream_id: u32,
        sample_rate_hz: u32,
        channels: u16,
        frame_duration_ms: u16,
    ) -> (r: Self)
        ensures
            r == Self::opus(
                stream_id,
                AudioSource::RemoteMicrophone,
                AudioDirection::HostToClient,
                sample_rate_hz,
                channels,
                frame_duration_ms,
            ),
    {
        Self::new(
            stream_id,
            AudioSource::RemoteMicrophone,
            AudioDirection::HostToClient,
            sample_rate_hz,
            channels,
            frame_duration_ms,
        )
    }

    /// Both of the above in one stream.
    pub fn remote_mixed(
        stream_id: u32,
        sample_rate_hz: u32,
        channels: u16,
        frame_duration_ms: u16,
    ) -> (r: Self)
        ensures
            r == Self::opus(
                stream_id,
                AudioSource::RemoteMixed,
                AudioDirection::HostToClient,
                sample_rate_hz,
                channels,
                frame_duration_ms,
            ),
    {
        Self::new(
            stream_id,
            AudioSource::RemoteMixed,
            AudioDirection::HostToClient,
            sample_rate_hz,
            channels,
            frame_duration_ms,
        )
    }

    /// What the viewer's microphone hears, on its way to the host.
    pub fn viewer_microphone_talkback(
        stream_id: u32,
        sample_rate_hz: u32,
        channels: u16,
        frame_duration_ms: u16,
    ) -> (r: Self)
        ensures
            r == Self::opus(
                stream_id,
                AudioSource::ViewerMicrophoneTalkback,
                AudioDirection::ClientToHost,
                sample_rate_hz,
                channels,
                frame_duration_ms,
            ),
    {
        Self::new(
            stream_id,
            AudioSource::ViewerMicrophoneTalkback,
            AudioDirection::ClientToHost,
            sample_rate_hz,
            channels,
            frame_duration_ms,
        )
    }

    /// Announces what a host captures from `source`; a talkback source announces the other direction.
    pub fn host_audio_stream_config(
        stream_id: u32,
        source: AudioSource,
        sample_rate: u32,
        channels: u16,
        frame_duration_ms: u16,
    ) -> (r: Self)
        ensures
            r == Self::opus(
                stream_id,
                source,
                if source is ViewerMicrophoneTalkback {
                    AudioDirection::ClientToHost
                } else {
                    AudioDirection::HostToClient
                },
                sample_rate,
                channels,
                frame_duration_ms,
            ),
    {
        match source {
            AudioSource::RemoteSystem =>
                Self::remote_system(stream_id, sample_rate, channels, frame_duration_ms),
            AudioSource::RemoteMicrophone =>
                Self::remote_microphone(stream_id, sample_rate, channels, frame_duration_ms),
            AudioSource::RemoteMixed =>
                Self::remote_mixed(stream_id, sample_rate, channels, frame_duration_ms),
            AudioSource::ViewerMicrophoneTalkback =>
                Self::viewer_microphone_talkback(stream_id, sample_rate, channels, frame_duration_ms),
        }
    }
}

/// The stream of the remote microphone follows its session, that of what is played follows next, and
/// talkback is a hundred behind; the range goes round.
pub proof fn derived_streams_follow_their_session(session_id: u32)
    ensures
        session_id < u32::MAX ==> stream_at(session_id, REMOTE_MICROPHONE_AUDIO_STREAM_OFFSET)
            == session_id + 1,
        session_id < u32::MAX - 1 ==> stream_at(session_id, REMOTE_SYSTEM_AUDIO_STREAM_OFFSET)
            == session_id + 2,
        session_id <= u32::MAX - 100 ==> stream_at(session_id, VIEWER_TALKBACK_AUDIO_STREAM_OFFSET)
            == session_id + 100,
        stream_at(u32::MAX, REMOTE_MICROPHONE_AUDIO_STREAM_OFFSET) == 0,
        session_id > u32::MAX - 100 ==> stream_at(session_id, VIEWER_TALKBACK_AUDIO_STREAM_OFFSET)
            + u32::MAX + 1 == session_id + 100,
{
}

/// An announcement holds what it was made of.
pub proof fn announced_streams_are_as_told(
    stream_id: u32,
    source: AudioSource,
    direction: AudioDirection,
    sample_rate_hz: u32,
    channels: u16,
    frame_duration_ms: u16,
)
    ensures
        ({
            let c = AudioStreamConfig::opus(
                stream_id,
                source,
                direction,
                sample_rate_hz,
                channels,
                frame_duration_ms,
            );
            &&& c.stream_id == stream_id
            &&& c.source == source
            &&& c.direction == direction
            &&& c.sample_rate_hz == sample_rate_hz
            &&& c.channels == channels
            &&& c.frame_duration_ms == frame_duration_ms
        }),
{
}

} // verus!
