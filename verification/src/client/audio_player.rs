//! Playing the audio of the host: which streams there are, how loud each is, and which sample goes
//! to which channel.
use crate::client::jitter_buffer::{drains, pushed, JitterBuffer};
use crate::protocol::audio::{AudioCodec, AudioDirection, AudioSource, AudioStreamConfig};
use crate::protocol::control::RtpPacket;
use crate::table::{lemma_to_map, to_map, Table};
use crate::text::{decimal, push_decimal};
use vstd::prelude::*;

verus! {

/// Streams that can be mixed, and volumes that are remembered.
pub const MAX_PLAYBACK_LANES: usize = 16;

/// No stream is made louder than this.
pub const MAX_VOLUME_PERCENT: u8 = 200;

#[derive(Debug)]
pub enum AudioPlayerEvent {
    StreamConfig(AudioStreamConfig),
    Settings(AudioPlayerSettings),
    Packet(RtpPacket),
    StreamVolume { stream_id: u32, volume_percent: u8, muted: bool },
    RemoveStream(u32),
}

#[derive(Debug, Clone, Copy, PartialEq, Eq, Structural)]
pub struct AudioPlayerSettings {
    pub remote_system_muted: bool,
    pub remote_microphone_muted: bool,
    pub volume_percent: u8,
}

impl Default for AudioPlayerSettings {
    fn default() -> (r: Self)
        ensures
            r == (AudioPlayerSettings {
                remote_system_muted: false,
                remote_microphone_muted: false,
                volume_percent: 100,
            }),
    {
        Self { remote_system_muted: false, remote_microphone_muted: false, volume_percent: 100 }
    }
}

/// A volume as it takes effect: nought when muted, and never above the limit.
pub open spec fn effective_volume(volume_percent: u8, muted: bool) -> u8 {
    if muted {
        0
    } else if volume_percent > MAX_VOLUME_PERCENT {
        MAX_VOLUME_PERCENT
    } else {
        volume_percent
    }
}

/// A volume as it takes effect.
pub fn volume_in_effect(volume_percent: u8, muted: bool) -> (r: u8)
    ensures
        r == effective_volume(volume_percent, muted),
{
    if muted {
        0
    } else if volume_percent > MAX_VOLUME_PERCENT {
        MAX_VOLUME_PERCENT
    } else {
        volume_percent
    }
}

impl AudioPlayerSettings {
    /// What the settings do to a source, in percent. The mixed stream goes with the system's.
    pub open spec fn source_gain(self, source: AudioSource) -> u8 {
        effective_volume(
            self.volume_percent,
            match source {
                AudioSource::RemoteSystem | AudioSource::RemoteMixed => self.remote_system_muted,
                AudioSource::RemoteMicrophone => self.remote_microphone_muted,
                AudioSource::ViewerMicrophoneTalkback => false,
            },
        )
    }

    /// What the settings do to a source, in percent.
    pub fn gain_for_source(self, source: AudioSource) -> (r: u8)
        ensures
            r == self.source_gain(source),
    {
        let muted = match source {
            AudioSource::RemoteSystem | AudioSource::RemoteMixed => self.remote_system_muted,
            AudioSource::RemoteMicrophone => self.remote_microphone_muted,
            AudioSource::ViewerMicrophoneTalkback => false,
        };
        volume_in_effect(self.volume_percent, muted)
    }
}

/// The announcement that is made up for packets of a stream that nobody announced.
pub fn legacy_audio_stream_config(stream_id: u32) -> (r: AudioStreamConfig)
    ensures
        r == AudioStreamConfig::opus(
            stream_id,
            AudioSource::RemoteMicrophone,
            AudioDirection::HostToClient,
            48_000,
            2,
            20,
        ),
{
    AudioStreamConfig::remote_microphone(stream_id, 48_000, 2, 20)
}

/// How many channels an Opus stream has.
#[derive(Debug, Clone, Copy, PartialEq, Eq, Structural)]
pub enum OpusChannels {
    Mono,
    Stereo,
}

/// The channels of an Opus stream: one or two.
pub fn opus_channels(channels: u16) -> (r: Result<OpusChannels, String>)
    ensures
        match r {
            Ok(OpusChannels::Mono) => channels == 1,
            Ok(OpusChannels::Stereo) => channels == 2,
            Err(e) => channels != 1 && channels != 2 && e@ == "unsupported Opus channel count "@
                + decimal(channels as nat),
        },
{
    match channels {
        1 => Ok(OpusChannels::Mono),
        2 => Ok(OpusChannels::Stereo),
        other => {
            let mut message = "unsupported Opus channel count ".to_owned();
            push_decimal(&mut message, other as u64);
            Err(message)
        },
    }
}

/// The lane that a stream has before one is chosen for it.
pub fn playback_lane(source: AudioSource) -> (r: usize)
    ensures
        r == (if source is RemoteMicrophone {
            1usize
        } else {
            0usize
        }),
{
    if source == AudioSource::RemoteMicrophone {
        1
    } else {
        0
    }
}

/// The sample rates that Opus decodes to.
pub open spec fn opus_rate(rate: u32) -> bool {
    rate == 48000 || rate == 24000 || rate == 16000 || rate == 12000 || rate == 8000
}

pub fn is_opus_rate(rate: u32) -> (r: bool)
    ensures
        r == opus_rate(rate),
{
    rate == 48000 || rate == 24000 || rate == 16000 || rate == 12000 || rate == 8000
}

/// A way in which an output device can be opened.
#[derive(Debug, Clone, Copy, PartialEq, Eq, Structural)]
pub struct OutputRange {
    pub channels: u16,
    pub min_sample_rate: u32,
    pub max_sample_rate: u32,
    /// Samples are single-precision numbers or signed 16-bit integers.
    pub known_format: bool,
}

impl OutputRange {
    /// The device can be opened at `rate` with `channels` channels.
    pub open spec fn offers(self, channels: u16, rate: u32) -> bool {
        self.channels == channels && self.min_sample_rate <= rate <= self.max_sample_rate
            && self.known_format
    }
}

/// Which way of opening the device to take.
#[derive(Debug, Clone, Copy, PartialEq, Eq, Structural)]
pub enum OutputChoice {
    /// The one that the device has by default.
    Default,
    /// One of the others, at this rate.
    Range { index: usize, sample_rate: u32 },
}

/// Some way of opening the device offers `rate`.
pub open spec fn offered(ranges: Seq<OutputRange>, channels: u16, rate: u32) -> bool {
    exists|i: int| 0 <= i < ranges.len() && (#[trigger] ranges[i]).offers(channels, rate)
}

fn first_offer(ranges: &Vec<OutputRange>, channels: u16, rate: u32) -> (r: Option<usize>)
    ensures
        match r {
            Some(i) => {
                &&& i < ranges@.len()
                &&& ranges@[i as int].offers(channels, rate)
                &&& forall|j: int|
                    0 <= j < i ==> !(#[trigger] ranges@[j]).offers(channels, rate)
            },
            None => !offered(ranges@, channels, rate),
        },
{
    let mut i: usize = 0;
    while i < ranges.len()
        invariant
            i <= ranges@.len(),
            forall|j: int| 0 <= j < i ==> !(#[trigger] ranges@[j]).offers(channels, rate),
        decreases ranges.len() - i,
    {
        let range = ranges[i];
        if range.channels == channels && range.min_sample_rate <= rate && rate
            <= range.max_sample_rate && range.known_format {
            return Some(i);
        }
        i += 1;
    }
    None
}

/// How to open the output device so that Opus can decode straight to its rate: as it is by default
/// if that will do, or else at the highest such rate that it offers with as many channels.
pub fn select_output_config(
    default_rate: u32,
    default_channels: u16,
    default_format_known: bool,
    ranges: &Vec<OutputRange>,
) -> (r: Result<OutputChoice, &'static str>)
    ensures
        match r {
            Ok(OutputChoice::Default) => opus_rate(default_rate) && default_format_known,
            Ok(OutputChoice::Range { index, sample_rate }) => {
                &&& !(opus_rate(default_rate) && default_format_known)
                &&& opus_rate(sample_rate)
                &&& index < ranges@.len()
                &&& ranges@[index as int].offers(default_channels, sample_rate)
                &&& forall|j: int|
                    0 <= j < index ==> !(#[trigger] ranges@[j]).offers(
                        default_channels,
                        sample_rate,
                    )
                &&& forall|rate: u32|
                    rate > sample_rate && opus_rate(rate) ==> !#[trigger] offered(
                        ranges@,
                        default_channels,
                        rate,
                    )
            },
            Err(e) => {
                &&& !(opus_rate(default_rate) && default_format_known)
                &&& forall|rate: u32|
                    opus_rate(rate) ==> !#[trigger] offered(ranges@, default_channels, rate)
                &&& e@
                    == "Audio output has no Opus-compatible sample rate; a platform resampler is required"@
            },
        },
{
    if is_opus_rate(default_rate) && default_format_known {
        return Ok(OutputChoice::Default);
    }
    if let Some(index) = first_offer(ranges, default_channels, 48000) {
        return Ok(OutputChoice::Range { index, sample_rate: 48000 });
    }
    if let Some(index) = first_offer(ranges, default_channels, 24000) {
        return Ok(OutputChoice::Range { index, sample_rate: 24000 });
    }
    if let Some(index) = first_offer(ranges, default_channels, 16000) {
        return Ok(OutputChoice::Range { index, sample_rate: 16000 });
    }
    if let Some(index) = first_offer(ranges, default_channels, 12000) {
        return Ok(OutputChoice::Range { index, sample_rate: 12000 });
    }
    if let Some(index) = first_offer(ranges, default_channels, 8000) {
        return Ok(OutputChoice::Range { index, sample_rate: 8000 });
    }
    Err("Audio output has no Opus-compatible sample rate; a platform resampler is required")
}

/// Where a sample of the output comes from: one sample that was decoded, or the mean of several.
#[derive(Debug, Clone, Copy, PartialEq, Eq, Structural)]
pub enum SamplePick {
    Copy { index: usize },
    Mean { from: usize, count: usize },
}

/// Where the sample for `channel` of the frame `frame` comes from. One channel is copied to all;
/// all are averaged into one; otherwise channels correspond, and the last one stands in for those
/// that are missing.
pub open spec fn pick_for(
    frame: int,
    channel: int,
    source_channels: int,
    output_channels: int,
) -> SamplePick {
    let start = frame * source_channels;
    if source_channels == output_channels {
        SamplePick::Copy { index: (start + channel) as usize }
    } else if source_channels == 1 {
        SamplePick::Copy { index: start as usize }
    } else if output_channels == 1 {
        SamplePick::Mean { from: start as usize, count: source_channels as usize }
    } else if channel < source_channels {
        SamplePick::Copy { index: (start + channel) as usize }
    } else {
        SamplePick::Copy { index: (start + source_channels - 1) as usize }
    }
}

/// The frames that are complete among the samples that were decoded.
pub open spec fn whole_frames(
    decoded_len: int,
    samples_per_channel: int,
    source_channels: int,
) -> int {
    if source_channels == 0 {
        0
    } else if samples_per_channel < decoded_len / source_channels {
        samples_per_channel
    } else {
        decoded_len / source_channels
    }
}

/// Nothing outside the decoded samples is touched.
pub open spec fn within(pick: SamplePick, decoded_len: int) -> bool {
    match pick {
        SamplePick::Copy { index } => index < decoded_len,
        SamplePick::Mean { from, count } => count > 0 && from + count <= decoded_len,
    }
}

fn pick(
    frame: usize,
    channel: usize,
    source_channels: usize,
    output_channels: usize,
    decoded_len: usize,
) -> (r: SamplePick)
    requires
        source_channels > 0,
        channel < output_channels,
        frame < decoded_len / source_channels,
    ensures
        r == pick_for(
            frame as int,
            channel as int,
            source_channels as int,
            output_channels as int,
        ),
        within(r, decoded_len as int),
{
    proof {
        assert(frame * source_channels + source_channels <= decoded_len) by (nonlinear_arith)
            requires
                source_channels > 0,
                0 <= frame < decoded_len as int / source_channels as int,
        ;
        assert(0 <= frame * source_channels) by (nonlinear_arith)
            requires
                0 <= frame,
                0 <= source_channels,
        ;
    }
    let start: usize = frame * source_channels;
    if source_channels == output_channels {
        SamplePick::Copy { index: start + channel }
    } else if source_channels == 1 {
        SamplePick::Copy { index: start }
    } else if output_channels == 1 {
        SamplePick::Mean { from: start, count: source_channels }
    } else if channel < source_channels {
        SamplePick::Copy { index: start + channel }
    } else {
        SamplePick::Copy { index: start + (source_channels - 1) }
    }
}

/// Where each sample of the output comes from, frame by frame and channel by channel.
pub fn output_picks(
    decoded_len: usize,
    samples_per_channel: usize,
    source_channels: usize,
    output_channels: usize,
) -> (r: Vec<SamplePick>)
    ensures
        r@.len() == whole_frames(
            decoded_len as int,
            samples_per_channel as int,
            source_channels as int,
        ) * output_channels,
        forall|frame: int, channel: int|
            0 <= frame < whole_frames(
                decoded_len as int,
                samples_per_channel as int,
                source_channels as int,
            ) && 0 <= channel < output_channels ==> r@[frame * output_channels + channel]
                == #[trigger] pick_for(
                frame,
                channel,
                source_channels as int,
                output_channels as int,
            ),
        forall|i: int| 0 <= i < r@.len() ==> within(#[trigger] r@[i], decoded_len as int),
{
    let mut picks: Vec<SamplePick> = Vec::new();
    if source_channels == 0 || output_channels == 0 {
        return picks;
    }
    let available: usize = decoded_len / source_channels;
    let frames: usize = if samples_per_channel < available {
        samples_per_channel
    } else {
        available
    };
    let mut frame: usize = 0;
    while frame < frames
        invariant
            frame <= frames <= decoded_len / source_channels,
            source_channels > 0,
            output_channels > 0,
            picks@.len() == frame * output_channels,
            forall|f: int, c: int|
                0 <= f < frame && 0 <= c < output_channels ==> picks@[f * output_channels + c]
                    == #[trigger] pick_for(f, c, source_channels as int, output_channels as int),
            forall|i: int| 0 <= i < picks@.len() ==> within(#[trigger] picks@[i], decoded_len as int),
        decreases frames - frame,
    {
        let mut channel: usize = 0;
        while channel < output_channels
            invariant
                channel <= output_channels,
                frame < frames <= decoded_len / source_channels,
                source_channels > 0,
                picks@.len() == frame * output_channels + channel,
                forall|f: int, c: int|
                    0 <= f < frame && 0 <= c < output_channels ==> picks@[f * output_channels + c]
                        == #[trigger] pick_for(f, c, source_channels as int, output_channels as int),
                forall|c: int|
                    0 <= c < channel ==> picks@[frame * output_channels + c] == #[trigger] pick_for(
                        frame as int,
                        c,
                        source_channels as int,
                        output_channels as int,
                    ),
                forall|i: int|
                    0 <= i < picks@.len() ==> within(#[trigger] picks@[i], decoded_len as int),
            decreases output_channels - channel,
        {
            let next = pick(frame, channel, source_channels, output_channels, decoded_len);
            let ghost before = picks@;
            picks.push(next);
            proof {
                assert forall|f: int, c: int|
                    0 <= f < frame && 0 <= c < output_channels implies picks@[f * output_channels
                    + c] == #[trigger] pick_for(
                    f,
                    c,
                    source_channels as int,
                    output_channels as int,
                ) by {
                    assert(0 <= f * output_channels + c < frame * output_channels)
                        by (nonlinear_arith)
                        requires
                            0 <= f < frame,
                            0 <= c < output_channels,
                    ;
                    assert(before[f * output_channels + c] == picks@[f * output_channels + c]);
                }
            }
            channel += 1;
        }
        proof {
            assert((frame + 1) * output_channels == frame * output_channels + output_channels)
                by (nonlinear_arith);
        }
        frame += 1;
    }
    picks
}

/// Chunks that one callback of the output device takes at most.
pub const MAX_CHUNKS_PER_CALLBACK: usize = 8;

/// The samples of one channel that wait for the output device at most: those of 60 milliseconds.
pub fn mixer_frames(output_rate: u32) -> (r: u64)
    ensures
        r == output_rate * 60 / 1000,
{
    output_rate as u64 * 60 / 1000
}

/// The room that a decoder needs: for the longest packet, of 120 milliseconds.
pub fn decode_buffer_len(output_rate: u32, channels: u16) -> (r: u64)
    ensures
        r == (output_rate * 120 / 1000) * channels,
{
    let frames: u64 = output_rate as u64 * 120 / 1000;
    proof {
        assert(0 <= frames * channels <= 0x2000_0000 * 0xffff) by (nonlinear_arith)
            requires
                0 <= frames <= 0x2000_0000,
                0 <= channels <= 0xffff,
        ;
    }
    frames * channels as u64
}

/// One stream that is played.
pub struct StreamSlot {
    /// Where the mixer takes its samples.
    pub lane: usize,
    /// How loud the viewer made this stream, in percent.
    pub volume: u8,
    pub config: AudioStreamConfig,
    pub jitter: JitterBuffer,
}

/// A lane that some stream has.
pub open spec fn lane_taken(streams: Map<u32, StreamSlot>, lane: usize) -> bool {
    exists|id: u32| #[trigger] streams.dom().contains(id) && streams[id].lane == lane
}

/// The lowest lane that no stream has.
pub open spec fn is_free_lane(streams: Map<u32, StreamSlot>, lane: usize) -> bool {
    &&& lane < MAX_PLAYBACK_LANES
    &&& !lane_taken(streams, lane)
    &&& forall|lower: usize| lower < lane ==> #[trigger] lane_taken(streams, lower)
}

/// Every lane has its stream.
pub open spec fn lanes_full(streams: Map<u32, StreamSlot>) -> bool {
    forall|lane: usize| lane < MAX_PLAYBACK_LANES ==> #[trigger] lane_taken(streams, lane)
}

/// What to do with a packet before it can be decoded.
#[derive(Debug, Clone, Copy, PartialEq, Eq, Structural)]
pub enum PacketStep {
    /// Its stream is there.
    Known,
    /// Its stream was never announced: set up a decoder for this and open the stream.
    Open { config: AudioStreamConfig },
    /// There is no room for its stream.
    Refuse,
}

/// The streams that are played.
pub struct AudioPlayer {
    streams: Table<u32, StreamSlot>,
    volumes: Table<u32, u8>,
    settings: AudioPlayerSettings,
}

impl AudioPlayer {
    pub closed spec fn streams(&self) -> Map<u32, StreamSlot> {
        self.streams@
    }

    /// The volumes that the viewer chose, also for streams that are not there.
    pub closed spec fn volumes(&self) -> Map<u32, u8> {
        self.volumes@
    }

    pub closed spec fn settings(&self) -> AudioPlayerSettings {
        self.settings
    }

    /// Every stream has a lane of its own.
    pub open spec fn wf(&self) -> bool {
        &&& forall|id: u32|
            #[trigger] self.streams().dom().contains(id) ==> self.streams()[id].lane
                < MAX_PLAYBACK_LANES && self.streams()[id].jitter.wf()
        &&& forall|a: u32, b: u32|
            #![trigger self.streams().dom().contains(a), self.streams().dom().contains(b)]
            self.streams().dom().contains(a) && self.streams().dom().contains(b) && a != b
                ==> self.streams()[a].lane != self.streams()[b].lane
    }

    pub fn new() -> (r: Self)
        ensures
            r.wf(),
            r.streams() == Map::<u32, StreamSlot>::empty(),
            r.volumes() == Map::<u32, u8>::empty(),
            r.settings() == (AudioPlayerSettings {
                remote_system_muted: false,
                remote_microphone_muted: false,
                volume_percent: 100,
            }),
    {
        AudioPlayer {
            streams: Table::new(),
            volumes: Table::new(),
            settings: AudioPlayerSettings::default(),
        }
    }

    pub fn set_settings(&mut self, settings: AudioPlayerSettings)
        requires
            old(self).wf(),
        ensures
            final(self).wf(),
            final(self).settings() == settings,
            final(self).streams() == old(self).streams(),
            final(self).volumes() == old(self).volumes(),
    {
        self.settings = settings;
    }

    /// Makes one stream louder or softer. Volumes are remembered while there is room. What is queued
    /// for the stream's lane is to be thrown away then.
    pub fn stream_volume(&mut self, stream_id: u32, volume_percent: u8, muted: bool) -> (r: Option<
        usize,
    >)
        requires
            old(self).wf(),
        ensures
            final(self).wf(),
            final(self).settings() == old(self).settings(),
            final(self).volumes() == (if old(self).volumes().dom().len() < MAX_PLAYBACK_LANES
                || old(self).volumes().dom().contains(stream_id) {
                old(self).volumes().insert(stream_id, effective_volume(volume_percent, muted))
            } else {
                old(self).volumes()
            }),
            match r {
                Some(lane) => {
                    &&& old(self).streams().dom().contains(stream_id)
                    &&& old(self).streams()[stream_id].lane == lane
                    &&& final(self).streams() == old(self).streams().insert(
                        stream_id,
                        StreamSlot {
                            volume: effective_volume(volume_percent, muted),
                            ..old(self).streams()[stream_id]
                        },
                    )
                },
                None => {
                    &&& !old(self).streams().dom().contains(stream_id)
                    &&& final(self).streams() == old(self).streams()
                },
            },
    {
        let volume: u8 = volume_in_effect(volume_percent, muted);
        if self.volumes.len() < MAX_PLAYBACK_LANES || self.volumes.contains(&stream_id) {
            self.volumes.insert(stream_id, volume);
        }
        match self.streams.remove(&stream_id) {
            Some(slot) => {
                let mut slot = slot;
                slot.volume = volume;
                let lane: usize = slot.lane;
                self.streams.insert(stream_id, slot);
                proof {
                    assert(self.streams@ =~= old(self).streams@.insert(stream_id, slot));
                }
                Some(lane)
            },
            None => {
                proof {
                    assert(self.streams@ =~= old(self).streams@);
                }
                None
            },
        }
    }

    /// Forgets a stream and its volume. What is queued for its lane is to be thrown away then.
    pub fn remove_stream(&mut self, stream_id: u32) -> (r: Option<usize>)
        requires
            old(self).wf(),
        ensures
            final(self).wf(),
            final(self).settings() == old(self).settings(),
            final(self).volumes() == old(self).volumes().remove(stream_id),
            final(self).streams() == old(self).streams().remove(stream_id),
            r == (if old(self).streams().dom().contains(stream_id) {
                Some(old(self).streams()[stream_id].lane)
            } else {
                None
            }),
    {
        let _ = self.volumes.remove(&stream_id);
        match self.streams.remove(&stream_id) {
            Some(slot) => Some(slot.lane),
            None => None,
        }
    }

    /// Whether an announcement calls for a new decoder: it comes from the host and says something
    /// new.
    pub fn wants_decoder(&self, config: &AudioStreamConfig) -> (r: bool)
        ensures
            r == (config.direction is HostToClient && !(self.streams().dom().contains(
                config.stream_id,
            ) && self.streams()[config.stream_id].config == *config)),
    {
        if config.direction != AudioDirection::HostToClient {
            return false;
        }
        match self.streams.get(&config.stream_id) {
            Some(slot) => slot.config != *config,
            None => true,
        }
    }

    /// The channels to set a decoder up with.
    pub fn decoder_channels(config: &AudioStreamConfig) -> (r: Result<OpusChannels, String>)
        ensures
            match r {
                Ok(OpusChannels::Mono) => config.channels == 1,
                Ok(OpusChannels::Stereo) => config.channels == 2,
                Err(e) => config.channels != 1 && config.channels != 2 && e@
                    == "unsupported Opus channel count "@ + decimal(config.channels as nat),
            },
    {
        match config.codec {
            AudioCodec::Opus => opus_channels(config.channels),
        }
    }

    fn taken(&self, lane: usize) -> (r: bool)
        ensures
            r == lane_taken(self.streams(), lane),
    {
        let n: usize = self.streams.len();
        let ghost entries = self.streams.entries();
        let mut i: usize = 0;
        proof {
            lemma_to_map(entries);
        }
        while i < n
            invariant
                i <= n,
                n == self.streams.entries().len(),
                entries == self.streams.entries(),
                forall|j: int| 0 <= j < i ==> (#[trigger] entries[j]).1.lane != lane,
            decreases n - i,
        {
            let (id, slot) = self.streams.nth(i);
            if slot.lane == lane {
                proof {
                    assert(self.streams().dom().contains(id));
                }
                return true;
            }
            i += 1;
        }
        proof {
            if lane_taken(self.streams(), lane) {
                let id = choose|id: u32| #[trigger]
                    self.streams().dom().contains(id) && self.streams()[id].lane == lane;
                assert(to_map(entries).dom().contains(id));
                let j = choose|j: int| 0 <= j < entries.len() && (#[trigger] entries[j]).0 == id;
                assert(entries[j].1.lane != lane);
            }
        }
        false
    }

    fn free_lane(&self) -> (r: Option<usize>)
        ensures
            match r {
                Some(lane) => is_free_lane(self.streams(), lane),
                None => lanes_full(self.streams()),
            },
    {
        let mut lane: usize = 0;
        while lane < MAX_PLAYBACK_LANES
            invariant
                lane <= MAX_PLAYBACK_LANES,
                forall|lower: usize| lower < lane ==> #[trigger] lane_taken(self.streams(), lower),
            decreases MAX_PLAYBACK_LANES - lane,
        {
            if !self.taken(lane) {
                return Some(lane);
            }
            lane += 1;
        }
        None
    }

    /// Opens the stream of an announcement once it has a decoder, at the volume that was chosen for
    /// it. A stream that is announced anew keeps its lane.
    pub fn open_announced(&mut self, config: AudioStreamConfig) -> (r: Option<usize>)
        requires
            old(self).wf(),
        ensures
            final(self).wf(),
            final(self).settings() == old(self).settings(),
            final(self).volumes() == old(self).volumes(),
            match r {
                Some(lane) => {
                    &&& if old(self).streams().dom().contains(config.stream_id) {
                        lane == old(self).streams()[config.stream_id].lane
                    } else {
                        is_free_lane(old(self).streams(), lane)
                    }
                    &&& final(self).opened(old(self).streams(), config, lane)
                    &&& final(self).streams()[config.stream_id].volume == (if old(
                        self,
                    ).volumes().dom().contains(config.stream_id) {
                        old(self).volumes()[config.stream_id]
                    } else {
                        100
                    })
                },
                None => {
                    &&& !old(self).streams().dom().contains(config.stream_id)
                    &&& lanes_full(old(self).streams())
                    &&& final(self).streams() == old(self).streams()
                },
            },
    {
        let lane: usize = match self.streams.get(&config.stream_id) {
            Some(slot) => slot.lane,
            None => match self.free_lane() {
                Some(lane) => lane,
                None => return None,
            },
        };
        let volume: u8 = match self.volumes.get(&config.stream_id) {
            Some(volume) => *volume,
            None => 100,
        };
        self.streams.insert(
            config.stream_id,
            StreamSlot { lane, volume, config, jitter: JitterBuffer::new(0) },
        );
        Some(lane)
    }

    /// The stream of `config` was opened in `lane`, with nothing waiting; all others are as they
    /// were.
    pub open spec fn opened(
        &self,
        before: Map<u32, StreamSlot>,
        config: AudioStreamConfig,
        lane: usize,
    ) -> bool {
        let id = config.stream_id;
        &&& self.streams().dom() == before.dom().insert(id)
        &&& self.streams()[id].lane == lane
        &&& self.streams()[id].config == config
        &&& self.streams()[id].jitter.packets() == Seq::<RtpPacket>::empty()
        &&& self.streams()[id].jitter.expected() is None
        &&& forall|other: u32|
            #[trigger] before.dom().contains(other) && other != id ==> self.streams()[other]
                == before[other]
    }

    /// What a packet of a stream needs first.
    pub fn packet_step(&self, stream_id: u32) -> (r: PacketStep)
        ensures
            match r {
                PacketStep::Known => self.streams().dom().contains(stream_id),
                PacketStep::Open { config } => {
                    &&& !self.streams().dom().contains(stream_id)
                    &&& !lanes_full(self.streams())
                    &&& config == AudioStreamConfig::opus(
                        stream_id,
                        AudioSource::RemoteMicrophone,
                        AudioDirection::HostToClient,
                        48_000,
                        2,
                        20,
                    )
                },
                PacketStep::Refuse => !self.streams().dom().contains(stream_id) && lanes_full(
                    self.streams(),
                ),
            },
    {
        if self.streams.contains(&stream_id) {
            return PacketStep::Known;
        }
        match self.free_lane() {
            Some(_lane) => PacketStep::Open { config: legacy_audio_stream_config(stream_id) },
            None => PacketStep::Refuse,
        }
    }

    /// Opens the stream of packets that nobody announced, at full volume, once it has a decoder.
    pub fn open_legacy(&mut self, stream_id: u32) -> (r: Option<usize>)
        requires
            old(self).wf(),
            !old(self).streams().dom().contains(stream_id),
        ensures
            final(self).wf(),
            final(self).settings() == old(self).settings(),
            final(self).volumes() == old(self).volumes(),
            match r {
                Some(lane) => {
                    &&& is_free_lane(old(self).streams(), lane)
                    &&& final(self).opened(
                        old(self).streams(),
                        AudioStreamConfig::opus(
                            stream_id,
                            AudioSource::RemoteMicrophone,
                            AudioDirection::HostToClient,
                            48_000,
                            2,
                            20,
                        ),
                        lane,
                    )
                    &&& final(self).streams()[stream_id].volume == 100
                },
                None => lanes_full(old(self).streams()) && final(self).streams() == old(
                    self,
                ).streams(),
            },
    {
        let lane: usize = match self.free_lane() {
            Some(lane) => lane,
            None => return None,
        };
        self.streams.insert(
            stream_id,
            StreamSlot {
                lane,
                volume: 100,
                config: legacy_audio_stream_config(stream_id),
                jitter: JitterBuffer::new(0),
            },
        );
        Some(lane)
    }

    /// Takes a packet in, and hands out what can be decoded in order.
    pub fn push_packet(&mut self, packet: RtpPacket) -> (r: Vec<RtpPacket>)
        requires
            old(self).wf(),
        ensures
            final(self).wf(),
            final(self).settings() == old(self).settings(),
            final(self).volumes() == old(self).volumes(),
            ({
                let id = packet.header.ssrc;
                if old(self).streams().dom().contains(id) {
                    let before = old(self).streams()[id];
                    let after = final(self).streams()[id];
                    &&& final(self).streams() == old(self).streams().insert(id, after)
                    &&& after == (StreamSlot { jitter: after.jitter, ..before })
                    &&& exists|filled: JitterBuffer|
                        {
                            &&& #[trigger] pushed(before.jitter, packet, filled)
                            &&& drains(
                                filled.packets(),
                                filled.expected(),
                                r@,
                                after.jitter.packets(),
                                after.jitter.expected(),
                            )
                        }
                } else {
                    &&& r@.len() == 0
                    &&& final(self).streams() == old(self).streams()
                }
            }),
    {
        let id: u32 = packet.header.ssrc;
        match self.streams.remove(&id) {
            Some(slot) => {
                let mut slot = slot;
                let ghost before = slot;
                slot.jitter.push(packet);
                let ghost filled = slot.jitter;
                let out = slot.jitter.drain();
                proof {
                    assert(pushed(before.jitter, packet, filled));
                }
                self.streams.insert(id, slot);
                proof {
                    assert(self.streams@ =~= old(self).streams@.insert(id, slot));
                }
                out
            },
            None => {
                proof {
                    assert(self.streams@ =~= old(self).streams@);
                }
                Vec::new()
            },
        }
    }

    /// How loud a stream is played, in parts of ten thousand: the settings for its source times its
    /// own volume. At nought nothing is queued.
    pub fn gain(&self, stream_id: u32) -> (r: u32)
        ensures
            r == (if self.streams().dom().contains(stream_id) {
                self.settings().source_gain(self.streams()[stream_id].config.source)
                    * self.streams()[stream_id].volume
            } else {
                0
            }),
    {
        match self.streams.get(&stream_id) {
            Some(slot) => {
                let source: u32 = self.settings.gain_for_source(slot.config.source) as u32;
                let own: u32 = slot.volume as u32;
                assert(source * own <= 255 * 255) by (nonlinear_arith)
                    requires
                        source <= 255,
                        own <= 255,
                ;
                source * own
            },
            None => 0,
        }
    }
}

/// No more streams are ever played than there are lanes.
pub proof fn streams_fit_lanes(streams: Map<u32, StreamSlot>, ids: Seq<u32>)
    requires
        ids.no_duplicates(),
        forall|i: int|
            0 <= i < ids.len() ==> streams.dom().contains(#[trigger] ids[i])
                && streams[ids[i]].lane < MAX_PLAYBACK_LANES,
        forall|a: u32, b: u32|
            #![trigger streams.dom().contains(a), streams.dom().contains(b)]
            streams.dom().contains(a) && streams.dom().contains(b) && a != b ==> streams[a].lane
                != streams[b].lane,
    ensures
        ids.len() <= MAX_PLAYBACK_LANES,
{
    let lanes = ids.map_values(|id: u32| streams[id].lane as int);
    let range = vstd::set_lib::set_int_range(0, MAX_PLAYBACK_LANES as int);
    assert(lanes.no_duplicates()) by {
        assert forall|i: int, j: int|
            0 <= i < lanes.len() && 0 <= j < lanes.len() && i != j implies lanes[i] != lanes[j] by {
            assert(ids[i] != ids[j]);
            assert(streams.dom().contains(ids[i]) && streams.dom().contains(ids[j]));
        }
    }
    lanes.unique_seq_to_set();
    vstd::set_lib::lemma_int_range(0, MAX_PLAYBACK_LANES as int);
    assert(lanes.to_set().subset_of(range)) by {
        assert forall|lane: int| #[trigger] lanes.to_set().contains(lane) implies range.contains(
            lane,
        ) by {
            let i = choose|i: int| 0 <= i < lanes.len() && lanes[i] == lane;
            assert(streams.dom().contains(ids[i]));
        }
    }
    vstd::set_lib::lemma_len_subset(lanes.to_set(), range);
}

/// A muted stream is silent, every other one as loud as was chosen, up to twice its own loudness.
pub proof fn volumes_take_effect(volume: u8, muted: bool)
    ensures
        muted ==> effective_volume(volume, muted) == 0,
        !muted && volume <= 200 ==> effective_volume(volume, muted) == volume,
        !muted && volume > 200 ==> effective_volume(volume, muted) == 200,
{
}

/// What the remote machine plays, alone or with its microphone in one stream, is silent exactly if
/// that is muted, the microphone alone exactly if the microphone is; all are as loud as was chosen.
pub proof fn sources_are_muted_apart(settings: AudioPlayerSettings, source: AudioSource)
    ensures
        ({
            let gain = settings.source_gain(source);
            let own = if settings.volume_percent > 200 {
                200u8
            } else {
                settings.volume_percent
            };
            match source {
                AudioSource::RemoteSystem | AudioSource::RemoteMixed => {
                    &&& settings.remote_system_muted ==> gain == 0
                    &&& !settings.remote_system_muted ==> gain == own
                },
                AudioSource::RemoteMicrophone => {
                    &&& settings.remote_microphone_muted ==> gain == 0
                    &&& !settings.remote_microphone_muted ==> gain == own
                },
                AudioSource::ViewerMicrophoneTalkback => gain == own,
            }
        }),
{
}

/// Opus decodes to these five rates, each of which divides the highest.
pub proof fn opus_decodes_to_five_rates(rate: u32)
    ensures
        opus_rate(rate) <==> rate == 48_000 || rate * 2 == 48_000 || rate * 3 == 48_000 || rate * 4
            == 48_000 || rate * 6 == 48_000,
{
}

/// A device is opened only at rates within a range, with just its channels and in a known format.
pub proof fn ranges_offer_what_they_hold(range: OutputRange, channels: u16, rate: u32)
    ensures
        range.offers(channels, rate) <==> range.known_format && range.channels == channels && !(rate
            < range.min_sample_rate) && !(rate > range.max_sample_rate),
{
}

/// Which sample of a frame goes to which channel: the same one where there are as many, the only one
/// to all, the mean of all to one, and else the same one as long as there is one, and the last one
/// to the rest.
pub proof fn channels_are_matched(frame: int, channel: int, sources: int, outputs: int)
    requires
        0 <= frame,
        0 <= channel < outputs,
        0 < sources,
        frame * sources + sources <= usize::MAX,
        channel + frame * sources <= usize::MAX,
    ensures
        ({
            let pick = pick_for(frame, channel, sources, outputs);
            &&& sources == outputs ==> pick is Copy && pick->index == frame * sources + channel
            &&& sources == 1 && outputs > 1 ==> pick is Copy && pick->index == frame
            &&& sources > 1 && outputs == 1 ==> pick is Mean && pick->from == frame * sources
                && pick->count == sources
            &&& sources > 1 && outputs > 1 && sources != outputs && channel < sources ==> pick is Copy
                && pick->index == frame * sources + channel
            &&& sources > 1 && outputs > 1 && sources != outputs && channel >= sources
                ==> pick is Copy && pick->index == frame * sources + sources - 1
        }),
{
    assert(0 <= frame * sources) by (nonlinear_arith)
        requires
            0 <= frame,
            0 < sources,
    ;
    assert(frame * 1 == frame);
}

/// As many frames are played as are complete, and no more than the decoder told of.
pub proof fn complete_frames_are_played(decoded_len: int, told: int, sources: int)
    requires
        0 <= decoded_len,
        0 <= told,
        0 < sources,
    ensures
        ({
            let frames = whole_frames(decoded_len, told, sources);
            &&& frames <= told
            &&& frames * sources <= decoded_len
            &&& frames < told ==> (frames + 1) * sources > decoded_len
        }),
{
    let q = decoded_len / sources;
    assert(q * sources <= decoded_len && (q + 1) * sources > decoded_len) by (nonlinear_arith)
        requires
            0 <= decoded_len,
            0 < sources,
            q == decoded_len / sources,
    ;
    if told < q {
        assert(told * sources <= q * sources) by (nonlinear_arith)
            requires
                told < q,
                0 < sources,
        ;
    }
}

/// A stream is given the lowest of sixteen lanes that none has.
pub proof fn free_lanes_are_the_lowest(
    streams: Map<u32, StreamSlot>,
    lane: usize,
    id: u32,
    lower: usize,
)
    requires
        is_free_lane(streams, lane),
        lower < lane,
    ensures
        lane < 16,
        streams.dom().contains(id) ==> streams[id].lane != lane,
        exists|other: u32| #[trigger]
            streams.dom().contains(other) && streams[other].lane == lower,
{
    assert(!lane_taken(streams, lane));
    assert(lane_taken(streams, lower));
}

/// A stream that was opened has its lane, its announcement and nothing that waits; no other stream is
/// touched, and none goes.
pub proof fn opened_streams_start_empty(
    player: AudioPlayer,
    before: Map<u32, StreamSlot>,
    config: AudioStreamConfig,
    lane: usize,
    other: u32,
)
    requires
        player.opened(before, config, lane),
    ensures
        player.streams().dom().contains(config.stream_id),
        player.streams()[config.stream_id].lane == lane,
        player.streams()[config.stream_id].config == config,
        player.streams()[config.stream_id].jitter.packets().len() == 0,
        player.streams()[config.stream_id].jitter.expected() is None,
        other != config.stream_id ==> player.streams().dom().contains(other)
            == before.dom().contains(other),
        other != config.stream_id && before.dom().contains(other) ==> player.streams()[other]
            == before[other],
{
}

/// Where there is no room for a stream, each of the sixteen lanes has one.
pub proof fn sixteen_lanes_are_all(streams: Map<u32, StreamSlot>, lane: usize)
    requires
        lanes_full(streams),
        lane < 16,
    ensures
        exists|id: u32| #[trigger] streams.dom().contains(id) && streams[id].lane == lane,
{
    assert(lane_taken(streams, lane));
}

} // verus!
