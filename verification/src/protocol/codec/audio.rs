//! The bytes of audio descriptions.
use crate::protocol::audio::{
    AudioCodec, AudioControlTarget, AudioDirection, AudioSource, AudioStreamConfig,
};
use crate::wire::{
    begins, decode, encode, lemma_append, reads, take_numbered, Numbered, Wire, WireError,
};
use vstd::prelude::*;

verus! {

impl Numbered for AudioSource {
    open spec fn number(self) -> u32 {
        match self {
            AudioSource::RemoteSystem => 0,
            AudioSource::RemoteMicrophone => 1,
            AudioSource::RemoteMixed => 2,
            AudioSource::ViewerMicrophoneTalkback => 3,
        }
    }

    proof fn told_apart(a: Self, b: Self) {
    }

    fn to_number(self) -> (r: u32) {
        match self {
            AudioSource::RemoteSystem => 0,
            AudioSource::RemoteMicrophone => 1,
            AudioSource::RemoteMixed => 2,
            AudioSource::ViewerMicrophoneTalkback => 3,
        }
    }

    fn from_number(number: u32) -> (r: Option<Self>) {
        match number {
            0 => Some(AudioSource::RemoteSystem),
            1 => Some(AudioSource::RemoteMicrophone),
            2 => Some(AudioSource::RemoteMixed),
            3 => Some(AudioSource::ViewerMicrophoneTalkback),
            _ => None,
        }
    }
}

impl Wire for AudioSource {
    type Model = AudioSource;

    open spec fn model(&self) -> AudioSource {
        *self
    }

    open spec fn fits(m: AudioSource) -> bool {
        true
    }

    open spec fn wire(m: AudioSource) -> Seq<u8> {
        u32::wire(m.number())
    }

    proof fn unique(a: AudioSource, b: AudioSource, s: Seq<u8>, t: Seq<u8>) {
        u32::unique(a.number(), b.number(), s, t);
        AudioSource::told_apart(a, b);
    }

    fn put(&self, out: &mut Vec<u8>) {
        self.to_number().put(out);
    }

    fn take(data: &[u8], from: usize) -> (r: Result<(AudioSource, usize), WireError>) {
        take_numbered::<AudioSource>(data, from)
    }
}

impl Numbered for AudioDirection {
    open spec fn number(self) -> u32 {
        match self {
            AudioDirection::HostToClient => 0,
            AudioDirection::ClientToHost => 1,
        }
    }

    proof fn told_apart(a: Self, b: Self) {
    }

    fn to_number(self) -> (r: u32) {
        match self {
            AudioDirection::HostToClient => 0,
            AudioDirection::ClientToHost => 1,
        }
    }

    fn from_number(number: u32) -> (r: Option<Self>) {
        match number {
            0 => Some(AudioDirection::HostToClient),
            1 => Some(AudioDirection::ClientToHost),
            _ => None,
        }
    }
}

impl Wire for AudioDirection {
    type Model = AudioDirection;

    open spec fn model(&self) -> AudioDirection {
        *self
    }

    open spec fn fits(m: AudioDirection) -> bool {
        true
    }

    open spec fn wire(m: AudioDirection) -> Seq<u8> {
        u32::wire(m.number())
    }

    proof fn unique(a: AudioDirection, b: AudioDirection, s: Seq<u8>, t: Seq<u8>) {
        u32::unique(a.number(), b.number(), s, t);
        AudioDirection::told_apart(a, b);
    }

    fn put(&self, out: &mut Vec<u8>) {
        self.to_number().put(out);
    }

    fn take(data: &[u8], from: usize) -> (r: Result<(AudioDirection, usize), WireError>) {
        take_numbered::<AudioDirection>(data, from)
    }
}

impl Numbered for AudioCodec {
    open spec fn number(self) -> u32 {
        match self {
            AudioCodec::Opus => 0,
        }
    }

    proof fn told_apart(a: Self, b: Self) {
    }

    fn to_number(self) -> (r: u32) {
        match self {
            AudioCodec::Opus => 0,
        }
    }

    fn from_number(number: u32) -> (r: Option<Self>) {
        match number {
            0 => Some(AudioCodec::Opus),
            _ => None,
        }
    }
}

impl Wire for AudioCodec {
    type Model = AudioCodec;

    open spec fn model(&self) -> AudioCodec {
        *self
    }

    open spec fn fits(m: AudioCodec) -> bool {
        true
    }

    open spec fn wire(m: AudioCodec) -> Seq<u8> {
        u32::wire(m.number())
    }

    proof fn unique(a: AudioCodec, b: AudioCodec, s: Seq<u8>, t: Seq<u8>) {
        u32::unique(a.number(), b.number(), s, t);
        AudioCodec::told_apart(a, b);
    }

    fn put(&self, out: &mut Vec<u8>) {
        self.to_number().put(out);
    }

    fn take(data: &[u8], from: usize) -> (r: Result<(AudioCodec, usize), WireError>) {
        take_numbered::<AudioCodec>(data, from)
    }
}

impl Numbered for AudioControlTarget {
    open spec fn number(self) -> u32 {
        match self {
            AudioControlTarget::ViewerTalkbackPlayback => 0,
        }
    }

    proof fn told_apart(a: Self, b: Self) {
    }

    fn to_number(self) -> (r: u32) {
        match self {
            AudioControlTarget::ViewerTalkbackPlayback => 0,
        }
    }

    fn from_number(number: u32) -> (r: Option<Self>) {
        match number {
            0 => Some(AudioControlTarget::ViewerTalkbackPlayback),
            _ => None,
        }
    }
}

impl Wire for AudioControlTarget {
    type Model = AudioControlTarget;

    open spec fn model(&self) -> AudioControlTarget {
        *self
    }

    open spec fn fits(m: AudioControlTarget) -> bool {
        true
    }

    open spec fn wire(m: AudioControlTarget) -> Seq<u8> {
        u32::wire(m.number())
    }

    proof fn unique(a: AudioControlTarget, b: AudioControlTarget, s: Seq<u8>, t: Seq<u8>) {
        u32::unique(a.number(), b.number(), s, t);
        AudioControlTarget::told_apart(a, b);
    }

    fn put(&self, out: &mut Vec<u8>) {
        self.to_number().put(out);
    }

    fn take(data: &[u8], from: usize) -> (r: Result<(AudioControlTarget, usize), WireError>) {
        take_numbered::<AudioControlTarget>(data, from)
    }
}

/// The fields of `AudioStreamConfig`, in the order in which they are sent.
pub type AudioStreamConfigFields = (u32, (AudioSource, (AudioDirection, (AudioCodec, (u32, (u16,
    u16))))));

impl AudioStreamConfig {
    pub open spec fn parts(m: AudioStreamConfig) -> <AudioStreamConfigFields as Wire>::Model {
        (m.stream_id, (m.source, (m.direction, (m.codec, (m.sample_rate_hz, (m.channels,
            m.frame_duration_ms))))))
    }
}

impl Wire for AudioStreamConfig {
    type Model = AudioStreamConfig;

    open spec fn model(&self) -> AudioStreamConfig {
        *self
    }

    open spec fn fits(m: AudioStreamConfig) -> bool {
        AudioStreamConfigFields::fits(Self::parts(m))
    }

    open spec fn wire(m: AudioStreamConfig) -> Seq<u8> {
        AudioStreamConfigFields::wire(Self::parts(m))
    }

    proof fn unique(a: AudioStreamConfig, b: AudioStreamConfig, s: Seq<u8>, t: Seq<u8>) {
        AudioStreamConfigFields::unique(Self::parts(a), Self::parts(b), s, t);
    }

    fn put(&self, out: &mut Vec<u8>) {
        let ghost s0 = out@;
        self.stream_id.put(out);
        let ghost s1 = out@;
        self.source.put(out);
        let ghost s2 = out@;
        self.direction.put(out);
        let ghost s3 = out@;
        self.codec.put(out);
        let ghost s4 = out@;
        self.sample_rate_hz.put(out);
        let ghost s5 = out@;
        self.channels.put(out);
        self.frame_duration_ms.put(out);
        proof {
            let row = u16::wire(self.frame_duration_ms.model());
            lemma_append(s5, u16::wire(self.channels.model()), row);
            let row = u16::wire(self.channels.model()) + row;
            lemma_append(s4, u32::wire(self.sample_rate_hz.model()), row);
            let row = u32::wire(self.sample_rate_hz.model()) + row;
            lemma_append(s3, AudioCodec::wire(self.codec.model()), row);
            let row = AudioCodec::wire(self.codec.model()) + row;
            lemma_append(s2, AudioDirection::wire(self.direction.model()), row);
            let row = AudioDirection::wire(self.direction.model()) + row;
            lemma_append(s1, AudioSource::wire(self.source.model()), row);
            let row = AudioSource::wire(self.source.model()) + row;
            lemma_append(s0, u32::wire(self.stream_id.model()), row);
        }
    }

    fn take(data: &[u8], from: usize) -> (r: Result<(AudioStreamConfig, usize), WireError>) {
        match AudioStreamConfigFields::take(data, from) {
            Ok((fields, to)) => {
                let (stream_id, (source, (direction, (codec, (sample_rate_hz, (channels,
                    frame_duration_ms)))))) = fields;
                Ok((AudioStreamConfig { stream_id, source, direction, codec, sample_rate_hz,
                    channels, frame_duration_ms }, to))
            },
            Err(e) => {
                proof {
                    assert forall|m: AudioStreamConfig| Self::fits(m) implies !begins(
                        data@.subrange(from as int, data@.len() as int),
                        #[trigger] Self::wire(m),
                    ) by {
                        assert(AudioStreamConfigFields::fits(Self::parts(m)));
                    }
                }
                Err(e)
            },
        }
    }
}

impl AudioStreamConfig {
    /// The bytes of a description.
    pub fn encode(&self) -> (r: Result<Vec<u8>, WireError>)
        ensures
            r is Ok,
            Self::fits(self.model()),
            r->Ok_0@ == Self::wire(self.model()),
    {
        encode(self)
    }

    /// Reads a description from the start of `data`; what follows it is let be.
    pub fn decode(data: &[u8]) -> (r: Result<Self, WireError>)
        ensures
            reads(data@, r),
    {
        decode(data)
    }
}

} // verus!
