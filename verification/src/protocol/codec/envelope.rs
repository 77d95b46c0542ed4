//! The bytes of envelopes.
use crate::protocol::envelope::{ChunkInfo, DataEnvelope, DataHeader, ReliabilityInfo};
use crate::protocol::lane::{ContentKind, DataLane, DataPriority, ReliabilityMode};
use crate::wire::{
    begins, decode, encode, lemma_append, put_bytes, reads, take_numbered, Bytes, Numbered, Wire,
    WireError,
};
use vstd::prelude::*;

verus! {

impl Numbered for DataLane {
    open spec fn number(self) -> u32 {
        match self {
            DataLane::RealtimeVideo => 0,
            DataLane::RealtimeAudio => 1,
            DataLane::InteractiveControl => 2,
            DataLane::ReliableObject => 3,
            DataLane::Background => 4,
        }
    }

    proof fn told_apart(a: Self, b: Self) {
    }

    fn to_number(self) -> (r: u32) {
        match self {
            DataLane::RealtimeVideo => 0,
            DataLane::RealtimeAudio => 1,
            DataLane::InteractiveControl => 2,
            DataLane::ReliableObject => 3,
            DataLane::Background => 4,
        }
    }

    fn from_number(number: u32) -> (r: Option<Self>) {
        match number {
            0 => Some(DataLane::RealtimeVideo),
            1 => Some(DataLane::RealtimeAudio),
            2 => Some(DataLane::InteractiveControl),
            3 => Some(DataLane::ReliableObject),
            4 => Some(DataLane::Background),
            _ => None,
        }
    }
}

impl Wire for DataLane {
    type Model = DataLane;

    open spec fn model(&self) -> DataLane {
        *self
    }

    open spec fn fits(m: DataLane) -> bool {
        true
    }

    open spec fn wire(m: DataLane) -> Seq<u8> {
        u32::wire(m.number())
    }

    proof fn unique(a: DataLane, b: DataLane, s: Seq<u8>, t: Seq<u8>) {
        u32::unique(a.number(), b.number(), s, t);
        DataLane::told_apart(a, b);
    }

    fn put(&self, out: &mut Vec<u8>) {
        self.to_number().put(out);
    }

    fn take(data: &[u8], from: usize) -> (r: Result<(DataLane, usize), WireError>) {
        take_numbered::<DataLane>(data, from)
    }
}

impl Numbered for ContentKind {
    open spec fn number(self) -> u32 {
        match self {
            ContentKind::VideoH265 => 0,
            ContentKind::AudioOpus => 1,
            ContentKind::Control => 2,
            ContentKind::ClipboardText => 3,
            ContentKind::ClipboardBinary => 4,
            ContentKind::FileChunk => 5,
            ContentKind::FileManifest => 6,
            ContentKind::Arbitrary => 7,
            ContentKind::ClipboardBundle => 8,
            ContentKind::FileControl => 9,
            ContentKind::AudioStreamConfig => 10,
        }
    }

    proof fn told_apart(a: Self, b: Self) {
    }

    fn to_number(self) -> (r: u32) {
        match self {
            ContentKind::VideoH265 => 0,
            ContentKind::AudioOpus => 1,
            ContentKind::Control => 2,
            ContentKind::ClipboardText => 3,
            ContentKind::ClipboardBinary => 4,
            ContentKind::FileChunk => 5,
            ContentKind::FileManifest => 6,
            ContentKind::Arbitrary => 7,
            ContentKind::ClipboardBundle => 8,
            ContentKind::FileControl => 9,
            ContentKind::AudioStreamConfig => 10,
        }
    }

    fn from_number(number: u32) -> (r: Option<Self>) {
        match number {
            0 => Some(ContentKind::VideoH265),
            1 => Some(ContentKind::AudioOpus),
            2 => Some(ContentKind::Control),
            3 => Some(ContentKind::ClipboardText),
            4 => Some(ContentKind::ClipboardBinary),
            5 => Some(ContentKind::FileChunk),
            6 => Some(ContentKind::FileManifest),
            7 => Some(ContentKind::Arbitrary),
            8 => Some(ContentKind::ClipboardBundle),
            9 => Some(ContentKind::FileControl),
            10 => Some(ContentKind::AudioStreamConfig),
            _ => None,
        }
    }
}

impl Wire for ContentKind {
    type Model = ContentKind;

    open spec fn model(&self) -> ContentKind {
        *self
    }

    open spec fn fits(m: ContentKind) -> bool {
        true
    }

    open spec fn wire(m: ContentKind) -> Seq<u8> {
        u32::wire(m.number())
    }

    proof fn unique(a: ContentKind, b: ContentKind, s: Seq<u8>, t: Seq<u8>) {
        u32::unique(a.number(), b.number(), s, t);
        ContentKind::told_apart(a, b);
    }

    fn put(&self, out: &mut Vec<u8>) {
        self.to_number().put(out);
    }

    fn take(data: &[u8], from: usize) -> (r: Result<(ContentKind, usize), WireError>) {
        take_numbered::<ContentKind>(data, from)
    }
}

impl Numbered for DataPriority {
    open spec fn number(self) -> u32 {
        match self {
            DataPriority::Background => 0,
            DataPriority::Normal => 1,
            DataPriority::Interactive => 2,
            DataPriority::Realtime => 3,
        }
    }

    proof fn told_apart(a: Self, b: Self) {
    }

    fn to_number(self) -> (r: u32) {
        match self {
            DataPriority::Background => 0,
            DataPriority::Normal => 1,
            DataPriority::Interactive => 2,
            DataPriority::Realtime => 3,
        }
    }

    fn from_number(number: u32) -> (r: Option<Self>) {
        match number {
            0 => Some(DataPriority::Background),
            1 => Some(DataPriority::Normal),
            2 => Some(DataPriority::Interactive),
            3 => Some(DataPriority::Realtime),
            _ => None,
        }
    }
}

impl Wire for DataPriority {
    type Model = DataPriority;

    open spec fn model(&self) -> DataPriority {
        *self
    }

    open spec fn fits(m: DataPriority) -> bool {
        true
    }

    open spec fn wire(m: DataPriority) -> Seq<u8> {
        u32::wire(m.number())
    }

    proof fn unique(a: DataPriority, b: DataPriority, s: Seq<u8>, t: Seq<u8>) {
        u32::unique(a.number(), b.number(), s, t);
        DataPriority::told_apart(a, b);
    }

    fn put(&self, out: &mut Vec<u8>) {
        self.to_number().put(out);
    }

    fn take(data: &[u8], from: usize) -> (r: Result<(DataPriority, usize), WireError>) {
        take_numbered::<DataPriority>(data, from)
    }
}

impl Numbered for ReliabilityMode {
    open spec fn number(self) -> u32 {
        match self {
            ReliabilityMode::BestEffort => 0,
            ReliabilityMode::Reliable => 1,
        }
    }

    proof fn told_apart(a: Self, b: Self) {
    }

    fn to_number(self) -> (r: u32) {
        match self {
            ReliabilityMode::BestEffort => 0,
            ReliabilityMode::Reliable => 1,
        }
    }

    fn from_number(number: u32) -> (r: Option<Self>) {
        match number {
            0 => Some(ReliabilityMode::BestEffort),
            1 => Some(ReliabilityMode::Reliable),
            _ => None,
        }
    }
}

impl Wire for ReliabilityMode {
    type Model = ReliabilityMode;

    open spec fn model(&self) -> ReliabilityMode {
        *self
    }

    open spec fn fits(m: ReliabilityMode) -> bool {
        true
    }

    open spec fn wire(m: ReliabilityMode) -> Seq<u8> {
        u32::wire(m.number())
    }

    proof fn unique(a: ReliabilityMode, b: ReliabilityMode, s: Seq<u8>, t: Seq<u8>) {
        u32::unique(a.number(), b.number(), s, t);
        ReliabilityMode::told_apart(a, b);
    }

    fn put(&self, out: &mut Vec<u8>) {
        self.to_number().put(out);
    }

    fn take(data: &[u8], from: usize) -> (r: Result<(ReliabilityMode, usize), WireError>) {
        take_numbered::<ReliabilityMode>(data, from)
    }
}

/// The fields of `ChunkInfo`, in the order in which they are sent.
pub type ChunkInfoFields = (u64, (u32, (u32, (u64, u64))));

impl ChunkInfo {
    pub open spec fn parts(m: ChunkInfo) -> <ChunkInfoFields as Wire>::Model {
        (m.object_id, (m.chunk_index, (m.total_chunks, (m.offset, m.total_size))))
    }
}

impl Wire for ChunkInfo {
    type Model = ChunkInfo;

    open spec fn model(&self) -> ChunkInfo {
        *self
    }

    open spec fn fits(m: ChunkInfo) -> bool {
        ChunkInfoFields::fits(Self::parts(m))
    }

    open spec fn wire(m: ChunkInfo) -> Seq<u8> {
        ChunkInfoFields::wire(Self::parts(m))
    }

    proof fn unique(a: ChunkInfo, b: ChunkInfo, s: Seq<u8>, t: Seq<u8>) {
        ChunkInfoFields::unique(Self::parts(a), Self::parts(b), s, t);
    }

    fn put(&self, out: &mut Vec<u8>) {
        let ghost s0 = out@;
        self.object_id.put(out);
        let ghost s1 = out@;
        self.chunk_index.put(out);
        let ghost s2 = out@;
        self.total_chunks.put(out);
        let ghost s3 = out@;
        self.offset.put(out);
        self.total_size.put(out);
        proof {
            let row = u64::wire(self.total_size.model());
            lemma_append(s3, u64::wire(self.offset.model()), row);
            let row = u64::wire(self.offset.model()) + row;
            lemma_append(s2, u32::wire(self.total_chunks.model()), row);
            let row = u32::wire(self.total_chunks.model()) + row;
            lemma_append(s1, u32::wire(self.chunk_index.model()), row);
            let row = u32::wire(self.chunk_index.model()) + row;
            lemma_append(s0, u64::wire(self.object_id.model()), row);
        }
    }

    fn take(data: &[u8], from: usize) -> (r: Result<(ChunkInfo, usize), WireError>) {
        match ChunkInfoFields::take(data, from) {
            Ok((fields, to)) => {
                let (object_id, (chunk_index, (total_chunks, (offset, total_size)))) = fields;
                Ok((ChunkInfo { object_id, chunk_index, total_chunks, offset, total_size }, to))
            },
            Err(e) => {
                proof {
                    assert forall|m: ChunkInfo| Self::fits(m) implies !begins(
                        data@.subrange(from as int, data@.len() as int),
                        #[trigger] Self::wire(m),
                    ) by {
                        assert(ChunkInfoFields::fits(Self::parts(m)));
                    }
                }
                Err(e)
            },
        }
    }
}

/// The fields of `ReliabilityInfo`, in the order in which they are sent.
pub type ReliabilityInfoFields = (u64, (u8, Option<u32>));

impl ReliabilityInfo {
    pub open spec fn parts(m: ReliabilityInfo) -> <ReliabilityInfoFields as Wire>::Model {
        (m.ack_id, (m.retry_count, m.checksum_crc32))
    }
}

impl Wire for ReliabilityInfo {
    type Model = ReliabilityInfo;

    open spec fn model(&self) -> ReliabilityInfo {
        *self
    }

    open spec fn fits(m: ReliabilityInfo) -> bool {
        ReliabilityInfoFields::fits(Self::parts(m))
    }

    open spec fn wire(m: ReliabilityInfo) -> Seq<u8> {
        ReliabilityInfoFields::wire(Self::parts(m))
    }

    proof fn unique(a: ReliabilityInfo, b: ReliabilityInfo, s: Seq<u8>, t: Seq<u8>) {
        ReliabilityInfoFields::unique(Self::parts(a), Self::parts(b), s, t);
    }

    fn put(&self, out: &mut Vec<u8>) {
        let ghost s0 = out@;
        self.ack_id.put(out);
        let ghost s1 = out@;
        self.retry_count.put(out);
        self.checksum_crc32.put(out);
        proof {
            let row = <Option<u32>>::wire(self.checksum_crc32.model());
            lemma_append(s1, u8::wire(self.retry_count.model()), row);
            let row = u8::wire(self.retry_count.model()) + row;
            lemma_append(s0, u64::wire(self.ack_id.model()), row);
        }
    }

    fn take(data: &[u8], from: usize) -> (r: Result<(ReliabilityInfo, usize), WireError>) {
        match ReliabilityInfoFields::take(data, from) {
            Ok((fields, to)) => {
                let (ack_id, (retry_count, checksum_crc32)) = fields;
                Ok((ReliabilityInfo { ack_id, retry_count, checksum_crc32 }, to))
            },
            Err(e) => {
                proof {
                    assert forall|m: ReliabilityInfo| Self::fits(m) implies !begins(
                        data@.subrange(from as int, data@.len() as int),
                        #[trigger] Self::wire(m),
                    ) by {
                        assert(ReliabilityInfoFields::fits(Self::parts(m)));
                    }
                }
                Err(e)
            },
        }
    }
}

/// The fields of `DataHeader`, in the order in which they are sent.
pub type DataHeaderFields = (u8, (DataLane, (ContentKind, (DataPriority, (ReliabilityMode, (u32,
    (u64, (u64, (Option<u64>, (Option<ChunkInfo>, Option<ReliabilityInfo>))))))))));

impl DataHeader {
    pub open spec fn parts(m: DataHeader) -> <DataHeaderFields as Wire>::Model {
        (m.version, (m.lane, (m.kind, (m.priority, (m.reliability, (m.stream_id,
            (m.sequence_number, (m.timestamp_ms, (m.deadline_ms, (m.chunk,
            m.reliability_info))))))))))
    }
}

impl Wire for DataHeader {
    type Model = DataHeader;

    open spec fn model(&self) -> DataHeader {
        *self
    }

    open spec fn fits(m: DataHeader) -> bool {
        DataHeaderFields::fits(Self::parts(m))
    }

    open spec fn wire(m: DataHeader) -> Seq<u8> {
        DataHeaderFields::wire(Self::parts(m))
    }

    proof fn unique(a: DataHeader, b: DataHeader, s: Seq<u8>, t: Seq<u8>) {
        DataHeaderFields::unique(Self::parts(a), Self::parts(b), s, t);
    }

    fn put(&self, out: &mut Vec<u8>) {
        let ghost s0 = out@;
        self.version.put(out);
        let ghost s1 = out@;
        self.lane.put(out);
        let ghost s2 = out@;
        self.kind.put(out);
        let ghost s3 = out@;
        self.priority.put(out);
        let ghost s4 = out@;
        self.reliability.put(out);
        let ghost s5 = out@;
        self.stream_id.put(out);
        let ghost s6 = out@;
        self.sequence_number.put(out);
        let ghost s7 = out@;
        self.timestamp_ms.put(out);
        let ghost s8 = out@;
        self.deadline_ms.put(out);
        let ghost s9 = out@;
        self.chunk.put(out);
        self.reliability_info.put(out);
        proof {
            let row = <Option<ReliabilityInfo>>::wire(self.reliability_info.model());
            lemma_append(s9, <Option<ChunkInfo>>::wire(self.chunk.model()), row);
            let row = <Option<ChunkInfo>>::wire(self.chunk.model()) + row;
            lemma_append(s8, <Option<u64>>::wire(self.deadline_ms.model()), row);
            let row = <Option<u64>>::wire(self.deadline_ms.model()) + row;
            lemma_append(s7, u64::wire(self.timestamp_ms.model()), row);
            let row = u64::wire(self.timestamp_ms.model()) + row;
            lemma_append(s6, u64::wire(self.sequence_number.model()), row);
            let row = u64::wire(self.sequence_number.model()) + row;
            lemma_append(s5, u32::wire(self.stream_id.model()), row);
            let row = u32::wire(self.stream_id.model()) + row;
            lemma_append(s4, ReliabilityMode::wire(self.reliability.model()), row);
            let row = ReliabilityMode::wire(self.reliability.model()) + row;
            lemma_append(s3, DataPriority::wire(self.priority.model()), row);
            let row = DataPriority::wire(self.priority.model()) + row;
            lemma_append(s2, ContentKind::wire(self.kind.model()), row);
            let row = ContentKind::wire(self.kind.model()) + row;
            lemma_append(s1, DataLane::wire(self.lane.model()), row);
            let row = DataLane::wire(self.lane.model()) + row;
            lemma_append(s0, u8::wire(self.version.model()), row);
        }
    }

    fn take(data: &[u8], from: usize) -> (r: Result<(DataHeader, usize), WireError>) {
        match DataHeaderFields::take(data, from) {
            Ok((fields, to)) => {
                let (version, (lane, (kind, (priority, (reliability, (stream_id,
                    (sequence_number, (timestamp_ms, (deadline_ms, (chunk,
                    reliability_info)))))))))) = fields;
                Ok((DataHeader { version, lane, kind, priority, reliability, stream_id,
                    sequence_number, timestamp_ms, deadline_ms, chunk, reliability_info }, to))
            },
            Err(e) => {
                proof {
                    assert forall|m: DataHeader| Self::fits(m) implies !begins(
                        data@.subrange(from as int, data@.len() as int),
                        #[trigger] Self::wire(m),
                    ) by {
                        assert(DataHeaderFields::fits(Self::parts(m)));
                    }
                }
                Err(e)
            },
        }
    }
}

/// What is sent of `DataEnvelope`.
pub ghost struct Envelope {
    pub header: DataHeader,
    pub payload: Seq<u8>,
}

/// The fields of `DataEnvelope`, in the order in which they are sent.
pub type DataEnvelopeFields = (DataHeader, Bytes);

impl DataEnvelope {
    pub open spec fn parts(m: Envelope) -> <DataEnvelopeFields as Wire>::Model {
        (m.header, m.payload)
    }
}

impl Wire for DataEnvelope {
    type Model = Envelope;

    open spec fn model(&self) -> Envelope {
        Envelope {
            header: self.header,
            payload: self.payload@,
        }
    }

    open spec fn fits(m: Envelope) -> bool {
        DataEnvelopeFields::fits(Self::parts(m))
    }

    open spec fn wire(m: Envelope) -> Seq<u8> {
        DataEnvelopeFields::wire(Self::parts(m))
    }

    proof fn unique(a: Envelope, b: Envelope, s: Seq<u8>, t: Seq<u8>) {
        DataEnvelopeFields::unique(Self::parts(a), Self::parts(b), s, t);
    }

    fn put(&self, out: &mut Vec<u8>) {
        let ghost s0 = out@;
        self.header.put(out);
        put_bytes(&self.payload, out);
        proof {
            let row = Bytes::wire(self.payload@);
            lemma_append(s0, DataHeader::wire(self.header.model()), row);
        }
    }

    fn take(data: &[u8], from: usize) -> (r: Result<(DataEnvelope, usize), WireError>) {
        match DataEnvelopeFields::take(data, from) {
            Ok((fields, to)) => {
                let (header, payload) = fields;
                Ok((DataEnvelope { header, payload: payload.0 }, to))
            },
            Err(e) => {
                proof {
                    assert forall|m: Envelope| Self::fits(m) implies !begins(
                        data@.subrange(from as int, data@.len() as int),
                        #[trigger] Self::wire(m),
                    ) by {
                        assert(DataEnvelopeFields::fits(Self::parts(m)));
                    }
                }
                Err(e)
            },
        }
    }
}

impl DataEnvelope {
    /// The bytes of an envelope.
    pub fn encode(&self) -> (r: Result<Vec<u8>, WireError>)
        ensures
            r is Ok,
            Self::fits(self.model()),
            r->Ok_0@ == Self::wire(self.model()),
    {
        encode(self)
    }

    /// Reads an envelope from the start of `data`; what follows it is let be.
    pub fn decode(data: &[u8]) -> (r: Result<Self, WireError>)
        ensures
            reads(data@, r),
    {
        decode(data)
    }
}

} // verus!
