//! The envelope that every payload of the data plane travels in.
use crate::protocol::audio::AudioStreamConfig;
use crate::protocol::lane::{ContentKind, DataLane, DataPriority, ReliabilityMode};
use crate::wire::{Wire, WireError};
use vstd::prelude::*;

verus! {

/// Where a chunk stands in the object that it is a part of.
#[derive(Debug, Clone, Copy, PartialEq, Eq, Structural)]
pub struct ChunkInfo {
    pub object_id: u64,
    pub chunk_index: u32,
    pub total_chunks: u32,
    pub offset: u64,
    pub total_size: u64,
}

/// What a receiver acknowledges, and how often the packet was sent again.
#[derive(Debug, Clone, Copy, PartialEq, Eq, Structural)]
pub struct ReliabilityInfo {
    pub ack_id: u64,
    pub retry_count: u8,
    pub checksum_crc32: Option<u32>,
}

#[derive(Debug, Clone, Copy, PartialEq, Eq, Structural)]
pub struct DataHeader {
    pub version: u8,
    pub lane: DataLane,
    pub kind: ContentKind,
    pub priority: DataPriority,
    pub reliability: ReliabilityMode,
    pub stream_id: u32,
    pub sequence_number: u64,
    /// Sender-side timestamp in milliseconds. Realtime receivers can use this for freshness.
    pub timestamp_ms: u64,
    /// Optional absolute deadline in sender timebase milliseconds.
    pub deadline_ms: Option<u64>,
    pub chunk: Option<ChunkInfo>,
    pub reliability_info: Option<ReliabilityInfo>,
}

impl DataHeader {
    /// A header of version one with the priority and the delivery mode of its lane and nothing
    /// optional in it.
    pub open spec fn plain(
        lane: DataLane,
        kind: ContentKind,
        stream_id: u32,
        sequence_number: u64,
        timestamp_ms: u64,
    ) -> Self {
        DataHeader {
            version: 1,
            lane,
            kind,
            priority: DataPriority::of_lane(lane),
            reliability: ReliabilityMode::of_lane(lane),
            stream_id,
            sequence_number,
            timestamp_ms,
            deadline_ms: None,
            chunk: None,
            reliability_info: None,
        }
    }
}

#[derive(Debug, PartialEq, Eq)]
pub struct DataEnvelope {
    pub header: DataHeader,
    pub payload: Vec<u8>,
}

impl Clone for DataEnvelope {
    fn clone(&self) -> (r: Self)
        ensures
            r.header == self.header,
            r.payload@ == self.payload@,
    {
        DataEnvelope { header: self.header, payload: vstd::slice::slice_to_vec(&self.payload) }
    }
}

impl DataEnvelope {
    pub fn new(
        lane: DataLane,
        kind: ContentKind,
        stream_id: u32,
        sequence_number: u64,
        timestamp_ms: u64,
        payload: Vec<u8>,
    ) -> (r: Self)
        ensures
            r.header == DataHeader::plain(lane, kind, stream_id, sequence_number, timestamp_ms),
            r.payload == payload,
    {
        Self {
            header: DataHeader {
                version: 1,
                lane,
                kind,
                priority: DataPriority::for_lane(lane),
                reliability: ReliabilityMode::for_lane(lane),
                stream_id,
                sequence_number,
                timestamp_ms,
                deadline_ms: None,
                chunk: None,
                reliability_info: None,
            },
            payload,
        }
    }

    /// The announcement of an audio stream.
    pub fn audio_stream_config(
        config: &AudioStreamConfig,
        sequence_number: u64,
        timestamp_ms: u64,
    ) -> (r: Result<Self, WireError>)
        ensures
            r is Ok,
            r->Ok_0.header == DataHeader::plain(
                DataLane::InteractiveControl,
                ContentKind::AudioStreamConfig,
                config.stream_id,
                sequence_number,
                timestamp_ms,
            ),
            r->Ok_0.payload@ == AudioStreamConfig::wire(*config),
    {
        let payload = match config.encode() {
            Ok(payload) => payload,
            Err(e) => {
                return Err(e);
            },
        };
        Ok(
            Self::new(
                DataLane::InteractiveControl,
                ContentKind::AudioStreamConfig,
                config.stream_id,
                sequence_number,
                timestamp_ms,
                payload,
            ),
        )
    }

    /// A video packet, which is stale after its deadline.
    pub fn realtime_video(
        stream_id: u32,
        sequence_number: u64,
        timestamp_ms: u64,
        deadline_ms: u64,
        payload: Vec<u8>,
    ) -> (r: Self)
        ensures
            r.header == (DataHeader {
                deadline_ms: Some(deadline_ms),
                ..DataHeader::plain(
                    DataLane::RealtimeVideo,
                    ContentKind::VideoH265,
                    stream_id,
                    sequence_number,
                    timestamp_ms,
                )
            }),
            r.payload == payload,
    {
        let mut envelope = Self::new(
            DataLane::RealtimeVideo,
            ContentKind::VideoH265,
            stream_id,
            sequence_number,
            timestamp_ms,
            payload,
        );
        envelope.header.deadline_ms = Some(deadline_ms);
        envelope
    }

    pub fn realtime_audio(
        stream_id: u32,
        sequence_number: u64,
        timestamp_ms: u64,
        payload: Vec<u8>,
    ) -> (r: Self)
        ensures
            r.header == DataHeader::plain(
                DataLane::RealtimeAudio,
                ContentKind::AudioOpus,
                stream_id,
                sequence_number,
                timestamp_ms,
            ),
            r.payload == payload,
    {
        Self::new(
            DataLane::RealtimeAudio,
            ContentKind::AudioOpus,
            stream_id,
            sequence_number,
            timestamp_ms,
            payload,
        )
    }

    /// One chunk of an object that must arrive, acknowledged by its sequence number.
    pub fn reliable_object_chunk(
        kind: ContentKind,
        stream_id: u32,
        sequence_number: u64,
        timestamp_ms: u64,
        chunk: ChunkInfo,
        checksum_crc32: Option<u32>,
        payload: Vec<u8>,
    ) -> (r: Self)
        ensures
            r.header == (DataHeader {
                chunk: Some(chunk),
                reliability_info: Some(
                    ReliabilityInfo { ack_id: sequence_number, retry_count: 0, checksum_crc32 },
                ),
                ..DataHeader::plain(
                    DataLane::ReliableObject,
                    kind,
                    stream_id,
                    sequence_number,
                    timestamp_ms,
                )
            }),
            r.payload == payload,
    {
        let mut envelope = Self::new(
            DataLane::ReliableObject,
            kind,
            stream_id,
            sequence_number,
            timestamp_ms,
            payload,
        );
        envelope.header.chunk = Some(chunk);
        envelope.header.reliability_info = Some(
            ReliabilityInfo { ack_id: sequence_number, retry_count: 0, checksum_crc32 },
        );
        envelope
    }

    pub fn is_realtime(&self) -> (r: bool)
        ensures
            r == self.header.lane.realtime(),
    {
        self.header.lane.is_realtime()
    }

    pub fn allows_stale_drop(&self) -> (r: bool)
        ensures
            r == self.header.lane.stale_drop(),
    {
        self.header.lane.allows_stale_drop()
    }
}

/// A plain header holds what it was made of, has the urgency of its lane, is sent again only on the
/// lanes of objects, and carries nothing else.
pub proof fn plain_headers_hold_what_they_are_made_of(
    lane: DataLane,
    kind: ContentKind,
    stream_id: u32,
    sequence_number: u64,
    timestamp_ms: u64,
)
    ensures
        ({
            let h = DataHeader::plain(lane, kind, stream_id, sequence_number, timestamp_ms);
            &&& h.version == 1
            &&& h.lane == lane
            &&& h.kind == kind
            &&& h.stream_id == stream_id
            &&& h.sequence_number == sequence_number
            &&& h.timestamp_ms == timestamp_ms
            &&& h.deadline_ms is None
            &&& h.chunk is None
            &&& h.reliability_info is None
            &&& h.priority == DataPriority::Realtime <==> lane == DataLane::RealtimeVideo || lane
                == DataLane::RealtimeAudio
            &&& h.priority == DataPriority::Interactive <==> lane == DataLane::InteractiveControl
            &&& h.priority == DataPriority::Normal <==> lane == DataLane::ReliableObject
            &&& h.reliability == ReliabilityMode::Reliable <==> lane == DataLane::ReliableObject
                || lane == DataLane::Background
        }),
{
}

} // verus!
