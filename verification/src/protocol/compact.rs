//! The compact form of realtime packets: a header of fixed length, the host's timing record where
//! the sender adds one, and the payload.
use crate::bytes::{be_bytes, be_value, field, get_be, put_be};
use crate::bytes::{
    lemma_be_roundtrip, lemma_be_value_roundtrip, lemma_pow256_values,
};
use crate::protocol::envelope::{DataEnvelope, DataHeader};
use crate::protocol::lane::{ContentKind, DataLane, DataPriority, ReliabilityMode};
use crate::protocol::timing::{FrameTimingCheckpoints, HOST_TIMING_WIRE_LEN};
use crate::text::{decimal, prefixed_hex, push_decimal, push_prefixed_hex};
use vstd::prelude::*;

verus! {

pub const COMPACT_REALTIME_WIRE_VERSION: u8 = 1;

pub const COMPACT_REALTIME_HEADER_LEN: usize = 26;

/// Set in the first byte when the packet carries a deadline.
pub const COMPACT_REALTIME_DEADLINE_FLAG: u8 = 0x01;

/// Set in the first byte when the host's timing record stands between header and payload.
pub const COMPACT_REALTIME_TIMING_FLAG: u8 = 0x02;

/// Why a packet has no compact form, or bytes are not one.
#[derive(Debug, Clone, Copy, PartialEq, Eq, Structural)]
pub enum CompactRealtimeError {
    InvalidLength { expected_at_least: usize, actual: usize },
    UnsupportedVersion(u8),
    UnknownFlags(u8),
    InvalidLane(u8),
    InvalidContentKind(u8),
    InvalidPriority(u8),
    NonRealtimeLane(DataLane),
    UnsupportedRealtimeMetadata,
    DeadlineBeforeTimestamp { timestamp_ms: u64, deadline_ms: u64 },
    DeadlineDeltaTooLarge(u64),
    DeadlineDeltaWithoutFlag(u16),
    DeadlineOverflow { timestamp_ms: u64, deadline_delta_ms: u16 },
}

impl CompactRealtimeError {
    /// The error in words.
    pub open spec fn text(self) -> Seq<char> {
        match self {
            CompactRealtimeError::InvalidLength { expected_at_least, actual } =>
                "compact realtime packet too short: expected at least "@ + decimal(
                    expected_at_least as nat,
                ) + " bytes, got "@ + decimal(actual as nat),
            CompactRealtimeError::UnsupportedVersion(version) =>
                "unsupported compact realtime version "@ + decimal(version as nat),
            CompactRealtimeError::UnknownFlags(flags) =>
                "unknown compact realtime flags "@ + prefixed_hex(flags as nat),
            CompactRealtimeError::InvalidLane(lane) =>
                "invalid compact realtime lane id "@ + decimal(lane as nat),
            CompactRealtimeError::InvalidContentKind(kind) =>
                "invalid compact realtime content kind id "@ + decimal(kind as nat),
            CompactRealtimeError::InvalidPriority(priority) =>
                "invalid compact realtime priority id "@ + decimal(priority as nat),
            CompactRealtimeError::NonRealtimeLane(lane) =>
                "compact realtime packet cannot carry lane "@ + lane.name_text(),
            CompactRealtimeError::UnsupportedRealtimeMetadata =>
                "compact realtime packet cannot carry chunk or reliability metadata"@,
            CompactRealtimeError::DeadlineBeforeTimestamp { timestamp_ms, deadline_ms } =>
                "compact realtime deadline "@ + decimal(deadline_ms as nat)
                    + " is before timestamp "@ + decimal(timestamp_ms as nat),
            CompactRealtimeError::DeadlineDeltaTooLarge(delta) =>
                "compact realtime deadline delta "@ + decimal(delta as nat)
                    + "ms exceeds u16 range"@,
            CompactRealtimeError::DeadlineDeltaWithoutFlag(delta) =>
                "compact realtime deadline delta "@ + decimal(delta as nat)
                    + " present without deadline flag"@,
            CompactRealtimeError::DeadlineOverflow { timestamp_ms, deadline_delta_ms } =>
                "compact realtime deadline overflows timestamp "@ + decimal(timestamp_ms as nat)
                    + " plus delta "@ + decimal(deadline_delta_ms as nat),
        }
    }

    /// The error in words.
    pub fn message(&self) -> (r: String)
        ensures
            r@ == self.text(),
    {
        let mut out = String::new();
        match *self {
            CompactRealtimeError::InvalidLength { expected_at_least, actual } => {
                out.append("compact realtime packet too short: expected at least ");
                push_decimal(&mut out, expected_at_least as u64);
                out.append(" bytes, got ");
                push_decimal(&mut out, actual as u64);
            },
            CompactRealtimeError::UnsupportedVersion(version) => {
                out.append("unsupported compact realtime version ");
                push_decimal(&mut out, version as u64);
            },
            CompactRealtimeError::UnknownFlags(flags) => {
                out.append("unknown compact realtime flags ");
                push_prefixed_hex(&mut out, flags as u64);
            },
            CompactRealtimeError::InvalidLane(lane) => {
                out.append("invalid compact realtime lane id ");
                push_decimal(&mut out, lane as u64);
            },
            CompactRealtimeError::InvalidContentKind(kind) => {
                out.append("invalid compact realtime content kind id ");
                push_decimal(&mut out, kind as u64);
            },
            CompactRealtimeError::InvalidPriority(priority) => {
                out.append("invalid compact realtime priority id ");
                push_decimal(&mut out, priority as u64);
            },
            CompactRealtimeError::NonRealtimeLane(lane) => {
                out.append("compact realtime packet cannot carry lane ");
                out.append(lane.name());
            },
            CompactRealtimeError::UnsupportedRealtimeMetadata => {
                out.append("compact realtime packet cannot carry chunk or reliability metadata");
            },
            CompactRealtimeError::DeadlineBeforeTimestamp { timestamp_ms, deadline_ms } => {
                out.append("compact realtime deadline ");
                push_decimal(&mut out, deadline_ms);
                out.append(" is before timestamp ");
                push_decimal(&mut out, timestamp_ms);
            },
            CompactRealtimeError::DeadlineDeltaTooLarge(delta) => {
                out.append("compact realtime deadline delta ");
                push_decimal(&mut out, delta);
                out.append("ms exceeds u16 range");
            },
            CompactRealtimeError::DeadlineDeltaWithoutFlag(delta) => {
                out.append("compact realtime deadline delta ");
                push_decimal(&mut out, delta as u64);
                out.append(" present without deadline flag");
            },
            CompactRealtimeError::DeadlineOverflow { timestamp_ms, deadline_delta_ms } => {
                out.append("compact realtime deadline overflows timestamp ");
                push_decimal(&mut out, timestamp_ms);
                out.append(" plus delta ");
                push_decimal(&mut out, deadline_delta_ms as u64);
            },
        }
        proof {
            assert(out@ =~= self.text());
        }
        out
    }
}

#[derive(Debug, Clone, Copy, PartialEq, Eq, Structural)]
pub struct CompactRealtimeHeader {
    pub version: u8,
    pub lane: DataLane,
    pub kind: ContentKind,
    pub priority: DataPriority,
    pub stream_id: u32,
    pub sequence_number: u64,
    pub timestamp_ms: u64,
    pub deadline_delta_ms: Option<u16>,
}

/// Why a header has no compact form, if it has none.
pub open spec fn header_fault(header: DataHeader) -> Option<CompactRealtimeError> {
    if header.version > 0x0f {
        Some(CompactRealtimeError::UnsupportedVersion(header.version))
    } else if !header.lane.realtime() {
        Some(CompactRealtimeError::NonRealtimeLane(header.lane))
    } else if header.chunk is Some || header.reliability_info is Some
        || header.reliability is Reliable {
        Some(CompactRealtimeError::UnsupportedRealtimeMetadata)
    } else if header.deadline_ms is Some && header.deadline_ms->0 < header.timestamp_ms {
        Some(
            CompactRealtimeError::DeadlineBeforeTimestamp {
                timestamp_ms: header.timestamp_ms,
                deadline_ms: header.deadline_ms->0,
            },
        )
    } else if header.deadline_ms is Some && header.deadline_ms->0 - header.timestamp_ms
        > u16::MAX {
        Some(
            CompactRealtimeError::DeadlineDeltaTooLarge(
                (header.deadline_ms->0 - header.timestamp_ms) as u64,
            ),
        )
    } else {
        None
    }
}

impl CompactRealtimeHeader {
    /// The compact form of a header that has one.
    pub open spec fn compact_of(header: DataHeader) -> Self {
        CompactRealtimeHeader {
            version: header.version,
            lane: header.lane,
            kind: header.kind,
            priority: header.priority,
            stream_id: header.stream_id,
            sequence_number: header.sequence_number,
            timestamp_ms: header.timestamp_ms,
            deadline_delta_ms: match header.deadline_ms {
                Some(deadline_ms) => Some((deadline_ms - header.timestamp_ms) as u16),
                None => None,
            },
        }
    }

    /// The full header that this one stands for.
    pub open spec fn expanded(self) -> DataHeader {
        DataHeader {
            version: self.version,
            lane: self.lane,
            kind: self.kind,
            priority: self.priority,
            reliability: ReliabilityMode::BestEffort,
            stream_id: self.stream_id,
            sequence_number: self.sequence_number,
            timestamp_ms: self.timestamp_ms,
            deadline_ms: match self.deadline_delta_ms {
                Some(delta) => Some((self.timestamp_ms + delta) as u64),
                None => None,
            },
            chunk: None,
            reliability_info: None,
        }
    }

    /// The flag that tells whether there is a deadline.
    pub open spec fn flags(self) -> int {
        if self.deadline_delta_ms is Some {
            1
        } else {
            0
        }
    }

    /// The header on the wire, with `extra_flags` added to its own.
    pub open spec fn wire(self, extra_flags: int) -> Seq<u8> {
        seq![
            (self.version * 16 + self.flags() + extra_flags) as u8,
            self.lane.id(),
            self.kind.id(),
            self.priority.id(),
        ] + be_bytes(self.stream_id as nat, 4) + be_bytes(self.sequence_number as nat, 8)
            + be_bytes(self.timestamp_ms as nat, 8) + be_bytes(
            match self.deadline_delta_ms {
                Some(delta) => delta as nat,
                None => 0,
            },
            2,
        )
    }

    /// Why the header cannot be written, if it cannot.
    pub open spec fn encode_fault(self) -> Option<CompactRealtimeError> {
        if self.version > 0x0f {
            Some(CompactRealtimeError::UnsupportedVersion(self.version))
        } else if !self.lane.realtime() {
            Some(CompactRealtimeError::NonRealtimeLane(self.lane))
        } else {
            None
        }
    }

    /// The compact form of a header that has one.
    pub fn from_data_header(header: &DataHeader) -> (r: Result<Self, CompactRealtimeError>)
        ensures
            match r {
                Ok(compact) => header_fault(*header) is None && compact == Self::compact_of(*header),
                Err(e) => header_fault(*header) == Some(e),
            },
    {
        if header.version > 0x0f {
            return Err(CompactRealtimeError::UnsupportedVersion(header.version));
        }
        if !header.lane.is_realtime() {
            return Err(CompactRealtimeError::NonRealtimeLane(header.lane));
        }
        if header.chunk.is_some() || header.reliability_info.is_some() || header.reliability
            != ReliabilityMode::BestEffort {
            return Err(CompactRealtimeError::UnsupportedRealtimeMetadata);
        }
        let deadline_delta_ms = match header.deadline_ms {
            Some(deadline_ms) => {
                if deadline_ms < header.timestamp_ms {
                    return Err(
                        CompactRealtimeError::DeadlineBeforeTimestamp {
                            timestamp_ms: header.timestamp_ms,
                            deadline_ms,
                        },
                    );
                }
                let delta: u64 = deadline_ms - header.timestamp_ms;
                if delta > u16::MAX as u64 {
                    return Err(CompactRealtimeError::DeadlineDeltaTooLarge(delta));
                }
                Some(delta as u16)
            },
            None => None,
        };
        Ok(
            Self {
                version: header.version,
                lane: header.lane,
                kind: header.kind,
                priority: header.priority,
                stream_id: header.stream_id,
                sequence_number: header.sequence_number,
                timestamp_ms: header.timestamp_ms,
                deadline_delta_ms,
            },
        )
    }

    /// Why the header stands for no full one, if it stands for none.
    pub open spec fn expand_fault(self) -> Option<CompactRealtimeError> {
        if !self.lane.realtime() {
            Some(CompactRealtimeError::NonRealtimeLane(self.lane))
        } else if self.deadline_delta_ms is Some && self.timestamp_ms + self.deadline_delta_ms->0
            > u64::MAX {
            Some(
                CompactRealtimeError::DeadlineOverflow {
                    timestamp_ms: self.timestamp_ms,
                    deadline_delta_ms: self.deadline_delta_ms->0,
                },
            )
        } else {
            None
        }
    }

    /// The full header that this one stands for.
    pub fn to_data_header(self) -> (r: Result<DataHeader, CompactRealtimeError>)
        ensures
            match r {
                Ok(header) => self.expand_fault() is None && header == self.expanded(),
                Err(e) => self.expand_fault() == Some(e),
            },
    {
        if !self.lane.is_realtime() {
            return Err(CompactRealtimeError::NonRealtimeLane(self.lane));
        }
        let deadline_ms = match self.deadline_delta_ms {
            Some(delta) => match self.timestamp_ms.checked_add(delta as u64) {
                Some(deadline) => Some(deadline),
                None => {
                    return Err(
                        CompactRealtimeError::DeadlineOverflow {
                            timestamp_ms: self.timestamp_ms,
                            deadline_delta_ms: delta,
                        },
                    );
                },
            },
            None => None,
        };
        Ok(
            DataHeader {
                version: self.version,
                lane: self.lane,
                kind: self.kind,
                priority: self.priority,
                reliability: ReliabilityMode::BestEffort,
                stream_id: self.stream_id,
                sequence_number: self.sequence_number,
                timestamp_ms: self.timestamp_ms,
                deadline_ms,
                chunk: None,
                reliability_info: None,
            },
        )
    }

    /// The header with `extra_flags` in its first byte.
    fn put(self, extra_flags: u8) -> (out: Vec<u8>)
        requires
            self.version <= 0x0f,
            extra_flags == 0 || extra_flags == COMPACT_REALTIME_TIMING_FLAG,
        ensures
            out@ == self.wire(extra_flags as int),
    {
        let mut flags: u8 = extra_flags;
        let mut deadline_delta_ms: u16 = 0;
        if let Some(delta) = self.deadline_delta_ms {
            flags = flags + COMPACT_REALTIME_DEADLINE_FLAG;
            deadline_delta_ms = delta;
        }
        let mut out: Vec<u8> = Vec::new();
        out.push(self.version * 16 + flags);
        out.push(self.lane.wire_id());
        out.push(self.kind.wire_id());
        out.push(self.priority.wire_id());
        put_be(&mut out, self.stream_id as u64, 4);
        put_be(&mut out, self.sequence_number, 8);
        put_be(&mut out, self.timestamp_ms, 8);
        put_be(&mut out, deadline_delta_ms as u64, 2);
        proof {
            assert(out@ =~= self.wire(extra_flags as int));
        }
        out
    }

    pub fn encode_with_payload(self, payload: &[u8]) -> (r: Result<Vec<u8>, CompactRealtimeError>)
        ensures
            match r {
                Ok(out) => self.encode_fault() is None && out@ == self.wire(0) + payload@,
                Err(e) => self.encode_fault() == Some(e),
            },
    {
        if self.version > 0x0f {
            return Err(CompactRealtimeError::UnsupportedVersion(self.version));
        }
        if !self.lane.is_realtime() {
            return Err(CompactRealtimeError::NonRealtimeLane(self.lane));
        }
        let mut out = self.put(0);
        out.extend_from_slice(payload);
        proof {
            assert(out@ =~= self.wire(0) + payload@);
        }
        Ok(out)
    }

    /// Reads the header at the start of `data`, in which flags up to `known_flags` may be set.
    fn take(data: &[u8], known_flags: u8) -> (r: Result<(Self, u8), CompactRealtimeError>)
        requires
            known_flags == 1 || known_flags == 3,
        ensures
            match r {
                Ok((header, flags)) => {
                    &&& packet_fault(data@, known_flags as int) is None
                    &&& header.version == COMPACT_REALTIME_WIRE_VERSION
                    &&& header.lane.realtime()
                    &&& flags == packet_flags(data@)
                    &&& header.flags() == flags % 2
                    &&& field(data@, 0, 26) == header.wire(flags - flags % 2)
                },
                Err(e) => packet_fault(data@, known_flags as int) == Some(e),
            },
    {
        if data.len() < COMPACT_REALTIME_HEADER_LEN {
            return Err(
                CompactRealtimeError::InvalidLength {
                    expected_at_least: COMPACT_REALTIME_HEADER_LEN,
                    actual: data.len(),
                },
            );
        }
        let version: u8 = data[0] / 16;
        let flags: u8 = data[0] % 16;
        if version != COMPACT_REALTIME_WIRE_VERSION {
            return Err(CompactRealtimeError::UnsupportedVersion(version));
        }
        if flags > known_flags {
            return Err(CompactRealtimeError::UnknownFlags(flags));
        }
        let lane = match DataLane::from_wire_id(data[1]) {
            Ok(lane) => lane,
            Err(e) => return Err(e),
        };
        if !lane.is_realtime() {
            return Err(CompactRealtimeError::NonRealtimeLane(lane));
        }
        let kind = match ContentKind::from_wire_id(data[2]) {
            Ok(kind) => kind,
            Err(e) => return Err(e),
        };
        let priority = match DataPriority::from_wire_id(data[3]) {
            Ok(priority) => priority,
            Err(e) => return Err(e),
        };
        proof {
            lemma_pow256_values();
        }
        let stream_id: u32 = get_be(data, 4, 4) as u32;
        let sequence_number: u64 = get_be(data, 8, 8);
        let timestamp_ms: u64 = get_be(data, 16, 8);
        let raw_deadline_delta: u16 = get_be(data, 24, 2) as u16;
        let deadline_delta_ms = if flags % 2 == 1 {
            Some(raw_deadline_delta)
        } else {
            if raw_deadline_delta != 0 {
                return Err(CompactRealtimeError::DeadlineDeltaWithoutFlag(raw_deadline_delta));
            }
            None
        };
        let header = Self {
            version,
            lane,
            kind,
            priority,
            stream_id,
            sequence_number,
            timestamp_ms,
            deadline_delta_ms,
        };
        proof {
            lemma_be_value_roundtrip(field(data@, 4, 4));
            lemma_be_value_roundtrip(field(data@, 8, 8));
            lemma_be_value_roundtrip(field(data@, 16, 8));
            lemma_be_value_roundtrip(field(data@, 24, 2));
            assert(field(data@, 0, 26) =~= header.wire(flags - flags % 2));
        }
        Ok((header, flags))
    }

    /// The header at the start of `data`, and the payload behind it.
    pub fn decode(data: &[u8]) -> (r: Result<(Self, &[u8]), CompactRealtimeError>)
        ensures
            match r {
                Ok((header, payload)) => {
                    &&& packet_fault(data@, 1) is None
                    &&& header.version == COMPACT_REALTIME_WIRE_VERSION
                    &&& header.lane.realtime()
                    &&& data@ == header.wire(0) + payload@
                },
                Err(e) => packet_fault(data@, 1) == Some(e),
            },
    {
        let (header, flags) = match Self::take(data, 1) {
            Ok(read) => read,
            Err(e) => return Err(e),
        };
        let payload = vstd::slice::slice_subrange(data, COMPACT_REALTIME_HEADER_LEN, data.len());
        proof {
            assert(data@ =~= field(data@, 0, 26) + payload@);
        }
        Ok((header, payload))
    }

    /// The whole packet in `data`.
    pub fn decode_envelope(data: &[u8]) -> (r: Result<DataEnvelope, CompactRealtimeError>)
        ensures
            match r {
                Ok(envelope) => {
                    &&& envelope_fault(data@) is None
                    &&& header_fault(envelope.header) is None
                    &&& envelope.header.version == COMPACT_REALTIME_WIRE_VERSION
                    &&& data@ == packet(envelope.header, None, envelope.payload@)
                },
                Err(e) => envelope_fault(data@) == Some(e),
            },
    {
        let (header, payload) = match Self::decode(data) {
            Ok(read) => read,
            Err(e) => return Err(e),
        };
        proof {
            lemma_wire_reads_back(header, 0, payload@);
        }
        let full = match header.to_data_header() {
            Ok(full) => full,
            Err(e) => return Err(e),
        };
        proof {
            lemma_expanded_compacts(header);
            assert(header.wire(0) + Seq::<u8>::empty() + payload@ =~= data@);
        }
        Ok(DataEnvelope { header: full, payload: vstd::slice::slice_to_vec(payload) })
    }
}

/// The flags in the first byte of a packet.
pub open spec fn packet_flags(data: Seq<u8>) -> int {
    (data[0] % 16) as int
}

/// Why the header at the start of `data` is none whose flags are at most `known_flags`, if it is
/// none.
pub open spec fn packet_fault(data: Seq<u8>, known_flags: int) -> Option<CompactRealtimeError> {
    if data.len() < COMPACT_REALTIME_HEADER_LEN {
        Some(
            CompactRealtimeError::InvalidLength {
                expected_at_least: COMPACT_REALTIME_HEADER_LEN,
                actual: data.len() as usize,
            },
        )
    } else if data[0] / 16 != COMPACT_REALTIME_WIRE_VERSION {
        Some(CompactRealtimeError::UnsupportedVersion(data[0] / 16))
    } else if packet_flags(data) > known_flags {
        Some(CompactRealtimeError::UnknownFlags(data[0] % 16))
    } else if !(1 <= data[1] <= 5) {
        Some(CompactRealtimeError::InvalidLane(data[1]))
    } else if data[1] == DataLane::ReliableObject.id() {
        Some(CompactRealtimeError::NonRealtimeLane(DataLane::ReliableObject))
    } else if data[1] == DataLane::Background.id() {
        Some(CompactRealtimeError::NonRealtimeLane(DataLane::Background))
    } else if !(1 <= data[2] <= 11) {
        Some(CompactRealtimeError::InvalidContentKind(data[2]))
    } else if data[3] > 3 {
        Some(CompactRealtimeError::InvalidPriority(data[3]))
    } else if packet_flags(data) % 2 == 0 && be_value(field(data, 24, 2)) != 0 {
        Some(
            CompactRealtimeError::DeadlineDeltaWithoutFlag(be_value(field(data, 24, 2)) as u16),
        )
    } else {
        None
    }
}

/// The overflow of the deadline that a well-formed header tells, if it overflows.
pub open spec fn deadline_overflow(data: Seq<u8>) -> Option<CompactRealtimeError> {
    let timestamp_ms = be_value(field(data, 16, 8));
    let delta = be_value(field(data, 24, 2));
    if packet_flags(data) % 2 == 1 && timestamp_ms + delta > u64::MAX {
        Some(
            CompactRealtimeError::DeadlineOverflow {
                timestamp_ms: timestamp_ms as u64,
                deadline_delta_ms: delta as u16,
            },
        )
    } else {
        None
    }
}

/// Why `data` is no packet without a timing record, if it is none.
pub open spec fn envelope_fault(data: Seq<u8>) -> Option<CompactRealtimeError> {
    match packet_fault(data, 1) {
        Some(e) => Some(e),
        None => deadline_overflow(data),
    }
}

/// Why `data` is no packet, with a timing record or without, if it is none.
pub open spec fn timed_envelope_fault(data: Seq<u8>) -> Option<CompactRealtimeError> {
    match packet_fault(data, 3) {
        Some(e) => Some(e),
        None => if packet_flags(data) >= 2 && data.len() < 50 {
            Some(
                CompactRealtimeError::InvalidLength {
                    expected_at_least: 50,
                    actual: data.len() as usize,
                },
            )
        } else {
            deadline_overflow(data)
        },
    }
}

/// The packet of a header that has a compact form: header, timing record if there is one, payload.
pub open spec fn packet(
    header: DataHeader,
    timing: Option<FrameTimingCheckpoints>,
    payload: Seq<u8>,
) -> Seq<u8> {
    match timing {
        Some(checkpoints) => CompactRealtimeHeader::compact_of(header).wire(2)
            + checkpoints.host_wire() + payload,
        None => CompactRealtimeHeader::compact_of(header).wire(0) + Seq::<u8>::empty() + payload,
    }
}

/// What reading `data` gives, where it may carry no timing record.
pub open spec fn reads(data: Seq<u8>, r: Result<DataEnvelope, CompactRealtimeError>) -> bool {
    match r {
        Ok(envelope) => {
            &&& envelope_fault(data) is None
            &&& header_fault(envelope.header) is None
            &&& envelope.header.version == COMPACT_REALTIME_WIRE_VERSION
            &&& data == packet(envelope.header, None, envelope.payload@)
        },
        Err(e) => envelope_fault(data) == Some(e),
    }
}

/// What reading `data` gives, where it may carry a timing record.
pub open spec fn reads_timed(
    data: Seq<u8>,
    r: Result<(DataEnvelope, Option<FrameTimingCheckpoints>), CompactRealtimeError>,
) -> bool {
    match r {
        Ok((envelope, timing)) => {
            &&& timed_envelope_fault(data) is None
            &&& header_fault(envelope.header) is None
            &&& envelope.header.version == COMPACT_REALTIME_WIRE_VERSION
            &&& timing is Some ==> timing->0 == timing->0.host_part()
            &&& data == packet(envelope.header, timing, envelope.payload@)
        },
        Err(e) => timed_envelope_fault(data) == Some(e),
    }
}

impl DataEnvelope {
    /// The compact form of a realtime packet.
    pub fn encode_compact_realtime(&self) -> (r: Result<Vec<u8>, CompactRealtimeError>)
        ensures
            match r {
                Ok(out) => header_fault(self.header) is None && out@ == packet(
                    self.header,
                    None,
                    self.payload@,
                ),
                Err(e) => header_fault(self.header) == Some(e),
            },
    {
        let header = match CompactRealtimeHeader::from_data_header(&self.header) {
            Ok(header) => header,
            Err(e) => return Err(e),
        };
        let out = header.encode_with_payload(&self.payload);
        proof {
            assert(header.wire(0) + Seq::<u8>::empty() + self.payload@ =~= header.wire(0)
                + self.payload@);
        }
        out
    }

    /// The packet in `data`, which may carry no timing record.
    pub fn decode_compact_realtime(data: &[u8]) -> (r: Result<Self, CompactRealtimeError>)
        ensures
            reads(data@, r),
    {
        CompactRealtimeHeader::decode_envelope(data)
    }

    /// The compact form of a realtime packet, with the host's part of `timing` in it.
    pub fn encode_compact_realtime_with_timing(
        &self,
        timing: Option<FrameTimingCheckpoints>,
    ) -> (r: Result<Vec<u8>, CompactRealtimeError>)
        ensures
            match r {
                Ok(out) => header_fault(self.header) is None && out@ == packet(
                    self.header,
                    timing,
                    self.payload@,
                ),
                Err(e) => header_fault(self.header) == Some(e),
            },
    {
        match timing {
            Some(checkpoints) => {
                let header = match CompactRealtimeHeader::from_data_header(&self.header) {
                    Ok(header) => header,
                    Err(e) => return Err(e),
                };
                let mut out = header.put(COMPACT_REALTIME_TIMING_FLAG);
                checkpoints.put_host_wire(&mut out);
                out.extend_from_slice(&self.payload);
                proof {
                    assert(out@ =~= packet(self.header, timing, self.payload@));
                }
                Ok(out)
            },
            None => self.encode_compact_realtime(),
        }
    }

    /// The packet in `data`, and the host's timing record where it carries one.
    pub fn decode_compact_realtime_with_timing(data: &[u8]) -> (r: Result<
        (Self, Option<FrameTimingCheckpoints>),
        CompactRealtimeError,
    >)
        ensures
            reads_timed(data@, r),
    {
        let (header, flags) = match CompactRealtimeHeader::take(data, 3) {
            Ok(read) => read,
            Err(e) => return Err(e),
        };
        let ghost rest = data@.subrange(26, data@.len() as int);
        proof {
            assert(data@ =~= header.wire(flags - flags % 2) + rest);
            lemma_wire_reads_back(header, flags - flags % 2, rest);
        }
        let mut start: usize = COMPACT_REALTIME_HEADER_LEN;
        let mut timing: Option<FrameTimingCheckpoints> = None;
        if flags >= COMPACT_REALTIME_TIMING_FLAG {
            start = COMPACT_REALTIME_HEADER_LEN + HOST_TIMING_WIRE_LEN;
            if data.len() < start {
                return Err(
                    CompactRealtimeError::InvalidLength {
                        expected_at_least: start,
                        actual: data.len(),
                    },
                );
            }
            timing = Some(
                FrameTimingCheckpoints::take_host_wire(
                    vstd::slice::slice_subrange(data, COMPACT_REALTIME_HEADER_LEN, start),
                ),
            );
        }
        let full = match header.to_data_header() {
            Ok(full) => full,
            Err(e) => return Err(e),
        };
        let payload = vstd::slice::slice_to_vec(
            vstd::slice::slice_subrange(data, start, data.len()),
        );
        proof {
            lemma_expanded_compacts(header);
            assert(data@ =~= packet(full, timing, payload@));
        }
        Ok((DataEnvelope { header: full, payload }, timing))
    }
}

/// A compact header that stands for a full one is the compact form of it, and the other way round.
pub proof fn lemma_expanded_compacts(header: CompactRealtimeHeader)
    requires
        header.version <= 0x0f,
        header.expand_fault() is None,
    ensures
        header_fault(header.expanded()) is None,
        CompactRealtimeHeader::compact_of(header.expanded()) == header,
{
}

/// What a reader sees of a header that was written, whatever follows it.
pub proof fn lemma_wire_reads_back(header: CompactRealtimeHeader, extra_flags: int, rest: Seq<u8>)
    requires
        header.version <= 0x0f,
        extra_flags == 0 || extra_flags == 2,
    ensures
        ({
            let data = header.wire(extra_flags) + rest;
            &&& header.wire(extra_flags).len() == COMPACT_REALTIME_HEADER_LEN
            &&& field(data, 0, 26) == header.wire(extra_flags)
            &&& data[0] / 16 == header.version
            &&& packet_flags(data) == header.flags() + extra_flags
            &&& data[1] == header.lane.id()
            &&& data[2] == header.kind.id()
            &&& data[3] == header.priority.id()
            &&& be_value(field(data, 4, 4)) == header.stream_id
            &&& be_value(field(data, 8, 8)) == header.sequence_number
            &&& be_value(field(data, 16, 8)) == header.timestamp_ms
            &&& be_value(field(data, 24, 2)) == (match header.deadline_delta_ms {
                Some(delta) => delta as nat,
                None => 0,
            })
        }),
{
    let delta: nat = match header.deadline_delta_ms {
        Some(delta) => delta as nat,
        None => 0,
    };
    let data = header.wire(extra_flags) + rest;
    lemma_pow256_values();
    lemma_be_roundtrip(header.stream_id as nat, 4);
    lemma_be_roundtrip(header.sequence_number as nat, 8);
    lemma_be_roundtrip(header.timestamp_ms as nat, 8);
    lemma_be_roundtrip(delta, 2);
    assert(field(data, 0, 26) =~= header.wire(extra_flags));
    assert(field(data, 4, 4) =~= be_bytes(header.stream_id as nat, 4));
    assert(field(data, 8, 8) =~= be_bytes(header.sequence_number as nat, 8));
    assert(field(data, 16, 8) =~= be_bytes(header.timestamp_ms as nat, 8));
    assert(field(data, 24, 2) =~= be_bytes(delta, 2));
}

/// What was encoded is accepted: the packet of a header of the current version that has a compact
/// form is refused by no reader that knows its flags.
pub proof fn encoded_packet_is_accepted(
    header: DataHeader,
    timing: Option<FrameTimingCheckpoints>,
    payload: Seq<u8>,
)
    requires
        header.version == COMPACT_REALTIME_WIRE_VERSION,
        header_fault(header) is None,
    ensures
        timed_envelope_fault(packet(header, timing, payload)) is None,
        timing is None ==> envelope_fault(packet(header, timing, payload)) is None,
{
    let compact = CompactRealtimeHeader::compact_of(header);
    match timing {
        Some(checkpoints) => {
            let rest = checkpoints.host_wire() + payload;
            crate::protocol::timing::lemma_host_wire_len(checkpoints);
            lemma_wire_reads_back(compact, 2, rest);
            assert(packet(header, timing, payload) =~= compact.wire(2) + rest);
        },
        None => {
            lemma_wire_reads_back(compact, 0, payload);
            assert(packet(header, timing, payload) =~= compact.wire(0) + payload);
        },
    }
}

/// Headers are told apart by their bytes, flags included.
proof fn lemma_same_header(
    header: CompactRealtimeHeader,
    extra: int,
    rest: Seq<u8>,
    other: CompactRealtimeHeader,
    other_extra: int,
    other_rest: Seq<u8>,
)
    requires
        header.version <= 0x0f,
        other.version <= 0x0f,
        extra == 0 || extra == 2,
        other_extra == 0 || other_extra == 2,
        header.wire(extra) + rest == other.wire(other_extra) + other_rest,
    ensures
        header == other,
        extra == other_extra,
        rest == other_rest,
        header.wire(extra).len() == COMPACT_REALTIME_HEADER_LEN,
{
    lemma_wire_reads_back(header, extra, rest);
    lemma_wire_reads_back(other, other_extra, other_rest);
    crate::protocol::lane::wire_ids_are_unique(
        header.lane,
        other.lane,
        header.kind,
        other.kind,
        header.priority,
        other.priority,
    );
    assert(header.flags() == other.flags());
    assert(header.deadline_delta_ms == other.deadline_delta_ms);
    let data = header.wire(extra) + rest;
    assert(rest =~= data.subrange(26, data.len() as int));
    assert(other_rest =~= data.subrange(26, data.len() as int));
}

/// A packet determines what is in it: header, the host's part of the timing record, and payload.
pub proof fn packet_determines_contents(
    header: DataHeader,
    timing: Option<FrameTimingCheckpoints>,
    payload: Seq<u8>,
    other_header: DataHeader,
    other_timing: Option<FrameTimingCheckpoints>,
    other_payload: Seq<u8>,
)
    requires
        header_fault(header) is None,
        header_fault(other_header) is None,
        packet(header, timing, payload) == packet(other_header, other_timing, other_payload),
    ensures
        header == other_header,
        payload == other_payload,
        timing is Some <==> other_timing is Some,
        timing is Some ==> timing->0.host_part() == other_timing->0.host_part(),
{
    let data = packet(header, timing, payload);
    let compact = CompactRealtimeHeader::compact_of(header);
    let other = CompactRealtimeHeader::compact_of(other_header);
    let extra: int = if timing is Some {
        2
    } else {
        0
    };
    let other_extra: int = if other_timing is Some {
        2
    } else {
        0
    };
    let record = match timing {
        Some(checkpoints) => checkpoints.host_wire(),
        None => Seq::empty(),
    };
    let other_record = match other_timing {
        Some(checkpoints) => checkpoints.host_wire(),
        None => Seq::empty(),
    };
    assert(data =~= compact.wire(extra) + (record + payload));
    assert(data =~= other.wire(other_extra) + (other_record + other_payload));
    lemma_same_header(
        compact,
        extra,
        record + payload,
        other,
        other_extra,
        other_record + other_payload,
    );
    lemma_expanded_compacts(compact);
    assert(header == compact.expanded() && other_header == other.expanded());
    assert(record + payload =~= data.subrange(26, data.len() as int));
    assert(other_record + other_payload =~= data.subrange(26, data.len() as int));
    if timing is Some {
        crate::protocol::timing::lemma_host_wire_len(timing->0);
        crate::protocol::timing::lemma_host_wire_len(other_timing->0);
        assert(record =~= data.subrange(26, 50));
        assert(other_record =~= data.subrange(26, 50));
        crate::protocol::timing::host_wire_determines_host_part(timing->0, other_timing->0);
        assert(payload =~= data.subrange(50, data.len() as int));
        assert(other_payload =~= data.subrange(50, data.len() as int));
    } else {
        assert(payload =~= data.subrange(26, data.len() as int));
        assert(other_payload =~= data.subrange(26, data.len() as int));
    }
}

/// What was encoded comes back: header and payload as they were.
pub proof fn encoded_envelope_comes_back(
    sent: DataEnvelope,
    r: Result<DataEnvelope, CompactRealtimeError>,
)
    requires
        sent.header.version == COMPACT_REALTIME_WIRE_VERSION,
        header_fault(sent.header) is None,
        reads(packet(sent.header, None, sent.payload@), r),
    ensures
        r is Ok,
        r->Ok_0.header == sent.header,
        r->Ok_0.payload@ == sent.payload@,
{
    encoded_packet_is_accepted(sent.header, None, sent.payload@);
    packet_determines_contents(
        sent.header,
        None,
        sent.payload@,
        r->Ok_0.header,
        None,
        r->Ok_0.payload@,
    );
}

/// What was encoded comes back: header and payload as they were, and of the timing record, where
/// there was one, the host's part.
pub proof fn encoded_timing_comes_back(
    sent: DataEnvelope,
    timing: Option<FrameTimingCheckpoints>,
    r: Result<(DataEnvelope, Option<FrameTimingCheckpoints>), CompactRealtimeError>,
)
    requires
        sent.header.version == COMPACT_REALTIME_WIRE_VERSION,
        header_fault(sent.header) is None,
        reads_timed(packet(sent.header, timing, sent.payload@), r),
    ensures
        r is Ok,
        (r->Ok_0).0.header == sent.header,
        (r->Ok_0).0.payload@ == sent.payload@,
        (r->Ok_0).1 == (match timing {
            Some(checkpoints) => Some(checkpoints.host_part()),
            None => None,
        }),
{
    encoded_packet_is_accepted(sent.header, timing, sent.payload@);
    packet_determines_contents(
        sent.header,
        timing,
        sent.payload@,
        (r->Ok_0).0.header,
        (r->Ok_0).1,
        (r->Ok_0).0.payload@,
    );
}

/// Where each field stands in a packet, whatever follows the header: version and flags share the first
/// byte, the deadline is marked by the lowest bit and the timing record by the next, then come lane,
/// kind and priority, the stream in four bytes, the sequence number and the time in eight each, and
/// the way to the deadline in two.
pub proof fn header_fields_stand_in_their_places(
    header: CompactRealtimeHeader,
    timed: bool,
    rest: Seq<u8>,
)
    requires
        header.version <= 0x0f,
    ensures
        ({
            let data = header.wire(if timed {
                2int
            } else {
                0
            }) + rest;
            &&& data.len() == 26 + rest.len()
            &&& data[0] / 16 == header.version
            &&& data[0] % 2 == (if header.deadline_delta_ms is Some {
                1int
            } else {
                0
            })
            &&& data[0] / 2 % 2 == (if timed {
                1int
            } else {
                0
            })
            &&& data[0] / 4 % 4 == 0
            &&& data[1] == header.lane.id()
            &&& data[2] == header.kind.id()
            &&& data[3] == header.priority.id()
            &&& be_value(field(data, 4, 4)) == header.stream_id
            &&& be_value(field(data, 8, 8)) == header.sequence_number
            &&& be_value(field(data, 16, 8)) == header.timestamp_ms
            &&& header.deadline_delta_ms is Some ==> be_value(field(data, 24, 2))
                == header.deadline_delta_ms->0
            &&& header.deadline_delta_ms is None ==> be_value(field(data, 24, 2)) == 0
            &&& forall|i: int| 0 <= i < rest.len() ==> data[26 + i] == #[trigger] rest[i]
        }),
{
    lemma_wire_reads_back(
        header,
        if timed {
            2
        } else {
            0
        },
        rest,
    );
}

/// The compact form of a header keeps all of it, the deadline as its distance from the time of
/// sending; what it leaves out is what realtime traffic never has.
pub proof fn compact_headers_keep_what_they_stand_for(header: DataHeader)
    requires
        header_fault(header) is None,
    ensures
        ({
            let c = CompactRealtimeHeader::compact_of(header);
            &&& c.version == header.version
            &&& c.lane == header.lane
            &&& c.kind == header.kind
            &&& c.priority == header.priority
            &&& c.stream_id == header.stream_id
            &&& c.sequence_number == header.sequence_number
            &&& c.timestamp_ms == header.timestamp_ms
            &&& (c.deadline_delta_ms is Some) == (header.deadline_ms is Some)
            &&& header.deadline_ms is Some ==> c.timestamp_ms + c.deadline_delta_ms->0
                == header.deadline_ms->0
            &&& c.expanded() == header
        }),
{
}

/// A header has a compact form exactly if its version fits into half a byte, its lane is one of the
/// three realtime ones, it is neither cut into chunks nor sent again, and its deadline, if it has
/// one, lies no more than sixteen bits of milliseconds ahead. Else the first of these that fails is
/// told.
pub proof fn realtime_headers_have_a_compact_form(header: DataHeader)
    ensures
        ({
            let fault = header_fault(header);
            let version = header.version <= 15;
            let lane = header.lane == DataLane::RealtimeVideo || header.lane
                == DataLane::RealtimeAudio || header.lane == DataLane::InteractiveControl;
            let whole = header.chunk is None && header.reliability_info is None
                && header.reliability == ReliabilityMode::BestEffort;
            let late = header.deadline_ms is Some && header.deadline_ms->0 < header.timestamp_ms;
            let far = header.deadline_ms is Some && header.deadline_ms->0 > header.timestamp_ms
                + 65535;
            &&& fault is None <==> version && lane && whole && !late && !far
            &&& fault == Some(CompactRealtimeError::UnsupportedVersion(header.version))
                <==> !version
            &&& fault == Some(CompactRealtimeError::NonRealtimeLane(header.lane)) <==> version
                && !lane
            &&& fault == Some(CompactRealtimeError::UnsupportedRealtimeMetadata) <==> version
                && lane && !whole
            &&& version && lane && whole && late ==> fault == Some(
                CompactRealtimeError::DeadlineBeforeTimestamp {
                    timestamp_ms: header.timestamp_ms,
                    deadline_ms: header.deadline_ms->0,
                },
            )
            &&& version && lane && whole && far ==> fault == Some(
                CompactRealtimeError::DeadlineDeltaTooLarge(
                    (header.deadline_ms->0 - header.timestamp_ms) as u64,
                ),
            )
        }),
{
}

/// Bytes are a packet exactly if there are enough of them, their version is the first, no flag is set
/// that has no meaning, lane, kind and priority are known, the lane is a realtime one, no way to a
/// deadline is told without one, and no deadline lies beyond the end of time. Only readers of timing
/// records take packets with one, which are then long enough to hold it.
pub proof fn packets_are_known_by_their_bytes(data: Seq<u8>)
    ensures
        ({
            let sound = data.len() >= 26 && data[0] / 16 == 1 && 1 <= data[1] <= 3 && 1 <= data[2]
                <= 11 && data[3] <= 3 && (data[0] % 2 == 0 ==> be_value(field(data, 24, 2)) == 0)
                && (data[0] % 2 == 1 ==> be_value(field(data, 16, 8)) + be_value(
                field(data, 24, 2),
            ) <= u64::MAX);
            &&& envelope_fault(data) is None <==> sound && data[0] % 16 <= 1
            &&& timed_envelope_fault(data) is None <==> sound && data[0] % 16 <= 3 && (data[0] % 16
                >= 2 ==> data.len() >= 50)
        }),
        data.len() < 26 ==> packet_fault(data, 1) == Some(
            CompactRealtimeError::InvalidLength {
                expected_at_least: 26,
                actual: data.len() as usize,
            },
        ),
        data.len() >= 26 && data[0] / 16 != 1 ==> packet_fault(data, 1) == Some(
            CompactRealtimeError::UnsupportedVersion(data[0] / 16),
        ),
        data.len() >= 26 && data[0] / 16 == 1 && data[0] % 16 > 3 ==> packet_fault(data, 3) == Some(
            CompactRealtimeError::UnknownFlags(data[0] % 16),
        ),
{
}

/// Errors tell what was wrong with which numbers.
pub proof fn compact_errors_tell_what_was_wrong(
    length: usize,
    actual: usize,
    byte: u8,
    lane: DataLane,
    timestamp_ms: u64,
    deadline_ms: u64,
    delta: u16,
)
    ensures
        (CompactRealtimeError::InvalidLength { expected_at_least: length, actual }).text()
            == "compact realtime packet too short: expected at least "@ + decimal(length as nat)
            + " bytes, got "@ + decimal(actual as nat),
        CompactRealtimeError::UnsupportedVersion(byte).text()
            == "unsupported compact realtime version "@ + decimal(byte as nat),
        CompactRealtimeError::UnknownFlags(byte).text() == "unknown compact realtime flags "@
            + prefixed_hex(byte as nat),
        CompactRealtimeError::InvalidLane(byte).text() == "invalid compact realtime lane id "@
            + decimal(byte as nat),
        CompactRealtimeError::InvalidContentKind(byte).text()
            == "invalid compact realtime content kind id "@ + decimal(byte as nat),
        CompactRealtimeError::InvalidPriority(byte).text()
            == "invalid compact realtime priority id "@ + decimal(byte as nat),
        CompactRealtimeError::NonRealtimeLane(lane).text()
            == "compact realtime packet cannot carry lane "@ + lane.name_text(),
        CompactRealtimeError::UnsupportedRealtimeMetadata.text()
            == "compact realtime packet cannot carry chunk or reliability metadata"@,
        (CompactRealtimeError::DeadlineBeforeTimestamp { timestamp_ms, deadline_ms }).text()
            == "compact realtime deadline "@ + decimal(deadline_ms as nat)
            + " is before timestamp "@ + decimal(timestamp_ms as nat),
        CompactRealtimeError::DeadlineDeltaTooLarge(deadline_ms).text()
            == "compact realtime deadline delta "@ + decimal(deadline_ms as nat)
            + "ms exceeds u16 range"@,
        CompactRealtimeError::DeadlineDeltaWithoutFlag(delta).text()
            == "compact realtime deadline delta "@ + decimal(delta as nat)
            + " present without deadline flag"@,
        (CompactRealtimeError::DeadlineOverflow { timestamp_ms, deadline_delta_ms: delta }).text()
            == "compact realtime deadline overflows timestamp "@ + decimal(timestamp_ms as nat)
            + " plus delta "@ + decimal(delta as nat),
{
}

/// A packet with a timing record is its header, the record and its payload, one behind the other;
/// without one the payload follows the header.
pub proof fn packets_hold_header_record_and_payload(
    header: DataHeader,
    timing: FrameTimingCheckpoints,
    payload: Seq<u8>,
    i: int,
)
    requires
        header_fault(header) is None,
        0 <= i < payload.len(),
    ensures
        packet(header, None, payload).len() == 26 + payload.len(),
        packet(header, None, payload)[26 + i] == payload[i],
        packet(header, None, payload)[0] / 2 % 2 == 0,
        packet(header, Some(timing), payload).len() == 50 + payload.len(),
        packet(header, Some(timing), payload)[50 + i] == payload[i],
        packet(header, Some(timing), payload)[0] / 2 % 2 == 1,
        field(packet(header, Some(timing), payload), 26, 24) == timing.host_wire(),
{
    let compact = CompactRealtimeHeader::compact_of(header);
    crate::protocol::timing::lemma_host_wire_len(timing);
    header_fields_stand_in_their_places(compact, true, timing.host_wire() + payload);
    header_fields_stand_in_their_places(compact, false, payload);
    assert(packet(header, Some(timing), payload) =~= compact.wire(2) + (timing.host_wire()
        + payload));
    assert(packet(header, None, payload) =~= compact.wire(0) + payload);
    assert((timing.host_wire() + payload)[24 + i] == payload[i]);
    assert(field(packet(header, Some(timing), payload), 26, 24) =~= timing.host_wire());
}

/// A compact header is written exactly if its version fits into half a byte and its lane is one of the
/// three realtime ones, and stands for a full one exactly if its lane is and its deadline lies before
/// the end of time.
pub proof fn realtime_headers_are_written_and_read(header: CompactRealtimeHeader)
    ensures
        ({
            let realtime = header.lane == DataLane::RealtimeVideo || header.lane
                == DataLane::RealtimeAudio || header.lane == DataLane::InteractiveControl;
            let beyond = header.deadline_delta_ms is Some && header.timestamp_ms
                + header.deadline_delta_ms->0 > u64::MAX;
            &&& header.encode_fault() is None <==> header.version <= 15 && realtime
            &&& header.version > 15 ==> header.encode_fault() == Some(
                CompactRealtimeError::UnsupportedVersion(header.version),
            )
            &&& header.version <= 15 && !realtime ==> header.encode_fault() == Some(
                CompactRealtimeError::NonRealtimeLane(header.lane),
            )
            &&& header.expand_fault() is None <==> realtime && !beyond
            &&& !realtime ==> header.expand_fault() == Some(
                CompactRealtimeError::NonRealtimeLane(header.lane),
            )
            &&& realtime && beyond ==> header.expand_fault() == Some(
                CompactRealtimeError::DeadlineOverflow {
                    timestamp_ms: header.timestamp_ms,
                    deadline_delta_ms: header.deadline_delta_ms->0,
                },
            )
            &&& header.expanded().reliability == ReliabilityMode::BestEffort
            &&& header.expanded().chunk is None && header.expanded().reliability_info is None
            &&& !beyond && header.deadline_delta_ms is Some ==> header.expanded().deadline_ms
                == Some((header.timestamp_ms + header.deadline_delta_ms->0) as u64)
            &&& header.expanded().stream_id == header.stream_id
            &&& header.expanded().sequence_number == header.sequence_number
            &&& header.expanded().timestamp_ms == header.timestamp_ms
            &&& header.expanded().lane == header.lane
            &&& header.expanded().kind == header.kind
            &&& header.expanded().priority == header.priority
            &&& header.expanded().version == header.version
        }),
{
}

} // verus!
