//! When a frame passed each stage of the pipeline, from capture on the host to the viewer's screen.
use crate::bytes::{be_bytes, be_value, field, get_be, put_be};
use crate::bytes::{
    lemma_be_bytes_len, lemma_be_roundtrip, lemma_be_value_roundtrip, lemma_pow256_values,
};
use crate::text::{decimal, push_decimal};
use vstd::prelude::*;

verus! {

pub const FRAME_TIMING_CHECKPOINTS_WIRE_LEN: usize = 52;

pub const HOST_TIMING_WIRE_LEN: usize = 24;

/// The stages that a frame passes, in order.
#[derive(Debug, Clone, Copy, PartialEq, Eq, PartialOrd, Ord, Hash, Structural)]
pub enum StageId {
    /// From the callback of the operating system to raw pixels.
    Capture,
    /// Raw pixels wait for the encoder.
    EncodeQueue,
    /// The encoder compresses.
    HardwareEncode,
    /// Slicing, packing and sending.
    PacketizeEgress,
    /// On the way from the host's socket to the viewer's.
    NetworkTransit,
    /// Reading and reassembling.
    IngressReassembly,
    /// Waiting in the jitter buffer.
    JitterPacing,
    /// The decoder decompresses.
    HardwareDecode,
    /// From the draw call to the screen.
    RenderPresentation,
}

impl StageId {
    pub const ALL: [StageId; 9] = [
        StageId::Capture,
        StageId::EncodeQueue,
        StageId::HardwareEncode,
        StageId::PacketizeEgress,
        StageId::NetworkTransit,
        StageId::IngressReassembly,
        StageId::JitterPacing,
        StageId::HardwareDecode,
        StageId::RenderPresentation,
    ];

    pub const STAGE_COUNT: usize = 9;

    /// The stage's place in the pipeline, counted from nought, which is its identifier.
    pub open spec fn id(self) -> u8 {
        match self {
            StageId::Capture => 0,
            StageId::EncodeQueue => 1,
            StageId::HardwareEncode => 2,
            StageId::PacketizeEgress => 3,
            StageId::NetworkTransit => 4,
            StageId::IngressReassembly => 5,
            StageId::JitterPacing => 6,
            StageId::HardwareDecode => 7,
            StageId::RenderPresentation => 8,
        }
    }

    pub open spec fn name_text(self) -> Seq<char> {
        match self {
            StageId::Capture => "Capture"@,
            StageId::EncodeQueue => "EncodeQueue"@,
            StageId::HardwareEncode => "HardwareEncode"@,
            StageId::PacketizeEgress => "PacketizeEgress"@,
            StageId::NetworkTransit => "NetworkTransit"@,
            StageId::IngressReassembly => "IngressReassembly"@,
            StageId::JitterPacing => "JitterPacing"@,
            StageId::HardwareDecode => "HardwareDecode"@,
            StageId::RenderPresentation => "RenderPresentation"@,
        }
    }

    pub open spec fn display_text(self) -> Seq<char> {
        match self {
            StageId::Capture => "屏幕捕获"@,
            StageId::EncodeQueue => "编码排队"@,
            StageId::HardwareEncode => "硬件编码"@,
            StageId::PacketizeEgress => "分片发射"@,
            StageId::NetworkTransit => "网络传输"@,
            StageId::IngressReassembly => "接收重组"@,
            StageId::JitterPacing => "抖动起搏"@,
            StageId::HardwareDecode => "硬件解码"@,
            StageId::RenderPresentation => "渲染呈现"@,
        }
    }

    pub fn name(&self) -> (r: &'static str)
        ensures
            r@ == self.name_text(),
    {
        match self {
            StageId::Capture => "Capture",
            StageId::EncodeQueue => "EncodeQueue",
            StageId::HardwareEncode => "HardwareEncode",
            StageId::PacketizeEgress => "PacketizeEgress",
            StageId::NetworkTransit => "NetworkTransit",
            StageId::IngressReassembly => "IngressReassembly",
            StageId::JitterPacing => "JitterPacing",
            StageId::HardwareDecode => "HardwareDecode",
            StageId::RenderPresentation => "RenderPresentation",
        }
    }

    /// The name that the viewer shows.
    pub fn display_name(&self) -> (r: &'static str)
        ensures
            r@ == self.display_text(),
    {
        match self {
            StageId::Capture => "屏幕捕获",
            StageId::EncodeQueue => "编码排队",
            StageId::HardwareEncode => "硬件编码",
            StageId::PacketizeEgress => "分片发射",
            StageId::NetworkTransit => "网络传输",
            StageId::IngressReassembly => "接收重组",
            StageId::JitterPacing => "抖动起搏",
            StageId::HardwareDecode => "硬件解码",
            StageId::RenderPresentation => "渲染呈现",
        }
    }

    pub fn wire_id(&self) -> (r: u8)
        ensures
            r == self.id(),
    {
        match self {
            StageId::Capture => 0,
            StageId::EncodeQueue => 1,
            StageId::HardwareEncode => 2,
            StageId::PacketizeEgress => 3,
            StageId::NetworkTransit => 4,
            StageId::IngressReassembly => 5,
            StageId::JitterPacing => 6,
            StageId::HardwareDecode => 7,
            StageId::RenderPresentation => 8,
        }
    }

    /// The stage with this identifier.
    pub fn from_wire_id(id: u8) -> (r: Result<Self, TimingCodecError>)
        ensures
            match r {
                Ok(stage) => stage.id() == id,
                Err(e) => id > 8 && e == TimingCodecError::InvalidStageId(id),
            },
    {
        match id {
            0 => Ok(StageId::Capture),
            1 => Ok(StageId::EncodeQueue),
            2 => Ok(StageId::HardwareEncode),
            3 => Ok(StageId::PacketizeEgress),
            4 => Ok(StageId::NetworkTransit),
            5 => Ok(StageId::IngressReassembly),
            6 => Ok(StageId::JitterPacing),
            7 => Ok(StageId::HardwareDecode),
            8 => Ok(StageId::RenderPresentation),
            other => Err(TimingCodecError::InvalidStageId(other)),
        }
    }

    /// The stage runs on the host.
    pub fn is_host(&self) -> (r: bool)
        ensures
            r == (self.id() <= 3),
    {
        matches!(
            self,
            StageId::Capture
                | StageId::EncodeQueue
                | StageId::HardwareEncode
                | StageId::PacketizeEgress
        )
    }

    /// The stage is the network between the two.
    pub fn is_network(&self) -> (r: bool)
        ensures
            r == (self.id() == 4),
    {
        matches!(self, StageId::NetworkTransit)
    }

    /// The stage runs on the viewer.
    pub fn is_client(&self) -> (r: bool)
        ensures
            r == (self.id() >= 5),
    {
        matches!(
            self,
            StageId::IngressReassembly
                | StageId::JitterPacing
                | StageId::HardwareDecode
                | StageId::RenderPresentation
        )
    }
}

/// Identifiers tell the stages apart, and there are as many stages as identifiers. Host, network
/// and viewer are the three parts of that range.
pub proof fn stage_ids_are_unique(stage: StageId, other: StageId)
    ensures
        stage.id() < StageId::STAGE_COUNT,
        stage.id() == other.id() ==> stage == other,
{
}

/// Why bytes are no timing record.
#[derive(Debug, Clone, Copy, PartialEq, Eq, Structural)]
pub enum TimingCodecError {
    BufferTooShort { expected: usize, actual: usize },
    InvalidStageId(u8),
    InvalidTimestampSequence { stage: StageId, prev_us: u32, next_us: u32 },
}

impl TimingCodecError {
    /// The error in words.
    pub open spec fn text(self) -> Seq<char> {
        match self {
            TimingCodecError::BufferTooShort { expected, actual } =>
                "Timing buffer too short: expected "@ + decimal(expected as nat) + "B, got "@
                    + decimal(actual as nat) + "B"@,
            TimingCodecError::InvalidStageId(id) =>
                "Invalid StageId wire ID: "@ + decimal(id as nat),
            TimingCodecError::InvalidTimestampSequence { stage, prev_us, next_us } =>
                "Non-monotonic timestamp in stage "@ + stage.name_text() + ": prev="@
                    + decimal(prev_us as nat) + "us, next="@ + decimal(next_us as nat) + "us"@,
        }
    }

    /// The error in words.
    pub fn message(&self) -> (r: String)
        ensures
            r@ == self.text(),
    {
        let mut out = String::new();
        match *self {
            TimingCodecError::BufferTooShort { expected, actual } => {
                out.append("Timing buffer too short: expected ");
                push_decimal(&mut out, expected as u64);
                out.append("B, got ");
                push_decimal(&mut out, actual as u64);
                out.append("B");
            },
            TimingCodecError::InvalidStageId(id) => {
                out.append("Invalid StageId wire ID: ");
                push_decimal(&mut out, id as u64);
            },
            TimingCodecError::InvalidTimestampSequence { stage, prev_us, next_us } => {
                out.append("Non-monotonic timestamp in stage ");
                out.append(stage.name());
                out.append(": prev=");
                push_decimal(&mut out, prev_us as u64);
                out.append("us, next=");
                push_decimal(&mut out, next_us as u64);
                out.append("us");
            },
        }
        proof {
            assert(out@ =~= self.text());
        }
        out
    }
}

/// When a frame passed each checkpoint, in microseconds. The first field is an absolute time; all
/// others count from it, and nought means that the frame has not come there.
#[derive(Debug, Clone, Copy, PartialEq, Eq, Hash, Structural)]
pub struct FrameTimingCheckpoints {
    pub capture_ts_us: u64,
    pub encode_queue_ts_us: u32,
    pub encode_done_ts_us: u32,
    pub packetize_ts_us: u32,
    pub send_ts_us: u32,
    pub recv_ts_us: u32,
    pub jitter_enter_ts_us: u32,
    pub jitter_exit_ts_us: u32,
    pub decode_enter_ts_us: u32,
    pub decode_done_ts_us: u32,
    pub render_submit_ts_us: u32,
    pub render_done_ts_us: u32,
}

impl Default for FrameTimingCheckpoints {
    fn default() -> (r: Self)
        ensures
            r == FrameTimingCheckpoints::at(0),
    {
        Self::new(0)
    }
}

/// The time from one checkpoint to the next, if the frame has passed both; nought where the clock
/// ran backwards.
pub open spec fn gap(start: u32, end: u32) -> Option<u32> {
    if start > 0 && end > 0 {
        Some(
            if end > start {
                (end - start) as u32
            } else {
                0
            },
        )
    } else {
        None
    }
}

/// The time since capture, if the frame has come there.
pub open spec fn reached(end: u32) -> Option<u32> {
    if end > 0 {
        Some(end)
    } else {
        None
    }
}

fn gap_us(start: u32, end: u32) -> (r: Option<u32>)
    ensures
        r == gap(start, end),
{
    if start > 0 && end > 0 {
        Some(end.saturating_sub(start))
    } else {
        None
    }
}

fn reached_us(end: u32) -> (r: Option<u32>)
    ensures
        r == reached(end),
{
    if end > 0 {
        Some(end)
    } else {
        None
    }
}

/// One stage on a timeline: from `start` to `end`, counted from capture.
#[derive(Debug, Clone, Copy)]
pub struct StageWindow {
    pub name: &'static str,
    pub cat: &'static str,
    pub start: u32,
    pub end: u32,
}

/// A span as a trace viewer takes it.
#[derive(Debug, Clone, PartialEq, Eq)]
pub struct TraceSpan {
    pub name: String,
    pub cat: String,
    pub ph: char,
    pub ts_us: u64,
    pub dur_us: u64,
    pub pid: u32,
    pub tid: u32,
}

impl TraceSpan {
    /// The span shows `window` of the frame `frame_id` of `session_id`, captured at `base_us`.
    pub open spec fn shows(
        self,
        window: StageWindow,
        base_us: u64,
        frame_id: u64,
        session_id: u32,
    ) -> bool {
        &&& self.name@ == window.name@ + " (F#"@ + decimal(frame_id as nat) + ")"@
        &&& self.cat@ == window.cat@
        &&& self.ph == 'X'
        &&& self.ts_us == base_us + window.start
        &&& self.dur_us == window.end - window.start
        &&& self.pid == session_id
        &&& self.tid == 1
    }
}

/// The windows that last a while, in their order.
pub open spec fn lasting(windows: Seq<StageWindow>) -> Seq<StageWindow>
    decreases windows.len(),
{
    if windows.len() == 0 {
        windows
    } else if windows.last().end > windows.last().start {
        lasting(windows.drop_last()).push(windows.last())
    } else {
        lasting(windows.drop_last())
    }
}

impl FrameTimingCheckpoints {
    /// A frame that was captured at `capture_ts_us` and has come no further.
    pub open spec fn at(capture_ts_us: u64) -> Self {
        FrameTimingCheckpoints {
            capture_ts_us,
            encode_queue_ts_us: 0,
            encode_done_ts_us: 0,
            packetize_ts_us: 0,
            send_ts_us: 0,
            recv_ts_us: 0,
            jitter_enter_ts_us: 0,
            jitter_exit_ts_us: 0,
            decode_enter_ts_us: 0,
            decode_done_ts_us: 0,
            render_submit_ts_us: 0,
            render_done_ts_us: 0,
        }
    }

    /// What the host knows of the frame.
    pub open spec fn host_part(self) -> Self {
        FrameTimingCheckpoints {
            encode_queue_ts_us: self.encode_queue_ts_us,
            encode_done_ts_us: self.encode_done_ts_us,
            packetize_ts_us: self.packetize_ts_us,
            send_ts_us: self.send_ts_us,
            ..FrameTimingCheckpoints::at(self.capture_ts_us)
        }
    }

    /// The host's checkpoints on the wire.
    pub open spec fn host_wire(self) -> Seq<u8> {
        be_bytes(self.capture_ts_us as nat, 8) + be_bytes(self.encode_queue_ts_us as nat, 4)
            + be_bytes(self.encode_done_ts_us as nat, 4) + be_bytes(self.packetize_ts_us as nat, 4)
            + be_bytes(self.send_ts_us as nat, 4)
    }

    /// The viewer's checkpoints on the wire.
    pub open spec fn client_wire(self) -> Seq<u8> {
        be_bytes(self.recv_ts_us as nat, 4) + be_bytes(self.jitter_enter_ts_us as nat, 4)
            + be_bytes(self.jitter_exit_ts_us as nat, 4) + be_bytes(
            self.decode_enter_ts_us as nat,
            4,
        ) + be_bytes(self.decode_done_ts_us as nat, 4) + be_bytes(
            self.render_submit_ts_us as nat,
            4,
        ) + be_bytes(self.render_done_ts_us as nat, 4)
    }

    /// All checkpoints on the wire.
    pub open spec fn wire(self) -> Seq<u8> {
        self.host_wire() + self.client_wire()
    }

    pub fn new(capture_ts_us: u64) -> (r: Self)
        ensures
            r == Self::at(capture_ts_us),
    {
        Self {
            capture_ts_us,
            encode_queue_ts_us: 0,
            encode_done_ts_us: 0,
            packetize_ts_us: 0,
            send_ts_us: 0,
            recv_ts_us: 0,
            jitter_enter_ts_us: 0,
            jitter_exit_ts_us: 0,
            decode_enter_ts_us: 0,
            decode_done_ts_us: 0,
            render_submit_ts_us: 0,
            render_done_ts_us: 0,
        }
    }

    /// How long a stage took, if the frame has passed it. While a queue is not timed apart from the
    /// encoder behind it, both are given the time from entering the one to leaving the other.
    pub open spec fn duration(self, stage: StageId) -> Option<u32> {
        match stage {
            StageId::Capture => reached(self.encode_queue_ts_us),
            StageId::EncodeQueue => gap(self.encode_queue_ts_us, self.encode_done_ts_us),
            StageId::HardwareEncode => if self.encode_queue_ts_us > 0 {
                gap(self.encode_queue_ts_us, self.encode_done_ts_us)
            } else {
                reached(self.encode_done_ts_us)
            },
            StageId::PacketizeEgress => gap(self.encode_done_ts_us, self.send_ts_us),
            StageId::NetworkTransit => gap(self.send_ts_us, self.recv_ts_us),
            StageId::IngressReassembly => gap(self.recv_ts_us, self.jitter_enter_ts_us),
            StageId::JitterPacing => gap(self.jitter_enter_ts_us, self.jitter_exit_ts_us),
            StageId::HardwareDecode => gap(self.decode_enter_ts_us, self.decode_done_ts_us),
            StageId::RenderPresentation => gap(self.render_submit_ts_us, self.render_done_ts_us),
        }
    }

    pub fn capture_duration_us(&self) -> (r: Option<u32>)
        ensures
            r == self.duration(StageId::Capture),
    {
        reached_us(self.encode_queue_ts_us)
    }

    pub fn encode_queue_duration_us(&self) -> (r: Option<u32>)
        ensures
            r == self.duration(StageId::EncodeQueue),
    {
        gap_us(self.encode_queue_ts_us, self.encode_done_ts_us)
    }

    pub fn hardware_encode_duration_us(&self) -> (r: Option<u32>)
        ensures
            r == self.duration(StageId::HardwareEncode),
    {
        if self.encode_queue_ts_us > 0 {
            gap_us(self.encode_queue_ts_us, self.encode_done_ts_us)
        } else {
            reached_us(self.encode_done_ts_us)
        }
    }

    pub fn packetize_egress_duration_us(&self) -> (r: Option<u32>)
        ensures
            r == self.duration(StageId::PacketizeEgress),
    {
        gap_us(self.encode_done_ts_us, self.send_ts_us)
    }

    pub fn network_transit_duration_us(&self) -> (r: Option<u32>)
        ensures
            r == self.duration(StageId::NetworkTransit),
    {
        gap_us(self.send_ts_us, self.recv_ts_us)
    }

    pub fn ingress_reassembly_duration_us(&self) -> (r: Option<u32>)
        ensures
            r == self.duration(StageId::IngressReassembly),
    {
        gap_us(self.recv_ts_us, self.jitter_enter_ts_us)
    }

    pub fn jitter_pacing_duration_us(&self) -> (r: Option<u32>)
        ensures
            r == self.duration(StageId::JitterPacing),
    {
        gap_us(self.jitter_enter_ts_us, self.jitter_exit_ts_us)
    }

    pub fn hardware_decode_duration_us(&self) -> (r: Option<u32>)
        ensures
            r == self.duration(StageId::HardwareDecode),
    {
        gap_us(self.decode_enter_ts_us, self.decode_done_ts_us)
    }

    pub fn render_presentation_duration_us(&self) -> (r: Option<u32>)
        ensures
            r == self.duration(StageId::RenderPresentation),
    {
        gap_us(self.render_submit_ts_us, self.render_done_ts_us)
    }

    pub fn stage_duration_us(&self, stage: StageId) -> (r: Option<u32>)
        ensures
            r == self.duration(stage),
    {
        match stage {
            StageId::Capture => self.capture_duration_us(),
            StageId::EncodeQueue => self.encode_queue_duration_us(),
            StageId::HardwareEncode => self.hardware_encode_duration_us(),
            StageId::PacketizeEgress => self.packetize_egress_duration_us(),
            StageId::NetworkTransit => self.network_transit_duration_us(),
            StageId::IngressReassembly => self.ingress_reassembly_duration_us(),
            StageId::JitterPacing => self.jitter_pacing_duration_us(),
            StageId::HardwareDecode => self.hardware_decode_duration_us(),
            StageId::RenderPresentation => self.render_presentation_duration_us(),
        }
    }

    /// From capture until the frame left the host.
    pub fn host_pipeline_duration_us(&self) -> (r: Option<u32>)
        ensures
            r == reached(self.send_ts_us),
    {
        reached_us(self.send_ts_us)
    }

    /// From arrival at the viewer until the frame was shown.
    pub fn client_pipeline_duration_us(&self) -> (r: Option<u32>)
        ensures
            r == gap(self.recv_ts_us, self.render_done_ts_us),
    {
        gap_us(self.recv_ts_us, self.render_done_ts_us)
    }

    /// From capture until the frame was shown.
    pub fn total_e2e_duration_us(&self) -> (r: Option<u32>)
        ensures
            r == reached(self.render_done_ts_us),
    {
        reached_us(self.render_done_ts_us)
    }

    /// Appends the host's checkpoints.
    pub fn put_host_wire(&self, out: &mut Vec<u8>)
        ensures
            final(out)@ == old(out)@ + self.host_wire(),
    {
        put_be(out, self.capture_ts_us, 8);
        put_be(out, self.encode_queue_ts_us as u64, 4);
        put_be(out, self.encode_done_ts_us as u64, 4);
        put_be(out, self.packetize_ts_us as u64, 4);
        put_be(out, self.send_ts_us as u64, 4);
        proof {
            assert(out@ =~= old(out)@ + self.host_wire());
        }
    }

    /// Reads the host's checkpoints at the start of `bytes`.
    pub fn take_host_wire(bytes: &[u8]) -> (r: Self)
        requires
            bytes@.len() >= HOST_TIMING_WIRE_LEN,
        ensures
            r == r.host_part(),
            r.host_wire() == field(bytes@, 0, 24),
    {
        proof {
            lemma_pow256_values();
            lemma_be_value_roundtrip(field(bytes@, 0, 8));
            lemma_be_value_roundtrip(field(bytes@, 8, 4));
            lemma_be_value_roundtrip(field(bytes@, 12, 4));
            lemma_be_value_roundtrip(field(bytes@, 16, 4));
            lemma_be_value_roundtrip(field(bytes@, 20, 4));
        }
        let r = Self {
            capture_ts_us: get_be(bytes, 0, 8),
            encode_queue_ts_us: get_be(bytes, 8, 4) as u32,
            encode_done_ts_us: get_be(bytes, 12, 4) as u32,
            packetize_ts_us: get_be(bytes, 16, 4) as u32,
            send_ts_us: get_be(bytes, 20, 4) as u32,
            recv_ts_us: 0,
            jitter_enter_ts_us: 0,
            jitter_exit_ts_us: 0,
            decode_enter_ts_us: 0,
            decode_done_ts_us: 0,
            render_submit_ts_us: 0,
            render_done_ts_us: 0,
        };
        proof {
            assert(r.host_wire() =~= field(bytes@, 0, 24));
        }
        r
    }

    /// All checkpoints, most significant bytes first.
    pub fn to_wire_bytes(&self) -> (r: [u8; 52])
        ensures
            r@ == self.wire(),
    {
        let mut out: Vec<u8> = Vec::new();
        self.put_host_wire(&mut out);
        put_be(&mut out, self.recv_ts_us as u64, 4);
        put_be(&mut out, self.jitter_enter_ts_us as u64, 4);
        put_be(&mut out, self.jitter_exit_ts_us as u64, 4);
        put_be(&mut out, self.decode_enter_ts_us as u64, 4);
        put_be(&mut out, self.decode_done_ts_us as u64, 4);
        put_be(&mut out, self.render_submit_ts_us as u64, 4);
        put_be(&mut out, self.render_done_ts_us as u64, 4);
        let mut bytes: [u8; 52] = [0u8; 52];
        proof {
            assert(out@ =~= self.wire());
            lemma_wire_len(*self);
        }
        copy_prefix(&out, &mut bytes);
        bytes
    }

    /// The checkpoints at the start of `bytes`.
    pub fn from_wire_bytes(bytes: &[u8]) -> (r: Result<Self, TimingCodecError>)
        ensures
            match r {
                Ok(checkpoints) => bytes@.len() >= 52 && checkpoints.wire() == field(bytes@, 0, 52),
                Err(e) => bytes@.len() < 52 && e == (TimingCodecError::BufferTooShort {
                    expected: FRAME_TIMING_CHECKPOINTS_WIRE_LEN,
                    actual: bytes@.len() as usize,
                }),
            },
    {
        if bytes.len() < FRAME_TIMING_CHECKPOINTS_WIRE_LEN {
            return Err(
                TimingCodecError::BufferTooShort {
                    expected: FRAME_TIMING_CHECKPOINTS_WIRE_LEN,
                    actual: bytes.len(),
                },
            );
        }
        proof {
            lemma_pow256_values();
            lemma_be_value_roundtrip(field(bytes@, 24, 4));
            lemma_be_value_roundtrip(field(bytes@, 28, 4));
            lemma_be_value_roundtrip(field(bytes@, 32, 4));
            lemma_be_value_roundtrip(field(bytes@, 36, 4));
            lemma_be_value_roundtrip(field(bytes@, 40, 4));
            lemma_be_value_roundtrip(field(bytes@, 44, 4));
            lemma_be_value_roundtrip(field(bytes@, 48, 4));
        }
        let mut r = Self::take_host_wire(bytes);
        r.recv_ts_us = get_be(bytes, 24, 4) as u32;
        r.jitter_enter_ts_us = get_be(bytes, 28, 4) as u32;
        r.jitter_exit_ts_us = get_be(bytes, 32, 4) as u32;
        r.decode_enter_ts_us = get_be(bytes, 36, 4) as u32;
        r.decode_done_ts_us = get_be(bytes, 40, 4) as u32;
        r.render_submit_ts_us = get_be(bytes, 44, 4) as u32;
        r.render_done_ts_us = get_be(bytes, 48, 4) as u32;
        proof {
            assert(r.client_wire() =~= field(bytes@, 24, 28));
            assert(r.wire() =~= field(bytes@, 0, 52));
        }
        Ok(r)
    }

    /// The host's checkpoints alone, most significant bytes first.
    pub fn to_host_wire_bytes(&self) -> (r: [u8; 24])
        ensures
            r@ == self.host_wire(),
    {
        let mut out: Vec<u8> = Vec::new();
        self.put_host_wire(&mut out);
        let mut bytes: [u8; 24] = [0u8; 24];
        proof {
            assert(out@ =~= self.host_wire());
            lemma_host_wire_len(*self);
        }
        copy_prefix(&out, &mut bytes);
        bytes
    }

    /// The host's checkpoints at the start of `bytes`; the viewer's are not yet reached.
    pub fn from_host_wire_bytes(bytes: &[u8]) -> (r: Result<Self, TimingCodecError>)
        ensures
            match r {
                Ok(checkpoints) => {
                    &&& bytes@.len() >= 24
                    &&& checkpoints == checkpoints.host_part()
                    &&& checkpoints.host_wire() == field(bytes@, 0, 24)
                },
                Err(e) => bytes@.len() < 24 && e == (TimingCodecError::BufferTooShort {
                    expected: HOST_TIMING_WIRE_LEN,
                    actual: bytes@.len() as usize,
                }),
            },
    {
        if bytes.len() < HOST_TIMING_WIRE_LEN {
            return Err(
                TimingCodecError::BufferTooShort {
                    expected: HOST_TIMING_WIRE_LEN,
                    actual: bytes.len(),
                },
            );
        }
        Ok(Self::take_host_wire(bytes))
    }

    /// The stages as they stand on a timeline.
    pub open spec fn windows(self) -> Seq<StageWindow> {
        seq![
            StageWindow {
                name: "S1_Capture",
                cat: "host.video",
                start: 0,
                end: self.encode_queue_ts_us,
            },
            StageWindow {
                name: "S2_HardwareEncode",
                cat: "host.video",
                start: self.encode_queue_ts_us,
                end: self.encode_done_ts_us,
            },
            StageWindow {
                name: "S3_PacketizeEgress",
                cat: "host.net",
                start: self.encode_done_ts_us,
                end: self.send_ts_us,
            },
            StageWindow {
                name: "S4_NetworkTransit",
                cat: "network",
                start: self.send_ts_us,
                end: self.recv_ts_us,
            },
            StageWindow {
                name: "S5_IngressReassembly",
                cat: "client.net",
                start: self.recv_ts_us,
                end: self.jitter_enter_ts_us,
            },
            StageWindow {
                name: "S6_JitterPacing",
                cat: "client.video",
                start: self.jitter_enter_ts_us,
                end: self.jitter_exit_ts_us,
            },
            StageWindow {
                name: "S7_HardwareDecode",
                cat: "client.video",
                start: self.decode_enter_ts_us,
                end: self.decode_done_ts_us,
            },
            StageWindow {
                name: "S8_RenderPresentation",
                cat: "client.gpu",
                start: self.render_submit_ts_us,
                end: self.render_done_ts_us,
            },
        ]
    }

    fn stage_windows(&self) -> (r: Vec<StageWindow>)
        ensures
            r@ == self.windows(),
    {
        let mut r: Vec<StageWindow> = Vec::new();
        r.push(
            StageWindow {
                name: "S1_Capture",
                cat: "host.video",
                start: 0,
                end: self.encode_queue_ts_us,
            },
        );
        r.push(
            StageWindow {
                name: "S2_HardwareEncode",
                cat: "host.video",
                start: self.encode_queue_ts_us,
                end: self.encode_done_ts_us,
            },
        );
        r.push(
            StageWindow {
                name: "S3_PacketizeEgress",
                cat: "host.net",
                start: self.encode_done_ts_us,
                end: self.send_ts_us,
            },
        );
        r.push(
            StageWindow {
                name: "S4_NetworkTransit",
                cat: "network",
                start: self.send_ts_us,
                end: self.recv_ts_us,
            },
        );
        r.push(
            StageWindow {
                name: "S5_IngressReassembly",
                cat: "client.net",
                start: self.recv_ts_us,
                end: self.jitter_enter_ts_us,
            },
        );
        r.push(
            StageWindow {
                name: "S6_JitterPacing",
                cat: "client.video",
                start: self.jitter_enter_ts_us,
                end: self.jitter_exit_ts_us,
            },
        );
        r.push(
            StageWindow {
                name: "S7_HardwareDecode",
                cat: "client.video",
                start: self.decode_enter_ts_us,
                end: self.decode_done_ts_us,
            },
        );
        r.push(
            StageWindow {
                name: "S8_RenderPresentation",
                cat: "client.gpu",
                start: self.render_submit_ts_us,
                end: self.render_done_ts_us,
            },
        );
        proof {
            assert(r@ =~= self.windows());
        }
        r
    }

    /// The stages that took a while, as complete events of a trace.
    pub fn to_trace_spans(&self, frame_id: u64, session_id: u32) -> (r: Vec<TraceSpan>)
        requires
            forall|i: int|
                0 <= i < lasting(self.windows()).len() ==> self.capture_ts_us
                    + #[trigger] lasting(self.windows())[i].start <= u64::MAX,
        ensures
            r@.len() == lasting(self.windows()).len(),
            forall|i: int|
                0 <= i < r@.len() ==> (#[trigger] r@[i]).shows(
                    lasting(self.windows())[i],
                    self.capture_ts_us,
                    frame_id,
                    session_id,
                ),
    {
        let windows = self.stage_windows();
        let base_ts: u64 = self.capture_ts_us;
        let mut spans: Vec<TraceSpan> = Vec::new();
        let mut i: usize = 0;
        while i < windows.len()
            invariant
                i <= windows@.len(),
                windows@ == self.windows(),
                base_ts == self.capture_ts_us,
                forall|j: int|
                    0 <= j < lasting(self.windows()).len() ==> self.capture_ts_us
                        + #[trigger] lasting(self.windows())[j].start <= u64::MAX,
                spans@.len() == lasting(windows@.take(i as int)).len(),
                forall|j: int|
                    0 <= j < spans@.len() ==> (#[trigger] spans@[j]).shows(
                        lasting(windows@.take(i as int))[j],
                        base_ts,
                        frame_id,
                        session_id,
                    ),
            decreases windows.len() - i,
        {
            let window = windows[i];
            proof {
                assert(windows@.take(i + 1).drop_last() =~= windows@.take(i as int));
                assert(windows@.take(i + 1).last() == window);
                lemma_lasting_prefix(windows@, i + 1);
            }
            if window.end > window.start {
                let mut name = window.name.to_owned();
                name.append(" (F#");
                push_decimal(&mut name, frame_id);
                name.append(")");
                proof {
                    let taken = lasting(windows@.take(i + 1));
                    assert(taken.last() == window);
                    assert(lasting(self.windows())[taken.len() - 1] == window);
                }
                spans.push(
                    TraceSpan {
                        name,
                        cat: window.cat.to_owned(),
                        ph: 'X',
                        ts_us: base_ts + window.start as u64,
                        dur_us: (window.end - window.start) as u64,
                        pid: session_id,
                        tid: 1,
                    },
                );
            }
            i += 1;
        }
        proof {
            assert(windows@.take(windows@.len() as int) =~= windows@);
        }
        spans
    }
}

/// What lasts in a beginning of the windows is the beginning of what lasts in all.
proof fn lemma_lasting_prefix(windows: Seq<StageWindow>, n: int)
    requires
        0 <= n <= windows.len(),
    ensures
        lasting(windows.take(n)).len() <= lasting(windows).len(),
        forall|i: int|
            0 <= i < lasting(windows.take(n)).len() ==> #[trigger] lasting(windows.take(n))[i]
                == lasting(windows)[i],
    decreases windows.len(),
{
    if n < windows.len() {
        lemma_lasting_prefix(windows.drop_last(), n);
        assert(windows.drop_last().take(n) =~= windows.take(n));
    } else {
        assert(windows.take(n) =~= windows);
    }
}

fn copy_prefix<const N: usize>(from: &Vec<u8>, to: &mut [u8; N])
    requires
        from@.len() == N,
    ensures
        final(to)@ == from@,
{
    let mut i: usize = 0;
    while i < N
        invariant
            i <= N,
            from@.len() == N,
            to@.len() == N,
            forall|j: int| 0 <= j < i ==> to@[j] == from@[j],
        decreases N - i,
    {
        to[i] = from[i];
        i += 1;
    }
    proof {
        assert(to@ =~= from@);
    }
}

pub proof fn lemma_host_wire_len(checkpoints: FrameTimingCheckpoints)
    ensures
        checkpoints.host_wire().len() == HOST_TIMING_WIRE_LEN,
{
    lemma_be_bytes_len(checkpoints.capture_ts_us as nat, 8);
    lemma_be_bytes_len(checkpoints.encode_queue_ts_us as nat, 4);
    lemma_be_bytes_len(checkpoints.encode_done_ts_us as nat, 4);
    lemma_be_bytes_len(checkpoints.packetize_ts_us as nat, 4);
    lemma_be_bytes_len(checkpoints.send_ts_us as nat, 4);
}

pub proof fn lemma_wire_len(checkpoints: FrameTimingCheckpoints)
    ensures
        checkpoints.wire().len() == FRAME_TIMING_CHECKPOINTS_WIRE_LEN,
        checkpoints.client_wire().len() == 28,
{
    lemma_host_wire_len(checkpoints);
    lemma_be_bytes_len(checkpoints.recv_ts_us as nat, 4);
    lemma_be_bytes_len(checkpoints.jitter_enter_ts_us as nat, 4);
    lemma_be_bytes_len(checkpoints.jitter_exit_ts_us as nat, 4);
    lemma_be_bytes_len(checkpoints.decode_enter_ts_us as nat, 4);
    lemma_be_bytes_len(checkpoints.decode_done_ts_us as nat, 4);
    lemma_be_bytes_len(checkpoints.render_submit_ts_us as nat, 4);
    lemma_be_bytes_len(checkpoints.render_done_ts_us as nat, 4);
}

/// The host's bytes tell the host's part of the checkpoints: a record that is read back from them
/// is the one that was written, without the viewer's checkpoints.
pub proof fn host_wire_determines_host_part(
    checkpoints: FrameTimingCheckpoints,
    other: FrameTimingCheckpoints,
)
    requires
        checkpoints.host_wire() == other.host_wire(),
    ensures
        checkpoints.host_part() == other.host_part(),
{
    let bytes = checkpoints.host_wire();
    lemma_host_fields(checkpoints);
    lemma_host_fields(other);
}

proof fn lemma_host_fields(c: FrameTimingCheckpoints)
    ensures
        be_value(field(c.host_wire(), 0, 8)) == c.capture_ts_us,
        be_value(field(c.host_wire(), 8, 4)) == c.encode_queue_ts_us,
        be_value(field(c.host_wire(), 12, 4)) == c.encode_done_ts_us,
        be_value(field(c.host_wire(), 16, 4)) == c.packetize_ts_us,
        be_value(field(c.host_wire(), 20, 4)) == c.send_ts_us,
{
    lemma_pow256_values();
    lemma_be_roundtrip(c.capture_ts_us as nat, 8);
    lemma_be_roundtrip(c.encode_queue_ts_us as nat, 4);
    lemma_be_roundtrip(c.encode_done_ts_us as nat, 4);
    lemma_be_roundtrip(c.packetize_ts_us as nat, 4);
    lemma_be_roundtrip(c.send_ts_us as nat, 4);
    assert(field(c.host_wire(), 0, 8) =~= be_bytes(c.capture_ts_us as nat, 8));
    assert(field(c.host_wire(), 8, 4) =~= be_bytes(c.encode_queue_ts_us as nat, 4));
    assert(field(c.host_wire(), 12, 4) =~= be_bytes(c.encode_done_ts_us as nat, 4));
    assert(field(c.host_wire(), 16, 4) =~= be_bytes(c.packetize_ts_us as nat, 4));
    assert(field(c.host_wire(), 20, 4) =~= be_bytes(c.send_ts_us as nat, 4));
}

/// The bytes tell all checkpoints: what is read back from them is what was written.
pub proof fn wire_determines_checkpoints(
    checkpoints: FrameTimingCheckpoints,
    other: FrameTimingCheckpoints,
)
    requires
        checkpoints.wire() == other.wire(),
    ensures
        checkpoints == other,
{
    let bytes = checkpoints.wire();
    lemma_wire_len(checkpoints);
    lemma_wire_len(other);
    lemma_host_wire_len(checkpoints);
    lemma_host_wire_len(other);
    assert(checkpoints.host_wire() =~= bytes.subrange(0, 24));
    assert(other.host_wire() =~= bytes.subrange(0, 24));
    host_wire_determines_host_part(checkpoints, other);
    assert(checkpoints.client_wire() =~= bytes.subrange(24, 52));
    assert(other.client_wire() =~= bytes.subrange(24, 52));
    lemma_client_fields(checkpoints);
    lemma_client_fields(other);
}

proof fn lemma_client_fields(c: FrameTimingCheckpoints)
    ensures
        be_value(field(c.client_wire(), 0, 4)) == c.recv_ts_us,
        be_value(field(c.client_wire(), 4, 4)) == c.jitter_enter_ts_us,
        be_value(field(c.client_wire(), 8, 4)) == c.jitter_exit_ts_us,
        be_value(field(c.client_wire(), 12, 4)) == c.decode_enter_ts_us,
        be_value(field(c.client_wire(), 16, 4)) == c.decode_done_ts_us,
        be_value(field(c.client_wire(), 20, 4)) == c.render_submit_ts_us,
        be_value(field(c.client_wire(), 24, 4)) == c.render_done_ts_us,
{
    lemma_pow256_values();
    lemma_be_roundtrip(c.recv_ts_us as nat, 4);
    lemma_be_roundtrip(c.jitter_enter_ts_us as nat, 4);
    lemma_be_roundtrip(c.jitter_exit_ts_us as nat, 4);
    lemma_be_roundtrip(c.decode_enter_ts_us as nat, 4);
    lemma_be_roundtrip(c.decode_done_ts_us as nat, 4);
    lemma_be_roundtrip(c.render_submit_ts_us as nat, 4);
    lemma_be_roundtrip(c.render_done_ts_us as nat, 4);
    let w = c.client_wire();
    assert(field(w, 0, 4) =~= be_bytes(c.recv_ts_us as nat, 4));
    assert(field(w, 4, 4) =~= be_bytes(c.jitter_enter_ts_us as nat, 4));
    assert(field(w, 8, 4) =~= be_bytes(c.jitter_exit_ts_us as nat, 4));
    assert(field(w, 12, 4) =~= be_bytes(c.decode_enter_ts_us as nat, 4));
    assert(field(w, 16, 4) =~= be_bytes(c.decode_done_ts_us as nat, 4));
    assert(field(w, 20, 4) =~= be_bytes(c.render_submit_ts_us as nat, 4));
    assert(field(w, 24, 4) =~= be_bytes(c.render_done_ts_us as nat, 4));
}

/// Percentiles of the time that frames spent in one stage.
#[derive(Debug, Clone, Copy, PartialEq, Eq, Structural)]
pub struct StageLatencyStats {
    pub min_us: u32,
    pub p50_us: u32,
    pub p95_us: u32,
    pub p99_us: u32,
    pub max_us: u32,
    pub avg_us: u32,
    pub stddev_us: u32,
    pub sample_count: u32,
}

impl Default for StageLatencyStats {
    fn default() -> (r: Self)
        ensures
            r == (StageLatencyStats {
                min_us: 0,
                p50_us: 0,
                p95_us: 0,
                p99_us: 0,
                max_us: 0,
                avg_us: 0,
                stddev_us: 0,
                sample_count: 0,
            }),
    {
        StageLatencyStats {
            min_us: 0,
            p50_us: 0,
            p95_us: 0,
            p99_us: 0,
            max_us: 0,
            avg_us: 0,
            stddev_us: 0,
            sample_count: 0,
        }
    }
}

/// How the pipeline of a session fares. The frame rate is a single-precision number, held by its
/// bits.
#[derive(Debug, Clone, PartialEq, Eq)]
pub struct PipelineTelemetryReport {
    pub session_id: u32,
    pub timestamp_ms: u64,
    pub fps_bits: u32,
    pub bitrate_kbps: u32,
    /// One entry for each stage.
    pub stage_stats: [StageLatencyStats; 9],
    pub e2e_stats: StageLatencyStats,
    pub jitter_buffer_depth: usize,
    pub packets_lost: u64,
    pub late_frames_dropped: u64,
    pub queue_full_dropped: u64,
    pub corrupt_frames_dropped: u64,
}

impl FrameTimingCheckpoints {
    /// The frame has passed every checkpoint, one after the other.
    pub open spec fn complete(self) -> bool {
        &&& 0 < self.encode_queue_ts_us <= self.encode_done_ts_us
        &&& self.encode_done_ts_us <= self.packetize_ts_us <= self.send_ts_us
        &&& self.send_ts_us <= self.recv_ts_us <= self.jitter_enter_ts_us
        &&& self.jitter_enter_ts_us <= self.jitter_exit_ts_us <= self.decode_enter_ts_us
        &&& self.decode_enter_ts_us <= self.decode_done_ts_us <= self.render_submit_ts_us
        &&& self.render_submit_ts_us <= self.render_done_ts_us
    }
}

/// The times of a frame that has passed every checkpoint add up: those of the host's stages to the
/// time at the host, that with the way and the time at the viewer to the time from capture to
/// display. The viewer's stages have waits between them.
pub proof fn stage_times_add_up(t: FrameTimingCheckpoints)
    requires
        t.complete(),
    ensures
        forall|stage: StageId| (#[trigger] t.duration(stage)) is Some,
        reached(t.send_ts_us)->0 == t.duration(StageId::Capture)->0 + t.duration(
            StageId::HardwareEncode,
        )->0 + t.duration(StageId::PacketizeEgress)->0,
        reached(t.render_done_ts_us)->0 == reached(t.send_ts_us)->0 + t.duration(
            StageId::NetworkTransit,
        )->0 + gap(t.recv_ts_us, t.render_done_ts_us)->0,
        gap(t.recv_ts_us, t.render_done_ts_us)->0 == t.duration(StageId::IngressReassembly)->0
            + t.duration(StageId::JitterPacing)->0 + (t.decode_enter_ts_us - t.jitter_exit_ts_us)
            + t.duration(StageId::HardwareDecode)->0 + (t.render_submit_ts_us
            - t.decode_done_ts_us) + t.duration(StageId::RenderPresentation)->0,
{
}

/// What was written comes back, whatever follows it.
pub proof fn written_checkpoints_come_back(
    sent: FrameTimingCheckpoints,
    got: FrameTimingCheckpoints,
    rest: Seq<u8>,
)
    requires
        got.wire() == field(sent.wire() + rest, 0, 52),
    ensures
        got == sent,
{
    lemma_wire_len(sent);
    assert(field(sent.wire() + rest, 0, 52) =~= sent.wire());
    wire_determines_checkpoints(sent, got);
}

/// Where each checkpoint stands in a record: the time of capture in the first eight bytes, then the
/// others in four bytes each, in the order in which a frame passes them.
pub proof fn checkpoints_stand_in_the_order_of_the_pipeline(t: FrameTimingCheckpoints)
    ensures
        t.wire().len() == 52,
        t.host_wire() == field(t.wire(), 0, 24),
        be_value(field(t.wire(), 0, 8)) == t.capture_ts_us,
        be_value(field(t.wire(), 8, 4)) == t.encode_queue_ts_us,
        be_value(field(t.wire(), 12, 4)) == t.encode_done_ts_us,
        be_value(field(t.wire(), 16, 4)) == t.packetize_ts_us,
        be_value(field(t.wire(), 20, 4)) == t.send_ts_us,
        be_value(field(t.wire(), 24, 4)) == t.recv_ts_us,
        be_value(field(t.wire(), 28, 4)) == t.jitter_enter_ts_us,
        be_value(field(t.wire(), 32, 4)) == t.jitter_exit_ts_us,
        be_value(field(t.wire(), 36, 4)) == t.decode_enter_ts_us,
        be_value(field(t.wire(), 40, 4)) == t.decode_done_ts_us,
        be_value(field(t.wire(), 44, 4)) == t.render_submit_ts_us,
        be_value(field(t.wire(), 48, 4)) == t.render_done_ts_us,
{
    lemma_wire_len(t);
    lemma_host_wire_len(t);
    lemma_host_fields(t);
    lemma_client_fields(t);
    let w = t.wire();
    assert(field(w, 0, 24) =~= t.host_wire());
    assert(field(w, 0, 8) =~= field(t.host_wire(), 0, 8));
    assert(field(w, 8, 4) =~= field(t.host_wire(), 8, 4));
    assert(field(w, 12, 4) =~= field(t.host_wire(), 12, 4));
    assert(field(w, 16, 4) =~= field(t.host_wire(), 16, 4));
    assert(field(w, 20, 4) =~= field(t.host_wire(), 20, 4));
    assert(field(w, 24, 4) =~= field(t.client_wire(), 0, 4));
    assert(field(w, 28, 4) =~= field(t.client_wire(), 4, 4));
    assert(field(w, 32, 4) =~= field(t.client_wire(), 8, 4));
    assert(field(w, 36, 4) =~= field(t.client_wire(), 12, 4));
    assert(field(w, 40, 4) =~= field(t.client_wire(), 16, 4));
    assert(field(w, 44, 4) =~= field(t.client_wire(), 20, 4));
    assert(field(w, 48, 4) =~= field(t.client_wire(), 24, 4));
}

/// What the host knows of a frame is its own checkpoints; the viewer's are not reached.
pub proof fn host_knows_its_own_checkpoints(t: FrameTimingCheckpoints)
    ensures
        t.host_part().capture_ts_us == t.capture_ts_us,
        t.host_part().encode_queue_ts_us == t.encode_queue_ts_us,
        t.host_part().encode_done_ts_us == t.encode_done_ts_us,
        t.host_part().packetize_ts_us == t.packetize_ts_us,
        t.host_part().send_ts_us == t.send_ts_us,
        t.host_part().recv_ts_us == 0 && t.host_part().jitter_enter_ts_us == 0,
        t.host_part().jitter_exit_ts_us == 0 && t.host_part().decode_enter_ts_us == 0,
        t.host_part().decode_done_ts_us == 0 && t.host_part().render_submit_ts_us == 0,
        t.host_part().render_done_ts_us == 0,
        t.host_part().host_part() == t.host_part(),
        t.host_part().host_wire() == t.host_wire(),
{
}

/// Between which checkpoints each stage lies: a stage took from the one to the other if both were
/// passed, no time where the clock ran backwards, and is unknown if either was not. Capture, and
/// encoding where its start was not noted, count from the frame's own time.
pub proof fn stages_lie_between_their_checkpoints(t: FrameTimingCheckpoints)
    ensures
        ({
            let between = |stage: StageId, start: u32, end: u32|
                {
                    &&& (t.duration(stage) is Some) == (start != 0 && end != 0)
                    &&& start != 0 && end >= start ==> t.duration(stage) == Some((end - start) as u32)
                    &&& end != 0 && end < start ==> t.duration(stage) == Some(0u32)
                };
            &&& between(StageId::EncodeQueue, t.encode_queue_ts_us, t.encode_done_ts_us)
            &&& between(StageId::PacketizeEgress, t.encode_done_ts_us, t.send_ts_us)
            &&& between(StageId::NetworkTransit, t.send_ts_us, t.recv_ts_us)
            &&& between(StageId::IngressReassembly, t.recv_ts_us, t.jitter_enter_ts_us)
            &&& between(StageId::JitterPacing, t.jitter_enter_ts_us, t.jitter_exit_ts_us)
            &&& between(StageId::HardwareDecode, t.decode_enter_ts_us, t.decode_done_ts_us)
            &&& between(StageId::RenderPresentation, t.render_submit_ts_us, t.render_done_ts_us)
            &&& t.encode_queue_ts_us != 0 ==> between(
                StageId::HardwareEncode,
                t.encode_queue_ts_us,
                t.encode_done_ts_us,
            )
        }),
        t.encode_queue_ts_us == 0 ==> t.duration(StageId::Capture) is None,
        t.encode_queue_ts_us != 0 ==> t.duration(StageId::Capture) == Some(t.encode_queue_ts_us),
        t.encode_queue_ts_us == 0 && t.encode_done_ts_us == 0 ==> t.duration(
            StageId::HardwareEncode,
        ) is None,
        t.encode_queue_ts_us == 0 && t.encode_done_ts_us != 0 ==> t.duration(
            StageId::HardwareEncode,
        ) == Some(t.encode_done_ts_us),
{
}

/// On a timeline every stage but the queue stands between its own checkpoints, in the order of the
/// pipeline, and lasts as long there as it took.
pub proof fn timelines_show_the_stages(t: FrameTimingCheckpoints)
    ensures
        t.windows().len() == 8,
        t.windows()[0].start == 0 && t.windows()[0].end == t.encode_queue_ts_us,
        t.windows()[1].start == t.encode_queue_ts_us && t.windows()[1].end == t.encode_done_ts_us,
        t.windows()[2].start == t.encode_done_ts_us && t.windows()[2].end == t.send_ts_us,
        t.windows()[3].start == t.send_ts_us && t.windows()[3].end == t.recv_ts_us,
        t.windows()[4].start == t.recv_ts_us && t.windows()[4].end == t.jitter_enter_ts_us,
        t.windows()[5].start == t.jitter_enter_ts_us && t.windows()[5].end == t.jitter_exit_ts_us,
        t.windows()[6].start == t.decode_enter_ts_us && t.windows()[6].end == t.decode_done_ts_us,
        t.windows()[7].start == t.render_submit_ts_us && t.windows()[7].end == t.render_done_ts_us,
{
}

/// Exactly the stages that last a while are shown, in their order.
pub proof fn shown_windows_last(windows: Seq<StageWindow>, window: StageWindow)
    ensures
        lasting(Seq::empty()).len() == 0,
        window.end > window.start ==> lasting(windows.push(window)) == lasting(windows).push(
            window,
        ),
        window.end <= window.start ==> lasting(windows.push(window)) == lasting(windows),
{
    assert(windows.push(window).drop_last() =~= windows);
}

/// Stages are numbered along the pipeline, from capture to presentation.
pub proof fn stages_are_numbered_along_the_pipeline()
    ensures
        StageId::Capture.id() == 0 && StageId::EncodeQueue.id() == 1,
        StageId::HardwareEncode.id() == 2 && StageId::PacketizeEgress.id() == 3,
        StageId::NetworkTransit.id() == 4 && StageId::IngressReassembly.id() == 5,
        StageId::JitterPacing.id() == 6 && StageId::HardwareDecode.id() == 7,
        StageId::RenderPresentation.id() == 8,
{
}

/// Errors tell what was expected before what was there.
pub proof fn timing_errors_tell_what_was_wrong(
    expected: usize,
    actual: usize,
    id: u8,
    stage: StageId,
    prev_us: u32,
    next_us: u32,
)
    ensures
        (TimingCodecError::BufferTooShort { expected, actual }).text()
            == "Timing buffer too short: expected "@ + decimal(expected as nat) + "B, got "@
            + decimal(actual as nat) + "B"@,
        TimingCodecError::InvalidStageId(id).text() == "Invalid StageId wire ID: "@ + decimal(
            id as nat,
        ),
        (TimingCodecError::InvalidTimestampSequence { stage, prev_us, next_us }).text()
            == "Non-monotonic timestamp in stage "@ + stage.name_text() + ": prev="@ + decimal(
            prev_us as nat,
        ) + "us, next="@ + decimal(next_us as nat) + "us"@,
{
}

/// Stages go by their own names.
pub proof fn stages_go_by_their_names()
    ensures
        StageId::Capture.name_text() == "Capture"@,
        StageId::EncodeQueue.name_text() == "EncodeQueue"@,
        StageId::HardwareEncode.name_text() == "HardwareEncode"@,
        StageId::PacketizeEgress.name_text() == "PacketizeEgress"@,
        StageId::NetworkTransit.name_text() == "NetworkTransit"@,
        StageId::IngressReassembly.name_text() == "IngressReassembly"@,
        StageId::JitterPacing.name_text() == "JitterPacing"@,
        StageId::HardwareDecode.name_text() == "HardwareDecode"@,
        StageId::RenderPresentation.name_text() == "RenderPresentation"@,
        StageId::Capture.display_text() == "屏幕捕获"@,
        StageId::EncodeQueue.display_text() == "编码排队"@,
        StageId::HardwareEncode.display_text() == "硬件编码"@,
        StageId::PacketizeEgress.display_text() == "分片发射"@,
        StageId::NetworkTransit.display_text() == "网络传输"@,
        StageId::IngressReassembly.display_text() == "接收重组"@,
        StageId::JitterPacing.display_text() == "抖动起搏"@,
        StageId::HardwareDecode.display_text() == "硬件解码"@,
        StageId::RenderPresentation.display_text() == "渲染呈现"@,
{
}

/// A span on a timeline starts where its stage starts after capture, and lasts as long as the stage.
pub proof fn spans_stand_where_their_stage_does(
    span: TraceSpan,
    window: StageWindow,
    base_us: u64,
    frame_id: u64,
    session_id: u32,
)
    requires
        span.shows(window, base_us, frame_id, session_id),
        window.start <= window.end,
    ensures
        span.ts_us == base_us + window.start,
        span.ts_us + span.dur_us == base_us + window.end,
        span.pid == session_id,
        span.tid == 1,
        span.ph == 'X',
        span.cat@ == window.cat@,
        span.name@ == window.name@ + " (F#"@ + decimal(frame_id as nat) + ")"@,
{
}

} // verus!
