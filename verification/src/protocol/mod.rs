//! What host and viewer say to each other.
pub mod audio;
pub mod codec;
pub mod compact;
pub mod control;
pub mod envelope;
pub mod input_modifiers;
pub mod lane;
pub mod objects;
pub mod session;
pub mod timing;

pub use audio::{
    remote_microphone_audio_stream_id, remote_system_audio_stream_id,
    viewer_talkback_audio_stream_id, AudioCodec, AudioControlTarget, AudioDirection, AudioSource,
    AudioStreamConfig, REMOTE_MICROPHONE_AUDIO_STREAM_OFFSET, REMOTE_SYSTEM_AUDIO_STREAM_OFFSET,
    VIEWER_TALKBACK_AUDIO_STREAM_OFFSET,
};
pub use compact::{
    CompactRealtimeError, CompactRealtimeHeader, COMPACT_REALTIME_DEADLINE_FLAG,
    COMPACT_REALTIME_HEADER_LEN, COMPACT_REALTIME_TIMING_FLAG, COMPACT_REALTIME_WIRE_VERSION,
};
pub use control::{ControlMessage, InputEvent, PayloadType, RtpHeader, RtpPacket, TouchAction};
pub use envelope::{ChunkInfo, DataEnvelope, DataHeader, ReliabilityInfo};
pub use lane::{ContentKind, DataLane, DataPriority, ReliabilityMode};
pub use objects::{
    ClipboardBundle, ClipboardFile, ClipboardImage, ClipboardItem, ClipboardText,
    FileTransferControl, FileTransferGroup, FileTransferManifest,
};
pub use timing::{
    FrameTimingCheckpoints, PipelineTelemetryReport, StageId, StageLatencyStats, StageWindow,
    TimingCodecError, TraceSpan, FRAME_TIMING_CHECKPOINTS_WIRE_LEN, HOST_TIMING_WIRE_LEN,
};
