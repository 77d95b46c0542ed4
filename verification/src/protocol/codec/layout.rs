//! How messages lie in bytes, one field behind the other.
use crate::bytes::le_bytes;
use crate::protocol::audio::{
    AudioCodec, AudioControlTarget, AudioDirection, AudioSource, AudioStreamConfig,
};
use crate::protocol::control::{ControlMessage, InputEvent, RtpHeader, RtpPacket, TouchAction};
use crate::protocol::envelope::{ChunkInfo, DataEnvelope, DataHeader, ReliabilityInfo};
use crate::protocol::lane::{ContentKind, DataLane, DataPriority, ReliabilityMode};
use crate::protocol::objects::{
    ClipboardBundle, ClipboardFile, ClipboardImage, ClipboardItem, ClipboardText,
    FileTransferControl, FileTransferGroup, FileTransferManifest,
};
use crate::protocol::session::{
    CaptureSource, CaptureSourceInfo, SessionCommand, SubscriptionRequest,
};
use crate::protocol::timing::{
    FrameTimingCheckpoints, PipelineTelemetryReport, StageLatencyStats, TraceSpan,
};
use crate::wire::{in_a_row, Wire};
use vstd::prelude::*;
use vstd::utf8::encode_utf8;

verus! {

/// One byte for what may be so or not.
pub open spec fn flag(holds: bool) -> Seq<u8> {
    le_bytes(
        if holds {
            1
        } else {
            0
        },
        1,
    )
}

/// Four bytes for a number that may be negative: negative ones lie behind all others.
pub open spec fn signed(n: i32) -> Seq<u8> {
    le_bytes(
        if n >= 0 {
            n as nat
        } else {
            (n + 0x1_0000_0000) as nat
        },
        4,
    )
}

/// Bytes behind their number in eight bytes.
pub open spec fn counted(bytes: Seq<u8>) -> Seq<u8> {
    le_bytes(bytes.len(), 8) + bytes
}

/// One byte that tells whether a number follows, and the number in four bytes.
pub open spec fn optional_number(n: Option<u32>) -> Seq<u8> {
    match n {
        Some(n) => le_bytes(1, 1) + le_bytes(n as nat, 4),
        None => le_bytes(0, 1) + Seq::<u8>::empty(),
    }
}

/// A control message is its number in four bytes, and then its fields in the order of their names in
/// it.
pub proof fn control_messages_lie_in_order(message: ControlMessage)
    ensures
        match message {
            ControlMessage::HandshakeReq => {
                ControlMessage::wire(message.model()) == le_bytes(0, 4) + (Seq::<u8>::empty())
            },
            ControlMessage::HandshakeAck => {
                ControlMessage::wire(message.model()) == le_bytes(1, 4) + (Seq::<u8>::empty())
            },
            ControlMessage::Input(value) => {
                ControlMessage::wire(message.model()) == le_bytes(2, 4)
                    + (InputEvent::wire(value))
            },
            ControlMessage::ForceFeedback => {
                ControlMessage::wire(message.model()) == le_bytes(3, 4) + (Seq::<u8>::empty())
            },
            ControlMessage::HostTelemetry {
                fps_bits,
                encode_latency_ms_bits,
                jitter_ms_bits,
                bitrate_kbps,
            } => {
                ControlMessage::wire(message.model()) == le_bytes(4, 4)
                    + (le_bytes(fps_bits as nat, 4) + (le_bytes(encode_latency_ms_bits as nat, 4)
                    + (le_bytes(jitter_ms_bits as nat, 4) + (le_bytes(bitrate_kbps as nat, 4)))))
            },
            ControlMessage::StartStream { width, height, fps, bitrate_kbps, session_id } => {
                ControlMessage::wire(message.model()) == le_bytes(5, 4)
                    + (le_bytes(width as nat, 4) + (le_bytes(height as nat, 4)
                    + (le_bytes(fps as nat, 4) + (le_bytes(bitrate_kbps as nat, 4)
                    + (le_bytes(session_id as nat, 4))))))
            },
            ControlMessage::StopStream => {
                ControlMessage::wire(message.model()) == le_bytes(6, 4) + (Seq::<u8>::empty())
            },
            ControlMessage::AudioControl { session_id, target, muted, volume_percent } => {
                ControlMessage::wire(message.model()) == le_bytes(7, 4)
                    + (le_bytes(session_id as nat, 4) + (AudioControlTarget::wire(target)
                    + (flag(muted) + (le_bytes(volume_percent as nat, 1)))))
            },
            ControlMessage::Heartbeat => {
                ControlMessage::wire(message.model()) == le_bytes(8, 4) + (Seq::<u8>::empty())
            },
            ControlMessage::UpdateStreamSettings {
                width,
                height,
                fps,
                bitrate_kbps,
                session_id,
            } => {
                ControlMessage::wire(message.model()) == le_bytes(9, 4)
                    + (le_bytes(width as nat, 4) + (le_bytes(height as nat, 4)
                    + (le_bytes(fps as nat, 4) + (le_bytes(bitrate_kbps as nat, 4)
                    + (le_bytes(session_id as nat, 4))))))
            },
            ControlMessage::Ping { client_send_ts } => {
                ControlMessage::wire(message.model()) == le_bytes(10, 4)
                    + (le_bytes(client_send_ts as nat, 8))
            },
            ControlMessage::Pong { client_send_ts, host_recv_ts, host_send_ts } => {
                ControlMessage::wire(message.model()) == le_bytes(11, 4)
                    + (le_bytes(client_send_ts as nat, 8) + (le_bytes(host_recv_ts as nat, 8)
                    + (le_bytes(host_send_ts as nat, 8))))
            },
            ControlMessage::RequestKeyframe { session_id } => {
                ControlMessage::wire(message.model()) == le_bytes(12, 4)
                    + (le_bytes(session_id as nat, 4))
            },
            ControlMessage::Session(value) => {
                ControlMessage::wire(message.model()) == le_bytes(13, 4)
                    + (SessionCommand::wire(value.model()))
            },
            ControlMessage::SessionHello { nonce, timestamp_ms, mac } => {
                ControlMessage::wire(message.model()) == le_bytes(14, 4) + (u128::wire(nonce)
                    + (le_bytes(timestamp_ms as nat, 8) + (counted(mac@))))
            },
            ControlMessage::SessionAccept { salt, timestamp_ms, mac } => {
                ControlMessage::wire(message.model()) == le_bytes(15, 4) + (u128::wire(salt)
                    + (le_bytes(timestamp_ms as nat, 8) + (counted(mac@))))
            },
            ControlMessage::SessionReject { reason } => {
                ControlMessage::wire(message.model()) == le_bytes(16, 4)
                    + (counted(encode_utf8(reason@)))
            },
            ControlMessage::SetMediaPaused { session_id, revision, paused } => {
                ControlMessage::wire(message.model()) == le_bytes(17, 4)
                    + (le_bytes(session_id as nat, 4) + (le_bytes(revision as nat, 8)
                    + (flag(paused))))
            },
            ControlMessage::MediaPauseState { session_id, revision, paused } => {
                ControlMessage::wire(message.model()) == le_bytes(18, 4)
                    + (le_bytes(session_id as nat, 4) + (le_bytes(revision as nat, 8)
                    + (flag(paused))))
            },
        },
{
}

/// A command of the session layer is its number in four bytes, and then its fields in order.
pub proof fn session_commands_lie_in_order(command: SessionCommand)
    ensures
        match command {
            SessionCommand::ReleaseInput { id } => {
                SessionCommand::wire(command.model()) == le_bytes(0, 4) + (le_bytes(id as nat, 4))
            },
            SessionCommand::InputReleased { id } => {
                SessionCommand::wire(command.model()) == le_bytes(1, 4) + (le_bytes(id as nat, 4))
            },
            SessionCommand::Configure { id, revision, width, height, fps, bitrate_kbps } => {
                SessionCommand::wire(command.model()) == le_bytes(2, 4) + (le_bytes(id as nat, 4)
                    + (le_bytes(revision as nat, 8) + (le_bytes(width as nat, 4)
                    + (le_bytes(height as nat, 4) + (le_bytes(fps as nat, 4)
                    + (le_bytes(bitrate_kbps as nat, 4)))))))
            },
            SessionCommand::Configured { id, revision } => {
                SessionCommand::wire(command.model()) == le_bytes(3, 4) + (le_bytes(id as nat, 4)
                    + (le_bytes(revision as nat, 8)))
            },
            SessionCommand::Closed { connection_id, reason } => {
                SessionCommand::wire(command.model()) == le_bytes(4, 4)
                    + (le_bytes(connection_id as nat, 4) + (counted(encode_utf8(reason@))))
            },
            SessionCommand::SetClipboard { enabled } => {
                SessionCommand::wire(command.model()) == le_bytes(5, 4) + (flag(enabled))
            },
            SessionCommand::ClipboardState { enabled } => {
                SessionCommand::wire(command.model()) == le_bytes(6, 4) + (flag(enabled))
            },
            SessionCommand::Open { connection_id, version } => {
                SessionCommand::wire(command.model()) == le_bytes(7, 4)
                    + (le_bytes(connection_id as nat, 4) + (le_bytes(version as nat, 4)))
            },
            SessionCommand::Opened {
                connection_id,
                version,
                max_subscriptions,
                files,
                clipboard,
                window_capture,
            } => {
                SessionCommand::wire(command.model()) == le_bytes(8, 4)
                    + (le_bytes(connection_id as nat, 4) + (le_bytes(version as nat, 4)
                    + (le_bytes(max_subscriptions as nat, 4) + (flag(files) + (flag(clipboard)
                    + (flag(window_capture)))))))
            },
            SessionCommand::ListSources { request_id } => {
                SessionCommand::wire(command.model()) == le_bytes(9, 4)
                    + (le_bytes(request_id as nat, 4))
            },
            SessionCommand::Sources { request_id, sources } => {
                SessionCommand::wire(command.model()) == le_bytes(10, 4)
                    + (le_bytes(request_id as nat, 4)
                    + (Vec::<CaptureSourceInfo>::wire(sources.model())))
            },
            SessionCommand::Subscribe(value) => {
                SessionCommand::wire(command.model()) == le_bytes(11, 4)
                    + (SubscriptionRequest::wire(value))
            },
            SessionCommand::Subscribed { id, audio_owner, supports_input } => {
                SessionCommand::wire(command.model()) == le_bytes(12, 4) + (le_bytes(id as nat, 4)
                    + (optional_number(audio_owner) + (flag(supports_input))))
            },
            SessionCommand::Input { id, event } => {
                SessionCommand::wire(command.model()) == le_bytes(13, 4) + (le_bytes(id as nat, 4)
                    + (InputEvent::wire(event)))
            },
            SessionCommand::SetActivity { id, revision, video, audio } => {
                SessionCommand::wire(command.model()) == le_bytes(14, 4) + (le_bytes(id as nat, 4)
                    + (le_bytes(revision as nat, 8) + (flag(video) + (flag(audio)))))
            },
            SessionCommand::Activity { id, revision, video, audio } => {
                SessionCommand::wire(command.model()) == le_bytes(15, 4) + (le_bytes(id as nat, 4)
                    + (le_bytes(revision as nat, 8) + (flag(video) + (flag(audio)))))
            },
            SessionCommand::Unsubscribe { id } => {
                SessionCommand::wire(command.model()) == le_bytes(16, 4)
                    + (le_bytes(id as nat, 4))
            },
            SessionCommand::Unsubscribed { id } => {
                SessionCommand::wire(command.model()) == le_bytes(17, 4)
                    + (le_bytes(id as nat, 4))
            },
            SessionCommand::Close { connection_id } => {
                SessionCommand::wire(command.model()) == le_bytes(18, 4)
                    + (le_bytes(connection_id as nat, 4))
            },
            SessionCommand::Error { request_id, reason } => {
                SessionCommand::wire(command.model()) == le_bytes(19, 4)
                    + (le_bytes(request_id as nat, 4) + (counted(encode_utf8(reason@))))
            },
        },
{
}

/// An input event is its number in four bytes, and then its fields in order.
pub proof fn input_events_lie_in_order(event: InputEvent)
    ensures
        match event {
            InputEvent::KeyDown(value) => {
                InputEvent::wire(event.model()) == le_bytes(0, 4) + (le_bytes(value as nat, 4))
            },
            InputEvent::KeyUp(value) => {
                InputEvent::wire(event.model()) == le_bytes(1, 4) + (le_bytes(value as nat, 4))
            },
            InputEvent::MouseMove { dx, dy } => {
                InputEvent::wire(event.model()) == le_bytes(2, 4) + (signed(dx) + (signed(dy)))
            },
            InputEvent::MouseMoveAbsolute { x, y } => {
                InputEvent::wire(event.model()) == le_bytes(3, 4) + (le_bytes(x as nat, 2)
                    + (le_bytes(y as nat, 2)))
            },
            InputEvent::Key { key_code, pressed, modifiers } => {
                InputEvent::wire(event.model()) == le_bytes(4, 4) + (le_bytes(key_code as nat, 2)
                    + (flag(pressed) + (le_bytes(modifiers as nat, 1))))
            },
            InputEvent::ModifiersChanged(value) => {
                InputEvent::wire(event.model()) == le_bytes(5, 4) + (le_bytes(value as nat, 1))
            },
            InputEvent::MouseDown(value) => {
                InputEvent::wire(event.model()) == le_bytes(6, 4) + (le_bytes(value as nat, 1))
            },
            InputEvent::MouseUp(value) => {
                InputEvent::wire(event.model()) == le_bytes(7, 4) + (le_bytes(value as nat, 1))
            },
            InputEvent::MouseScroll { delta_x, delta_y } => {
                InputEvent::wire(event.model()) == le_bytes(8, 4) + (signed(delta_x)
                    + (signed(delta_y)))
            },
            InputEvent::Touch {
                action,
                pointer_id,
                normalized_x_bits,
                normalized_y_bits,
                pressure_bits,
            } => {
                InputEvent::wire(event.model()) == le_bytes(9, 4) + (TouchAction::wire(action)
                    + (le_bytes(pointer_id as nat, 4) + (le_bytes(normalized_x_bits as nat, 4)
                    + (le_bytes(normalized_y_bits as nat, 4)
                    + (le_bytes(pressure_bits as nat, 4))))))
            },
        },
{
}

/// An RTP packet is its header, version first and stream last, and then its payload behind its
/// length.
pub proof fn rtp_packets_lie_in_order(packet: RtpPacket)
    ensures
        RtpHeader::wire(packet.header) == le_bytes(packet.header.version as nat, 1) + (le_bytes(
            packet.header.payload_type as nat,
            1,
        ) + (le_bytes(packet.header.sequence_number as nat, 2) + (le_bytes(
            packet.header.timestamp as nat,
            4,
        ) + le_bytes(packet.header.ssrc as nat, 4)))),
        RtpPacket::wire(packet.model()) == RtpHeader::wire(packet.header) + counted(
            packet.payload@,
        ),
{
}

/// A request for a subscription is its fields in order: what it asks for between who asks and whether
/// there is to be audio.
pub proof fn subscription_requests_lie_in_order(request: SubscriptionRequest)
    ensures
        SubscriptionRequest::wire(request.model()) == le_bytes(request.id as nat, 4) + (
        CaptureSource::wire(request.source) + (le_bytes(request.width as nat, 4) + (le_bytes(
            request.height as nat,
            4,
        ) + (le_bytes(request.fps as nat, 4) + (le_bytes(request.bitrate_kbps as nat, 4) + flag(
            request.audio,
        )))))),
{
}

/// The announcement of an audio stream is its fields in order.
pub proof fn audio_announcements_lie_in_order(config: AudioStreamConfig)
    ensures
        AudioStreamConfig::wire(config.model()) == le_bytes(config.stream_id as nat, 4) + (
        AudioSource::wire(config.source) + (AudioDirection::wire(config.direction) + (
        AudioCodec::wire(config.codec) + (le_bytes(config.sample_rate_hz as nat, 4) + (le_bytes(
            config.channels as nat,
            2,
        ) + le_bytes(config.frame_duration_ms as nat, 2)))))),
{
}

/// The header of the data plane is its fields in order.
pub proof fn data_headers_lie_in_order(header: DataHeader)
    ensures
        DataHeader::wire(header.model()) == le_bytes(header.version as nat, 1) + (DataLane::wire(
            header.lane,
        ) + (ContentKind::wire(header.kind) + (DataPriority::wire(header.priority) + (
        ReliabilityMode::wire(header.reliability) + (le_bytes(header.stream_id as nat, 4) + (
        le_bytes(header.sequence_number as nat, 8) + (le_bytes(header.timestamp_ms as nat, 8) + (
        Option::<u64>::wire(header.deadline_ms) + (Option::<ChunkInfo>::wire(header.chunk)
            + Option::<ReliabilityInfo>::wire(header.reliability_info)))))))))),
{
}

/// Chunks and what is told of their delivery are their fields in order, and a packet of the data plane
/// is its header and then its payload behind its length.
pub proof fn data_packets_lie_in_order(
    envelope: DataEnvelope,
    chunk: ChunkInfo,
    info: ReliabilityInfo,
)
    ensures
        DataEnvelope::wire(envelope.model()) == DataHeader::wire(envelope.header.model()) + counted(
            envelope.payload@,
        ),
        ChunkInfo::wire(chunk.model()) == le_bytes(chunk.object_id as nat, 8) + (le_bytes(
            chunk.chunk_index as nat,
            4,
        ) + (le_bytes(chunk.total_chunks as nat, 4) + (le_bytes(chunk.offset as nat, 8) + le_bytes(
            chunk.total_size as nat,
            8,
        )))),
        ReliabilityInfo::wire(info.model()) == le_bytes(info.ack_id as nat, 8) + (le_bytes(
            info.retry_count as nat,
            1,
        ) + optional_number(info.checksum_crc32)),
{
}

/// What is one of a few is its place among them in four bytes, counted from nought.
pub proof fn choices_lie_by_their_place()
    ensures
        DataLane::wire(DataLane::RealtimeVideo) == le_bytes(0, 4),
        DataLane::wire(DataLane::RealtimeAudio) == le_bytes(1, 4),
        DataLane::wire(DataLane::InteractiveControl) == le_bytes(2, 4),
        DataLane::wire(DataLane::ReliableObject) == le_bytes(3, 4),
        DataLane::wire(DataLane::Background) == le_bytes(4, 4),
        ContentKind::wire(ContentKind::VideoH265) == le_bytes(0, 4),
        ContentKind::wire(ContentKind::AudioOpus) == le_bytes(1, 4),
        ContentKind::wire(ContentKind::Control) == le_bytes(2, 4),
        ContentKind::wire(ContentKind::ClipboardText) == le_bytes(3, 4),
        ContentKind::wire(ContentKind::ClipboardBinary) == le_bytes(4, 4),
        ContentKind::wire(ContentKind::FileChunk) == le_bytes(5, 4),
        ContentKind::wire(ContentKind::FileManifest) == le_bytes(6, 4),
        ContentKind::wire(ContentKind::Arbitrary) == le_bytes(7, 4),
        ContentKind::wire(ContentKind::ClipboardBundle) == le_bytes(8, 4),
        ContentKind::wire(ContentKind::FileControl) == le_bytes(9, 4),
        ContentKind::wire(ContentKind::AudioStreamConfig) == le_bytes(10, 4),
        DataPriority::wire(DataPriority::Background) == le_bytes(0, 4),
        DataPriority::wire(DataPriority::Normal) == le_bytes(1, 4),
        DataPriority::wire(DataPriority::Interactive) == le_bytes(2, 4),
        DataPriority::wire(DataPriority::Realtime) == le_bytes(3, 4),
        ReliabilityMode::wire(ReliabilityMode::BestEffort) == le_bytes(0, 4),
        ReliabilityMode::wire(ReliabilityMode::Reliable) == le_bytes(1, 4),
        AudioSource::wire(AudioSource::RemoteSystem) == le_bytes(0, 4),
        AudioSource::wire(AudioSource::RemoteMicrophone) == le_bytes(1, 4),
        AudioSource::wire(AudioSource::RemoteMixed) == le_bytes(2, 4),
        AudioSource::wire(AudioSource::ViewerMicrophoneTalkback) == le_bytes(3, 4),
        AudioDirection::wire(AudioDirection::HostToClient) == le_bytes(0, 4),
        AudioDirection::wire(AudioDirection::ClientToHost) == le_bytes(1, 4),
        AudioCodec::wire(AudioCodec::Opus) == le_bytes(0, 4),
        AudioControlTarget::wire(AudioControlTarget::ViewerTalkbackPlayback) == le_bytes(0, 4),
        TouchAction::wire(TouchAction::Down) == le_bytes(0, 4),
        TouchAction::wire(TouchAction::Move) == le_bytes(1, 4),
        TouchAction::wire(TouchAction::Up) == le_bytes(2, 4),
        TouchAction::wire(TouchAction::Cancel) == le_bytes(3, 4),
{
}

/// What a subscription shows is its number in four bytes, and then which display or window it is.
pub proof fn sources_lie_in_order(id: u32, info: CaptureSourceInfo)
    ensures
        CaptureSource::wire(CaptureSource::MainDisplay) == le_bytes(0, 4) + Seq::<u8>::empty(),
        CaptureSource::wire(CaptureSource::Display(id)) == le_bytes(1, 4) + le_bytes(id as nat, 4),
        CaptureSource::wire(CaptureSource::Window(id)) == le_bytes(2, 4) + le_bytes(id as nat, 4),
        CaptureSourceInfo::wire(info.model()) == CaptureSource::wire(info.source) + (counted(
            encode_utf8(info.title@),
        ) + (counted(encode_utf8(info.application@)) + (Option::<i32>::wire(info.process_id) + (
        le_bytes(info.width as nat, 4) + (le_bytes(info.height as nat, 4) + flag(
            info.supports_input,
        )))))),
{
}

/// What is told of files before they are sent, and of their end, is its fields in order.
pub proof fn file_messages_lie_in_order(
    group: FileTransferGroup,
    manifest: FileTransferManifest,
    transfer_id: u64,
    file_object_id: u64,
    group_id: u64,
)
    ensures
        FileTransferGroup::wire(group.model()) == le_bytes(group.group_id as nat, 8) + (le_bytes(
            group.file_index as nat,
            4,
        ) + (le_bytes(group.file_count as nat, 4) + (counted(encode_utf8(group.relative_path@)) + (
        le_bytes(group.group_total_size_bytes as nat, 8) + le_bytes(
            group.group_checksum_crc32 as nat,
            4,
        ))))),
        FileTransferManifest::wire(manifest.model()) == le_bytes(manifest.transfer_id as nat, 8) + (
        le_bytes(manifest.file_object_id as nat, 8) + (counted(encode_utf8(manifest.name@)) + (
        Option::<FileTransferGroup>::wire(manifest.group.model()) + (Option::<String>::wire(
            manifest.mime_type.model(),
        ) + (le_bytes(manifest.size_bytes as nat, 8) + (le_bytes(
            manifest.chunk_payload_len as nat,
            4,
        ) + le_bytes(manifest.checksum_crc32 as nat, 4))))))),
        FileTransferControl::wire(
            (FileTransferControl::CancelTransfer { transfer_id, file_object_id }).model(),
        ) == le_bytes(0, 4) + (le_bytes(transfer_id as nat, 8) + le_bytes(file_object_id as nat, 8)),
        FileTransferControl::wire((FileTransferControl::CancelGroup { group_id }).model())
            == le_bytes(1, 4) + le_bytes(group_id as nat, 8),
{
}

/// What is on a clipboard is its fields in order: a text, an image with its size where that is known,
/// or a file.
pub proof fn clipboards_lie_in_order(
    bundle: ClipboardBundle,
    text: ClipboardText,
    image: ClipboardImage,
    file: ClipboardFile,
)
    ensures
        ClipboardBundle::wire(bundle.model()) == le_bytes(bundle.bundle_id as nat, 8) + Vec::<
            ClipboardItem,
        >::wire(bundle.items.model()),
        ClipboardText::wire(text.model()) == counted(encode_utf8(text.text@)),
        ClipboardImage::wire(image.model()) == counted(encode_utf8(image.mime_type@)) + (
        optional_number(image.width) + (optional_number(image.height) + counted(image.bytes@))),
        ClipboardFile::wire(file.model()) == counted(encode_utf8(file.name@)) + (Option::<
            String,
        >::wire(file.mime_type.model()) + counted(file.bytes@)),
        ClipboardItem::wire(ClipboardItem::Text(text).model()) == le_bytes(0, 4)
            + ClipboardText::wire(text.model()),
        ClipboardItem::wire(ClipboardItem::Image(image).model()) == le_bytes(1, 4)
            + ClipboardImage::wire(image.model()),
        ClipboardItem::wire(ClipboardItem::File(file).model()) == le_bytes(2, 4)
            + ClipboardFile::wire(file.model()),
{
}

/// What is measured is its fields in order, each in its own width.
pub proof fn measurements_lie_in_order(
    t: FrameTimingCheckpoints,
    stats: StageLatencyStats,
    span: TraceSpan,
)
    ensures
        <FrameTimingCheckpoints as Wire>::wire(t.model()) == le_bytes(t.capture_ts_us as nat, 8) + (
        le_bytes(t.encode_queue_ts_us as nat, 4) + (le_bytes(t.encode_done_ts_us as nat, 4) + (
        le_bytes(t.packetize_ts_us as nat, 4) + (le_bytes(t.send_ts_us as nat, 4) + (le_bytes(
            t.recv_ts_us as nat,
            4,
        ) + (le_bytes(t.jitter_enter_ts_us as nat, 4) + (le_bytes(t.jitter_exit_ts_us as nat, 4) + (
        le_bytes(t.decode_enter_ts_us as nat, 4) + (le_bytes(t.decode_done_ts_us as nat, 4) + (
        le_bytes(t.render_submit_ts_us as nat, 4) + le_bytes(
            t.render_done_ts_us as nat,
            4,
        ))))))))))),
        StageLatencyStats::wire(stats.model()) == le_bytes(stats.min_us as nat, 4) + (le_bytes(
            stats.p50_us as nat,
            4,
        ) + (le_bytes(stats.p95_us as nat, 4) + (le_bytes(stats.p99_us as nat, 4) + (le_bytes(
            stats.max_us as nat,
            4,
        ) + (le_bytes(stats.avg_us as nat, 4) + (le_bytes(stats.stddev_us as nat, 4) + le_bytes(
            stats.sample_count as nat,
            4,
        ))))))),
        TraceSpan::wire(span.model()) == counted(encode_utf8(span.name@)) + (counted(
            encode_utf8(span.cat@),
        ) + (encode_utf8(seq![span.ph]) + (le_bytes(span.ts_us as nat, 8) + (le_bytes(
            span.dur_us as nat,
            8,
        ) + (le_bytes(span.pid as nat, 4) + le_bytes(span.tid as nat, 4)))))),
{
}

/// A report is its fields in order, the stages one behind the other without their number.
pub proof fn reports_lie_in_order(report: PipelineTelemetryReport)
    ensures
        PipelineTelemetryReport::wire(report.model()) == le_bytes(report.session_id as nat, 4) + (
        le_bytes(report.timestamp_ms as nat, 8) + (le_bytes(report.fps_bits as nat, 4) + (le_bytes(
            report.bitrate_kbps as nat,
            4,
        ) + (<[StageLatencyStats; 9]>::wire(report.stage_stats.model()) + (StageLatencyStats::wire(
            report.e2e_stats.model(),
        ) + (usize::wire(report.jitter_buffer_depth) + (le_bytes(report.packets_lost as nat, 8) + (
        le_bytes(report.late_frames_dropped as nat, 8) + (le_bytes(
            report.queue_full_dropped as nat,
            8,
        ) + le_bytes(report.corrupt_frames_dropped as nat, 8)))))))))),
{
}

/// Long numbers lie in two halves, the lower one first; what may be missing lies behind one byte, and
/// what there is several of lies in a row behind its number.
pub proof fn parts_lie_in_a_row<A: Wire>(
    long: u128,
    size: usize,
    item: A::Model,
    items: Seq<A::Model>,
)
    ensures
        u128::wire(long) == le_bytes((long % 0x1_0000_0000_0000_0000) as nat, 8) + le_bytes(
            (long / 0x1_0000_0000_0000_0000) as nat,
            8,
        ),
        usize::wire(size) == le_bytes(size as nat, 8),
        Option::<A>::wire(Some(item)) == le_bytes(1, 1) + A::wire(item),
        Option::<A>::wire(None) == le_bytes(0, 1),
        items.len() <= u64::MAX ==> Vec::<A>::wire(items) == le_bytes(items.len(), 8) + in_a_row::<
            A,
        >(items),
        in_a_row::<A>(Seq::empty()) == Seq::<u8>::empty(),
        in_a_row::<A>(seq![item] + items) == A::wire(item) + in_a_row::<A>(items),
{
    assert((seq![item] + items).drop_first() =~= items);
    assert(Option::<A>::wire(None) =~= le_bytes(0, 1));
}

} // verus!
