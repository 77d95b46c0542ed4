//! The messages of the protocol.
use remote_play::protocol::{
    AudioControlTarget, AudioStreamConfig, COMPACT_REALTIME_HEADER_LEN, ChunkInfo,
    ClipboardBundle, ClipboardFile, ClipboardImage, ClipboardItem, ClipboardText,
    CompactRealtimeError, ContentKind, ControlMessage, DataEnvelope, DataLane, DataPriority,
    FileTransferControl, FileTransferGroup, FileTransferManifest, InputEvent, PayloadType,
    REMOTE_MICROPHONE_AUDIO_STREAM_OFFSET, REMOTE_SYSTEM_AUDIO_STREAM_OFFSET, ReliabilityInfo,
    ReliabilityMode, RtpHeader, RtpPacket, VIEWER_TALKBACK_AUDIO_STREAM_OFFSET, input_modifiers,
    remote_microphone_audio_stream_id, remote_system_audio_stream_id,
    viewer_talkback_audio_stream_id,
};

fn roundtrip_control(message: ControlMessage) -> ControlMessage {
    let encoded = message.encode().expect("control message should encode");
    ControlMessage::decode(&encoded).expect("control message should decode")
}

fn roundtrip_envelope(envelope: DataEnvelope) -> DataEnvelope {
    let encoded = envelope.encode().expect("data envelope should encode");
    DataEnvelope::decode(&encoded).expect("data envelope should decode")
}

#[test]
fn data_lane_classification_matches_latency_requirements() {
    assert!(DataLane::RealtimeVideo.is_realtime());
    assert!(DataLane::RealtimeAudio.is_realtime());
    assert!(DataLane::InteractiveControl.is_realtime());
    assert!(!DataLane::ReliableObject.is_realtime());
    assert!(!DataLane::Background.is_realtime());

    assert!(DataLane::RealtimeVideo.allows_stale_drop());
    assert!(DataLane::RealtimeAudio.allows_stale_drop());
    assert!(!DataLane::InteractiveControl.allows_stale_drop());

    assert_eq!(
        ReliabilityMode::for_lane(DataLane::ReliableObject),
        ReliabilityMode::Reliable
    );
    assert_eq!(
        ReliabilityMode::for_lane(DataLane::RealtimeVideo),
        ReliabilityMode::BestEffort
    );
}

#[test]
fn content_kind_defaults_to_expected_lane() {
    assert_eq!(
        ContentKind::VideoH265.default_lane(),
        DataLane::RealtimeVideo
    );
    assert_eq!(
        ContentKind::AudioOpus.default_lane(),
        DataLane::RealtimeAudio
    );
    assert_eq!(
        ContentKind::AudioStreamConfig.default_lane(),
        DataLane::InteractiveControl
    );
    assert_eq!(
        ContentKind::Control.default_lane(),
        DataLane::InteractiveControl
    );
    assert_eq!(
        ContentKind::ClipboardText.default_lane(),
        DataLane::ReliableObject
    );
    assert_eq!(
        ContentKind::ClipboardBundle.default_lane(),
        DataLane::ReliableObject
    );
    assert_eq!(
        ContentKind::FileManifest.default_lane(),
        DataLane::ReliableObject
    );
    assert_eq!(
        ContentKind::FileChunk.default_lane(),
        DataLane::ReliableObject
    );
    assert_eq!(
        ContentKind::FileControl.default_lane(),
        DataLane::InteractiveControl
    );
}

#[test]
fn audio_stream_config_roundtrips() {
    let configs = [
        AudioStreamConfig::remote_system(10, 48_000, 2, 20),
        AudioStreamConfig::remote_microphone(11, 48_000, 1, 20),
        AudioStreamConfig::remote_mixed(12, 48_000, 2, 20),
        AudioStreamConfig::viewer_microphone_talkback(13, 48_000, 1, 20),
    ];

    for config in configs {
        let encoded = config.encode().expect("audio config should encode");
        let decoded = AudioStreamConfig::decode(&encoded).expect("audio config should decode");
        assert_eq!(decoded, config);
    }
}

#[test]
fn derived_audio_stream_ids_use_documented_offsets() {
    let session_id = u32::MAX - 50;

    assert_eq!(
        remote_microphone_audio_stream_id(session_id),
        session_id.wrapping_add(REMOTE_MICROPHONE_AUDIO_STREAM_OFFSET)
    );
    assert_eq!(
        remote_system_audio_stream_id(session_id),
        session_id.wrapping_add(REMOTE_SYSTEM_AUDIO_STREAM_OFFSET)
    );
    assert_eq!(
        viewer_talkback_audio_stream_id(session_id),
        session_id.wrapping_add(VIEWER_TALKBACK_AUDIO_STREAM_OFFSET)
    );
}

#[test]
fn audio_stream_config_envelope_uses_interactive_control_lane() {
    let config = AudioStreamConfig::remote_microphone(22, 48_000, 1, 20);
    let envelope = DataEnvelope::audio_stream_config(&config, 7, 1_234)
        .expect("audio stream config envelope should encode");

    assert_eq!(envelope.header.lane, DataLane::InteractiveControl);
    assert_eq!(envelope.header.kind, ContentKind::AudioStreamConfig);
    assert_eq!(envelope.header.stream_id, config.stream_id);
    assert_eq!(envelope.header.sequence_number, 7);
    assert_eq!(envelope.header.timestamp_ms, 1_234);
    assert_eq!(envelope.header.priority, DataPriority::Interactive);
    assert_eq!(envelope.header.reliability, ReliabilityMode::BestEffort);
    assert_eq!(
        AudioStreamConfig::decode(&envelope.payload).expect("payload should decode"),
        config
    );
}

#[test]
fn file_transfer_manifest_roundtrips() {
    let manifest = FileTransferManifest {
        transfer_id: 11,
        file_object_id: 12,
        name: "clip.mov".to_string(),
        group: Some(FileTransferGroup {
            group_id: 77,
            file_index: 0,
            file_count: 1,
            relative_path: "clip.mov".to_string(),
            group_total_size_bytes: 1_048_576,
            group_checksum_crc32: 0xabcd_1234,
        }),
        mime_type: Some("video/quicktime".to_string()),
        size_bytes: 1_048_576,
        chunk_payload_len: 16 * 1024,
        checksum_crc32: 0x1234_abcd,
    };

    let encoded = manifest.encode().expect("manifest should encode");
    let decoded = FileTransferManifest::decode(&encoded).expect("manifest should decode");

    assert_eq!(decoded, manifest);
}

#[test]
fn file_transfer_control_roundtrips() {
    let transfer = FileTransferControl::CancelTransfer {
        transfer_id: 11,
        file_object_id: 12,
    };
    let encoded = transfer.encode().expect("control should encode");
    assert_eq!(
        FileTransferControl::decode(&encoded).expect("control should decode"),
        transfer
    );

    let group = FileTransferControl::CancelGroup { group_id: 77 };
    let encoded = group.encode().expect("group control should encode");
    assert_eq!(
        FileTransferControl::decode(&encoded).expect("group control should decode"),
        group
    );
}

#[test]
fn realtime_video_envelope_roundtrips() {
    let envelope =
        DataEnvelope::realtime_video(10, 44, 1_000, 1_016, vec![0, 0, 0, 1, 0x26, 0x01]);

    let decoded = roundtrip_envelope(envelope.clone());

    assert_eq!(decoded, envelope);
    assert!(decoded.is_realtime());
    assert!(decoded.allows_stale_drop());
    assert_eq!(decoded.header.priority, DataPriority::Realtime);
    assert_eq!(decoded.header.reliability, ReliabilityMode::BestEffort);
    assert_eq!(decoded.header.deadline_ms, Some(1_016));
    assert!(decoded.header.chunk.is_none());
}

#[test]
fn realtime_envelope_size_overhead_stays_small() {
    let payload = vec![0x55; 1_400];
    let rtp = RtpPacket {
        header: RtpHeader {
            version: 2,
            payload_type: PayloadType::VideoH265.wire_id(),
            sequence_number: 44,
            timestamp: 1_000,
            ssrc: 10,
        },
        payload: payload.clone(),
    };
    let envelope = DataEnvelope::realtime_video(10, 44, 1_000, 1_016, payload);

    let rtp_len = rtp.encode().expect("rtp should encode").len();
    let envelope_len = envelope
        .encode()
        .expect("data envelope should encode")
        .len();

    assert!(
        envelope_len <= rtp_len + 40,
        "realtime envelope overhead grew too large: rtp={rtp_len}, envelope={envelope_len}"
    );
}

#[test]
fn compact_realtime_envelope_roundtrips() {
    let envelope =
        DataEnvelope::realtime_video(10, 44, 1_000, 1_016, vec![0, 0, 0, 1, 0x26, 0x01]);

    let encoded = envelope
        .encode_compact_realtime()
        .expect("compact realtime envelope should encode");
    let decoded = DataEnvelope::decode_compact_realtime(&encoded)
        .expect("compact realtime envelope should decode");

    assert_eq!(
        encoded.len(),
        COMPACT_REALTIME_HEADER_LEN + envelope.payload.len()
    );
    assert_eq!(decoded, envelope);
}

#[test]
fn compact_audio_stream_config_envelope_roundtrips() {
    let config = AudioStreamConfig::viewer_microphone_talkback(31, 48_000, 1, 20);
    let envelope = DataEnvelope::audio_stream_config(&config, 2, 9_000)
        .expect("audio config envelope should encode");

    let encoded = envelope
        .encode_compact_realtime()
        .expect("audio config should stay on compact realtime path");
    let decoded = DataEnvelope::decode_compact_realtime(&encoded)
        .expect("audio config should decode from compact realtime path");

    assert_eq!(decoded, envelope);
    assert_eq!(
        AudioStreamConfig::decode(&decoded.payload).expect("payload should decode"),
        config
    );
}

#[test]
fn compact_realtime_size_overhead_is_close_to_current_rtp_path() {
    let payload = vec![0x55; 1_400];
    let rtp = RtpPacket {
        header: RtpHeader {
            version: 2,
            payload_type: PayloadType::VideoH265.wire_id(),
            sequence_number: 44,
            timestamp: 1_000,
            ssrc: 10,
        },
        payload: payload.clone(),
    };
    let envelope = DataEnvelope::realtime_video(10, 44, 1_000, 1_016, payload);

    let rtp_len = rtp.encode().expect("rtp should encode").len();
    let compact_len = envelope
        .encode_compact_realtime()
        .expect("compact realtime envelope should encode")
        .len();

    assert!(
        compact_len <= rtp_len + 8,
        "compact realtime overhead grew too large: rtp={rtp_len}, compact={compact_len}"
    );
}

#[test]
fn compact_realtime_rejects_reliable_object_metadata() {
    let envelope = DataEnvelope::reliable_object_chunk(
        ContentKind::FileChunk,
        77,
        3,
        2_000,
        ChunkInfo {
            object_id: 99,
            chunk_index: 2,
            total_chunks: 8,
            offset: 32_768,
            total_size: 131_072,
        },
        Some(0x1234_abcd),
        vec![1, 2, 3, 4],
    );

    assert!(matches!(
        envelope.encode_compact_realtime(),
        Err(CompactRealtimeError::NonRealtimeLane(
            DataLane::ReliableObject
        ))
    ));
}

#[test]
fn compact_realtime_rejects_deadlines_before_timestamps() {
    let mut envelope = DataEnvelope::realtime_video(10, 44, 1_000, 1_016, vec![1]);
    envelope.header.deadline_ms = Some(999);

    assert!(matches!(
        envelope.encode_compact_realtime(),
        Err(CompactRealtimeError::DeadlineBeforeTimestamp { .. })
    ));
}

#[test]
fn reliable_file_chunk_envelope_roundtrips() {
    let chunk = ChunkInfo {
        object_id: 99,
        chunk_index: 2,
        total_chunks: 8,
        offset: 32_768,
        total_size: 131_072,
    };
    let envelope = DataEnvelope::reliable_object_chunk(
        ContentKind::FileChunk,
        77,
        3,
        2_000,
        chunk.clone(),
        Some(0x1234_abcd),
        vec![1, 2, 3, 4],
    );

    let decoded = roundtrip_envelope(envelope.clone());

    assert_eq!(decoded, envelope);
    assert!(!decoded.is_realtime());
    assert!(!decoded.allows_stale_drop());
    assert_eq!(decoded.header.priority, DataPriority::Normal);
    assert_eq!(decoded.header.reliability, ReliabilityMode::Reliable);
    assert_eq!(decoded.header.chunk, Some(chunk));
    assert_eq!(
        decoded.header.reliability_info,
        Some(ReliabilityInfo {
            ack_id: 3,
            retry_count: 0,
            checksum_crc32: Some(0x1234_abcd),
        })
    );
}

#[test]
fn clipboard_bundle_roundtrips_text_image_and_file_items() {
    let bundle = ClipboardBundle::new(
        42,
        vec![
            ClipboardItem::Text(ClipboardText {
                text: "hello clipboard".to_string(),
            }),
            ClipboardItem::Image(ClipboardImage {
                mime_type: "image/png".to_string(),
                width: Some(2),
                height: Some(1),
                bytes: vec![0x89, b'P', b'N', b'G'],
            }),
            ClipboardItem::File(ClipboardFile {
                name: "note.txt".to_string(),
                mime_type: Some("text/plain".to_string()),
                bytes: b"file bytes".to_vec(),
            }),
        ],
    );

    let encoded = bundle.encode().expect("clipboard bundle should encode");
    let decoded = ClipboardBundle::decode(&encoded).expect("clipboard bundle should decode");

    assert_eq!(decoded, bundle);
}

#[test]
fn rtp_packet_roundtrips() {
    let packet = RtpPacket {
        header: RtpHeader {
            version: 2,
            payload_type: PayloadType::VideoH265.wire_id(),
            sequence_number: u16::MAX,
            timestamp: 123_456,
            ssrc: 0xfeed_beef,
        },
        payload: vec![0, 0, 0, 1, 42, 43, 44],
    };

    let encoded = packet.encode().expect("rtp packet should encode");
    let decoded = RtpPacket::decode(&encoded).expect("rtp packet should decode");

    assert_eq!(decoded, packet);
}

#[test]
fn start_stream_control_message_roundtrips() {
    let decoded = roundtrip_control(ControlMessage::StartStream {
        width: 1920,
        height: 1080,
        fps: 60,
        bitrate_kbps: 8_000,
        session_id: 99,
    });

    match decoded {
        ControlMessage::StartStream {
            width,
            height,
            fps,
            bitrate_kbps,
            session_id,
        } => {
            assert_eq!(width, 1920);
            assert_eq!(height, 1080);
            assert_eq!(fps, 60);
            assert_eq!(bitrate_kbps, 8_000);
            assert_eq!(session_id, 99);
        }
        other => panic!("unexpected message: {other:?}"),
    }
}

#[test]
fn host_telemetry_control_message_roundtrips() {
    let decoded = roundtrip_control(ControlMessage::HostTelemetry {
        fps_bits: 59.94_f32.to_bits(),
        encode_latency_ms_bits: 4.5_f32.to_bits(),
        jitter_ms_bits: 1.25_f32.to_bits(),
        bitrate_kbps: 12_000,
    });

    match decoded {
        ControlMessage::HostTelemetry {
            fps_bits,
            encode_latency_ms_bits,
            jitter_ms_bits,
            bitrate_kbps,
        } => {
            assert_eq!(f32::from_bits(fps_bits), 59.94);
            assert_eq!(f32::from_bits(encode_latency_ms_bits), 4.5);
            assert_eq!(f32::from_bits(jitter_ms_bits), 1.25);
            assert_eq!(bitrate_kbps, 12_000);
        }
        other => panic!("unexpected message: {other:?}"),
    }
}

#[test]
fn request_keyframe_control_message_roundtrips() {
    let decoded = roundtrip_control(ControlMessage::RequestKeyframe { session_id: 12345 });
    match decoded {
        ControlMessage::RequestKeyframe { session_id } => {
            assert_eq!(session_id, 12345);
        }
        other => panic!("unexpected message: {other:?}"),
    }
}

#[test]
fn audio_control_message_roundtrips() {
    let decoded = roundtrip_control(ControlMessage::AudioControl {
        session_id: 77,
        target: AudioControlTarget::ViewerTalkbackPlayback,
        muted: true,
        volume_percent: 65,
    });

    match decoded {
        ControlMessage::AudioControl {
            session_id,
            target,
            muted,
            volume_percent,
        } => {
            assert_eq!(session_id, 77);
            assert_eq!(target, AudioControlTarget::ViewerTalkbackPlayback);
            assert!(muted);
            assert_eq!(volume_percent, 65);
        }
        other => panic!("unexpected message: {other:?}"),
    }
}

#[test]
fn input_control_messages_roundtrip() {
    let cases = [
        ControlMessage::Input(InputEvent::KeyDown(12)),
        ControlMessage::Input(InputEvent::KeyUp(12)),
        ControlMessage::Input(InputEvent::MouseMove { dx: -7, dy: 9 }),
        ControlMessage::Input(InputEvent::MouseMoveAbsolute {
            x: 12_345,
            y: 54_321,
        }),
        ControlMessage::Input(InputEvent::Key {
            key_code: 0x7b,
            pressed: true,
            modifiers: input_modifiers::SHIFT | input_modifiers::META,
        }),
        ControlMessage::Input(InputEvent::ModifiersChanged(input_modifiers::ALT)),
        ControlMessage::Input(InputEvent::MouseDown(1)),
        ControlMessage::Input(InputEvent::MouseUp(1)),
        ControlMessage::Input(InputEvent::MouseScroll {
            delta_x: -11,
            delta_y: 23,
        }),
    ];

    for case in cases {
        let decoded = roundtrip_control(case.clone());
        match (case, decoded) {
            (
                ControlMessage::Input(InputEvent::KeyDown(expected)),
                ControlMessage::Input(InputEvent::KeyDown(actual)),
            ) => {
                assert_eq!(actual, expected);
            }
            (
                ControlMessage::Input(InputEvent::KeyUp(expected)),
                ControlMessage::Input(InputEvent::KeyUp(actual)),
            ) => {
                assert_eq!(actual, expected);
            }
            (
                ControlMessage::Input(InputEvent::MouseMove {
                    dx: expected_dx,
                    dy: expected_dy,
                }),
                ControlMessage::Input(InputEvent::MouseMove { dx, dy }),
            ) => {
                assert_eq!(dx, expected_dx);
                assert_eq!(dy, expected_dy);
            }
            (
                ControlMessage::Input(InputEvent::MouseMoveAbsolute {
                    x: expected_x,
                    y: expected_y,
                }),
                ControlMessage::Input(InputEvent::MouseMoveAbsolute { x, y }),
            ) => assert_eq!((x, y), (expected_x, expected_y)),
            (
                ControlMessage::Input(InputEvent::Key {
                    key_code: expected_code,
                    pressed: expected_pressed,
                    modifiers: expected_modifiers,
                }),
                ControlMessage::Input(InputEvent::Key {
                    key_code,
                    pressed,
                    modifiers,
                }),
            ) => assert_eq!(
                (key_code, pressed, modifiers),
                (expected_code, expected_pressed, expected_modifiers),
            ),
            (
                ControlMessage::Input(InputEvent::ModifiersChanged(expected)),
                ControlMessage::Input(InputEvent::ModifiersChanged(actual)),
            ) => assert_eq!(actual, expected),
            (
                ControlMessage::Input(InputEvent::MouseDown(expected)),
                ControlMessage::Input(InputEvent::MouseDown(actual)),
            ) => {
                assert_eq!(actual, expected);
            }
            (
                ControlMessage::Input(InputEvent::MouseUp(expected)),
                ControlMessage::Input(InputEvent::MouseUp(actual)),
            ) => {
                assert_eq!(actual, expected);
            }
            (
                ControlMessage::Input(InputEvent::MouseScroll {
                    delta_x: expected_x,
                    delta_y: expected_y,
                }),
                ControlMessage::Input(InputEvent::MouseScroll { delta_x, delta_y }),
            ) => {
                assert_eq!(delta_x, expected_x);
                assert_eq!(delta_y, expected_y);
            }
            (expected, actual) => {
                panic!("roundtrip mismatch: expected {expected:?}, got {actual:?}")
            }
        }
    }
}

#[test]
fn simple_control_messages_roundtrip_to_expected_variants() {
    assert!(matches!(
        roundtrip_control(ControlMessage::HandshakeReq),
        ControlMessage::HandshakeReq
    ));
    assert!(matches!(
        roundtrip_control(ControlMessage::HandshakeAck),
        ControlMessage::HandshakeAck
    ));
    assert!(matches!(
        roundtrip_control(ControlMessage::StopStream),
        ControlMessage::StopStream
    ));
    assert!(matches!(
        roundtrip_control(ControlMessage::Heartbeat),
        ControlMessage::Heartbeat
    ));
    assert!(matches!(
        roundtrip_control(ControlMessage::UpdateStreamSettings {
            width: 3840,
            height: 2160,
            fps: 120,
            bitrate_kbps: 60000,
            session_id: 123
        }),
        ControlMessage::UpdateStreamSettings { width: 3840, height: 2160, fps: 120, bitrate_kbps: 60000, session_id: 123 }
    ));
    assert!(matches!(
        roundtrip_control(ControlMessage::Ping { client_send_ts: 12345 }),
        ControlMessage::Ping { client_send_ts: 12345 }
    ));
    assert!(matches!(
        roundtrip_control(ControlMessage::Pong { client_send_ts: 12345, host_recv_ts: 12348, host_send_ts: 12349 }),
        ControlMessage::Pong { client_send_ts: 12345, host_recv_ts: 12348, host_send_ts: 12349 }
    ));
}

#[test]
fn realtime_audio_may_be_dropped_when_stale() {
    let envelope = DataEnvelope::realtime_audio(10, 44, 1_000, vec![1]);
    assert_eq!(envelope.header.lane, DataLane::RealtimeAudio);
    assert_eq!(envelope.header.kind, ContentKind::AudioOpus);
    assert_eq!(envelope.header.deadline_ms, None);
    assert!(envelope.allows_stale_drop());
}
