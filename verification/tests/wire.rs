//! Messages as bytes.
use remote_play::protocol::session::{
    CaptureSource, CaptureSourceInfo, SessionCommand, SubscriptionRequest,
};
use remote_play::protocol::{
    AudioControlTarget, AudioStreamConfig, ChunkInfo, ClipboardBundle, ClipboardItem, ContentKind,
    ControlMessage, DataEnvelope, FileTransferControl, FileTransferGroup, FileTransferManifest,
    InputEvent, RtpPacket, TouchAction,
};
use remote_play::wire::WireError;

#[test]
fn integers_are_sent_least_significant_byte_first() {
    let config = AudioStreamConfig::remote_microphone(0x0102_0304, 48_000, 0x0506, 20);
    assert_eq!(
        config.encode().unwrap(),
        vec![
            4, 3, 2, 1, // stream
            1, 0, 0, 0, // source
            0, 0, 0, 0, // direction
            0, 0, 0, 0, // codec
            0x80, 0xbb, 0, 0, // rate
            6, 5, // channels
            20, 0, // milliseconds
        ]
    );
}

#[test]
fn lengths_and_missing_values_are_sent_before_what_they_tell_of() {
    let manifest = FileTransferManifest {
        transfer_id: 1,
        file_object_id: 2,
        name: "\u{e9}".to_string(),
        group: None,
        mime_type: Some("a".to_string()),
        size_bytes: 3,
        chunk_payload_len: 4,
        checksum_crc32: 5,
    };
    assert_eq!(
        manifest.encode().unwrap(),
        vec![
            1, 0, 0, 0, 0, 0, 0, 0, 2, 0, 0, 0, 0, 0, 0, 0, // identifiers
            2, 0, 0, 0, 0, 0, 0, 0, 0xc3, 0xa9, // name
            0,    // no group
            1, 1, 0, 0, 0, 0, 0, 0, 0, b'a', // kind
            3, 0, 0, 0, 0, 0, 0, 0, 4, 0, 0, 0, 5, 0, 0, 0,
        ]
    );
    assert_eq!(
        FileTransferControl::CancelGroup { group_id: 9 }.encode().unwrap(),
        vec![1, 0, 0, 0, 9, 0, 0, 0, 0, 0, 0, 0]
    );
}

#[test]
fn signed_numbers_are_sent_by_their_bits() {
    let message = ControlMessage::Input(InputEvent::MouseMove { dx: -2, dy: i32::MIN });
    let bytes = message.encode().unwrap();
    assert_eq!(
        bytes,
        vec![2, 0, 0, 0, 2, 0, 0, 0, 0xfe, 0xff, 0xff, 0xff, 0, 0, 0, 0x80]
    );
    assert_eq!(ControlMessage::decode(&bytes), Ok(message));
}

#[test]
fn what_follows_a_message_is_let_be() {
    let mut bytes = FileTransferControl::CancelTransfer { transfer_id: 1, file_object_id: 2 }
        .encode()
        .unwrap();
    bytes.push(77);
    assert_eq!(
        FileTransferControl::decode(&bytes),
        Ok(FileTransferControl::CancelTransfer { transfer_id: 1, file_object_id: 2 })
    );
}

#[test]
fn messages_that_are_cut_short_are_refused() {
    let bundle = ClipboardBundle::text(5, "hello");
    let bytes = bundle.encode().unwrap();
    for len in 0..bytes.len() {
        assert_eq!(ClipboardBundle::decode(&bytes[..len]), Err(WireError));
    }
    assert_eq!(ClipboardBundle::decode(&bytes), Ok(bundle));
    let config = AudioStreamConfig::remote_system(1, 2, 3, 4).encode().unwrap();
    for len in 0..config.len() {
        assert_eq!(AudioStreamConfig::decode(&config[..len]), Err(WireError));
    }
}

#[test]
fn numbers_that_stand_for_nothing_are_refused() {
    // The source of a stream.
    let mut config = AudioStreamConfig::remote_system(1, 2, 3, 4).encode().unwrap();
    config[4] = 4;
    assert_eq!(AudioStreamConfig::decode(&config), Err(WireError));
    // The variant of a message.
    assert_eq!(ControlMessage::decode(&[200, 0, 0, 0]), Err(WireError));
    // A flag.
    let mut message = ControlMessage::SetMediaPaused { session_id: 1, revision: 2, paused: true }
        .encode()
        .unwrap();
    *message.last_mut().unwrap() = 2;
    assert_eq!(ControlMessage::decode(&message), Err(WireError));
    // What tells whether a value is missing.
    let mut envelope = DataEnvelope::realtime_video(10, 44, 1_000, 1_016, vec![])
        .encode()
        .unwrap();
    envelope[37] = 3;
    assert_eq!(DataEnvelope::decode(&envelope), Err(WireError));
    // A text that is no UTF-8.
    let mut bundle = ClipboardBundle::text(5, "hello").encode().unwrap();
    *bundle.last_mut().unwrap() = 0xff;
    assert_eq!(ClipboardBundle::decode(&bundle), Err(WireError));
    // A length that nothing fits.
    let mut packet = vec![2, 96, 0, 0, 0, 0, 0, 0, 0, 0, 0, 0];
    packet.extend_from_slice(&u64::MAX.to_le_bytes());
    assert_eq!(RtpPacket::decode(&packet), Err(WireError));
}

#[test]
fn session_commands_come_back() {
    let info = CaptureSourceInfo {
        source: CaptureSource::Window(7),
        title: "Editor".to_string(),
        application: "Code".to_string(),
        process_id: Some(-3),
        width: 800,
        height: 600,
        supports_input: false,
    };
    let commands = vec![
        SessionCommand::ReleaseInput { id: 1 },
        SessionCommand::Configure {
            id: 1,
            revision: u64::MAX,
            width: 2,
            height: 3,
            fps: 4,
            bitrate_kbps: 5,
        },
        SessionCommand::Closed { connection_id: 9, reason: "bye".to_string() },
        SessionCommand::SetClipboard { enabled: true },
        SessionCommand::Opened {
            connection_id: 1,
            version: 2,
            max_subscriptions: 8,
            files: true,
            clipboard: false,
            window_capture: true,
        },
        SessionCommand::Sources { request_id: 4, sources: vec![info.clone(), info] },
        SessionCommand::Sources { request_id: 4, sources: vec![] },
        SessionCommand::Subscribe(SubscriptionRequest {
            id: 1,
            source: CaptureSource::MainDisplay,
            width: 2,
            height: 3,
            fps: 4,
            bitrate_kbps: 5,
            audio: true,
        }),
        SessionCommand::Subscribed { id: 1, audio_owner: Some(2), supports_input: true },
        SessionCommand::Input {
            id: 3,
            event: InputEvent::Touch {
                action: TouchAction::Cancel,
                pointer_id: 1,
                normalized_x_bits: 0.5_f32.to_bits(),
                normalized_y_bits: 0.25_f32.to_bits(),
                pressure_bits: 1.0_f32.to_bits(),
            },
        },
        SessionCommand::Error { request_id: 1, reason: String::new() },
    ];
    for command in commands {
        let message = ControlMessage::Session(command);
        let bytes = message.encode().unwrap();
        assert_eq!(ControlMessage::decode(&bytes), Ok(message));
    }
}

#[test]
fn handshakes_come_back() {
    let messages = vec![
        ControlMessage::SessionHello {
            nonce: 0x0f0e_0d0c_0b0a_0908_0706_0504_0302_0100,
            timestamp_ms: 5,
            mac: vec![1, 2, 3],
        },
        ControlMessage::SessionAccept { salt: u128::MAX, timestamp_ms: 6, mac: vec![] },
        ControlMessage::SessionReject { reason: "no".to_string() },
        ControlMessage::MediaPauseState { session_id: 1, revision: 2, paused: false },
    ];
    let hello = messages[0].encode().unwrap();
    assert_eq!(hello[4..20], (0..16).collect::<Vec<u8>>()[..]);
    for message in messages {
        let bytes = message.encode().unwrap();
        assert_eq!(ControlMessage::decode(&bytes), Ok(message));
    }
}

#[test]
fn no_message_begins_another() {
    let short = ClipboardBundle::new(1, vec![]).encode().unwrap();
    let long = ClipboardBundle::text(1, "").encode().unwrap();
    assert!(!long.starts_with(&short));
    assert!(matches!(
        ClipboardBundle::decode(&long).unwrap().items[0],
        ClipboardItem::Text(_)
    ));
}

#[test]
fn bytes_are_those_that_bincode_writes() {
    let expected = bincode::serialize(&(
        7u64,
        vec![(0u32, "hi".to_string()), (0u32, "there".to_string())],
    ))
    .unwrap();
    let mut bundle = ClipboardBundle::text(7, "hi");
    bundle.items.extend(ClipboardBundle::text(0, "there").items);
    assert_eq!(bundle.encode().unwrap(), expected);

    let expected = bincode::serialize(&(
        (2u8, 96u8, 65_535u16, 123_456u32, 0xfeed_beefu32),
        vec![9u8, 8, 7],
    ))
    .unwrap();
    let packet = RtpPacket::decode(&expected).unwrap();
    assert_eq!(packet.header.sequence_number, 65_535);
    assert_eq!(packet.payload, vec![9, 8, 7]);
    assert_eq!(packet.encode().unwrap(), expected);
}

#[test]
fn headers_are_those_that_bincode_writes() {
    let envelope = DataEnvelope::reliable_object_chunk(
        ContentKind::FileChunk,
        7,
        8,
        9,
        ChunkInfo {
            object_id: 10,
            chunk_index: 11,
            total_chunks: 12,
            offset: 13,
            total_size: 14,
        },
        Some(15),
        vec![1, 2],
    );
    let bytes = envelope.encode().unwrap();
    let expected = bincode::serialize(&(
        (
            1u8,
            3u32,
            5u32,
            1u32,
            1u32,
            7u32,
            8u64,
            9u64,
            None::<u64>,
            Some((10u64, 11u32, 12u32, 13u64, 14u64)),
            envelope.header.reliability_info.map(|info| {
                (info.ack_id, info.retry_count, info.checksum_crc32)
            }),
        ),
        vec![1u8, 2],
    ))
    .unwrap();
    assert_eq!(bytes, expected);
}

#[test]
fn manifests_are_those_that_bincode_writes() {
    let manifest = FileTransferManifest {
        transfer_id: 1,
        file_object_id: 2,
        name: "a.txt".to_string(),
        group: Some(FileTransferGroup {
            group_id: 3,
            file_index: 4,
            file_count: 5,
            relative_path: "b/a.txt".to_string(),
            group_total_size_bytes: 6,
            group_checksum_crc32: 7,
        }),
        mime_type: None,
        size_bytes: 8,
        chunk_payload_len: 9,
        checksum_crc32: 10,
    };
    let expected = bincode::serialize(&(
        1u64,
        2u64,
        "a.txt",
        Some((3u64, 4u32, 5u32, "b/a.txt", 6u64, 7u32)),
        None::<String>,
        8u64,
        9u32,
        10u32,
    ))
    .unwrap();
    assert_eq!(manifest.encode().unwrap(), expected);
}

#[test]
fn control_messages_are_those_that_bincode_writes() {
    let cases: Vec<(ControlMessage, Vec<u8>)> = vec![
        (ControlMessage::HandshakeReq, bincode::serialize(&0u32).unwrap()),
        (
            ControlMessage::Input(InputEvent::MouseScroll { delta_x: -1, delta_y: 1 }),
            bincode::serialize(&(2u32, 8u32, -1i32, 1i32)).unwrap(),
        ),
        (
            ControlMessage::HostTelemetry {
                fps_bits: 59.5f32.to_bits(),
                encode_latency_ms_bits: 2.25f32.to_bits(),
                jitter_ms_bits: 0.5f32.to_bits(),
                bitrate_kbps: 9000,
            },
            bincode::serialize(&(4u32, 59.5f32, 2.25f32, 0.5f32, 9000u32)).unwrap(),
        ),
        (
            ControlMessage::AudioControl {
                session_id: 5,
                target: AudioControlTarget::ViewerTalkbackPlayback,
                muted: true,
                volume_percent: 150,
            },
            bincode::serialize(&(7u32, 5u32, 0u32, true, 150u8)).unwrap(),
        ),
        (
            ControlMessage::Pong { client_send_ts: 1, host_recv_ts: 2, host_send_ts: 3 },
            bincode::serialize(&(11u32, 1u64, 2u64, 3u64)).unwrap(),
        ),
        (
            ControlMessage::Session(SessionCommand::Subscribe(SubscriptionRequest {
                id: 1,
                source: CaptureSource::Window(6),
                width: 2,
                height: 3,
                fps: 4,
                bitrate_kbps: 5,
                audio: true,
            })),
            bincode::serialize(&(13u32, 11u32, 1u32, (2u32, 6u32), 2u32, 3u32, 4u32, 5u32, true))
                .unwrap(),
        ),
        (
            ControlMessage::SessionHello { nonce: 1 << 100, timestamp_ms: 2, mac: vec![3, 4] },
            bincode::serialize(&(14u32, 1u128 << 100, 2u64, vec![3u8, 4])).unwrap(),
        ),
    ];
    for (message, expected) in cases {
        assert_eq!(message.encode().unwrap(), expected);
        assert_eq!(ControlMessage::decode(&expected), Ok(message));
    }
}
