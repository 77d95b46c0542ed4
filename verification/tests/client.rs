//! The viewer.
use remote_play::client::audio_player::{AudioPlayerEvent, AudioPlayerSettings};
use remote_play::client::host_config::{
    DEFAULT_CONTROL_PORT, configured_hosts, host_candidates, parse_configured_hosts,
};
use remote_play::client::jitter_buffer::JitterBuffer;
use remote_play::client::mesh_pairing::{
    InviteStep, MeshGroup, MeshPairingControl, MeshPairingMessageKind, PairingStep, ReloadOutcome,
    SavedStep,
};
use remote_play::client::runtime::{
    AudioPlaybackControl, ClientMediaRuntimeStatus, ClipboardRuntimeControl, DiscoveryScope,
    FeatureSwitches, FileTransferCommand, FileTransferRuntimeControl,
    FileTransferRuntimeSettings, ServiceStep, TalkbackRuntimeControl, discovery_scope,
    env_flag_enabled, env_flag_or, host_capabilities, media_status, reports_decode_error,
    viewer_capabilities, viewer_services,
};
use remote_play::client::session::{
    ClientSessionEvent, DataRoute, HostStats, MediaCounts, MediaPacketHandler, data_packet_size,
    data_route,
    rtp_packet_size, telemetry,
};
use remote_play::client::talkback::TalkbackCaptureSettings;
use remote_play::client::transfer_center::{
    TransferCancelTarget, TransferCenterState, TransferDirection, TransferStatus,
};
use remote_play::file_transfer::{DiscoveryEvent, FileTransferEvent, LogLine};
use remote_play::host::service::PeerAddr;
use remote_play::protocol::{
    AudioStreamConfig, ContentKind, ControlMessage, FileTransferGroup, PayloadType, RtpHeader,
    RtpPacket,
};

fn v4(ip: [u8; 4], port: u16) -> PeerAddr {
    PeerAddr {
        is_v6: false,
        ip: u128::from(u32::from_be_bytes(ip)),
        port,
        flow_info: 0,
        scope_id: 0,
    }
}

fn packet(payload_type: u8, session_id: u32, sequence_number: u16) -> RtpPacket {
    RtpPacket {
        header: RtpHeader {
            version: 2,
            payload_type,
            sequence_number,
            timestamp: 100,
            ssrc: session_id,
        },
        payload: vec![1, 2, 3],
    }
}

fn video_packet(session_id: u32) -> RtpPacket {
    packet(PayloadType::VideoH265.wire_id(), session_id, 1)
}

fn group(name: &str, device: &str, display: &str, code: &str) -> MeshGroup {
    MeshGroup {
        network_name: name.to_string(),
        device_id: device.to_string(),
        display_name: display.to_string(),
        invite_code: code.to_string(),
    }
}

fn pairing(display: &str) -> MeshPairingControl {
    MeshPairingControl::load_or_create(
        "/tmp/mesh".to_string(),
        Ok(group("old", "node-1", display, "RPM2-old")),
    )
    .expect("pairing control")
}

#[test]
fn parses_configured_hosts_without_invalid_or_duplicate_entries() {
    let candidates =
        host_candidates("127.0.0.1:39271, invalid, 10.0.0.2:9000, 127.0.0.1:39271");
    let parsed = candidates
        .iter()
        .map(|text| match text.as_str() {
            "127.0.0.1:39271" => Some(v4([127, 0, 0, 1], 39271)),
            "10.0.0.2:9000" => Some(v4([10, 0, 0, 2], 9000)),
            _ => None,
        })
        .collect();
    let hosts = parse_configured_hosts(&parsed);

    assert_eq!(hosts.len(), 2);
    assert_eq!(hosts[0], v4([127, 0, 0, 1], DEFAULT_CONTROL_PORT));
    assert_eq!(hosts[1], v4([10, 0, 0, 2], 9000));
}

#[test]
fn host_lists_are_cut_at_commas_and_trimmed() {
    assert_eq!(
        host_candidates(" a:1 ,\tb:2,, c d "),
        vec!["a:1", "b:2", "", "c d"]
    );
    assert_eq!(host_candidates("\u{3000}x\u{a0}"), vec!["x"]);
    assert_eq!(host_candidates(""), vec![""]);
    assert_eq!(
        configured_hosts(&vec![None]),
        vec![v4([127, 0, 0, 1], DEFAULT_CONTROL_PORT)]
    );
    assert_eq!(
        configured_hosts(&vec![None, Some(v4([10, 0, 0, 2], 9))]),
        vec![v4([10, 0, 0, 2], 9)]
    );
}

#[test]
fn file_transfer_runtime_settings_build_receive_config() {
    let settings = FileTransferRuntimeSettings {
        receive_dir: "/tmp/remote-play-receive".to_string(),
        allow_overwrite: true,
    };

    let config = settings.runtime_config();

    assert_eq!(config.receive_dir, "/tmp/remote-play-receive");
    assert!(config.receive_policy.allow_overwrite);
}

/// What a device keeps between runs.
struct Store {
    kept: Option<[String; 4]>,
    made: u32,
}

impl Store {
    fn new() -> Self {
        Store { kept: None, made: 0 }
    }

    fn save(&mut self, saved: &MeshGroup) -> Result<(), String> {
        self.kept = Some([
            saved.network_name.clone(),
            saved.device_id.clone(),
            saved.display_name.clone(),
            saved.invite_code.clone(),
        ]);
        Ok(())
    }

    fn load_or_make(&mut self, display: &str) -> Result<MeshGroup, String> {
        if self.kept.is_none() {
            self.made += 1;
            let number = self.made;
            self.save(&group(
                &format!("net-{number}"),
                &format!("node-{number}"),
                display,
                &format!("RPM2-{number}"),
            ))?;
        }
        let [name, device, display, code] = self.kept.as_ref().unwrap();
        Ok(group(name, device, display, code))
    }
}

#[test]
fn load_or_create_persists_invite_code() {
    let mut store = Store::new();
    let loaded = store.load_or_make("Desk");
    let control = MeshPairingControl::load_or_create("/tmp/mesh".to_string(), loaded)
        .expect("pairing control");
    let first = control.snapshot();
    assert_eq!(first.message, "Device group is ready.");
    assert_eq!(first.message_kind, MeshPairingMessageKind::Neutral);
    assert_eq!(first.config_dir, "/tmp/mesh");

    let loaded = store.load_or_make("Desk");
    let reloaded =
        MeshPairingControl::load_or_create("/tmp/mesh".to_string(), loaded).expect("reload");
    assert_eq!(reloaded.snapshot().network_name, first.network_name);
    assert_eq!(reloaded.snapshot().invite_code, first.invite_code);

    let failed = MeshPairingControl::load_or_create("/x".to_string(), Err("disk".to_string()));
    assert_eq!(failed.err(), Some("Mesh setup failed: disk".to_string()));
}

#[test]
fn join_from_invite_code_replaces_group_but_keeps_local_display_name() {
    let mut control = pairing("Viewer");
    let remote = group("remote", "node-host", "Host", "RPM2-remote");
    let read = group(&remote.network_name, "node-2", "Viewer", &remote.invite_code);
    let joined = control.join_from_invite_code(Ok(read), Ok(()), ReloadOutcome::Unavailable);

    assert_eq!(joined.network_name, remote.network_name);
    assert_eq!(joined.display_name, "Viewer");
    assert_ne!(joined.device_id, remote.device_id);
    assert!(joined.restart_required);
    assert_eq!(joined.message_kind, MeshPairingMessageKind::Success);
    assert_eq!(
        joined.restart_text(),
        "Mesh will use this group after restart."
    );
    assert_eq!(control.snapshot(), joined);
}

#[test]
fn invalid_invite_code_updates_status_without_replacing_group() {
    let mut control = pairing("Viewer");
    let before = control.snapshot();
    let step = control.invite_step(" not a code\n");
    assert!(matches!(step, InviteStep::Read(code) if code == "not a code"));
    assert_eq!(control.snapshot(), before);
    // Nothing is to be stored, and nobody to be asked.
    let after = match control.invite_read(Err("too short".to_string())) {
        PairingStep::Told(snapshot) => snapshot,
        PairingStep::Save(_) => panic!("there is nothing to store"),
    };

    assert_eq!(after.network_name, before.network_name);
    assert_eq!(after.invite_code, before.invite_code);
    assert_eq!(after.device_id, before.device_id);
    assert_eq!(after.message_kind, MeshPairingMessageKind::Error);
    assert!(!after.restart_required);
    assert_eq!(
        after.message,
        "Could not read that device-group code: too short"
    );
    assert_eq!(control.snapshot(), after);

    assert!(matches!(control.invite_step(" \t\n"), InviteStep::Empty));
    let after = control.snapshot();
    assert_eq!(after.network_name, before.network_name);
    assert_eq!(after.message_kind, MeshPairingMessageKind::Warning);
    assert!(!after.restart_required);
}

#[test]
fn successful_join_requests_mesh_reload_when_available() {
    let mut control = pairing("Viewer");
    let mut store = Store::new();
    let read = group("remote", "node-1", "Viewer", "RPM2-remote");
    let read = match control.invite_read(Ok(read)) {
        PairingStep::Save(read) => read,
        PairingStep::Told(_) => panic!("the group should be stored"),
    };
    let saved = store.save(&read);
    let before = control.snapshot();
    let saved = match control.group_saved(read, saved, "Joined the device group from clipboard.") {
        SavedStep::Reload(saved) => saved,
        SavedStep::Told(_) => panic!("reload should be requested"),
    };
    assert_eq!(control.snapshot(), before);
    let joined = control.group_reloaded(saved, ReloadOutcome::Requested);

    assert!(!joined.restart_required);
    assert!(joined.message.contains("Network services are refreshing"));
    assert_eq!(joined.network_name, "remote");
    assert_eq!(store.load_or_make("Viewer").unwrap().invite_code, "RPM2-remote");
}

#[test]
fn nobody_is_asked_for_a_group_that_was_not_stored() {
    let mut control = pairing("Viewer");
    let before = control.snapshot();
    let made = group("new", "node-3", "Viewer", "RPM2-new");
    let step = control.group_saved(made, Err("disk full".to_string()), "Created.");
    let SavedStep::Told(after) = step else {
        panic!("there is nothing to ask for");
    };
    assert_eq!(after.network_name, before.network_name);
    assert_eq!(after.message, "Could not save device-group config: disk full");
    assert_eq!(after.message_kind, MeshPairingMessageKind::Error);
    assert_eq!(control.snapshot(), after);
}

#[test]
fn explicit_runtime_reload_updates_status_and_uses_reload_channel() {
    let mut control = pairing("Viewer");
    let snapshot =
        control.request_runtime_reload("Mesh setup installed.", ReloadOutcome::Requested);

    assert!(!snapshot.restart_required);
    assert_eq!(snapshot.message_kind, MeshPairingMessageKind::Success);
    assert!(snapshot.message.contains("Network services are refreshing"));
}

#[test]
fn group_that_is_not_stored_changes_nothing_but_the_message() {
    let mut control = pairing("Viewer");
    let before = control.snapshot();
    let after = control.create_new_group(
        group("new", "node-9", "Viewer", "RPM2-new"),
        Err("full".to_string()),
        ReloadOutcome::Requested,
    );
    assert_eq!(after.network_name, before.network_name);
    assert_eq!(after.invite_code, before.invite_code);
    assert_eq!(after.message, "Could not save device-group config: full");
    let after = control.create_new_group(
        group("new", "node-9", "Viewer", "RPM2-new"),
        Ok(()),
        ReloadOutcome::Failed,
    );
    assert_eq!(after.invite_code, "RPM2-new");
    assert!(after.restart_required);
    assert!(matches!(control.invite_step(" \n"), InviteStep::Empty));
    let mut snapshot = control.snapshot();
    assert_eq!(snapshot.message_kind, MeshPairingMessageKind::Warning);
    snapshot.code_copied();
    assert_eq!(snapshot.message, "Device-group code copied to clipboard.");
}

#[test]
fn media_handler_emits_media_received_after_session_filtering() {
    let mut handler = MediaPacketHandler::new();

    let step = handler.handle(video_packet(7), 16, 7);

    assert_eq!(
        step.event,
        Some(ClientSessionEvent::MediaReceived {
            session_id: 7,
            payload_type: PayloadType::VideoH265.wire_id(),
        })
    );
    assert_eq!(step.video.len(), 1);
    assert_eq!(
        handler.take_counts(),
        MediaCounts { packets: 1, bytes: 16, jitter_pushed: 1, jitter_popped: 1 }
    );
}

#[test]
fn media_handler_does_not_emit_filtered_old_session_media() {
    let mut handler = MediaPacketHandler::new();

    let step = handler.handle(video_packet(8), 16, 7);

    assert_eq!(step.event, None);
    assert!(step.video.is_empty());
    assert_eq!(
        handler.take_counts(),
        MediaCounts { packets: 1, bytes: 16, jitter_pushed: 0, jitter_popped: 0 }
    );
}

#[test]
fn media_packets_are_counted_whether_or_not_they_are_wanted() {
    let mut handler = MediaPacketHandler::new();
    handler.handle(packet(96, 7, 1), 100, 7);
    handler.handle(packet(96, 7, 3), 200, 7);
    handler.handle(packet(96, 8, 9), 300, 7);
    handler.handle(packet(97, 99, 9), 400, 7);
    handler.handle(packet(96, 7, 2), 500, 7);
    assert_eq!(
        handler.take_counts(),
        MediaCounts { packets: 5, bytes: 1500, jitter_pushed: 3, jitter_popped: 3 }
    );
    let nothing = MediaCounts { packets: 0, bytes: 0, jitter_pushed: 0, jitter_popped: 0 };
    assert_eq!(handler.take_counts(), nothing);
    handler.handle(packet(96, 8, 1), u64::MAX, 7);
    handler.handle(packet(96, 8, 1), 2, 7);
    assert_eq!(handler.take_counts(), MediaCounts { packets: 2, bytes: 1, ..nothing });
}

#[test]
fn receiver_emits_host_telemetry_event() {
    let message = ControlMessage::HostTelemetry {
        fps_bits: 60.0_f32.to_bits(),
        encode_latency_ms_bits: 4.0_f32.to_bits(),
        jitter_ms_bits: 1.0_f32.to_bits(),
        bitrate_kbps: 8_000,
    };
    assert_eq!(
        telemetry(&message),
        Some(HostStats {
            fps_bits: 60.0_f32.to_bits(),
            latency_bits: 4.0_f32.to_bits(),
            jitter_bits: 1.0_f32.to_bits(),
            bitrate_kbps: 8_000,
        })
    );
    assert_eq!(telemetry(&ControlMessage::Heartbeat), None);
}

#[test]
fn announced_audio_streams_alone_are_let_through() {
    let mut handler = MediaPacketHandler::new();
    // The microphone needs no announcement.
    assert!(handler.handle(packet(97, 8, 1), 15, 7).audio.is_some());
    assert!(handler.handle(packet(97, 9, 1), 15, 7).audio.is_none());
    let system = AudioStreamConfig::remote_system(9, 48_000, 2, 20);
    assert!(handler.handle_audio_stream_config(&system, 7));
    assert!(handler.handle(packet(97, 9, 1), 15, 7).audio.is_some());
    let stranger = AudioStreamConfig::remote_system(30, 48_000, 2, 20);
    assert!(!handler.handle_audio_stream_config(&stranger, 7));
    // Another session knows nothing of it.
    assert!(handler.handle(packet(97, 9, 2), 15, 40).audio.is_none());
    assert_eq!(rtp_packet_size(100), 112);
    assert_eq!(data_packet_size(100), 126);
}

#[test]
fn data_packets_go_where_their_kind_belongs() {
    assert_eq!(data_route(ContentKind::ClipboardBundle), DataRoute::Clipboard);
    assert_eq!(data_route(ContentKind::FileChunk), DataRoute::Files);
    assert_eq!(data_route(ContentKind::FileManifest), DataRoute::Files);
    assert_eq!(data_route(ContentKind::FileControl), DataRoute::Files);
    assert_eq!(data_route(ContentKind::AudioStreamConfig), DataRoute::AudioConfig);
    assert_eq!(data_route(ContentKind::VideoH265), DataRoute::Media);
}

#[test]
fn packets_come_out_in_order_and_late_ones_do_not() {
    let mut buffer = JitterBuffer::new(0);
    buffer.push(packet(96, 1, 65_535));
    buffer.push(packet(96, 1, 1));
    assert_eq!(buffer.pop().unwrap().header.sequence_number, 65_535);
    assert!(buffer.pop().is_none());
    buffer.push(packet(96, 1, 0));
    assert_eq!(buffer.pop().unwrap().header.sequence_number, 0);
    assert_eq!(buffer.pop().unwrap().header.sequence_number, 1);
    buffer.push(packet(96, 1, 0));
    assert!(buffer.pop().is_none());
    // A missing packet is given up once enough others wait.
    for number in 3..=18 {
        assert!(buffer.pop().is_none());
        buffer.push(packet(96, 1, number));
    }
    assert_eq!(buffer.pop().unwrap().header.sequence_number, 3);
    // A jump starts anew.
    buffer.push(packet(96, 1, 9_000));
    let numbers: Vec<u16> = buffer
        .drain()
        .iter()
        .map(|packet| packet.header.sequence_number)
        .collect();
    assert_eq!(numbers, vec![9_000]);
}

#[test]
fn packets_that_wait_are_drained_in_order() {
    let mut buffer = JitterBuffer::new(0);
    for number in [65_534, 1, 0, 65_535, 0, 3] {
        buffer.push(packet(96, 1, number));
    }
    let numbers: Vec<u16> = buffer
        .drain()
        .iter()
        .map(|packet| packet.header.sequence_number)
        .collect();
    assert_eq!(numbers, vec![65_534, 65_535, 0, 1]);
    buffer.push(packet(96, 1, 2));
    assert_eq!(buffer.drain().len(), 2);
}

#[test]
fn tracks_single_file_progress_and_completion() {
    let mut state = TransferCenterState::default();
    state.apply_event(&FileTransferEvent::OutgoingStarted {
        transfer_id: 1,
        file_object_id: 2,
        group: None,
        name: "movie.mov".to_string(),
        size_bytes: 100,
        total_chunks: 4,
    });
    state.apply_event(&FileTransferEvent::OutgoingProgress {
        transfer_id: 1,
        file_object_id: 2,
        sent_chunks: 2,
        total_chunks: 4,
        sent_bytes: 50,
        total_size: 100,
    });
    state.apply_event(&FileTransferEvent::OutgoingCompleted {
        transfer_id: 1,
        file_object_id: 2,
        group: None,
    });

    let entries = state.snapshots();
    assert_eq!(entries.len(), 1);
    assert_eq!(entries[0].label, "movie.mov");
    assert_eq!(entries[0].status, TransferStatus::Completed);
    let (done, all) = entries[0].progress();
    assert_eq!(done as f32 / all as f32, 1.0);
    assert_eq!(entries[0].cancel_target, None);
}

#[test]
fn aggregates_group_progress_and_cancellation() {
    let mut state = TransferCenterState::default();
    let group = FileTransferGroup {
        group_id: 7,
        file_index: 0,
        file_count: 2,
        relative_path: "Folder/a.txt".to_string(),
        group_total_size_bytes: 300,
        group_checksum_crc32: 0,
    };
    state.apply_event(&FileTransferEvent::OutgoingGroupStarted {
        group_id: 7,
        file_count: 2,
        total_size_bytes: 300,
    });
    state.apply_event(&FileTransferEvent::OutgoingStarted {
        transfer_id: 10,
        file_object_id: 11,
        group: Some(group.clone()),
        name: "a.txt".to_string(),
        size_bytes: 100,
        total_chunks: 1,
    });
    state.apply_event(&FileTransferEvent::OutgoingProgress {
        transfer_id: 10,
        file_object_id: 11,
        sent_chunks: 1,
        total_chunks: 1,
        sent_bytes: 100,
        total_size: 100,
    });
    state.apply_event(&FileTransferEvent::OutgoingGroupCancelled { group_id: 7 });

    let entries = state.snapshots();
    assert_eq!(entries.len(), 1);
    assert_eq!(entries[0].label, "Group #7");
    assert_eq!(entries[0].transferred_bytes, 100);
    assert_eq!(entries[0].total_bytes, 300);
    assert_eq!(entries[0].status, TransferStatus::Cancelled);
    assert_eq!(entries[0].cancel_target, None);
}

#[test]
fn exposes_running_cancel_targets() {
    let mut state = TransferCenterState::default();
    state.apply_event(&FileTransferEvent::IncomingStarted {
        transfer_id: 3,
        file_object_id: 4,
        group: None,
        name: "paste.bin".to_string(),
        size_bytes: 10,
        path: "/tmp/paste.bin".to_string(),
    });

    let entries = state.snapshots();
    assert_eq!(
        entries[0].cancel_target,
        Some(TransferCancelTarget::Transfer(3))
    );
    assert!(entries[0].is_running());
    assert_eq!(entries[0].direction, TransferDirection::Incoming);
}

#[test]
fn changed_transfer_comes_first_and_the_others_keep_their_order() {
    let mut state = TransferCenterState::default();
    let started = |transfer_id: u64| FileTransferEvent::OutgoingStarted {
        transfer_id,
        file_object_id: 0,
        group: None,
        name: format!("file {transfer_id}"),
        size_bytes: 10,
        total_chunks: 1,
    };
    for transfer_id in 1..=4 {
        state.apply_event(&started(transfer_id));
    }
    let labels = |state: &TransferCenterState| -> Vec<String> {
        state.snapshots().iter().map(|row| row.label.clone()).collect()
    };
    assert_eq!(labels(&state), vec!["file 4", "file 3", "file 2", "file 1"]);
    let copy = state.clone();
    state.apply_event(&FileTransferEvent::OutgoingProgress {
        transfer_id: 2,
        file_object_id: 0,
        sent_chunks: 1,
        total_chunks: 1,
        sent_bytes: 5,
        total_size: 10,
    });
    assert_eq!(labels(&state), vec!["file 2", "file 4", "file 3", "file 1"]);
    assert_eq!(labels(&state), labels(&state));
    assert_eq!(labels(&copy), vec!["file 4", "file 3", "file 2", "file 1"]);
    // One that nobody knows changes nothing.
    let before = state.snapshots();
    state.apply_event(&FileTransferEvent::IncomingGroupCancelled { group_id: 9 });
    assert_eq!(state.snapshots(), before);
    state.apply_event(&FileTransferEvent::Error {
        transfer_id: Some(3),
        message: "gone".to_string(),
    });
    assert_eq!(labels(&state), vec!["file 3", "file 2", "file 4", "file 1"]);
    assert_eq!(state.snapshots()[0].detail, "gone");
}

#[test]
fn newest_transfers_come_first_and_errors_explain_themselves() {
    let mut state = TransferCenterState::default();
    for id in 1..=3 {
        state.apply_event(&FileTransferEvent::OutgoingStarted {
            transfer_id: id,
            file_object_id: id,
            group: None,
            name: format!("file-{id}"),
            size_bytes: 0,
            total_chunks: 0,
        });
    }
    let error = FileTransferEvent::Error {
        transfer_id: Some(1),
        message: "disk full".to_string(),
    };
    assert!(state.sums_fit(&error));
    state.apply_event(&error);
    let entries = state.snapshots();
    assert_eq!(entries.len(), 3);
    assert_eq!(entries[0].label, "file-1");
    assert_eq!(entries[0].status, TransferStatus::Error);
    assert_eq!(entries[0].detail, "disk full");
    assert_eq!(entries[0].progress(), (0, 1));
    assert_eq!(entries[1].label, "file-3");
    assert_eq!(entries[2].label, "file-2");
}

#[test]
fn switches_are_on_for_a_few_words_only() {
    for word in ["1", "true", "TRUE", "yes", "YES"] {
        assert!(env_flag_enabled(Some(word)));
    }
    for word in ["", "0", "True", "on", " 1"] {
        assert!(!env_flag_or(Some(word), true));
    }
    assert!(env_flag_or(None, true));
    assert!(!env_flag_enabled(None));
}

#[test]
fn services_follow_the_switches() {
    let off = FeatureSwitches {
        file_transfer: false,
        file_clipboard: false,
        send_file: false,
        clipboard_sync: false,
        talkback: false,
    };
    let send = FeatureSwitches { send_file: true, ..off };
    assert!(host_capabilities(send).file_transfer);
    assert!(host_capabilities(off).can_stream);
    assert!(!viewer_capabilities(send).file_transfer);
    assert!(viewer_capabilities(FeatureSwitches { file_clipboard: true, ..off }).file_transfer);
    assert!(viewer_services(send).files);
    assert!(!viewer_services(off).files);
    assert_eq!(discovery_scope(true), DiscoveryScope::Mesh);
    assert_eq!(discovery_scope(false), DiscoveryScope::Lan);
    assert_eq!(media_status(Ok(())), ClientMediaRuntimeStatus::Ready);
    assert_eq!(
        media_status(Err("no device".to_string())),
        ClientMediaRuntimeStatus::AudioUnavailable { reason: "no device".to_string() }
    );
    assert!(!reports_decode_error("No frame data or session not ready"));
    assert!(reports_decode_error("decoder lost"));
}

#[test]
fn clipboard_runs_with_one_host_at_a_time() {
    let (a, b) = (v4([10, 0, 0, 1], 1), v4([10, 0, 0, 2], 1));
    let mut control = ClipboardRuntimeControl::new();
    assert!(!control.routes_inbound());
    assert_eq!(control.start(a), ServiceStep { cancel: false, launch: Some(a) });
    assert_eq!(control.start(a), ServiceStep { cancel: false, launch: None });
    assert_eq!(control.start(b), ServiceStep { cancel: true, launch: Some(b) });
    assert!(control.routes_inbound());
    assert_eq!(control.stop(), ServiceStep { cancel: true, launch: None });
    assert_eq!(control.stop(), ServiceStep { cancel: false, launch: None });
}

#[test]
fn talkback_keeps_its_settings_between_runs() {
    let host = v4([10, 0, 0, 1], 1);
    let mut control = TalkbackRuntimeControl::new();
    let muted = TalkbackCaptureSettings {
        local_mic_muted: true,
        ..TalkbackCaptureSettings::default()
    };
    assert_eq!(control.set_settings(muted).forward, None);
    let step = control.start(host, 5);
    assert_eq!(step.launch, Some((host, 5, muted)));
    assert!(!step.cancel);
    assert_eq!(
        control.set_settings(TalkbackCaptureSettings::default()).forward,
        Some(TalkbackCaptureSettings::default())
    );
    assert!(control.start(host, 6).cancel);
    assert!(control.stop().cancel);
    assert!(matches!(
        AudioPlaybackControl {}.set_settings(AudioPlayerSettings::default()),
        AudioPlayerEvent::Settings(settings) if settings == AudioPlayerSettings::default()
    ));
}

#[test]
fn file_transfer_passes_commands_on_while_it_runs() {
    let host = v4([10, 0, 0, 1], 1);
    let mut control = FileTransferRuntimeControl::new(FileTransferRuntimeSettings::from_env(
        None,
        "/tmp/usual".to_string(),
        Some("yes"),
    ));
    assert_eq!(control.receive_dir(), "/tmp/usual");
    assert!(control.allow_overwrite());
    let refused = control.send_file("a.txt".to_string(), None);
    assert!(refused.forward.is_none());
    assert_eq!(
        refused.complaint,
        Some("File transfer send requested before an active target was selected")
    );
    assert_eq!(
        control.send_file_group(vec![]).complaint,
        Some("File transfer group send requested before an active target was selected")
    );
    let step = control.start(host, Some("first.txt".to_string()));
    assert_eq!(step.launch.unwrap().0, host);
    assert!(matches!(
        step.forward,
        Some(FileTransferCommand::SendFile { path, mime_type: None }) if path == "first.txt"
    ));
    assert!(matches!(
        control.cancel_group(4).forward,
        Some(FileTransferCommand::CancelGroup { group_id: 4 })
    ));
    assert!(matches!(
        control.cancel(TransferCancelTarget::Transfer(5)).forward,
        Some(FileTransferCommand::CancelTransfer { transfer_id: 5 })
    ));
    let step = control.set_receive_dir("/tmp/other".to_string());
    assert!(matches!(
        step.forward,
        Some(FileTransferCommand::SetReceiveConfig(config)) if config.receive_dir == "/tmp/other"
    ));
    assert!(control.set_allow_overwrite(false).forward.is_some());
    assert!(control.record_event(&FileTransferEvent::OutgoingGroupStarted {
        group_id: 1,
        file_count: 2,
        total_size_bytes: 3,
    }));
    assert_eq!(control.transfer_snapshot().len(), 1);
    assert!(control.stop().cancel);
    assert!(!control.routes_inbound());
    assert!(control.cancel_transfer(4).forward.is_none());
}

#[test]
fn reports_read_as_lines_of_the_log() {
    let line = |event: FileTransferEvent| event.log_line("Viewer");
    assert_eq!(
        line(FileTransferEvent::OutgoingGroupStarted {
            group_id: 7,
            file_count: 2,
            total_size_bytes: 300,
        }),
        Some(LogLine {
            text: "Viewer FileTx | outgoing group #7 started: 2 files, 300 bytes".to_string(),
            error: false,
        })
    );
    assert_eq!(
        line(FileTransferEvent::IncomingStarted {
            transfer_id: 3,
            file_object_id: 4,
            group: None,
            name: "paste.bin".to_string(),
            size_bytes: 10,
            path: "/tmp/paste.bin".to_string(),
        })
        .unwrap()
        .text,
        "Viewer FileTx | incoming #3 started: paste.bin (10 bytes) -> /tmp/paste.bin"
    );
    assert_eq!(
        line(FileTransferEvent::IncomingProgress {
            transfer_id: 3,
            file_object_id: 4,
            received_chunks: 1,
            total_chunks: 2,
            received_bytes: 5,
            total_size: 10,
        })
        .unwrap()
        .text,
        "Viewer FileTx | incoming #3: 1/2 chunks, 5/10 bytes"
    );
    assert_eq!(
        line(FileTransferEvent::Error { transfer_id: Some(9), message: "gone".to_string() }),
        Some(LogLine { text: "Viewer FileTx | error Some(9): gone".to_string(), error: true })
    );
    assert_eq!(
        line(FileTransferEvent::Error { transfer_id: None, message: "gone".to_string() })
            .unwrap()
            .text,
        "Viewer FileTx | error None: gone"
    );
    assert_eq!(line(FileTransferEvent::IncomingClipboardReady { paths: vec![] }), None);
    assert_eq!(
        DiscoveryEvent::PeerSeen {
            display_name: "Desk".to_string(),
            endpoint: "10.0.0.2:9000".to_string(),
            device_id: "node-1".to_string(),
        }
        .log_line("Host"),
        LogLine {
            text: "Host Discovery | peer Desk at 10.0.0.2:9000 (node-1)".to_string(),
            error: false,
        }
    );
    assert_eq!(
        DiscoveryEvent::Snapshot { count: 3 }.log_line("Host").text,
        "Host Discovery | 3 peer(s)"
    );
    assert!(DiscoveryEvent::Error("no socket".to_string()).log_line("Host").error);
}

#[test]
fn white_space_is_what_unicode_says() {
    for number in 0..=0x11_0000u32 {
        if let Some(character) = char::from_u32(number) {
            if character == ',' {
                continue;
            }
            let trimmed = host_candidates(&character.to_string());
            assert_eq!(trimmed[0].is_empty(), character.is_whitespace());
        }
    }
}
