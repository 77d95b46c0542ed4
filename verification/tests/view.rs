//! The viewer's window.
use remote_play::client::labels::{
    ConfiguredHost, DiscoveredPeer, MeshHealth, MeshHealthState, PickedFiles, compact_device_id,
    compact_path, control_fill, device_rows, format_bytes, host_badge, mesh_status_color,
    mesh_status_text, pairing_message_color, picked_files, toggle_fill, transfer_row,
    transfer_status_color, transfer_status_text,
};
use remote_play::client::mesh_pairing::MeshPairingMessageKind;
use remote_play::client::panel::Button;
use remote_play::client::runtime::DiscoveryScope;
use remote_play::client::transfer_center::{
    TransferCancelTarget, TransferDirection, TransferEntrySnapshot, TransferStatus,
};
use remote_play::client::view::{
    RemotePlayView, ServiceSwitch, StreamMessage, StreamPreset, StreamTarget, TalkbackMode,
    TalkbackSwitch, ClientRuntimeControls, ViewState, render_floor, rendered,
};
use remote_play::host::service::PeerAddr;
use remote_play::protocol::{AudioControlTarget, ControlMessage, FrameTimingCheckpoints};

fn v4(ip: u128, port: u16) -> PeerAddr {
    PeerAddr { is_v6: false, ip, port, flow_info: 0, scope_id: 0 }
}

fn all() -> ClientRuntimeControls {
    ClientRuntimeControls { clipboard: true, file_transfer: true, talkback: true }
}

#[test]
fn connecting_starts_services_and_asks_for_a_stream() {
    let host = v4(0x0a00_0001, 7);
    let mut view = RemotePlayView::new(all(), 0);
    assert_eq!(view.heartbeat_target(), None);
    assert!(!view.takes_frame());
    let step = view.connect(host, 500);
    assert_eq!(view.state, ViewState::Streaming);
    assert_eq!(view.heartbeat_target(), Some(host));
    assert_eq!(step.clipboard, ServiceSwitch::Start(host));
    assert_eq!(step.files, ServiceSwitch::Start(host));
    assert_eq!(
        step.talkback,
        TalkbackSwitch::Start(view.talkback_capture_settings(), host, view.session_id)
    );
    assert_eq!(
        step.stream.unwrap().to_message(),
        ControlMessage::StartStream {
            width: 1920,
            height: 1080,
            fps: 60,
            bitrate_kbps: 8_000,
            session_id: view.session_id,
        }
    );
    assert!(view.shows_panel_button(3_499));
    assert!(!view.shows_panel_button(3_500));
    let step = view.disconnect();
    assert_eq!(step.stream, Some(StreamMessage::Stop));
    assert_eq!(step.stream.unwrap().to_message(), ControlMessage::StopStream);
    assert_eq!(step.clipboard, ServiceSwitch::Stop);
    assert_eq!(step.talkback, TalkbackSwitch::Stop);
    assert_eq!(view.session_id, 0);
    assert_eq!(view.talkback_playback_control_message(), None);
}

#[test]
fn sessions_have_numbers_that_are_drawn() {
    let mut view = RemotePlayView::new(all(), 0);
    let numbers: Vec<u32> = (0..8)
        .map(|_| {
            view.request_stream(v4(1, 1));
            view.session_id
        })
        .collect();
    assert!(numbers.iter().any(|number| *number != numbers[0]));
}

#[test]
fn presets_change_one_thing_each() {
    let mut view = RemotePlayView::new(all(), 0);
    view.choose_preset(StreamPreset::Size4k);
    view.choose_preset(StreamPreset::Fps30);
    let step = view.choose_preset(StreamPreset::Rate20m);
    let target = StreamTarget { width: 3840, height: 2160, fps: 30, bitrate_kbps: 20_000 };
    assert_eq!(view.target, target);
    assert!(view.target.is_chosen(StreamPreset::Size4k));
    assert!(!view.target.is_chosen(StreamPreset::Fps60));
    assert_eq!(
        step.stream,
        Some(StreamMessage::Start { target, session_id: view.session_id })
    );
}

#[test]
fn panel_switches_reach_the_player() {
    let mut view = RemotePlayView::new(all(), 0);
    assert!(view.toggle_system_mute().audio.unwrap().remote_system_muted);
    assert!(view.toggle_microphone_mute().audio.unwrap().remote_microphone_muted);
    for _ in 0..15 {
        view.change_volume(true);
    }
    assert_eq!(view.audio_playback_settings().volume_percent, 200);
    for _ in 0..25 {
        view.change_volume(false);
    }
    assert_eq!(view.audio_playback_settings().volume_percent, 0);
    view.toggle_stats();
    view.toggle_panel();
    assert!(view.show_stats && view.show_panel);
    view.pointer_moved(9);
    assert_eq!(view.last_pointer_ms, 9);
}

#[test]
fn talk_button_counts_only_where_talking_takes_it() {
    let mut view = RemotePlayView::new(all(), 0);
    view.request_stream_as(v4(1, 1), 5);
    let before = view;
    assert_eq!(view.press_to_talk().talkback, TalkbackSwitch::Keep);
    assert_eq!(view, before);
    let step = view.set_talkback_mode(TalkbackMode::PushToTalk);
    assert!(matches!(step.talkback, TalkbackSwitch::Start(settings, _, 5) if settings.push_to_talk));
    let up = view;
    let pressed = view.press_to_talk();
    assert!(matches!(
        pressed.talkback,
        TalkbackSwitch::Adjust(settings) if settings.should_transmit()
    ));
    let released = view.release_to_talk();
    assert!(matches!(
        released.talkback,
        TalkbackSwitch::Adjust(settings) if !settings.should_transmit()
    ));
    assert_eq!(view, up);
    assert_eq!(view.release_to_talk().talkback, TalkbackSwitch::Keep);
    assert_eq!(
        view.set_talkback_mode(TalkbackMode::Off).talkback,
        TalkbackSwitch::Stop
    );
    assert!(matches!(
        view.toggle_local_microphone().talkback,
        TalkbackSwitch::Adjust(settings) if settings.local_mic_muted
    ));
}

#[test]
fn host_is_told_how_to_play_the_viewer() {
    let mut view = RemotePlayView::new(all(), 0);
    assert_eq!(view.toggle_peer_mute().playback, None);
    view.request_stream_as(v4(1, 1), 5);
    let step = view.change_peer_volume(true);
    assert_eq!(
        step.playback.unwrap().to_message(),
        ControlMessage::AudioControl {
            session_id: 5,
            target: AudioControlTarget::ViewerTalkbackPlayback,
            muted: true,
            volume_percent: 110,
        }
    );
    assert_eq!(
        view.change_peer_volume(false).playback.unwrap().volume_percent,
        100
    );
}

#[test]
fn drawing_is_timed_from_the_latest_moment() {
    let mut timing = FrameTimingCheckpoints::new(0);
    assert_eq!(render_floor(&timing), None);
    assert_eq!(rendered(timing, 9), timing);
    timing.capture_ts_us = 1;
    timing.decode_done_ts_us = 5;
    timing.jitter_exit_ts_us = 7;
    timing.recv_ts_us = 6;
    assert_eq!(render_floor(&timing), Some(7));
    let drawn = rendered(timing, 9);
    assert_eq!((drawn.render_submit_ts_us, drawn.render_done_ts_us), (9, 9));
}

#[test]
fn discovered_devices_come_first_and_hosts_once() {
    let peer = |ip: u128, can_stream: bool, control_port: u16, scope: DiscoveryScope| {
        DiscoveredPeer {
            endpoint: v4(ip, 9),
            endpoint_text: format!("10.0.0.{ip}:9"),
            display_name: format!("peer {ip}"),
            can_stream,
            control_port,
            scope,
        }
    };
    let host = |ip: u128| ConfiguredHost { addr: v4(ip, 9), text: format!("host {ip}") };
    let rows = device_rows(
        &vec![
            peer(1, true, 9, DiscoveryScope::Lan),
            peer(2, false, 9, DiscoveryScope::Lan),
            peer(3, true, 0, DiscoveryScope::Mesh),
            peer(4, true, 9, DiscoveryScope::Relay),
        ],
        &vec![host(1), host(0x7f00_0001), host(5), host(5)],
    );
    let shown: Vec<(&str, &str)> = rows
        .iter()
        .map(|row| (row.title.as_str(), row.badge.as_str()))
        .collect();
    assert_eq!(
        shown,
        vec![
            ("peer 1", "LAN discovery · 10.0.0.1:9"),
            ("peer 4", "Relay discovery · 10.0.0.4:9"),
            ("host 2130706433", "Local endpoint"),
            ("host 5", "Configured endpoint"),
        ]
    );
    let six = PeerAddr { is_v6: true, ip: 1, port: 1, flow_info: 0, scope_id: 0 };
    assert_eq!(host_badge(six), "Local endpoint");
    assert_eq!(host_badge(PeerAddr { ip: 2, ..six }), "Configured endpoint");
}

#[test]
fn mesh_health_reads_as_a_line() {
    let health = |state: MeshHealthState, needs_admin: bool, ip: Option<&str>| MeshHealth {
        state,
        needs_admin,
        virtual_ip: ip.map(String::from),
    };
    assert_eq!(
        mesh_status_text(&health(MeshHealthState::Ready, false, Some("10.1.1.1"))),
        "Mesh ready · 10.1.1.1"
    );
    assert_eq!(
        mesh_status_text(&health(MeshHealthState::Ready, false, None)),
        "Mesh ready · virtual IP pending"
    );
    assert_eq!(
        mesh_status_text(&health(MeshHealthState::Ready, true, None)),
        "Mesh needs admin setup"
    );
    assert_eq!(
        mesh_status_text(&health(MeshHealthState::Stopped, false, None)),
        "Mesh stopped"
    );
    assert_eq!(mesh_status_color(MeshHealthState::Starting), 0xd49a3a);
    assert_eq!(pairing_message_color(MeshPairingMessageKind::Error), 0xd65f5f);
    assert_eq!(control_fill(true), 0x2563eb);
    assert_eq!(toggle_fill(false), 0x57343d);
}

#[test]
fn long_texts_are_shortened() {
    assert_eq!(compact_device_id("12345678"), "12345678");
    assert_eq!(compact_device_id("123456789"), "12345678...");
    assert_eq!(compact_device_id("12345\u{20ac}9"), "12345\u{20ac}...");
    assert_eq!(compact_path("/tmp/receive", 12), "/tmp/receive");
    assert_eq!(compact_path("/tmp/receive", 8), "...ceive");
    assert_eq!(compact_path("/tmp/receive", 3), "/tmp/receive");
    assert_eq!(compact_path("\u{e4}\u{f6}\u{fc}\u{df}\u{e9}", 4), "...\u{e9}");
}

#[test]
fn running_transfers_alone_can_be_ended() {
    let entry = |status: TransferStatus, detail: &str| TransferEntrySnapshot {
        direction: TransferDirection::Incoming,
        label: "movie.mov".to_string(),
        detail: detail.to_string(),
        transferred_bytes: 1,
        total_bytes: 2,
        status,
        cancel_target: Some(TransferCancelTarget::Transfer(4)),
    };
    let row = transfer_row(&entry(TransferStatus::Running, ""), 3);
    assert_eq!(row.id, "transfer-entry-3");
    assert_eq!(row.title, "Receive movie.mov");
    assert_eq!(row.detail, "1 B / 2 B");
    assert_eq!(row.status, "Running");
    assert_eq!(row.cancel, Some(TransferCancelTarget::Transfer(4)));
    let row = transfer_row(&entry(TransferStatus::Error, "disk full"), 0);
    assert_eq!(row.detail, "disk full | 1 B / 2 B");
    assert_eq!(row.status_color, 0xf38ba8);
    assert_eq!(row.cancel, None);
    assert_eq!(transfer_status_text(TransferStatus::Completed), "Done");
    assert_eq!(transfer_status_color(TransferStatus::Completed), 0xa6e3a1);
}

#[test]
fn amounts_of_bytes_are_written_to_a_tenth() {
    assert_eq!(format_bytes(0), "0 B");
    assert_eq!(format_bytes(1023), "1023 B");
    assert_eq!(format_bytes(1024), "1.0 KiB");
    assert_eq!(format_bytes(1536), "1.5 KiB");
    assert_eq!(format_bytes(1280), "1.2 KiB");
    assert_eq!(format_bytes(1792), "1.8 KiB");
    assert_eq!(format_bytes(1_048_575), "1024.0 KiB");
    assert_eq!(format_bytes(1_048_576), "1.0 MiB");
    assert_eq!(format_bytes(5 * 1_073_741_824 + 1), "5.0 GiB");
    for bytes in [
        1025,
        1331,
        1_363_148,
        1_887_437,
        987_654_321,
        9_007_199_254_740_993,
        1_152_921_504_665_893_931,
        u64::MAX - 1024,
        u64::MAX,
    ] {
        let (unit, name) = if bytes >= 1 << 30 {
            (1u64 << 30, "GiB")
        } else if bytes >= 1 << 20 {
            (1 << 20, "MiB")
        } else {
            (1 << 10, "KiB")
        };
        assert_eq!(
            format_bytes(bytes),
            format!("{:.1} {name}", bytes as f64 / unit as f64)
        );
    }
}

#[test]
fn one_file_goes_alone_and_several_as_a_group() {
    assert!(matches!(picked_files(vec![]), PickedFiles::Nothing));
    assert!(matches!(
        picked_files(vec!["a".to_string()]),
        PickedFiles::One(path) if path == "a"
    ));
    assert!(matches!(
        picked_files(vec!["a".to_string(), "b".to_string()]),
        PickedFiles::Group(paths) if paths.len() == 2
    ));
}

#[test]
fn panel_shows_what_is_switched_on() {
    let controls = ClientRuntimeControls { clipboard: false, file_transfer: true, talkback: true };
    let mut view = RemotePlayView::new(controls, 0);
    let host = view.host_addr;
    let none = Vec::new();
    assert_eq!(view.panel(&none, "/in", false), None);
    view.connect(host, 0);
    assert_eq!(view.panel(&none, "/in", false), None);
    view.toggle_panel();
    view.choose_preset(StreamPreset::Rate10m);
    view.toggle_system_mute();
    view.set_talkback_mode(TalkbackMode::PushToTalk);
    view.press_to_talk();
    view.change_peer_volume(false);
    let panel = view.panel(&none, "/in", true).unwrap();
    let lit: Vec<&str> = panel
        .presets
        .iter()
        .filter(|(_, button)| button.fill == 0x2563eb)
        .map(|(_, button)| button.text)
        .collect();
    assert_eq!(lit, vec!["1080p", "60 FPS", "10 Mbps"]);
    assert_eq!(panel.presets.len(), 8);
    assert_eq!(panel.system, Button { text: "System Muted", fill: 0x57343d });
    assert_eq!(panel.microphone, Button { text: "Remote Mic On", fill: 0x2f7d68 });
    assert_eq!(panel.volume, "Remote 100%");
    let talkback = panel.talkback.unwrap();
    assert_eq!(talkback.push, Button { text: "PTT", fill: 0x2563eb });
    assert_eq!(talkback.off, Button { text: "Off", fill: 0x242a33 });
    assert_eq!(talkback.hold, Button { text: "Hold", fill: 0x2563eb });
    assert_eq!(talkback.peer_volume, "Peer 90%");
    let files = panel.files.unwrap();
    assert_eq!(files.receive_dir, "/in");
    assert_eq!(files.overwrite, Button { text: "Overwrite On", fill: 0x2563eb });

    view.controls = ClientRuntimeControls { clipboard: false, file_transfer: false, talkback: false };
    let panel = view.panel(&none, "/in", true).unwrap();
    assert_eq!(panel.talkback, None);
    assert_eq!(panel.files, None);
}

#[test]
fn panel_shows_the_latest_transfers() {
    let controls = ClientRuntimeControls { clipboard: false, file_transfer: true, talkback: false };
    let mut view = RemotePlayView::new(controls, 0);
    let host = view.host_addr;
    view.connect(host, 0);
    view.toggle_panel();
    let entries: Vec<TransferEntrySnapshot> = (0..6)
        .map(|i| TransferEntrySnapshot {
            direction: TransferDirection::Outgoing,
            label: format!("file {i}"),
            detail: String::new(),
            transferred_bytes: 2048,
            total_bytes: 4096,
            status: TransferStatus::Running,
            cancel_target: Some(TransferCancelTarget::Group(i)),
        })
        .collect();
    let panel = view.panel(&entries, "/in", false).unwrap();
    assert_eq!(panel.transfers.len(), 4);
    assert_eq!(panel.transfers[3].id, "transfer-entry-3");
    assert_eq!(panel.transfers[3].title, "Send file 3");
    assert_eq!(panel.transfers[3].detail, "2.0 KiB / 4.0 KiB");
    assert_eq!(panel.transfers[3].cancel, Some(TransferCancelTarget::Group(3)));
}
