//! The host's control plane.
use remote_play::host::connection::{
    AudioGroupKey, Refusal, SourceChoice, StreamSettings, is_too_large, source_choices,
    stream_settings,
};
use remote_play::host::service::{
    DataTarget, HelloRefusal, HelloStep, HostAction, HostReply, HostService, MAX_AUTHENTICATED,
    MAX_CONNECTIONS, MessageContext, PeerAddr, HostServiceConfig, told_sources,
};
use remote_play::protocol::session::{
    CaptureSource, CaptureSourceInfo, MAX_SUBSCRIPTIONS, SESSION_VERSION, SessionCommand,
    SubscriptionRequest, fit_capture_size,
};
use remote_play::protocol::{AudioControlTarget, ContentKind, ControlMessage, InputEvent};

fn peer(port: u16) -> PeerAddr {
    PeerAddr { is_v6: false, ip: 0x0a00_0001, port, flow_info: 0, scope_id: 0 }
}

fn config() -> HostServiceConfig {
    HostServiceConfig {
        clipboard_sync: true,
        files: true,
        talkback: true,
        system_audio: true,
        window_capture: true,
    }
}

fn sources() -> Option<Vec<SourceChoice>> {
    Some(vec![
        SourceChoice {
            source: CaptureSource::MainDisplay,
            process_id: None,
            supports_input: true,
        },
        SourceChoice {
            source: CaptureSource::Window(5),
            process_id: Some(77),
            supports_input: false,
        },
    ])
}

fn at(now_ms: u64) -> MessageContext {
    MessageContext { now_ms, unix_ms: 1_000_000 + now_ms, valid_settings: true, sources: sources() }
}

fn request(id: u32, source: CaptureSource) -> SubscriptionRequest {
    SubscriptionRequest {
        id,
        source,
        width: 1280,
        height: 720,
        fps: 60,
        bitrate_kbps: 8_000,
        audio: true,
    }
}

fn session(host: &mut HostService, addr: PeerAddr, command: SessionCommand) -> Vec<HostAction> {
    host.handle_control(addr, &ControlMessage::Session(command), &at(0))
}

fn open(host: &mut HostService, addr: PeerAddr) -> Vec<HostAction> {
    session(
        host,
        addr,
        SessionCommand::Open { connection_id: 9, version: SESSION_VERSION },
    )
}

fn subscribe(
    host: &mut HostService,
    addr: PeerAddr,
    id: u32,
    source: CaptureSource,
) -> Vec<HostAction> {
    session(host, addr, SessionCommand::Subscribe(request(id, source)))
}

#[test]
fn fits_both_axes_for_portrait_landscape_and_odd_sizes() {
    assert_eq!(fit_capture_size((1080, 1920), (1920, 1080)), (606, 1080));
    assert_eq!(fit_capture_size((3440, 1440), (1280, 720)), (1280, 534));
    assert_eq!(fit_capture_size((913, 913), (1920, 1080)), (912, 912));
    assert_eq!(fit_capture_size((0, 0), (0, 0)), (2, 2));
}

#[test]
fn connections_open_by_version() {
    let mut host = HostService::new(config(), false, false);
    let refused = session(
        &mut host,
        peer(1),
        SessionCommand::Open { connection_id: 9, version: 1 },
    );
    assert_eq!(
        refused,
        vec![HostAction::Reply(HostReply::Refused {
            request_id: 9,
            refusal: Refusal::UnsupportedVersion,
        })]
    );
    assert!(host.peer(peer(1)).is_none());
    assert_eq!(
        open(&mut host, peer(1)),
        vec![HostAction::Reply(HostReply::Opened {
            connection_id: 9,
            files: true,
            clipboard: true,
            window_capture: true,
        })]
    );
    assert_eq!(host.peer(peer(1)).unwrap().id(), 9);
    assert_eq!(
        session(
            &mut host,
            peer(1),
            SessionCommand::Open { connection_id: 10, version: SESSION_VERSION },
        ),
        vec![HostAction::Reply(HostReply::Refused {
            request_id: 10,
            refusal: Refusal::ConnectionOpen,
        })]
    );
    assert!(session(&mut host, peer(1), SessionCommand::Close { connection_id: 9 }).is_empty());
    assert!(host.peer_addrs().is_empty());
}

#[test]
fn connections_and_subscriptions_are_bounded() {
    let mut host = HostService::new(config(), false, false);
    for port in 0..MAX_CONNECTIONS as u16 {
        open(&mut host, peer(port));
    }
    assert_eq!(
        open(&mut host, peer(99)),
        vec![HostAction::Reply(HostReply::Refused {
            request_id: 9,
            refusal: Refusal::TooManyConnections,
        })]
    );
    assert_eq!(host.peer_addrs().len(), MAX_CONNECTIONS);
    for id in 1..=MAX_SUBSCRIPTIONS as u32 {
        let replies = subscribe(&mut host, peer(0), id * 1_000, CaptureSource::Window(5));
        assert!(matches!(replies[0], HostAction::Reply(HostReply::Subscribed(_))));
    }
    assert_eq!(
        subscribe(&mut host, peer(0), 50_000, CaptureSource::Window(5)),
        vec![HostAction::Reply(HostReply::Refused {
            request_id: 50_000,
            refusal: Refusal::TooManySubscriptions,
        })]
    );
}

#[test]
fn strangers_are_asked_to_authenticate() {
    let mut host = HostService::new(config(), true, true);
    assert_eq!(
        open(&mut host, peer(1)),
        vec![HostAction::Reply(HostReply::AuthenticateFirst)]
    );
    assert!(host.peer(peer(1)).is_none());
    assert_eq!(host.hello(peer(1), 5, false), HelloStep::Refuse(HelloRefusal::BadProof));
    assert_eq!(host.hello(peer(1), 5, true), HelloStep::Install);
    host.authenticate(peer(1), 5, 6, 1_000_000);
    assert_eq!(
        host.hello(peer(1), 5, true),
        HelloStep::Repeat { salt: 6, timestamp_ms: 1_000_000 }
    );
    open(&mut host, peer(1));
    assert!(host.peer(peer(1)).is_some());
    assert_eq!(
        host.hello(peer(1), 7, true),
        HelloStep::Refuse(HelloRefusal::ConnectionOpen)
    );
    assert_eq!(host.rekey(true, true), vec![peer(1)]);
    assert!(host.peer(peer(1)).is_none());
    for port in 0..MAX_AUTHENTICATED as u16 {
        host.authenticate(peer(port), 1, 2, 3);
    }
    assert_eq!(host.hello(peer(99), 1, true), HelloStep::Refuse(HelloRefusal::TooMany));
    let keyless = HostService::new(config(), false, false);
    assert_eq!(
        keyless.hello(peer(1), 1, true),
        HelloStep::Refuse(HelloRefusal::NoKey)
    );
    assert_eq!(
        HelloRefusal::NoKey.message("x"),
        "host has no session PSK configured"
    );
    assert_eq!(HelloRefusal::BadProof.message("stale"), "stale");
}

#[test]
fn subscriptions_are_refused_for_a_reason() {
    let mut host = HostService::new(config(), false, false);
    assert_eq!(
        subscribe(&mut host, peer(1), 1_000, CaptureSource::MainDisplay),
        vec![HostAction::Reply(HostReply::Refused {
            request_id: 1_000,
            refusal: Refusal::NotOpen,
        })]
    );
    open(&mut host, peer(1));
    let refusal = |actions: Vec<HostAction>| match actions[..] {
        [HostAction::Reply(HostReply::Refused { refusal, .. })] => refusal,
        ref other => panic!("unexpected actions: {other:?}"),
    };
    assert_eq!(
        refusal(subscribe(&mut host, peer(1), 1_000, CaptureSource::Window(6))),
        Refusal::SourceGone
    );
    let mut large = request(1_000, CaptureSource::MainDisplay);
    large.width = 20_000;
    large.height = 20_000;
    assert_eq!(
        refusal(session(&mut host, peer(1), SessionCommand::Subscribe(large))),
        Refusal::TooLarge
    );
    let invalid = MessageContext { valid_settings: false, ..at(0) };
    assert_eq!(
        refusal(host.handle_control(
            peer(1),
            &ControlMessage::Session(SessionCommand::Subscribe(request(
                1_000,
                CaptureSource::MainDisplay
            ))),
            &invalid,
        )),
        Refusal::InvalidSettings
    );
    let blind = MessageContext { sources: None, ..at(0) };
    assert_eq!(
        refusal(host.handle_control(
            peer(1),
            &ControlMessage::Session(SessionCommand::ListSources { request_id: 3 }),
            &blind,
        )),
        Refusal::SourcesUnknown
    );
    subscribe(&mut host, peer(1), 1_000, CaptureSource::MainDisplay);
    session(&mut host, peer(1), SessionCommand::Unsubscribe { id: 1_000 });
    assert_eq!(
        refusal(subscribe(&mut host, peer(1), 1_000, CaptureSource::MainDisplay)),
        Refusal::Retired
    );
    assert!(is_too_large(20_000, 20_000));
    assert!(!is_too_large(3_840, 2_160));
}

#[test]
fn input_is_held_by_one_subscription() {
    let mut host = HostService::new(config(), false, false);
    for port in 1..=2 {
        open(&mut host, peer(port));
        subscribe(&mut host, peer(port), 1_000, CaptureSource::MainDisplay);
    }
    let event = InputEvent::MouseDown(0);
    let input = |host: &mut HostService, port: u16| {
        session(host, peer(port), SessionCommand::Input { id: 1_000, event })
    };
    assert_eq!(
        input(&mut host, 1),
        vec![HostAction::ReleaseAllInput, HostAction::InjectInput(event)]
    );
    assert_eq!(input(&mut host, 1), vec![HostAction::InjectInput(event)]);
    assert_eq!(
        input(&mut host, 2),
        vec![HostAction::ReleaseAllInput, HostAction::InjectInput(event)]
    );
    // Whoever leaves lets everything go.
    assert_eq!(
        host.handle_control(peer(2), &ControlMessage::StopStream, &at(0)),
        vec![HostAction::ReleaseAllInput]
    );
    assert_eq!(input(&mut host, 2), vec![]);
    // A window takes no input.
    subscribe(&mut host, peer(1), 2_000, CaptureSource::Window(5));
    assert!(!host.can_input(peer(1), 2_000));
    assert!(host.can_input(peer(1), 1_000));
    assert_eq!(
        session(&mut host, peer(1), SessionCommand::ReleaseInput { id: 1_000 }),
        vec![HostAction::Reply(HostReply::InputReleased { id: 1_000 })]
    );
}

#[test]
fn clipboard_is_shared_with_one_viewer() {
    let mut host = HostService::new(config(), false, false);
    for port in 1..=2 {
        open(&mut host, peer(port));
        assert_eq!(
            session(&mut host, peer(port), SessionCommand::SetClipboard { enabled: true }),
            vec![HostAction::Reply(HostReply::ClipboardState { enabled: true })]
        );
    }
    assert_eq!(host.handle_data(peer(1), ContentKind::ClipboardBundle, 0), None);
    assert_eq!(
        host.handle_data(peer(2), ContentKind::ClipboardBundle, 0),
        Some(DataTarget::Clipboard)
    );
    assert_eq!(
        host.handle_data(peer(1), ContentKind::FileChunk, 0),
        Some(DataTarget::Files)
    );
    assert_eq!(
        host.handle_data(peer(1), ContentKind::AudioOpus, 0),
        Some(DataTarget::Talkback)
    );
    assert_eq!(host.handle_data(peer(9), ContentKind::FileChunk, 0), None);
}

#[test]
fn silent_connections_are_dropped() {
    let mut host = HostService::new(config(), false, false);
    open(&mut host, peer(1));
    open(&mut host, peer(2));
    host.handle_control(peer(2), &ControlMessage::Heartbeat, &at(10_000));
    assert_eq!(host.sweep(15_000, 1_015_000), vec![]);
    assert_eq!(host.sweep(15_001, 1_015_001), vec![peer(1)]);
    assert_eq!(host.peer_addrs(), vec![peer(2)]);
}

#[test]
fn late_settings_are_passed_over() {
    let mut host = HostService::new(config(), false, false);
    open(&mut host, peer(1));
    subscribe(&mut host, peer(1), 1_000, CaptureSource::MainDisplay);
    let configure = |host: &mut HostService, revision: u64, fps: u32| {
        session(
            host,
            peer(1),
            SessionCommand::Configure {
                id: 1_000,
                revision,
                width: 640,
                height: 480,
                fps,
                bitrate_kbps: 500,
            },
        )
    };
    assert_eq!(
        configure(&mut host, 4, 30),
        vec![HostAction::Reply(HostReply::Configured { id: 1_000, revision: 4 })]
    );
    assert_eq!(
        configure(&mut host, 3, 15),
        vec![HostAction::Reply(HostReply::Configured { id: 1_000, revision: 4 })]
    );
    let settings = host.subscription(peer(1), 1_000).unwrap().settings;
    assert_eq!(
        settings,
        StreamSettings { width: 640, height: 480, fps: 30, bitrate_kbps: 500, paused: false }
    );
}

#[test]
fn activity_pauses_media_and_resuming_asks_for_a_keyframe() {
    let mut host = HostService::new(config(), false, false);
    open(&mut host, peer(1));
    subscribe(&mut host, peer(1), 1_000, CaptureSource::MainDisplay);
    host.take_keyframe(peer(1), 1_000);
    let pause = |host: &mut HostService, revision: u64, paused: bool| {
        host.handle_control(
            peer(1),
            &ControlMessage::SetMediaPaused { session_id: 1_000, revision, paused },
            &at(0),
        )
    };
    assert_eq!(
        pause(&mut host, 5, true),
        vec![HostAction::Reply(HostReply::MediaPauseState {
            session_id: 1_000,
            revision: 5,
            paused: true,
        })]
    );
    assert!(host.subscription(peer(1), 1_000).unwrap().settings.paused);
    assert_eq!(
        pause(&mut host, 4, false),
        vec![HostAction::Reply(HostReply::MediaPauseState {
            session_id: 1_000,
            revision: 5,
            paused: true,
        })]
    );
    pause(&mut host, 6, false);
    assert!(host.take_keyframe(peer(1), 1_000));
    assert!(!host.take_keyframe(peer(1), 1_000));
    host.handle_control(
        peer(1),
        &ControlMessage::RequestKeyframe { session_id: 1_000 },
        &at(0),
    );
    assert!(host.take_keyframe(peer(1), 1_000));
}

#[test]
fn audio_is_captured_once_for_all_who_want_it() {
    let mut host = HostService::new(config(), false, false);
    open(&mut host, peer(1));
    subscribe(&mut host, peer(1), 1_000, CaptureSource::MainDisplay);
    subscribe(&mut host, peer(1), 2_000, CaptureSource::Window(5));
    let connection = host.peer(peer(1)).unwrap();
    assert!(!connection.audio_group_keys().is_empty());
    for key in connection.audio_group_keys() {
        let group = connection.audio_group(key).unwrap();
        assert!(connection.subscription(group.owner).is_some());
        assert!(matches!(key, AudioGroupKey::System | AudioGroupKey::Application(77)));
    }
    host.finish_streams(peer(1), &vec![1_000]);
    assert!(host.subscription(peer(1), 1_000).is_none());
    assert!(!host.settle_input());
}

#[test]
fn old_streams_replace_each_other() {
    let mut host = HostService::new(config(), false, false);
    let start = |host: &mut HostService, session_id: u32| {
        host.handle_control(
            peer(1),
            &ControlMessage::StartStream {
                width: 1920,
                height: 1080,
                fps: 60,
                bitrate_kbps: 8_000,
                session_id,
            },
            &at(0),
        )
    };
    assert_eq!(start(&mut host, 70_000), vec![]);
    assert_eq!(start(&mut host, 80_000), vec![]);
    let connection = host.peer(peer(1)).unwrap();
    assert_eq!(connection.subscription_ids(), vec![80_000]);
    assert!(connection.has_clipboard());
    host.handle_control(
        peer(1),
        &ControlMessage::AudioControl {
            session_id: 70_000,
            target: AudioControlTarget::ViewerTalkbackPlayback,
            muted: true,
            volume_percent: 250,
        },
        &at(0),
    );
    let talkback = host.peer(peer(1)).unwrap().talkback().unwrap();
    assert!(talkback.muted);
    assert_eq!(talkback.volume_percent, 200);
    assert_eq!(
        host.handle_control(peer(1), &ControlMessage::Ping { client_send_ts: 7 }, &at(3)),
        vec![HostAction::Reply(HostReply::Pong { client_send_ts: 7, host_ts: 1_000_003 })]
    );
}

#[test]
fn replies_become_messages() {
    assert_eq!(
        HostReply::Unsubscribed { id: 4 }.to_message("", vec![]),
        ControlMessage::Session(SessionCommand::Unsubscribed { id: 4 })
    );
    assert_eq!(
        HostReply::Pong { client_send_ts: 1, host_ts: 2 }.to_message("", vec![]),
        ControlMessage::Pong { client_send_ts: 1, host_recv_ts: 2, host_send_ts: 2 }
    );
    let info = |n: u32| CaptureSourceInfo {
        source: CaptureSource::Window(n),
        title: "t".to_string(),
        application: "a".to_string(),
        process_id: Some(1),
        width: 1,
        height: 1,
        supports_input: false,
    };
    let listed = told_sources((0..300).map(info).collect());
    assert_eq!(listed.len(), 256);
    assert_eq!(source_choices(&listed)[3].source, CaptureSource::Window(3));
    assert_eq!(
        HostReply::Sources { request_id: 3 }.to_message("", vec![info(1)]),
        ControlMessage::Session(SessionCommand::Sources {
            request_id: 3,
            sources: vec![info(1)],
        })
    );
    let settings = stream_settings(&request(1, CaptureSource::MainDisplay));
    assert_eq!(
        settings,
        StreamSettings { width: 1280, height: 720, fps: 60, bitrate_kbps: 8_000, paused: false }
    );
}
