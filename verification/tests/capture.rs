//! Capturing, encoding and streaming on the host.
use remote_play::host::capture::{
    CaptureConfiguration, MacVideoCapturer, ResumeStep, SoftwareCapturer, granted_assertions,
};
use remote_play::host::capture_sources::{
    DisplayFacts, Screen, SourceGone, TitledWindow, WindowFacts, WindowOwner, find, list,
    unique_window_size,
};
use remote_play::host::connection::StreamSettings;
use remote_play::host::service::PeerAddr;
use remote_play::host::standby::{
    PlainVideoStream, StandbyHost, StandbyMessage, StandbyStep, StreamOrder, plain_audio,
};
use remote_play::host::streaming::{
    AudioPauseStep, AudioStream, VideoStream, announcement_size, media_packet_size,
    pacing_interval_ns, subscription_audio,
};
use remote_play::host::video_encode::{
    CaptureBackend, EncodedChunk, EncoderUpdate, LinuxVideoEncoder, MacVideoEncoder,
    RateProperties, WindowsVideoEncoder, capture_backend_name, capture_command, encoder_rate,
    session_properties,
};
use remote_play::protocol::session::CaptureSource;
use remote_play::protocol::{
    AudioSource, ControlMessage, FrameTimingCheckpoints, InputEvent,
};

#[test]
fn test_dynamic_encoder_resolution_and_bitrate_switch() {
    let mut encoder = MacVideoEncoder::new(1920, 1080, 60, 20_000);
    assert_eq!(encoder.width, 1920);
    assert_eq!(encoder.height, 1080);
    assert_eq!(encoder.fps, 60);
    assert_eq!(encoder.bitrate_kbps, 20_000);

    // Dynamic bitrate and fps switch
    let update = encoder.update_settings(1920, 1080, 30, 5_000);
    assert_eq!(
        update,
        EncoderUpdate::AdjustRate(RateProperties {
            average_bit_rate: 5_000_000,
            data_rate_limit: 625_000,
            expected_frame_rate: 30,
        })
    );
    assert_eq!(encoder.fps, 30);
    assert_eq!(encoder.bitrate_kbps, 5_000);

    // Dynamic resolution switch (720p)
    assert!(encoder.take_keyframe());
    assert_eq!(
        encoder.update_settings(1280, 720, 60, 10_000),
        EncoderUpdate::Recreate
    );
    assert!(!encoder.has_session);
    encoder.recreated(true, 1280, 720, 60, 10_000);
    assert_eq!(encoder.width, 1280);
    assert_eq!(encoder.height, 720);
    assert_eq!(encoder.fps, 60);
    assert_eq!(encoder.bitrate_kbps, 10_000);
    assert!(encoder.force_keyframe);
}

#[test]
fn session_that_could_not_be_made_changes_nothing() {
    let mut encoder = MacVideoEncoder::new(1920, 1080, 60, 20_000);
    encoder.update_settings(640, 480, 30, 1_000);
    encoder.recreated(false, 640, 480, 30, 1_000);
    assert_eq!(encoder.width, 1920);
    assert_eq!(encoder.fps, 60);
    assert!(!encoder.has_session);
    encoder.update_rate_settings(15, 700);
    assert_eq!((encoder.fps, encoder.bitrate_kbps), (15, 700));
}

#[test]
fn rates_are_cut_to_their_low_bits() {
    let rate = encoder_rate(60, u32::MAX);
    assert_eq!(rate.average_bit_rate, 4_294_967_295_000);
    assert_eq!(rate.data_rate_limit, (4_294_967_295_000i64 / 8) as i32);
    let session = session_properties(1920, u32::MAX, 60, 8_000);
    assert_eq!(session.width, 1920);
    assert_eq!(session.height, -1);
    assert_eq!(session.max_keyframe_interval, 600);
    assert_eq!(session.max_keyframe_seconds, 10);
    assert_eq!(session.max_frame_delay, 0);
}

#[test]
fn process_encoders_fall_back_to_empty_frames() {
    let mut linux = LinuxVideoEncoder::new(1280, 720, 0, 8_000, false);
    assert_eq!(linux.placeholder_interval_ms(), 1_000);
    assert!(linux.take_keyframe());
    assert!(!linux.take_keyframe());
    linux.request_keyframe();
    assert!(linux.take_keyframe());
    assert!(!linux.update_settings(640, 480, 30, 1_000));
    assert_eq!(linux.placeholder_interval_ms(), 33);
    let mut running = LinuxVideoEncoder::new(1280, 720, 60, 8_000, true);
    assert!(running.update_settings(640, 480, 30, 1_000));
    running.restarted(false);
    assert!(running.has_source);
    let mut windows = WindowsVideoEncoder::new(false);
    assert!(windows.force_keyframe && !windows.has_source);
    windows.update_settings(true);
    assert!(windows.has_source);
    let chunk = EncodedChunk::pulled(vec![1], true, 5_000_000_000_000, 1u64 << 32);
    assert_eq!(chunk.capture_time_ms, 705_032_704);
    assert_eq!(chunk.timing.encode_done_ts_us, 0);
    assert!(EncodedChunk::placeholder(true, 1_000).nalu.is_empty());
}

#[test]
fn ffmpeg_is_told_what_to_capture_and_how_to_encode() {
    let tail = [
        "-pix_fmt",
        "yuv420p",
        "-c:v",
        "libx265",
        "-preset",
        "ultrafast",
        "-tune",
        "zerolatency",
        "-x265-params",
        "keyint=60:min-keyint=60:repeat-headers=1:bframes=0",
        "-b:v",
        "8000k",
        "-maxrate",
        "8000k",
        "-bufsize",
        "8000k",
        "-f",
        "hevc",
        "pipe:1",
    ];
    let expect = |input: &[&str]| {
        let mut all = vec!["-hide_banner", "-loglevel", "error"];
        all.extend_from_slice(input);
        all.extend_from_slice(&tail);
        all.into_iter().map(String::from).collect::<Vec<String>>()
    };
    assert_eq!(
        capture_command(CaptureBackend::X11(":0"), 1920, 1080, 60, 8_000),
        expect(&[
            "-f", "x11grab", "-video_size", "1920x1080", "-framerate", "60", "-i", ":0",
        ])
    );
    assert_eq!(
        capture_command(CaptureBackend::Kms, 1920, 1080, 60, 8_000),
        expect(&["-f", "kmsgrab", "-framerate", "60", "-i", "/dev/dri/card0"])
    );
    assert_eq!(
        capture_command(CaptureBackend::WindowsDesktop, 1920, 1080, 60, 8_000),
        expect(&["-f", "gdigrab", "-framerate", "60", "-i", "desktop"])
    );
    assert_eq!(capture_backend_name(false, true), "pipewire/wayland");
    assert_eq!(capture_backend_name(true, true), "gdigrab");
    assert_eq!(capture_backend_name(false, false), "x11grab");
}

#[test]
fn software_capture_keeps_to_rates_that_it_can_hold() {
    let mut capturer = SoftwareCapturer::new(1280, 720, 500);
    assert_eq!(capturer.interval_us(), 8_333);
    assert_eq!(capturer.frame_bytes(), 3_686_400);
    assert!(capturer.is_keyframe(0));
    assert!(!capturer.is_keyframe(239));
    assert!(capturer.is_keyframe(240));
    let frame = SoftwareCapturer::new(3, 2, 60).blank_frame(120, 9);
    assert_eq!((frame.width, frame.height, frame.data), (3, 2, vec![0; 24]));
    assert!(frame.is_keyframe);
    capturer.update_resolution_and_fps(360, 1);
    assert_eq!(capturer.interval_us(), 66_666);
    assert_eq!(capturer.frame_bytes(), 1_843_200);
}

#[test]
fn capture_is_set_up_anew_when_something_changed() {
    let mut capturer = MacVideoCapturer::new(1920, 1080, 60).with_source(CaptureSource::Window(5));
    assert_eq!(capturer.update_resolution_and_fps(1280, 720, 60), None);
    let setup = capturer.start((3440, 1440));
    assert_eq!(
        setup,
        CaptureConfiguration { width: 1280, height: 534, frames_per_second: 120 }
    );
    assert_eq!(capturer.update_resolution_and_fps(1280, 720, 60), None);
    assert_eq!(
        capturer.update_resolution_and_fps(1280, 720, u32::MAX).map(|c| c.frames_per_second),
        Some(i32::MAX)
    );
    assert_eq!(capturer.refresh_geometry(999, (100, 100)), None);
    assert_eq!(
        capturer.refresh_geometry(1_000, (100, 100)),
        Some(CaptureConfiguration { width: 100, height: 100, frames_per_second: i32::MAX })
    );
    assert_eq!(capturer.refresh_geometry(1_000, (100, 100)), None);
    assert_eq!(capturer.resume(), ResumeStep::Continue);
    assert!(capturer.stop());
    assert!(!capturer.stop());
    assert_eq!(capturer.resume(), ResumeStep::Start);
    assert_eq!(granted_assertions(Some(1), Some(1)), vec![1]);
    assert_eq!(granted_assertions(Some(1), Some(2)), vec![1, 2]);
    assert_eq!(granted_assertions(None, Some(2)), vec![2]);
    assert_eq!(granted_assertions(None, None), Vec::<u32>::new());
}

fn window(window_id: u32, process_id: i32, title: &str) -> WindowFacts {
    WindowFacts {
        window_id,
        owner: Some(WindowOwner { process_id, application: "App".to_string() }),
        title: Some(title.to_string()),
        tiny: false,
        size: (800, 600),
    }
}

#[test]
fn displays_and_windows_with_a_title_are_offered() {
    let whole = list(&Screen::Whole);
    assert_eq!(whole.len(), 1);
    assert_eq!(whole[0].title, "Desktop");
    assert!(whole[0].supports_input);

    let displays = vec![
        DisplayFacts { display_id: 1, width: 2560, height: 1440 },
        DisplayFacts { display_id: 2, width: 1920, height: 1080 },
    ];
    let mut tiny = window(13, 50, "tiny");
    tiny.tiny = true;
    let mut ownerless = window(14, 50, "ownerless");
    ownerless.owner = None;
    let windows = vec![
        window(10, 50, "Editor"),
        window(11, 99, "myself"),
        window(12, 50, " \t"),
        tiny,
        ownerless,
        window(15, 51, "Mail"),
    ];
    let gone = find(CaptureSource::Window(77), &displays, &windows, 2);
    assert_eq!(gone, Err(SourceGone::Window));
    assert_eq!(
        gone.unwrap_err().message(),
        "selected window is no longer available"
    );
    assert_eq!(
        find(CaptureSource::Window(15), &displays, &windows, 2),
        Ok((5, (800, 600)))
    );
    assert_eq!(
        find(CaptureSource::MainDisplay, &displays, &windows, 2),
        Ok((1, (1920, 1080)))
    );
    assert_eq!(
        find(CaptureSource::Display(9), &displays, &windows, 2),
        Err(SourceGone::Display)
    );
    let offered = list(&Screen::Parts { displays, windows, main_id: 2, own_pid: 99 });
    let titles: Vec<&str> = offered.iter().map(|info| info.title.as_str()).collect();
    assert_eq!(titles, vec!["Display 1", "Display 2", "Editor", "Mail"]);
    assert!(!offered[0].supports_input && offered[1].supports_input);
    assert!(!offered[2].supports_input);
    assert_eq!(offered[3].process_id, Some(51));
}

#[test]
fn windows_of_one_title_cannot_be_told_apart() {
    let titled = |title: Option<&str>, size: Option<u32>| TitledWindow {
        title: title.map(String::from),
        size,
    };
    let windows = vec![
        titled(Some("a"), Some(1)),
        titled(None, Some(2)),
        titled(Some("b"), Some(3)),
        titled(Some("a"), Some(4)),
        titled(Some("c"), None),
    ];
    assert_eq!(unique_window_size(&windows, "b"), Some(3));
    assert_eq!(unique_window_size(&windows, "a"), None);
    assert_eq!(unique_window_size(&windows, "c"), None);
    assert_eq!(unique_window_size(&windows, "d"), None);
}

fn settings(paused: bool) -> StreamSettings {
    StreamSettings { width: 1280, height: 720, fps: 60, bitrate_kbps: 8_000, paused }
}

fn chunk(len: usize) -> EncodedChunk {
    EncodedChunk {
        nalu: vec![7; len],
        capture_time_ms: 5,
        is_keyframe: false,
        timing: FrameTimingCheckpoints::new(0),
    }
}

#[test]
fn video_packets_are_numbered_and_timed() {
    let mut stream = VideoStream::new(9);
    assert!(stream.chunk_encoded(chunk(0), 10).is_none());
    let sent = stream.chunk_encoded(chunk(3), 5_700).unwrap();
    assert_eq!(sent.packet.header.sequence_number, 0);
    assert_eq!(sent.packet.header.ssrc, 9);
    assert_eq!(sent.packet.header.payload_type, 96);
    assert_eq!(sent.timing.capture_ts_us, 5_000);
    assert_eq!(sent.timing.packetize_ts_us, 700);
    assert_eq!(sent.timing.send_ts_us, 700);
    assert_eq!(
        stream.chunk_encoded(chunk(2), 0).unwrap().timing.send_ts_us,
        0
    );
    assert_eq!(stream.take_report(), (2, 5));
    assert_eq!(stream.take_report(), (0, 0));
}

#[test]
fn resuming_asks_for_a_keyframe() {
    let mut stream = VideoStream::new(9);
    let step = stream.settings_changed(settings(true));
    assert_eq!(step.pause, Some(true));
    assert!(!step.keyframe);
    assert!(!stream.captures());
    assert!(stream.chunk_encoded(chunk(3), 10).is_none());
    assert_eq!(stream.settings_changed(settings(true)).pause, None);
    let step = stream.settings_changed(settings(false));
    assert_eq!(step.pause, Some(false));
    assert!(step.keyframe);
    assert!(stream.captures());

    let mut audio = AudioStream::new();
    assert_eq!(audio.settings_changed(false), AudioPauseStep::Nothing);
    assert_eq!(audio.settings_changed(true), AudioPauseStep::Pause);
    assert!(!audio.captures());
    assert_eq!(audio.settings_changed(false), AudioPauseStep::Resume);
}

#[test]
fn packets_count_with_their_headers() {
    assert_eq!(media_packet_size(100, true, true), 150);
    assert_eq!(media_packet_size(100, false, true), 150);
    assert_eq!(media_packet_size(100, true, false), 126);
    assert_eq!(media_packet_size(100, false, false), 112);
    assert_eq!(announcement_size(24, true), 50);
    assert_eq!(announcement_size(24, false), 0);
    assert_eq!(pacing_interval_ns(16_600_000, 20), Some(830_000));
    assert_eq!(pacing_interval_ns(16_600_000, 0), None);
}

#[test]
fn microphone_and_system_are_streams_of_their_own() {
    let both = subscription_audio(u32::MAX, true, true, true);
    assert_eq!(both.len(), 2);
    assert_eq!((both[0].source, both[0].stream_id), (AudioSource::RemoteMicrophone, 0));
    assert_eq!((both[1].source, both[1].stream_id), (AudioSource::RemoteSystem, 1));
    assert_eq!(subscription_audio(1, false, true, true).len(), 1);
    assert!(subscription_audio(1, true, false, false).is_empty());
}

#[test]
fn waiting_host_serves_one_viewer() {
    let viewer = PeerAddr { is_v6: false, ip: 1, port: 2, flow_info: 0, scope_id: 0 };
    let mut host = StandbyHost::new(0);
    assert!(!host.tick(100_000).stop);
    let start = ControlMessage::StartStream {
        width: 1,
        height: 2,
        fps: 3,
        bitrate_kbps: 4,
        session_id: 5,
    };
    let order = StreamOrder {
        viewer,
        width: 1,
        height: 2,
        fps: 3,
        bitrate_kbps: 4,
        session_id: 5,
    };
    let step = |message: StandbyMessage| match message {
        StandbyMessage::Stream(step) => step,
        StandbyMessage::Input(_) => panic!("no input was sent"),
    };
    assert_eq!(
        step(host.receive(start.clone(), viewer, 1_000)),
        StandbyStep { stop: false, start: Some(order) }
    );
    assert_eq!(
        step(host.receive(start, viewer, 1_000)),
        StandbyStep { stop: true, start: Some(order) }
    );
    host.receive(ControlMessage::Heartbeat, viewer, 2_000);
    assert!(!host.tick(5_000).stop);
    assert!(host.tick(5_001).stop);
    assert!(!host.tick(9_000).stop);
    assert!(!step(host.receive(ControlMessage::StopStream, viewer, 0)).stop);
    assert!(matches!(
        host.receive(ControlMessage::Input(InputEvent::MouseUp(1)), viewer, 0),
        StandbyMessage::Input(InputEvent::MouseUp(1))
    ));
}

#[test]
fn plain_packets_carry_the_time_of_their_capture() {
    let mut stream = PlainVideoStream::new(9);
    stream.frame_captured(100);
    stream.frame_captured(200);
    assert!(stream.frame_encoded(vec![], 250).is_none());
    let first = stream.frame_encoded(vec![0, 0, 0, 1, 0x40], 250).unwrap();
    assert_eq!(first.packet.header.timestamp, 100);
    assert_eq!(first.latency_ms, 150);
    assert!(first.keyframe);
    let second = stream.frame_encoded(vec![1], 250).unwrap();
    assert_eq!(second.packet.header.timestamp, 200);
    assert_eq!(second.packet.header.sequence_number, 1);
    let third = stream.frame_encoded(vec![1], 250).unwrap();
    assert_eq!(third.packet.header.timestamp, 250);
    let mut audio = plain_audio(9, 48_000);
    audio.packet(vec![]);
    let packet = audio.packet(vec![]);
    assert_eq!((packet.header.ssrc, packet.header.timestamp), (10, 480));
}
