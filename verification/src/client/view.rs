//! What the viewer's window does: connecting, choosing a stream, and the switches of its panel.
use crate::client::audio_player::AudioPlayerSettings;
use crate::client::host_config::{local_host, DEFAULT_CONTROL_PORT};
use crate::client::talkback::TalkbackCaptureSettings;
use crate::host::service::PeerAddr;
use crate::protocol::audio::AudioControlTarget;
use crate::protocol::control::ControlMessage;
use crate::protocol::timing::FrameTimingCheckpoints;
use vstd::prelude::*;

verus! {

#[derive(Debug, Clone, Copy, PartialEq, Eq, Structural)]
pub enum ViewState {
    HostList,
    Streaming,
}

/// When the viewer's microphone is sent to the host.
#[derive(Debug, Clone, Copy, PartialEq, Eq, Structural)]
pub enum TalkbackMode {
    Off,
    AlwaysOn,
    PushToTalk,
}

/// Volumes are changed by this much at once.
pub const VOLUME_STEP: u8 = 10;

/// The loudest that the panel goes.
pub const MAX_PANEL_VOLUME: u8 = 200;

/// How long the panel can be opened after the pointer was moved.
pub const POINTER_REST_MS: u64 = 3000;

/// What the panel offers for the stream.
#[derive(Debug, Clone, Copy, PartialEq, Eq, Structural)]
pub enum StreamPreset {
    Size4k,
    Size2k,
    Size1080p,
    Fps30,
    Fps60,
    Rate5m,
    Rate10m,
    Rate20m,
}

impl StreamPreset {
    /// The row of the panel that it stands in: sizes, frame rates, bit rates.
    pub open spec fn row(self) -> int {
        match self {
            StreamPreset::Size4k | StreamPreset::Size2k | StreamPreset::Size1080p => 0,
            StreamPreset::Fps30 | StreamPreset::Fps60 => 1,
            StreamPreset::Rate5m | StreamPreset::Rate10m | StreamPreset::Rate20m => 2,
        }
    }
}

/// The stream that the viewer wants.
#[derive(Debug, Clone, Copy, PartialEq, Eq, Structural)]
pub struct StreamTarget {
    pub width: u32,
    pub height: u32,
    pub fps: u32,
    pub bitrate_kbps: u32,
}

impl StreamTarget {
    pub open spec fn with(self, preset: StreamPreset) -> Self {
        match preset {
            StreamPreset::Size4k => StreamTarget { width: 3840, height: 2160, ..self },
            StreamPreset::Size2k => StreamTarget { width: 2560, height: 1440, ..self },
            StreamPreset::Size1080p => StreamTarget { width: 1920, height: 1080, ..self },
            StreamPreset::Fps30 => StreamTarget { fps: 30, ..self },
            StreamPreset::Fps60 => StreamTarget { fps: 60, ..self },
            StreamPreset::Rate5m => StreamTarget { bitrate_kbps: 5000, ..self },
            StreamPreset::Rate10m => StreamTarget { bitrate_kbps: 10000, ..self },
            StreamPreset::Rate20m => StreamTarget { bitrate_kbps: 20000, ..self },
        }
    }

    fn take_preset(&mut self, preset: StreamPreset)
        ensures
            *final(self) == old(self).with(preset),
    {
        match preset {
            StreamPreset::Size4k => {
                self.width = 3840;
                self.height = 2160;
            },
            StreamPreset::Size2k => {
                self.width = 2560;
                self.height = 1440;
            },
            StreamPreset::Size1080p => {
                self.width = 1920;
                self.height = 1080;
            },
            StreamPreset::Fps30 => {
                self.fps = 30;
            },
            StreamPreset::Fps60 => {
                self.fps = 60;
            },
            StreamPreset::Rate5m => {
                self.bitrate_kbps = 5000;
            },
            StreamPreset::Rate10m => {
                self.bitrate_kbps = 10000;
            },
            StreamPreset::Rate20m => {
                self.bitrate_kbps = 20000;
            },
        }
    }

    /// Whether a choice is lit up. Sizes are told apart by their width.
    pub open spec fn shows(self, preset: StreamPreset) -> bool {
        match preset {
            StreamPreset::Size4k => self.width == 3840,
            StreamPreset::Size2k => self.width == 2560,
            StreamPreset::Size1080p => self.width == 1920,
            StreamPreset::Fps30 => self.fps == 30,
            StreamPreset::Fps60 => self.fps == 60,
            StreamPreset::Rate5m => self.bitrate_kbps == 5000,
            StreamPreset::Rate10m => self.bitrate_kbps == 10000,
            StreamPreset::Rate20m => self.bitrate_kbps == 20000,
        }
    }

    pub fn is_chosen(&self, preset: StreamPreset) -> (r: bool)
        ensures
            r == self.shows(preset),
    {
        match preset {
            StreamPreset::Size4k => self.width == 3840,
            StreamPreset::Size2k => self.width == 2560,
            StreamPreset::Size1080p => self.width == 1920,
            StreamPreset::Fps30 => self.fps == 30,
            StreamPreset::Fps60 => self.fps == 60,
            StreamPreset::Rate5m => self.bitrate_kbps == 5000,
            StreamPreset::Rate10m => self.bitrate_kbps == 10000,
            StreamPreset::Rate20m => self.bitrate_kbps == 20000,
        }
    }
}

/// What to do with a service that goes with a connection.
#[derive(Debug, Clone, Copy, PartialEq, Eq, Structural)]
pub enum ServiceSwitch {
    Keep,
    Start(PeerAddr),
    Stop,
}

/// What to do with the viewer's microphone.
#[derive(Debug, Clone, Copy, PartialEq, Eq, Structural)]
pub enum TalkbackSwitch {
    Keep,
    Adjust(TalkbackCaptureSettings),
    /// Adjust, and then start towards the host in that session.
    Start(TalkbackCaptureSettings, PeerAddr, u32),
    Stop,
}

/// How the host is to play what the viewer says.
#[derive(Debug, Clone, Copy, PartialEq, Eq, Structural)]
pub struct PeerPlayback {
    pub session_id: u32,
    pub muted: bool,
    pub volume_percent: u8,
}

impl PeerPlayback {
    pub fn to_message(&self) -> (r: ControlMessage)
        ensures
            r == (ControlMessage::AudioControl {
                session_id: self.session_id,
                target: AudioControlTarget::ViewerTalkbackPlayback,
                muted: self.muted,
                volume_percent: self.volume_percent,
            }),
    {
        ControlMessage::AudioControl {
            session_id: self.session_id,
            target: AudioControlTarget::ViewerTalkbackPlayback,
            muted: self.muted,
            volume_percent: self.volume_percent,
        }
    }
}

/// What the host is told of the stream.
#[derive(Debug, Clone, Copy, PartialEq, Eq, Structural)]
pub enum StreamMessage {
    Start { target: StreamTarget, session_id: u32 },
    Stop,
}

impl StreamMessage {
    pub fn to_message(&self) -> (r: ControlMessage)
        ensures
            r == (match *self {
                StreamMessage::Start { target, session_id } => ControlMessage::StartStream {
                    width: target.width,
                    height: target.height,
                    fps: target.fps,
                    bitrate_kbps: target.bitrate_kbps,
                    session_id,
                },
                StreamMessage::Stop => ControlMessage::StopStream,
            }),
    {
        match *self {
            StreamMessage::Start { target, session_id } => ControlMessage::StartStream {
                width: target.width,
                height: target.height,
                fps: target.fps,
                bitrate_kbps: target.bitrate_kbps,
                session_id,
            },
            StreamMessage::Stop => ControlMessage::StopStream,
        }
    }
}

/// What a click has for consequences. Messages go to the host that is shown, `playback` before
/// `stream`.
#[derive(Debug, Clone, Copy, PartialEq, Eq, Structural)]
pub struct ViewStep {
    pub clipboard: ServiceSwitch,
    pub files: ServiceSwitch,
    pub talkback: TalkbackSwitch,
    pub audio: Option<AudioPlayerSettings>,
    pub playback: Option<PeerPlayback>,
    pub stream: Option<StreamMessage>,
}

impl ViewStep {
    pub open spec fn nothing() -> Self {
        ViewStep {
            clipboard: ServiceSwitch::Keep,
            files: ServiceSwitch::Keep,
            talkback: TalkbackSwitch::Keep,
            audio: None,
            playback: None,
            stream: None,
        }
    }

    fn none() -> (r: Self)
        ensures
            r == Self::nothing(),
    {
        ViewStep {
            clipboard: ServiceSwitch::Keep,
            files: ServiceSwitch::Keep,
            talkback: TalkbackSwitch::Keep,
            audio: None,
            playback: None,
            stream: None,
        }
    }
}

/// The services that the viewer has.
#[derive(Debug, Clone, Copy, PartialEq, Eq, Structural)]
pub struct ClientRuntimeControls {
    pub clipboard: bool,
    pub file_transfer: bool,
    pub talkback: bool,
}

/// The viewer's window.
#[derive(Debug, Clone, Copy, PartialEq, Eq, Structural)]
pub struct RemotePlayView {
    pub controls: ClientRuntimeControls,
    pub state: ViewState,
    pub host_addr: PeerAddr,
    /// The session that is shown, or nought.
    pub session_id: u32,
    pub show_stats: bool,
    pub show_panel: bool,
    pub last_pointer_ms: u64,
    pub target: StreamTarget,
    pub remote_system_muted: bool,
    pub remote_microphone_muted: bool,
    pub remote_audio_volume_percent: u8,
    pub talkback_mode: TalkbackMode,
    pub talkback_local_mic_muted: bool,
    pub talkback_push_active: bool,
    pub talkback_remote_muted: bool,
    pub talkback_remote_volume_percent: u8,
}

/// One step louder, as far as the panel goes.
pub open spec fn louder(volume: u8) -> u8 {
    if volume + VOLUME_STEP > MAX_PANEL_VOLUME {
        MAX_PANEL_VOLUME
    } else {
        (volume + VOLUME_STEP) as u8
    }
}

/// One step quieter, down to silence.
pub open spec fn quieter(volume: u8) -> u8 {
    if volume < VOLUME_STEP {
        0
    } else {
        (volume - VOLUME_STEP) as u8
    }
}

fn volume_up(volume: u8) -> (r: u8)
    requires
        volume <= MAX_PANEL_VOLUME,
    ensures
        r == louder(volume),
{
    let next: u8 = volume + VOLUME_STEP;
    if next > MAX_PANEL_VOLUME {
        MAX_PANEL_VOLUME
    } else {
        next
    }
}

/// Draws the number of a new session: `rand::random` for a `u32`. Nothing is claimed of it, for it
/// may be any number.
#[verifier::external_body]
fn random_session() -> (r: u32)
{
    rand::random::<u32>()
}

impl RemotePlayView {
    /// The panel's volumes lie on its scale.
    pub open spec fn wf(self) -> bool {
        self.remote_audio_volume_percent <= MAX_PANEL_VOLUME && self.talkback_remote_volume_percent
            <= MAX_PANEL_VOLUME
    }

    pub open spec fn capture_settings(self) -> TalkbackCaptureSettings {
        TalkbackCaptureSettings {
            local_mic_muted: self.talkback_local_mic_muted,
            push_to_talk: self.talkback_mode is PushToTalk,
            push_to_talk_active: self.talkback_push_active,
        }
    }

    pub open spec fn player_settings(self) -> AudioPlayerSettings {
        AudioPlayerSettings {
            remote_system_muted: self.remote_system_muted,
            remote_microphone_muted: self.remote_microphone_muted,
            volume_percent: self.remote_audio_volume_percent,
        }
    }

    /// What a viewer with that session does with its microphone.
    pub open spec fn talkback_for(self, addr: PeerAddr, session_id: u32) -> TalkbackSwitch {
        if !self.controls.talkback {
            TalkbackSwitch::Keep
        } else if self.talkback_mode is Off {
            TalkbackSwitch::Stop
        } else {
            TalkbackSwitch::Start(self.capture_settings(), addr, session_id)
        }
    }

    /// The end of talking back.
    pub open spec fn talkback_end(self) -> TalkbackSwitch {
        if self.controls.talkback {
            TalkbackSwitch::Stop
        } else {
            TalkbackSwitch::Keep
        }
    }

    /// New settings for the microphone.
    pub open spec fn talkback_set(self) -> TalkbackSwitch {
        if self.controls.talkback {
            TalkbackSwitch::Adjust(self.capture_settings())
        } else {
            TalkbackSwitch::Keep
        }
    }

    /// How the host is to play what the viewer says, if there is a session.
    pub open spec fn peer_playback(self) -> Option<PeerPlayback> {
        if self.session_id == 0 {
            None
        } else {
            Some(
                PeerPlayback {
                    session_id: self.session_id,
                    muted: self.talkback_remote_muted,
                    volume_percent: self.talkback_remote_volume_percent,
                },
            )
        }
    }

    /// What asking for a stream in the session that is shown takes.
    pub open spec fn stream_request(self, addr: PeerAddr) -> ViewStep {
        ViewStep {
            talkback: self.talkback_for(addr, self.session_id),
            playback: self.peer_playback(),
            stream: Some(
                StreamMessage::Start { target: self.target, session_id: self.session_id },
            ),
            ..ViewStep::nothing()
        }
    }

    /// A window on the list of hosts. A viewer that can talk back does so from the start.
    pub fn new(controls: ClientRuntimeControls, now_ms: u64) -> (r: Self)
        ensures
            r.wf(),
            r == (RemotePlayView {
                controls,
                state: ViewState::HostList,
                host_addr: local_host(),
                session_id: 0,
                show_stats: false,
                show_panel: false,
                last_pointer_ms: now_ms,
                target: StreamTarget { width: 1920, height: 1080, fps: 60, bitrate_kbps: 8000 },
                remote_system_muted: false,
                remote_microphone_muted: false,
                remote_audio_volume_percent: 100,
                talkback_mode: if controls.talkback {
                    TalkbackMode::AlwaysOn
                } else {
                    TalkbackMode::Off
                },
                talkback_local_mic_muted: false,
                talkback_push_active: false,
                talkback_remote_muted: false,
                talkback_remote_volume_percent: 100,
            }),
    {
        RemotePlayView {
            controls,
            state: ViewState::HostList,
            host_addr: PeerAddr {
                is_v6: false,
                ip: 0x7f00_0001,
                port: DEFAULT_CONTROL_PORT,
                flow_info: 0,
                scope_id: 0,
            },
            session_id: 0,
            show_stats: false,
            show_panel: false,
            last_pointer_ms: now_ms,
            target: StreamTarget { width: 1920, height: 1080, fps: 60, bitrate_kbps: 8000 },
            remote_system_muted: false,
            remote_microphone_muted: false,
            remote_audio_volume_percent: 100,
            talkback_mode: if controls.talkback {
                TalkbackMode::AlwaysOn
            } else {
                TalkbackMode::Off
            },
            talkback_local_mic_muted: false,
            talkback_push_active: false,
            talkback_remote_muted: false,
            talkback_remote_volume_percent: 100,
        }
    }

    pub fn talkback_capture_settings(&self) -> (r: TalkbackCaptureSettings)
        ensures
            r == self.capture_settings(),
    {
        TalkbackCaptureSettings {
            local_mic_muted: self.talkback_local_mic_muted,
            push_to_talk: self.talkback_mode == TalkbackMode::PushToTalk,
            push_to_talk_active: self.talkback_push_active,
        }
    }

    pub fn audio_playback_settings(&self) -> (r: AudioPlayerSettings)
        ensures
            r == self.player_settings(),
    {
        AudioPlayerSettings {
            remote_system_muted: self.remote_system_muted,
            remote_microphone_muted: self.remote_microphone_muted,
            volume_percent: self.remote_audio_volume_percent,
        }
    }

    pub fn talkback_playback_control_message(&self) -> (r: Option<PeerPlayback>)
        ensures
            r == self.peer_playback(),
    {
        if self.session_id == 0 {
            None
        } else {
            Some(
                PeerPlayback {
                    session_id: self.session_id,
                    muted: self.talkback_remote_muted,
                    volume_percent: self.talkback_remote_volume_percent,
                },
            )
        }
    }

    fn start_talkback_session(&self, addr: PeerAddr, session_id: u32) -> (r: TalkbackSwitch)
        ensures
            r == self.talkback_for(addr, session_id),
    {
        if !self.controls.talkback {
            TalkbackSwitch::Keep
        } else if self.talkback_mode == TalkbackMode::Off {
            TalkbackSwitch::Stop
        } else {
            TalkbackSwitch::Start(self.talkback_capture_settings(), addr, session_id)
        }
    }

    fn stop_talkback_session(&self) -> (r: TalkbackSwitch)
        ensures
            r == self.talkback_end(),
    {
        if self.controls.talkback {
            TalkbackSwitch::Stop
        } else {
            TalkbackSwitch::Keep
        }
    }

    fn apply_talkback_settings(&self) -> (r: TalkbackSwitch)
        ensures
            r == self.talkback_set(),
    {
        if self.controls.talkback {
            TalkbackSwitch::Adjust(self.talkback_capture_settings())
        } else {
            TalkbackSwitch::Keep
        }
    }

    /// Asks the host for a stream in a session of that number.
    pub fn request_stream_as(&mut self, addr: PeerAddr, session_id: u32) -> (r: ViewStep)
        ensures
            *final(self) == (RemotePlayView { session_id, ..*old(self) }),
            r == final(self).stream_request(addr),
    {
        self.session_id = session_id;
        let mut step = ViewStep::none();
        step.talkback = self.start_talkback_session(addr, session_id);
        step.playback = self.talkback_playback_control_message();
        step.stream = Some(StreamMessage::Start { target: self.target, session_id });
        step
    }

    /// Asks the host for a stream in a session of a number that is drawn. Should that be nought,
    /// the session is none to the rest of the window.
    pub fn request_stream(&mut self, addr: PeerAddr) -> (r: ViewStep)
        ensures
            *final(self) == (RemotePlayView { session_id: final(self).session_id, ..*old(self) }),
            r == final(self).stream_request(addr),
    {
        let session_id: u32 = random_session();
        self.request_stream_as(addr, session_id)
    }

    /// Shows a host, as it is before a stream is asked for.
    pub open spec fn towards(self, addr: PeerAddr, now_ms: u64) -> Self {
        RemotePlayView {
            state: ViewState::Streaming,
            host_addr: addr,
            show_panel: false,
            last_pointer_ms: now_ms,
            ..self
        }
    }

    /// Connects to a host.
    pub fn connect(&mut self, addr: PeerAddr, now_ms: u64) -> (r: ViewStep)
        ensures
            *final(self) == (RemotePlayView {
                session_id: final(self).session_id,
                ..old(self).towards(addr, now_ms)
            }),
            r == (ViewStep {
                clipboard: if old(self).controls.clipboard {
                    ServiceSwitch::Start(addr)
                } else {
                    ServiceSwitch::Keep
                },
                files: if old(self).controls.file_transfer {
                    ServiceSwitch::Start(addr)
                } else {
                    ServiceSwitch::Keep
                },
                ..final(self).stream_request(addr)
            }),
    {
        self.state = ViewState::Streaming;
        self.host_addr = addr;
        self.show_panel = false;
        self.last_pointer_ms = now_ms;
        let mut step = self.request_stream(addr);
        if self.controls.clipboard {
            step.clipboard = ServiceSwitch::Start(addr);
        }
        if self.controls.file_transfer {
            step.files = ServiceSwitch::Start(addr);
        }
        step
    }

    /// Leaves the host.
    pub fn disconnect(&mut self) -> (r: ViewStep)
        ensures
            *final(self) == (RemotePlayView {
                state: ViewState::HostList,
                session_id: 0,
                ..*old(self)
            }),
            r == (ViewStep {
                clipboard: if old(self).controls.clipboard {
                    ServiceSwitch::Stop
                } else {
                    ServiceSwitch::Keep
                },
                files: if old(self).controls.file_transfer {
                    ServiceSwitch::Stop
                } else {
                    ServiceSwitch::Keep
                },
                talkback: old(self).talkback_end(),
                stream: Some(StreamMessage::Stop),
                ..ViewStep::nothing()
            }),
    {
        let mut step = ViewStep::none();
        step.stream = Some(StreamMessage::Stop);
        self.state = ViewState::HostList;
        if self.controls.clipboard {
            step.clipboard = ServiceSwitch::Stop;
        }
        if self.controls.file_transfer {
            step.files = ServiceSwitch::Stop;
        }
        step.talkback = self.stop_talkback_session();
        self.session_id = 0;
        step
    }

    /// Chooses another stream; it comes in a session of its own.
    pub fn choose_preset(&mut self, preset: StreamPreset) -> (r: ViewStep)
        ensures
            *final(self) == (RemotePlayView {
                target: old(self).target.with(preset),
                session_id: final(self).session_id,
                ..*old(self)
            }),
            r == final(self).stream_request(old(self).host_addr),
    {
        let mut target = self.target;
        target.take_preset(preset);
        self.target = target;
        let addr = self.host_addr;
        self.request_stream(addr)
    }

    /// The host that is to be told, every second, that the viewer is still there.
    pub fn heartbeat_target(&self) -> (r: Option<PeerAddr>)
        ensures
            r == (if self.state is Streaming {
                Some(self.host_addr)
            } else {
                None
            }),
    {
        if self.state == ViewState::Streaming {
            Some(self.host_addr)
        } else {
            None
        }
    }

    pub fn toggle_stats(&mut self)
        ensures
            *final(self) == (RemotePlayView { show_stats: !old(self).show_stats, ..*old(self) }),
    {
        self.show_stats = !self.show_stats;
    }

    pub fn toggle_panel(&mut self)
        ensures
            *final(self) == (RemotePlayView { show_panel: !old(self).show_panel, ..*old(self) }),
    {
        self.show_panel = !self.show_panel;
    }

    pub fn pointer_moved(&mut self, now_ms: u64)
        ensures
            *final(self) == (RemotePlayView { last_pointer_ms: now_ms, ..*old(self) }),
    {
        self.last_pointer_ms = now_ms;
    }

    /// Whether the button that opens the panel shows.
    pub fn shows_panel_button(&self, now_ms: u64) -> (r: bool)
        ensures
            r == (!self.show_panel && now_ms - self.last_pointer_ms < POINTER_REST_MS),
    {
        !self.show_panel && now_ms.saturating_sub(self.last_pointer_ms) < POINTER_REST_MS
    }

    pub fn toggle_system_mute(&mut self) -> (r: ViewStep)
        ensures
            *final(self) == (RemotePlayView {
                remote_system_muted: !old(self).remote_system_muted,
                ..*old(self)
            }),
            r == (ViewStep { audio: Some(final(self).player_settings()), ..ViewStep::nothing() }),
    {
        self.remote_system_muted = !self.remote_system_muted;
        let mut step = ViewStep::none();
        step.audio = Some(self.audio_playback_settings());
        step
    }

    pub fn toggle_microphone_mute(&mut self) -> (r: ViewStep)
        ensures
            *final(self) == (RemotePlayView {
                remote_microphone_muted: !old(self).remote_microphone_muted,
                ..*old(self)
            }),
            r == (ViewStep { audio: Some(final(self).player_settings()), ..ViewStep::nothing() }),
    {
        self.remote_microphone_muted = !self.remote_microphone_muted;
        let mut step = ViewStep::none();
        step.audio = Some(self.audio_playback_settings());
        step
    }

    /// Makes what is heard of the host louder or quieter.
    pub fn change_volume(&mut self, up: bool) -> (r: ViewStep)
        requires
            old(self).wf(),
        ensures
            final(self).wf(),
            *final(self) == (RemotePlayView {
                remote_audio_volume_percent: if up {
                    louder(old(self).remote_audio_volume_percent)
                } else {
                    quieter(old(self).remote_audio_volume_percent)
                },
                ..*old(self)
            }),
            r == (ViewStep { audio: Some(final(self).player_settings()), ..ViewStep::nothing() }),
    {
        self.remote_audio_volume_percent =
        if up {
            volume_up(self.remote_audio_volume_percent)
        } else {
            self.remote_audio_volume_percent.saturating_sub(VOLUME_STEP)
        };
        let mut step = ViewStep::none();
        step.audio = Some(self.audio_playback_settings());
        step
    }

    /// Chooses when the microphone is sent.
    pub fn set_talkback_mode(&mut self, mode: TalkbackMode) -> (r: ViewStep)
        ensures
            *final(self) == (RemotePlayView {
                talkback_mode: mode,
                talkback_push_active: false,
                ..*old(self)
            }),
            r == (ViewStep {
                talkback: if old(self).session_id == 0 {
                    old(self).talkback_end()
                } else {
                    final(self).talkback_for(old(self).host_addr, old(self).session_id)
                },
                ..ViewStep::nothing()
            }),
    {
        self.talkback_mode = mode;
        self.talkback_push_active = false;
        let mut step = ViewStep::none();
        step.talkback =
        if self.session_id == 0 {
            self.stop_talkback_session()
        } else {
            self.start_talkback_session(self.host_addr, self.session_id)
        };
        step
    }

    pub fn toggle_local_microphone(&mut self) -> (r: ViewStep)
        ensures
            *final(self) == (RemotePlayView {
                talkback_local_mic_muted: !old(self).talkback_local_mic_muted,
                ..*old(self)
            }),
            r == (ViewStep { talkback: final(self).talkback_set(), ..ViewStep::nothing() }),
    {
        self.talkback_local_mic_muted = !self.talkback_local_mic_muted;
        let mut step = ViewStep::none();
        step.talkback = self.apply_talkback_settings();
        step
    }

    /// Holds the talk button down. It has an effect only where talking takes it.
    pub fn press_to_talk(&mut self) -> (r: ViewStep)
        ensures
            if old(self).talkback_mode is PushToTalk {
                &&& *final(self) == (RemotePlayView { talkback_push_active: true, ..*old(self) })
                &&& r == (ViewStep { talkback: final(self).talkback_set(), ..ViewStep::nothing() })
            } else {
                &&& *final(self) == *old(self)
                &&& r == ViewStep::nothing()
            },
    {
        let mut step = ViewStep::none();
        if self.talkback_mode == TalkbackMode::PushToTalk {
            self.talkback_push_active = true;
            step.talkback = self.apply_talkback_settings();
        }
        step
    }

    /// Lets the talk button go, over it or elsewhere.
    pub fn release_to_talk(&mut self) -> (r: ViewStep)
        ensures
            *final(self) == (RemotePlayView { talkback_push_active: false, ..*old(self) }),
            r == (if old(self).talkback_push_active {
                ViewStep { talkback: final(self).talkback_set(), ..ViewStep::nothing() }
            } else {
                ViewStep::nothing()
            }),
    {
        let mut step = ViewStep::none();
        if self.talkback_push_active {
            self.talkback_push_active = false;
            step.talkback = self.apply_talkback_settings();
        }
        step
    }

    /// Mutes what the viewer says, at the host.
    pub fn toggle_peer_mute(&mut self) -> (r: ViewStep)
        ensures
            *final(self) == (RemotePlayView {
                talkback_remote_muted: !old(self).talkback_remote_muted,
                ..*old(self)
            }),
            r == (ViewStep { playback: final(self).peer_playback(), ..ViewStep::nothing() }),
    {
        self.talkback_remote_muted = !self.talkback_remote_muted;
        let mut step = ViewStep::none();
        step.playback = self.talkback_playback_control_message();
        step
    }

    /// Makes what the viewer says louder or quieter, at the host.
    pub fn change_peer_volume(&mut self, up: bool) -> (r: ViewStep)
        requires
            old(self).wf(),
        ensures
            final(self).wf(),
            *final(self) == (RemotePlayView {
                talkback_remote_volume_percent: if up {
                    louder(old(self).talkback_remote_volume_percent)
                } else {
                    quieter(old(self).talkback_remote_volume_percent)
                },
                ..*old(self)
            }),
            r == (ViewStep { playback: final(self).peer_playback(), ..ViewStep::nothing() }),
    {
        self.talkback_remote_volume_percent =
        if up {
            volume_up(self.talkback_remote_volume_percent)
        } else {
            self.talkback_remote_volume_percent.saturating_sub(VOLUME_STEP)
        };
        let mut step = ViewStep::none();
        step.playback = self.talkback_playback_control_message();
        step
    }

    /// Whether a decoded frame is shown.
    pub fn takes_frame(&self) -> (r: bool)
        ensures
            r == (self.state is Streaming),
    {
        self.state == ViewState::Streaming
    }
}

/// The latest moment that is known of a frame before it is drawn, if it is timed at all.
pub open spec fn drawn_after(timing: FrameTimingCheckpoints) -> Option<u32> {
    if timing.capture_ts_us == 0 {
        None
    } else {
        let later = if timing.decode_done_ts_us >= timing.jitter_exit_ts_us {
            timing.decode_done_ts_us
        } else {
            timing.jitter_exit_ts_us
        };
        Some(
            if later >= timing.recv_ts_us {
                later
            } else {
                timing.recv_ts_us
            },
        )
    }
}

/// The moment from which the drawing of a frame is timed.
pub fn render_floor(timing: &FrameTimingCheckpoints) -> (r: Option<u32>)
    ensures
        r == drawn_after(*timing),
{
    if timing.capture_ts_us == 0 {
        return None;
    }
    let later: u32 = if timing.decode_done_ts_us >= timing.jitter_exit_ts_us {
        timing.decode_done_ts_us
    } else {
        timing.jitter_exit_ts_us
    };
    Some(
        if later >= timing.recv_ts_us {
            later
        } else {
            timing.recv_ts_us
        },
    )
}

/// Notes when a frame was drawn, if it is timed at all.
pub fn rendered(timing: FrameTimingCheckpoints, submitted_us: u32) -> (r: FrameTimingCheckpoints)
    ensures
        r == (if timing.capture_ts_us == 0 {
            timing
        } else {
            FrameTimingCheckpoints {
                render_submit_ts_us: submitted_us,
                render_done_ts_us: submitted_us,
                ..timing
            }
        }),
{
    let mut timing = timing;
    if timing.capture_ts_us > 0 {
        timing.render_submit_ts_us = submitted_us;
        timing.render_done_ts_us = submitted_us;
    }
    timing
}

/// A choice that was made is lit up, it alone among those that are in its place, and it leaves the
/// others as they were.
pub proof fn chosen_presets_are_lit(target: StreamTarget, preset: StreamPreset, other: StreamPreset)
    ensures
        target.with(preset).shows(preset),
        other.row() == preset.row() && other != preset ==> !target.with(preset).shows(other),
        other.row() != preset.row() ==> target.with(preset).shows(other) == target.shows(other),
{
}

/// Pressing and releasing the talk button leaves the window as it was, if the button was up; and
/// while talking takes the button, the microphone is sent exactly while it is held, unless it is
/// muted.
pub proof fn talk_button_is_undone(view: RemotePlayView)
    requires
        !view.talkback_push_active,
        view.talkback_mode is PushToTalk,
    ensures
        ({
            let held = RemotePlayView { talkback_push_active: true, ..view };
            let released = RemotePlayView { talkback_push_active: false, ..held };
            &&& released == view
            &&& held.capture_settings().transmits() == !view.talkback_local_mic_muted
            &&& !released.capture_settings().transmits()
        }),
{
}

/// What each choice makes of the stream that is wanted; whatever it is not about stays.
pub proof fn presets_are_what_they_say(target: StreamTarget, preset: StreamPreset)
    ensures
        ({
            let now = target.with(preset);
            let sized = |width: u32, height: u32|
                now.width == width && now.height == height && now.fps == target.fps
                    && now.bitrate_kbps == target.bitrate_kbps;
            let paced = |fps: u32|
                now.fps == fps && now.width == target.width && now.height == target.height
                    && now.bitrate_kbps == target.bitrate_kbps;
            let rated = |kbps: u32|
                now.bitrate_kbps == kbps && now.width == target.width && now.height
                    == target.height && now.fps == target.fps;
            match preset {
                StreamPreset::Size4k => sized(3840, 2160),
                StreamPreset::Size2k => sized(2560, 1440),
                StreamPreset::Size1080p => sized(1920, 1080),
                StreamPreset::Fps30 => paced(30),
                StreamPreset::Fps60 => paced(60),
                StreamPreset::Rate5m => rated(5_000),
                StreamPreset::Rate10m => rated(10_000),
                StreamPreset::Rate20m => rated(20_000),
            }
        }),
{
}

/// Volumes go up and down by ten, between silence and two hundred; one step up and one down leave
/// every volume from which the step up is a whole one.
pub proof fn volumes_go_by_tens(volume: u8)
    requires
        volume <= 200,
    ensures
        volume <= 190 ==> louder(volume) == volume + 10,
        volume > 190 ==> louder(volume) == 200,
        volume >= 10 ==> quieter(volume) == volume - 10,
        volume < 10 ==> quieter(volume) == 0,
        volume <= 190 ==> quieter(louder(volume)) == volume,
        10 <= volume ==> louder(quieter(volume)) == volume,
{
}

/// What is asked of a host: the stream that is wanted in the session that is shown, the way in which
/// the viewer is played there, and the viewer's microphone where it is on; no service is switched.
pub proof fn stream_requests_hold_what_is_wanted(view: RemotePlayView, addr: PeerAddr)
    ensures
        ({
            let step = view.stream_request(addr);
            &&& step.clipboard == ServiceSwitch::Keep
            &&& step.files == ServiceSwitch::Keep
            &&& step.audio is None
            &&& step.stream is Some
            &&& step.stream->0 is Start
            &&& (step.stream->0)->target == view.target
            &&& (step.stream->0)->session_id == view.session_id
            &&& (step.playback is None) == (view.session_id == 0)
            &&& step.playback is Some ==> {
                &&& step.playback->0.session_id == view.session_id
                &&& step.playback->0.muted == view.talkback_remote_muted
                &&& step.playback->0.volume_percent == view.talkback_remote_volume_percent
            }
            &&& !view.controls.talkback ==> step.talkback == TalkbackSwitch::Keep
            &&& view.controls.talkback && view.talkback_mode == TalkbackMode::Off ==> step.talkback
                == TalkbackSwitch::Stop
            &&& view.controls.talkback && view.talkback_mode != TalkbackMode::Off ==> {
                &&& step.talkback is Start
                &&& step.talkback->Start_1 == addr
                &&& step.talkback->Start_2 == view.session_id
                &&& step.talkback->Start_0.local_mic_muted == view.talkback_local_mic_muted
                &&& step.talkback->Start_0.push_to_talk == (view.talkback_mode
                    == TalkbackMode::PushToTalk)
                &&& step.talkback->Start_0.push_to_talk_active == view.talkback_push_active
            }
        }),
{
}

/// The microphone is adjusted or stopped only where the viewer has one to talk back with, and then to
/// what the switches of the panel say; so is what is heard of the host.
pub proof fn switches_are_handed_on(view: RemotePlayView)
    ensures
        !view.controls.talkback ==> view.talkback_set() == TalkbackSwitch::Keep
            && view.talkback_end() == TalkbackSwitch::Keep,
        view.controls.talkback ==> view.talkback_end() == TalkbackSwitch::Stop,
        view.controls.talkback ==> {
            &&& view.talkback_set() is Adjust
            &&& view.talkback_set()->Adjust_0.local_mic_muted == view.talkback_local_mic_muted
            &&& view.talkback_set()->Adjust_0.push_to_talk == (view.talkback_mode
                == TalkbackMode::PushToTalk)
            &&& view.talkback_set()->Adjust_0.push_to_talk_active == view.talkback_push_active
        },
        view.player_settings().remote_system_muted == view.remote_system_muted,
        view.player_settings().remote_microphone_muted == view.remote_microphone_muted,
        view.player_settings().volume_percent == view.remote_audio_volume_percent,
        ViewStep::nothing().clipboard == ServiceSwitch::Keep,
        ViewStep::nothing().files == ServiceSwitch::Keep,
        ViewStep::nothing().talkback == TalkbackSwitch::Keep,
        ViewStep::nothing().audio is None,
        ViewStep::nothing().playback is None,
        ViewStep::nothing().stream is None,
{
}

/// Turning to a host shows it, with the panel closed, and changes nothing of what the viewer wants.
pub proof fn hosts_are_shown_as_the_viewer_wants(view: RemotePlayView, addr: PeerAddr, now_ms: u64)
    ensures
        ({
            let now = view.towards(addr, now_ms);
            &&& now.state == ViewState::Streaming
            &&& now.host_addr == addr
            &&& !now.show_panel
            &&& now.last_pointer_ms == now_ms
            &&& now.target == view.target
            &&& now.controls == view.controls
            &&& now.session_id == view.session_id
            &&& now.show_stats == view.show_stats
            &&& now.talkback_mode == view.talkback_mode
            &&& now.talkback_push_active == view.talkback_push_active
            &&& now.talkback_local_mic_muted == view.talkback_local_mic_muted
            &&& now.talkback_remote_muted == view.talkback_remote_muted
            &&& now.talkback_remote_volume_percent == view.talkback_remote_volume_percent
            &&& now.player_settings() == view.player_settings()
        }),
{
}

/// Drawing is timed from the latest of when a frame came, left the buffer and was decoded, and only
/// if it is timed at all.
pub proof fn drawing_comes_last(timing: FrameTimingCheckpoints)
    ensures
        (drawn_after(timing) is None) == (timing.capture_ts_us == 0),
        drawn_after(timing) is Some ==> {
            let moment = drawn_after(timing)->0;
            &&& moment >= timing.recv_ts_us
            &&& moment >= timing.jitter_exit_ts_us
            &&& moment >= timing.decode_done_ts_us
            &&& moment == timing.recv_ts_us || moment == timing.jitter_exit_ts_us || moment
                == timing.decode_done_ts_us
        },
{
}

} // verus!
