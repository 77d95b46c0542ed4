//! The viewer's services: when each is started, stopped, or passed a command.
use crate::client::audio_player::{AudioPlayerEvent, AudioPlayerSettings};
use crate::client::talkback::TalkbackCaptureSettings;
use crate::client::transfer_center::{
    newest_first, Center, Entry, TransferCancelTarget, TransferCenterState, TransferEntrySnapshot,
};
use crate::file_transfer::FileTransferEvent;
use crate::host::service::PeerAddr;
use crate::text::same_text;
use vstd::prelude::*;

verus! {

/// The words that turn a switch on.
pub open spec fn is_on(value: Seq<char>) -> bool {
    value == "1"@ || value == "true"@ || value == "TRUE"@ || value == "yes"@ || value == "YES"@
}

/// Whether a switch is on; one that is not set is as `default` says.
pub fn env_flag_or(value: Option<&str>, default: bool) -> (r: bool)
    ensures
        r == (match value {
            Some(v) => is_on(v@),
            None => default,
        }),
{
    match value {
        Some(v) => same_text(v, "1") || same_text(v, "true") || same_text(v, "TRUE") || same_text(
            v,
            "yes",
        ) || same_text(v, "YES"),
        None => default,
    }
}

/// Whether a switch is on; one that is not set is off.
pub fn env_flag_enabled(value: Option<&str>) -> (r: bool)
    ensures
        r == (value is Some && is_on(value->0@)),
{
    env_flag_or(value, false)
}

/// The switches that a run was started with.
#[derive(Debug, Clone, Copy, PartialEq, Eq, Structural)]
pub struct FeatureSwitches {
    pub file_transfer: bool,
    pub file_clipboard: bool,
    /// A file was named that is to be sent.
    pub send_file: bool,
    pub clipboard_sync: bool,
    pub talkback: bool,
}

/// What a device tells others that it can do.
#[derive(Debug, Clone, Copy, PartialEq, Eq, Structural)]
pub struct DiscoveryCapabilities {
    pub can_stream: bool,
    pub can_view: bool,
    pub file_transfer: bool,
    pub clipboard_sync: bool,
    pub talkback: bool,
}

/// What a host tells others that it can do.
pub fn host_capabilities(switches: FeatureSwitches) -> (r: DiscoveryCapabilities)
    ensures
        r == (DiscoveryCapabilities {
            can_stream: true,
            can_view: false,
            file_transfer: switches.file_transfer || switches.file_clipboard
                || switches.send_file,
            clipboard_sync: switches.clipboard_sync,
            talkback: switches.talkback,
        }),
{
    DiscoveryCapabilities {
        can_stream: true,
        can_view: false,
        file_transfer: switches.file_transfer || switches.file_clipboard || switches.send_file,
        clipboard_sync: switches.clipboard_sync,
        talkback: switches.talkback,
    }
}

/// What a viewer tells others that it can do.
pub fn viewer_capabilities(switches: FeatureSwitches) -> (r: DiscoveryCapabilities)
    ensures
        r == (DiscoveryCapabilities {
            can_stream: false,
            can_view: true,
            file_transfer: switches.file_transfer || switches.file_clipboard,
            clipboard_sync: switches.clipboard_sync,
            talkback: switches.talkback,
        }),
{
    DiscoveryCapabilities {
        can_stream: false,
        can_view: true,
        file_transfer: switches.file_transfer || switches.file_clipboard,
        clipboard_sync: switches.clipboard_sync,
        talkback: switches.talkback,
    }
}

/// The services that a viewer runs.
#[derive(Debug, Clone, Copy, PartialEq, Eq, Structural)]
pub struct ViewerServices {
    pub clipboard: bool,
    pub files: bool,
    pub talkback: bool,
}

/// The services that a viewer runs.
pub fn viewer_services(switches: FeatureSwitches) -> (r: ViewerServices)
    ensures
        r == (ViewerServices {
            clipboard: switches.clipboard_sync,
            files: switches.file_transfer || switches.file_clipboard || switches.send_file,
            talkback: switches.talkback,
        }),
{
    ViewerServices {
        clipboard: switches.clipboard_sync,
        files: switches.file_transfer || switches.file_clipboard || switches.send_file,
        talkback: switches.talkback,
    }
}

/// Where a device is announced.
#[derive(Debug, Clone, Copy, PartialEq, Eq, Structural)]
pub enum DiscoveryScope {
    Lan,
    Mesh,
    Relay,
}

/// A device with an address in the mesh is announced there, any other in its local network.
pub fn discovery_scope(has_virtual_ip: bool) -> (r: DiscoveryScope)
    ensures
        r == (if has_virtual_ip {
            DiscoveryScope::Mesh
        } else {
            DiscoveryScope::Lan
        }),
{
    if has_virtual_ip {
        DiscoveryScope::Mesh
    } else {
        DiscoveryScope::Lan
    }
}

#[derive(Debug, Clone, PartialEq, Eq)]
pub enum ClientMediaRuntimeStatus {
    Ready,
    AudioUnavailable { reason: String },
}

/// The viewer runs without sound where there is no output for it.
pub fn media_status(audio: Result<(), String>) -> (r: ClientMediaRuntimeStatus)
    ensures
        match audio {
            Ok(()) => r is Ready,
            Err(reason) => r == (ClientMediaRuntimeStatus::AudioUnavailable { reason }),
        },
{
    match audio {
        Ok(()) => ClientMediaRuntimeStatus::Ready,
        Err(reason) => ClientMediaRuntimeStatus::AudioUnavailable { reason },
    }
}

/// Whether a decoder's complaint is worth telling: frames before the first that it can start at are
/// nothing unusual.
pub fn reports_decode_error(message: &str) -> (r: bool)
    ensures
        r == (message@ != "No frame data or session not ready"@),
{
    !same_text(message, "No frame data or session not ready")
}

/// Hands settings to the audio player.
pub struct AudioPlaybackControl {}

impl AudioPlaybackControl {
    pub fn set_settings(&self, settings: AudioPlayerSettings) -> (r: AudioPlayerEvent)
        ensures
            r == AudioPlayerEvent::Settings(settings),
    {
        AudioPlayerEvent::Settings(settings)
    }
}

/// What to do with a service that talks to one host: stop the run that is going on, and start
/// another.
#[derive(Debug, Clone, Copy, PartialEq, Eq, Structural)]
pub struct ServiceStep {
    pub cancel: bool,
    pub launch: Option<PeerAddr>,
}

/// The shared clipboard, which runs with one host at a time.
#[derive(Debug)]
pub struct ClipboardRuntimeControl {
    active: Option<PeerAddr>,
}

impl ClipboardRuntimeControl {
    /// The host that it runs with.
    pub closed spec fn active(&self) -> Option<PeerAddr> {
        self.active
    }

    pub fn new() -> (r: Self)
        ensures
            r.active() is None,
    {
        ClipboardRuntimeControl { active: None }
    }

    /// Runs with `target` from now on; a run with it goes on undisturbed.
    pub fn start(&mut self, target: PeerAddr) -> (r: ServiceStep)
        ensures
            final(self).active() == Some(target),
            r == (if old(self).active() == Some(target) {
                ServiceStep { cancel: false, launch: None }
            } else {
                ServiceStep { cancel: old(self).active() is Some, launch: Some(target) }
            }),
    {
        if let Some(active) = self.active {
            if active == target {
                return ServiceStep { cancel: false, launch: None };
            }
        }
        let cancel = self.active.is_some();
        self.active = Some(target);
        ServiceStep { cancel, launch: Some(target) }
    }

    pub fn stop(&mut self) -> (r: ServiceStep)
        ensures
            final(self).active() is None,
            r == (ServiceStep { cancel: old(self).active() is Some, launch: None }),
    {
        let cancel = self.active.is_some();
        self.active = None;
        ServiceStep { cancel, launch: None }
    }

    /// Whether packets for the clipboard are taken.
    pub fn routes_inbound(&self) -> (r: bool)
        ensures
            r == (self.active() is Some),
    {
        self.active.is_some()
    }
}

/// What to do with talkback.
#[derive(Debug, Clone, Copy, PartialEq, Eq)]
pub struct TalkbackStep {
    pub cancel: bool,
    /// Start with this host, in this session, with these settings.
    pub launch: Option<(PeerAddr, u32, TalkbackCaptureSettings)>,
    /// Pass these settings to the run that is going on.
    pub forward: Option<TalkbackCaptureSettings>,
}

/// The viewer's microphone, which runs in one session at a time.
#[derive(Debug)]
pub struct TalkbackRuntimeControl {
    running: bool,
    settings: TalkbackCaptureSettings,
}

impl TalkbackRuntimeControl {
    pub closed spec fn running(&self) -> bool {
        self.running
    }

    pub closed spec fn settings(&self) -> TalkbackCaptureSettings {
        self.settings
    }

    pub fn new() -> (r: Self)
        ensures
            !r.running(),
            r.settings() == (TalkbackCaptureSettings {
                local_mic_muted: false,
                push_to_talk: false,
                push_to_talk_active: true,
            }),
    {
        TalkbackRuntimeControl { running: false, settings: TalkbackCaptureSettings::default() }
    }

    /// Starts a run, with the settings that were last chosen; one that is going on is stopped.
    pub fn start(&mut self, target: PeerAddr, session_id: u32) -> (r: TalkbackStep)
        ensures
            final(self).running(),
            final(self).settings() == old(self).settings(),
            r == (TalkbackStep {
                cancel: old(self).running(),
                launch: Some((target, session_id, old(self).settings())),
                forward: None,
            }),
    {
        let cancel = self.running;
        self.running = true;
        TalkbackStep { cancel, launch: Some((target, session_id, self.settings)), forward: None }
    }

    pub fn stop(&mut self) -> (r: TalkbackStep)
        ensures
            !final(self).running(),
            final(self).settings() == old(self).settings(),
            r == (TalkbackStep { cancel: old(self).running(), launch: None, forward: None }),
    {
        let cancel = self.running;
        self.running = false;
        TalkbackStep { cancel, launch: None, forward: None }
    }

    /// Remembers settings, and passes them on where there is a run.
    pub fn set_settings(&mut self, settings: TalkbackCaptureSettings) -> (r: TalkbackStep)
        ensures
            final(self).running() == old(self).running(),
            final(self).settings() == settings,
            r == (TalkbackStep {
                cancel: false,
                launch: None,
                forward: if old(self).running() {
                    Some(settings)
                } else {
                    None
                },
            }),
    {
        self.settings = settings;
        let forward = if self.running {
            Some(settings)
        } else {
            None
        };
        TalkbackStep { cancel: false, launch: None, forward }
    }
}

/// Where files that come in are put, and whether they may replace others.
#[derive(Debug, PartialEq, Eq)]
pub struct FileTransferRuntimeSettings {
    pub receive_dir: String,
    pub allow_overwrite: bool,
}

impl Clone for FileTransferRuntimeSettings {
    fn clone(&self) -> (r: Self)
        ensures
            r.receive_dir@ == self.receive_dir@,
            r.allow_overwrite == self.allow_overwrite,
    {
        FileTransferRuntimeSettings {
            receive_dir: self.receive_dir.clone(),
            allow_overwrite: self.allow_overwrite,
        }
    }
}

#[derive(Debug, Clone, Copy, PartialEq, Eq, Structural)]
pub struct FileReceivePolicy {
    pub allow_overwrite: bool,
}

/// What a run of the file transfer is given.
#[derive(Debug, PartialEq, Eq)]
pub struct FileTransferRuntimeConfig {
    pub receive_dir: String,
    pub receive_policy: FileReceivePolicy,
}

impl FileTransferRuntimeSettings {
    /// The settings of the environment: the directory that was named, or else the usual one.
    pub fn from_env(
        named_dir: Option<String>,
        usual_dir: String,
        allow_overwrite: Option<&str>,
    ) -> (r: Self)
        ensures
            r.receive_dir == (match named_dir {
                Some(dir) => dir,
                None => usual_dir,
            }),
            r.allow_overwrite == (allow_overwrite is Some && is_on(allow_overwrite->0@)),
    {
        FileTransferRuntimeSettings {
            receive_dir: match named_dir {
                Some(dir) => dir,
                None => usual_dir,
            },
            allow_overwrite: env_flag_enabled(allow_overwrite),
        }
    }

    pub fn receive_policy(&self) -> (r: FileReceivePolicy)
        ensures
            r.allow_overwrite == self.allow_overwrite,
    {
        FileReceivePolicy { allow_overwrite: self.allow_overwrite }
    }

    pub fn runtime_config(&self) -> (r: FileTransferRuntimeConfig)
        ensures
            r.receive_dir@ == self.receive_dir@,
            r.receive_policy.allow_overwrite == self.allow_overwrite,
    {
        FileTransferRuntimeConfig {
            receive_dir: self.receive_dir.clone(),
            receive_policy: self.receive_policy(),
        }
    }
}

/// What a run of the file transfer is told.
#[derive(Debug)]
pub enum FileTransferCommand {
    SendFile { path: String, mime_type: Option<String> },
    SendFileGroup { paths: Vec<String> },
    CancelTransfer { transfer_id: u64 },
    CancelGroup { group_id: u64 },
    SetReceiveConfig(FileTransferRuntimeConfig),
}

/// What to do with the file transfer.
#[derive(Debug)]
pub struct FileTransferStep {
    pub cancel: bool,
    /// Start with this host and this configuration.
    pub launch: Option<(PeerAddr, FileTransferRuntimeConfig)>,
    /// Pass this to the run that is going on.
    pub forward: Option<FileTransferCommand>,
    /// Tell the user.
    pub complaint: Option<&'static str>,
}

impl FileTransferStep {
    /// Nothing is started or stopped.
    pub open spec fn only_forwards(self) -> bool {
        !self.cancel && self.launch is None
    }
}

/// The file transfer, which runs with one host at a time, and the list of its transfers.
pub struct FileTransferRuntimeControl {
    active: Option<PeerAddr>,
    settings: FileTransferRuntimeSettings,
    transfers: TransferCenterState,
}

impl FileTransferRuntimeControl {
    /// The host that it runs with.
    pub closed spec fn active(&self) -> Option<PeerAddr> {
        self.active
    }

    /// The directory for files that come in.
    pub closed spec fn dir(&self) -> Seq<char> {
        self.settings.receive_dir@
    }

    pub closed spec fn overwrites(&self) -> bool {
        self.settings.allow_overwrite
    }

    /// The list of transfers.
    pub closed spec fn transfers(&self) -> Center {
        self.transfers@
    }

    /// Nothing but the host has changed.
    pub open spec fn same_settings(&self, other: &Self) -> bool {
        self.dir() == other.dir() && self.overwrites() == other.overwrites() && self.transfers()
            == other.transfers()
    }

    pub fn new(settings: FileTransferRuntimeSettings) -> (r: Self)
        ensures
            r.active() is None,
            r.dir() == settings.receive_dir@,
            r.overwrites() == settings.allow_overwrite,
            r.transfers() == (Center { entries: Seq::empty(), children: Seq::empty(), seq: 0 }),
    {
        FileTransferRuntimeControl {
            active: None,
            settings,
            transfers: TransferCenterState::default(),
        }
    }

    /// Runs with `target` from now on; a run with it goes on undisturbed. A file that is to be sent
    /// from the start is the first command of a new run.
    pub fn start(&mut self, target: PeerAddr, first_file: Option<String>) -> (r: FileTransferStep)
        ensures
            final(self).active() == Some(target),
            final(self).same_settings(old(self)),
            r.complaint is None,
            if old(self).active() == Some(target) {
                r.only_forwards() && r.forward is None
            } else {
                &&& r.cancel == (old(self).active() is Some)
                &&& r.launch is Some
                &&& (r.launch->0).0 == target
                &&& (r.launch->0).1.receive_dir@ == old(self).dir()
                &&& (r.launch->0).1.receive_policy.allow_overwrite == old(self).overwrites()
                &&& match first_file {
                    Some(path) => r.forward == Some(
                        FileTransferCommand::SendFile { path, mime_type: None },
                    ),
                    None => r.forward is None,
                }
            },
    {
        if let Some(active) = self.active {
            if active == target {
                return FileTransferStep {
                    cancel: false,
                    launch: None,
                    forward: None,
                    complaint: None,
                };
            }
        }
        let cancel = self.active.is_some();
        self.active = Some(target);
        let forward = match first_file {
            Some(path) => Some(FileTransferCommand::SendFile { path, mime_type: None }),
            None => None,
        };
        FileTransferStep {
            cancel,
            launch: Some((target, self.settings.runtime_config())),
            forward,
            complaint: None,
        }
    }

    pub fn stop(&mut self) -> (r: FileTransferStep)
        ensures
            final(self).active() is None,
            final(self).same_settings(old(self)),
            r.cancel == (old(self).active() is Some),
            r.launch is None,
            r.forward is None,
            r.complaint is None,
    {
        let cancel = self.active.is_some();
        self.active = None;
        FileTransferStep { cancel, launch: None, forward: None, complaint: None }
    }

    fn forward(&self, command: FileTransferCommand, complaint: Option<&'static str>) -> (r:
        FileTransferStep)
        ensures
            r.only_forwards(),
            if self.active() is Some {
                r.forward == Some(command) && r.complaint is None
            } else {
                r.forward is None && r.complaint == complaint
            },
    {
        if self.active.is_some() {
            FileTransferStep {
                cancel: false,
                launch: None,
                forward: Some(command),
                complaint: None,
            }
        } else {
            FileTransferStep { cancel: false, launch: None, forward: None, complaint }
        }
    }

    /// Sends a file, if there is a host to send it to.
    pub fn send_file(&self, path: String, mime_type: Option<String>) -> (r: FileTransferStep)
        ensures
            r.only_forwards(),
            if self.active() is Some {
                &&& r.forward == Some(FileTransferCommand::SendFile { path, mime_type })
                &&& r.complaint is None
            } else {
                &&& r.forward is None
                &&& r.complaint is Some
                &&& r.complaint->0@
                    == "File transfer send requested before an active target was selected"@
            },
    {
        self.forward(
            FileTransferCommand::SendFile { path, mime_type },
            Some("File transfer send requested before an active target was selected"),
        )
    }

    /// Sends several files as one group, if there is a host to send them to.
    pub fn send_file_group(&self, paths: Vec<String>) -> (r: FileTransferStep)
        ensures
            r.only_forwards(),
            if self.active() is Some {
                &&& r.forward == Some(FileTransferCommand::SendFileGroup { paths })
                &&& r.complaint is None
            } else {
                &&& r.forward is None
                &&& r.complaint is Some
                &&& r.complaint->0@
                    == "File transfer group send requested before an active target was selected"@
            },
    {
        self.forward(
            FileTransferCommand::SendFileGroup { paths },
            Some("File transfer group send requested before an active target was selected"),
        )
    }

    pub fn cancel_transfer(&self, transfer_id: u64) -> (r: FileTransferStep)
        ensures
            r.only_forwards(),
            r.complaint is None,
            r.forward == (if self.active() is Some {
                Some(FileTransferCommand::CancelTransfer { transfer_id })
            } else {
                None
            }),
    {
        self.forward(FileTransferCommand::CancelTransfer { transfer_id }, None)
    }

    pub fn cancel_group(&self, group_id: u64) -> (r: FileTransferStep)
        ensures
            r.only_forwards(),
            r.complaint is None,
            r.forward == (if self.active() is Some {
                Some(FileTransferCommand::CancelGroup { group_id })
            } else {
                None
            }),
    {
        self.forward(FileTransferCommand::CancelGroup { group_id }, None)
    }

    /// Ends what the button of a transfer's row ends.
    pub fn cancel(&self, target: TransferCancelTarget) -> (r: FileTransferStep)
        ensures
            r.only_forwards(),
            r.complaint is None,
            r.forward == (if self.active() is Some {
                Some(
                    match target {
                        TransferCancelTarget::Transfer(transfer_id) =>
                            FileTransferCommand::CancelTransfer { transfer_id },
                        TransferCancelTarget::Group(group_id) => FileTransferCommand::CancelGroup {
                            group_id,
                        },
                    },
                )
            } else {
                None
            }),
    {
        match target {
            TransferCancelTarget::Transfer(transfer_id) => self.cancel_transfer(transfer_id),
            TransferCancelTarget::Group(group_id) => self.cancel_group(group_id),
        }
    }

    pub fn receive_dir(&self) -> (r: String)
        ensures
            r@ == self.dir(),
    {
        self.settings.receive_dir.clone()
    }

    fn announce_settings(&self) -> (r: FileTransferStep)
        ensures
            self.announces(r),
    {
        self.forward(FileTransferCommand::SetReceiveConfig(self.settings.runtime_config()), None)
    }

    /// The run that is going on, if any, is told the settings.
    pub open spec fn announces(&self, step: FileTransferStep) -> bool {
        &&& step.only_forwards()
        &&& step.complaint is None
        &&& if self.active() is Some {
            &&& step.forward is Some
            &&& step.forward->0 is SetReceiveConfig
            &&& step.forward->0->SetReceiveConfig_0.receive_dir@ == self.dir()
            &&& step.forward->0->SetReceiveConfig_0.receive_policy.allow_overwrite
                == self.overwrites()
        } else {
            step.forward is None
        }
    }

    pub fn set_receive_dir(&mut self, receive_dir: String) -> (r: FileTransferStep)
        ensures
            final(self).active() == old(self).active(),
            final(self).dir() == receive_dir@,
            final(self).overwrites() == old(self).overwrites(),
            final(self).transfers() == old(self).transfers(),
            final(self).announces(r),
    {
        self.settings.receive_dir = receive_dir;
        self.announce_settings()
    }

    pub fn allow_overwrite(&self) -> (r: bool)
        ensures
            r == self.overwrites(),
    {
        self.settings.allow_overwrite
    }

    pub fn set_allow_overwrite(&mut self, allow_overwrite: bool) -> (r: FileTransferStep)
        ensures
            final(self).active() == old(self).active(),
            final(self).dir() == old(self).dir(),
            final(self).overwrites() == allow_overwrite,
            final(self).transfers() == old(self).transfers(),
            final(self).announces(r),
    {
        self.settings.allow_overwrite = allow_overwrite;
        self.announce_settings()
    }

    /// Takes a report of the file transfer into the list, where its sums fit. The flag tells whether
    /// they did.
    pub fn record_event(&mut self, event: &FileTransferEvent) -> (r: bool)
        ensures
            r == (old(self).transfers().sum_after(*event) <= u64::MAX),
            final(self).active() == old(self).active(),
            final(self).dir() == old(self).dir(),
            final(self).overwrites() == old(self).overwrites(),
            final(self).transfers() == (if r {
                old(self).transfers().after(*event)
            } else {
                old(self).transfers()
            }),
    {
        if self.transfers.sums_fit(event) {
            self.transfers.apply_event(event);
            true
        } else {
            false
        }
    }

    pub fn transfer_snapshot(&self) -> (r: Vec<TransferEntrySnapshot>)
        ensures
            r@.map_values(|s: TransferEntrySnapshot| s@) == newest_first(
                self.transfers().entries,
            ).map_values(|e: Entry| e.row),
    {
        self.transfers.snapshots()
    }

    /// Whether packets for the file transfer are taken.
    pub fn routes_inbound(&self) -> (r: bool)
        ensures
            r == (self.active() is Some),
    {
        self.active.is_some()
    }
}

/// A switch is turned on by a one, and by the two words for yes, in small letters or in capitals;
/// nothing else turns it on.
pub proof fn few_words_turn_a_switch_on(value: Seq<char>)
    ensures
        is_on(seq!['1']) && is_on(seq!['y', 'e', 's']) && is_on(seq!['Y', 'E', 'S']),
        is_on(seq!['t', 'r', 'u', 'e']) && is_on(seq!['T', 'R', 'U', 'E']),
        !is_on(seq!['0']) && !is_on(Seq::empty()) && !is_on(seq!['o', 'n']),
        is_on(value) ==> value =~= seq!['1'] || value =~= seq!['y', 'e', 's'] || value =~= seq![
            'Y',
            'E',
            'S',
        ] || value =~= seq!['t', 'r', 'u', 'e'] || value =~= seq!['T', 'R', 'U', 'E'],
{
    reveal_strlit("1");
    reveal_strlit("true");
    reveal_strlit("TRUE");
    reveal_strlit("yes");
    reveal_strlit("YES");
    assert("1"@ =~= seq!['1']);
    assert("yes"@ =~= seq!['y', 'e', 's']);
    assert("YES"@ =~= seq!['Y', 'E', 'S']);
    assert("true"@ =~= seq!['t', 'r', 'u', 'e']);
    assert("TRUE"@ =~= seq!['T', 'R', 'U', 'E']);
    assert(seq!['0'][0] != seq!['1'][0]);
}

/// A run of the file transfer that goes on is told both settings as they are, and nothing is started
/// or stopped by that; without one nobody is told.
pub proof fn settings_are_told_to_the_run(
    control: FileTransferRuntimeControl,
    step: FileTransferStep,
)
    requires
        control.announces(step),
    ensures
        !step.cancel,
        step.launch is None,
        step.complaint is None,
        (step.forward is Some) == (control.active() is Some),
        step.forward is Some ==> {
            &&& step.forward->0 is SetReceiveConfig
            &&& (step.forward->0)->SetReceiveConfig_0.receive_dir@ == control.dir()
            &&& (step.forward->0)->SetReceiveConfig_0.receive_policy.allow_overwrite
                == control.overwrites()
        },
{
}

} // verus!
