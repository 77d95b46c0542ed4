//! What the panel of the viewer's window shows.
use crate::client::labels::{
    compact_path, control_fill, shortened, shows_transfer, toggle_fill, transfer_row, TransferRow,
    SHOWN_TRANSFERS,
};
use crate::client::transfer_center::TransferEntrySnapshot;
use crate::client::view::{RemotePlayView, StreamPreset, TalkbackMode, ViewState};
use crate::text::{decimal, push_decimal};
use vstd::prelude::*;

verus! {

/// Something to click, with its text and the colour behind it.
#[derive(Debug, Clone, Copy, PartialEq, Eq)]
pub struct Button {
    pub text: &'static str,
    pub fill: u32,
}

impl Button {
    /// One of several choices, lit up where it was made.
    pub open spec fn is_choice(self, text: Seq<char>, made: bool) -> bool {
        self.text@ == text && self.fill == (if made {
            0x2563ebu32
        } else {
            0x242a33u32
        })
    }

    /// A switch, with a text for each of its positions.
    pub open spec fn is_switch(self, on_text: Seq<char>, off_text: Seq<char>, on: bool) -> bool {
        if on {
            self.text@ == on_text && self.fill == 0x2f7d68u32
        } else {
            self.text@ == off_text && self.fill == 0x57343du32
        }
    }

    fn choice(text: &'static str, made: bool) -> (r: Self)
        ensures
            r.is_choice(text@, made),
    {
        Button { text, fill: control_fill(made) }
    }

    fn switch(on_text: &'static str, off_text: &'static str, on: bool) -> (r: Self)
        ensures
            r.is_switch(on_text@, off_text@, on),
    {
        Button {
            text: if on {
                on_text
            } else {
                off_text
            },
            fill: toggle_fill(on),
        }
    }
}

/// What the panel says of a preset.
pub open spec fn preset_text(preset: StreamPreset) -> Seq<char> {
    match preset {
        StreamPreset::Size4k => "4K"@,
        StreamPreset::Size2k => "2K"@,
        StreamPreset::Size1080p => "1080p"@,
        StreamPreset::Fps30 => "30 FPS"@,
        StreamPreset::Fps60 => "60 FPS"@,
        StreamPreset::Rate5m => "5 Mbps"@,
        StreamPreset::Rate10m => "10 Mbps"@,
        StreamPreset::Rate20m => "20 Mbps"@,
    }
}

/// The presets in the order in which the panel offers them.
pub open spec fn preset_order() -> Seq<StreamPreset> {
    seq![
        StreamPreset::Size4k,
        StreamPreset::Size2k,
        StreamPreset::Size1080p,
        StreamPreset::Fps30,
        StreamPreset::Fps60,
        StreamPreset::Rate5m,
        StreamPreset::Rate10m,
        StreamPreset::Rate20m,
    ]
}

/// The part of the panel that is about the viewer's microphone.
#[derive(Debug, PartialEq, Eq)]
pub struct TalkbackPanel {
    pub off: Button,
    pub always: Button,
    pub push: Button,
    pub local_microphone: Button,
    pub hold: Button,
    pub peer: Button,
    pub peer_volume: String,
}

/// The part of the panel that is about files.
#[derive(Debug, PartialEq, Eq)]
pub struct FilesPanel {
    pub receive_dir: String,
    pub overwrite: Button,
}

/// The panel.
#[derive(Debug, PartialEq, Eq)]
pub struct ControlPanel {
    pub presets: Vec<(StreamPreset, Button)>,
    pub system: Button,
    pub microphone: Button,
    pub volume: String,
    /// There only where the viewer can talk back.
    pub talkback: Option<TalkbackPanel>,
    /// The latest of them.
    pub transfers: Vec<TransferRow>,
    /// There only where the viewer can send and receive files.
    pub files: Option<FilesPanel>,
}

/// The longest path that the panel shows in full.
pub const SHOWN_PATH_CHARS: usize = 42;

pub open spec fn percent_text(who: Seq<char>, percent: u8) -> Seq<char> {
    who + decimal(percent as nat) + "%"@
}

impl TalkbackPanel {
    /// This is the part about the microphone in that window.
    pub open spec fn shows(self, view: RemotePlayView) -> bool {
        &&& self.off.is_choice("Off"@, view.talkback_mode is Off)
        &&& self.always.is_choice("Always"@, view.talkback_mode is AlwaysOn)
        &&& self.push.is_choice("PTT"@, view.talkback_mode is PushToTalk)
        &&& self.local_microphone.is_switch(
            "Local Mic On"@,
            "Local Mic Muted"@,
            !view.talkback_local_mic_muted,
        )
        &&& self.hold.is_choice(
            "Hold"@,
            view.talkback_mode is PushToTalk && view.talkback_push_active,
        )
        &&& self.peer.is_switch("Peer On"@, "Peer Muted"@, !view.talkback_remote_muted)
        &&& self.peer_volume@ == percent_text("Peer "@, view.talkback_remote_volume_percent)
    }
}

impl ControlPanel {
    /// The panel has a button for each preset, lit up where the stream is that way.
    pub open spec fn shows_presets(self, view: RemotePlayView) -> bool {
        &&& self.presets@.len() == preset_order().len()
        &&& forall|i: int|
            0 <= i < preset_order().len() ==> {
                let (preset, button) = #[trigger] self.presets@[i];
                preset == preset_order()[i] && button.is_choice(
                    preset_text(preset),
                    view.target.shows(preset),
                )
            }
    }

    /// The panel has a row for each of the latest transfers.
    pub open spec fn shows_transfers(
        self,
        view: RemotePlayView,
        transfers: Seq<TransferEntrySnapshot>,
    ) -> bool {
        &&& self.transfers@.len() == (if !view.controls.file_transfer {
            0
        } else if transfers.len() <= SHOWN_TRANSFERS {
            transfers.len() as int
        } else {
            SHOWN_TRANSFERS as int
        })
        &&& forall|i: int|
            0 <= i < self.transfers@.len() ==> shows_transfer(
                #[trigger] self.transfers@[i],
                transfers[i],
                i,
            )
    }

    /// This is the panel of that window.
    pub open spec fn shows(
        self,
        view: RemotePlayView,
        transfers: Seq<TransferEntrySnapshot>,
        receive_dir: Seq<char>,
        allow_overwrite: bool,
    ) -> bool {
        &&& self.shows_presets(view)
        &&& self.system.is_switch("System On"@, "System Muted"@, !view.remote_system_muted)
        &&& self.microphone.is_switch(
            "Remote Mic On"@,
            "Remote Mic Muted"@,
            !view.remote_microphone_muted,
        )
        &&& self.volume@ == percent_text("Remote "@, view.remote_audio_volume_percent)
        &&& match self.talkback {
            Some(talkback) => view.controls.talkback && talkback.shows(view),
            None => !view.controls.talkback,
        }
        &&& self.shows_transfers(view, transfers)
        &&& match self.files {
            Some(files) => {
                &&& view.controls.file_transfer
                &&& files.receive_dir@ == shortened(receive_dir, SHOWN_PATH_CHARS as int)
                &&& files.overwrite.fill == (if allow_overwrite {
                    0x2563ebu32
                } else {
                    0x242a33u32
                })
                &&& files.overwrite.text@ == (if allow_overwrite {
                    "Overwrite On"@
                } else {
                    "Overwrite Off"@
                })
            },
            None => !view.controls.file_transfer,
        }
    }
}

fn volume_text(who: &str, percent: u8) -> (r: String)
    ensures
        r@ == percent_text(who@, percent),
{
    let mut text = who.to_owned();
    push_decimal(&mut text, percent as u64);
    text.append("%");
    text
}

impl RemotePlayView {
    fn preset_button(&self, preset: StreamPreset) -> (r: (StreamPreset, Button))
        ensures
            r.0 == preset,
            r.1.is_choice(preset_text(preset), self.target.shows(preset)),
    {
        let text = match preset {
            StreamPreset::Size4k => "4K",
            StreamPreset::Size2k => "2K",
            StreamPreset::Size1080p => "1080p",
            StreamPreset::Fps30 => "30 FPS",
            StreamPreset::Fps60 => "60 FPS",
            StreamPreset::Rate5m => "5 Mbps",
            StreamPreset::Rate10m => "10 Mbps",
            StreamPreset::Rate20m => "20 Mbps",
        };
        (preset, Button::choice(text, self.target.is_chosen(preset)))
    }

    fn preset_buttons(&self) -> (r: Vec<(StreamPreset, Button)>)
        ensures
            r@.len() == preset_order().len(),
            forall|i: int|
                0 <= i < preset_order().len() ==> {
                    let (preset, button) = #[trigger] r@[i];
                    preset == preset_order()[i] && button.is_choice(
                        preset_text(preset),
                        self.target.shows(preset),
                    )
                },
    {
        let mut buttons: Vec<(StreamPreset, Button)> = Vec::new();
        buttons.push(self.preset_button(StreamPreset::Size4k));
        buttons.push(self.preset_button(StreamPreset::Size2k));
        buttons.push(self.preset_button(StreamPreset::Size1080p));
        buttons.push(self.preset_button(StreamPreset::Fps30));
        buttons.push(self.preset_button(StreamPreset::Fps60));
        buttons.push(self.preset_button(StreamPreset::Rate5m));
        buttons.push(self.preset_button(StreamPreset::Rate10m));
        buttons.push(self.preset_button(StreamPreset::Rate20m));
        buttons
    }

    fn talkback_panel(&self) -> (r: TalkbackPanel)
        ensures
            r.shows(*self),
    {
        let push = self.talkback_mode == TalkbackMode::PushToTalk;
        TalkbackPanel {
            off: Button::choice("Off", self.talkback_mode == TalkbackMode::Off),
            always: Button::choice("Always", self.talkback_mode == TalkbackMode::AlwaysOn),
            push: Button::choice("PTT", push),
            local_microphone: Button::switch(
                "Local Mic On",
                "Local Mic Muted",
                !self.talkback_local_mic_muted,
            ),
            hold: Button::choice("Hold", push && self.talkback_push_active),
            peer: Button::switch("Peer On", "Peer Muted", !self.talkback_remote_muted),
            peer_volume: volume_text("Peer ", self.talkback_remote_volume_percent),
        }
    }

    fn transfer_rows(&self, transfers: &Vec<TransferEntrySnapshot>) -> (r: Vec<TransferRow>)
        ensures
            r@.len() == (if !self.controls.file_transfer {
                0
            } else if transfers@.len() <= SHOWN_TRANSFERS {
                transfers@.len() as int
            } else {
                SHOWN_TRANSFERS as int
            }),
            forall|i: int|
                0 <= i < r@.len() ==> shows_transfer(#[trigger] r@[i], transfers@[i], i),
    {
        let mut rows: Vec<TransferRow> = Vec::new();
        if self.controls.file_transfer {
            let mut i: usize = 0;
            while i < transfers.len() && i < SHOWN_TRANSFERS
                invariant
                    i <= transfers@.len(),
                    i <= SHOWN_TRANSFERS,
                    rows@.len() == i,
                    forall|j: int|
                        0 <= j < i ==> shows_transfer(#[trigger] rows@[j], transfers@[j], j),
                decreases transfers.len() - i,
            {
                rows.push(transfer_row(&transfers[i], i));
                i += 1;
            }
        }
        rows
    }

    /// The panel, where it is open: with the transfers, newest first, and the settings for files
    /// that come in.
    pub fn panel(
        &self,
        transfers: &Vec<TransferEntrySnapshot>,
        receive_dir: &str,
        allow_overwrite: bool,
    ) -> (r: Option<ControlPanel>)
        ensures
            match r {
                Some(panel) => {
                    &&& self.state is Streaming && self.show_panel
                    &&& panel.shows(*self, transfers@, receive_dir@, allow_overwrite)
                },
                None => !(self.state is Streaming && self.show_panel),
            },
    {
        if !(self.state == ViewState::Streaming && self.show_panel) {
            return None;
        }
        let talkback = if self.controls.talkback {
            Some(self.talkback_panel())
        } else {
            None
        };
        let files = if self.controls.file_transfer {
            Some(
                FilesPanel {
                    receive_dir: compact_path(receive_dir, SHOWN_PATH_CHARS),
                    overwrite: Button {
                        text: if allow_overwrite {
                            "Overwrite On"
                        } else {
                            "Overwrite Off"
                        },
                        fill: control_fill(allow_overwrite),
                    },
                },
            )
        } else {
            None
        };
        Some(
            ControlPanel {
                presets: self.preset_buttons(),
                system: Button::switch("System On", "System Muted", !self.remote_system_muted),
                microphone: Button::switch(
                    "Remote Mic On",
                    "Remote Mic Muted",
                    !self.remote_microphone_muted,
                ),
                volume: volume_text("Remote ", self.remote_audio_volume_percent),
                talkback,
                transfers: self.transfer_rows(transfers),
                files,
            },
        )
    }
}

/// A choice is lit up in one colour exactly where it was made, and a switch tells by text and colour
/// where it stands.
pub proof fn buttons_tell_what_holds(
    button: Button,
    text: Seq<char>,
    other: Seq<char>,
    holds: bool,
)
    ensures
        button.is_choice(text, holds) ==> button.text@ == text && (button.fill == 0x2563eb) == holds
            && (button.fill == 0x242a33) == !holds,
        button.is_switch(text, other, holds) && holds ==> button.text@ == text && button.fill
            == 0x2f7d68,
        button.is_switch(text, other, holds) && !holds ==> button.text@ == other && button.fill
            == 0x57343d,
{
}

/// The panel shows what holds in its window: each preset is lit up exactly if the stream is that way,
/// each switch stands as it was set, volumes are those that were chosen, at most four transfers are
/// shown, and what the viewer does not have has no part of the panel.
pub proof fn panels_show_what_holds(
    panel: ControlPanel,
    view: RemotePlayView,
    transfers: Seq<TransferEntrySnapshot>,
    receive_dir: Seq<char>,
    allow_overwrite: bool,
)
    requires
        panel.shows(view, transfers, receive_dir, allow_overwrite),
    ensures
        panel.presets@.len() == 8,
        panel.presets@[0].0 == StreamPreset::Size4k && (panel.presets@[0].1.fill == 0x2563eb) == (
        view.target.width == 3840),
        panel.presets@[1].0 == StreamPreset::Size2k && (panel.presets@[1].1.fill == 0x2563eb) == (
        view.target.width == 2560),
        panel.presets@[2].0 == StreamPreset::Size1080p && (panel.presets@[2].1.fill == 0x2563eb)
            == (view.target.width == 1920),
        panel.presets@[3].0 == StreamPreset::Fps30 && (panel.presets@[3].1.fill == 0x2563eb) == (
        view.target.fps == 30),
        panel.presets@[4].0 == StreamPreset::Fps60 && (panel.presets@[4].1.fill == 0x2563eb) == (
        view.target.fps == 60),
        panel.presets@[5].0 == StreamPreset::Rate5m && (panel.presets@[5].1.fill == 0x2563eb) == (
        view.target.bitrate_kbps == 5_000),
        panel.presets@[6].0 == StreamPreset::Rate10m && (panel.presets@[6].1.fill == 0x2563eb) == (
        view.target.bitrate_kbps == 10_000),
        panel.presets@[7].0 == StreamPreset::Rate20m && (panel.presets@[7].1.fill == 0x2563eb) == (
        view.target.bitrate_kbps == 20_000),
        (panel.system.fill == 0x2f7d68) == !view.remote_system_muted,
        (panel.microphone.fill == 0x2f7d68) == !view.remote_microphone_muted,
        panel.volume@ == "Remote "@ + decimal(view.remote_audio_volume_percent as nat) + "%"@,
        (panel.talkback is Some) == view.controls.talkback,
        panel.talkback is Some ==> {
            let part = panel.talkback->0;
            &&& (part.off.fill == 0x2563eb) == (view.talkback_mode == TalkbackMode::Off)
            &&& (part.always.fill == 0x2563eb) == (view.talkback_mode == TalkbackMode::AlwaysOn)
            &&& (part.push.fill == 0x2563eb) == (view.talkback_mode == TalkbackMode::PushToTalk)
            &&& (part.hold.fill == 0x2563eb) == (view.talkback_mode == TalkbackMode::PushToTalk
                && view.talkback_push_active)
            &&& (part.local_microphone.fill == 0x2f7d68) == !view.talkback_local_mic_muted
            &&& (part.peer.fill == 0x2f7d68) == !view.talkback_remote_muted
            &&& part.peer_volume@ == "Peer "@ + decimal(view.talkback_remote_volume_percent as nat)
                + "%"@
        },
        panel.transfers@.len() <= 4,
        !view.controls.file_transfer ==> panel.transfers@.len() == 0,
        view.controls.file_transfer && transfers.len() <= 4 ==> panel.transfers@.len()
            == transfers.len(),
        view.controls.file_transfer && transfers.len() > 4 ==> panel.transfers@.len() == 4,
        (panel.files is Some) == view.controls.file_transfer,
        panel.files is Some ==> (panel.files->0.overwrite.fill == 0x2563eb) == allow_overwrite,
{
    assert(preset_order().len() == 8);
    assert(forall|i: int|
        0 <= i < 8 ==> (#[trigger] panel.presets@[i]).0 == preset_order()[i]
            && panel.presets@[i].1.is_choice(
            preset_text(preset_order()[i]),
            view.target.shows(preset_order()[i]),
        ));
}

/// Presets are offered under what they say.
pub proof fn presets_go_by_what_they_say()
    ensures
        preset_text(StreamPreset::Size4k) == "4K"@,
        preset_text(StreamPreset::Size2k) == "2K"@,
        preset_text(StreamPreset::Size1080p) == "1080p"@,
        preset_text(StreamPreset::Fps30) == "30 FPS"@,
        preset_text(StreamPreset::Fps60) == "60 FPS"@,
        preset_text(StreamPreset::Rate5m) == "5 Mbps"@,
        preset_text(StreamPreset::Rate10m) == "10 Mbps"@,
        preset_text(StreamPreset::Rate20m) == "20 Mbps"@,
{
}

} // verus!
