//! Pairing devices into a group: what the viewer tells its user about it.
use crate::text::{join, trim, trimmed};
use vstd::prelude::*;

verus! {

#[derive(Debug, Clone, Copy, PartialEq, Eq, Structural)]
pub enum MeshPairingMessageKind {
    Neutral,
    Success,
    Warning,
    Error,
}

#[derive(Debug, PartialEq, Eq)]
pub struct MeshPairingSnapshot {
    pub network_name: String,
    pub device_id: String,
    pub display_name: String,
    pub invite_code: String,
    pub config_dir: String,
    pub message: String,
    pub message_kind: MeshPairingMessageKind,
    pub restart_required: bool,
}

/// A snapshot, with its texts as sequences of characters.
pub ghost struct Pairing {
    pub network_name: Seq<char>,
    pub device_id: Seq<char>,
    pub display_name: Seq<char>,
    pub invite_code: Seq<char>,
    pub config_dir: Seq<char>,
    pub message: Seq<char>,
    pub message_kind: MeshPairingMessageKind,
    pub restart_required: bool,
}

impl View for MeshPairingSnapshot {
    type V = Pairing;

    open spec fn view(&self) -> Pairing {
        Pairing {
            network_name: self.network_name@,
            device_id: self.device_id@,
            display_name: self.display_name@,
            invite_code: self.invite_code@,
            config_dir: self.config_dir@,
            message: self.message@,
            message_kind: self.message_kind,
            restart_required: self.restart_required,
        }
    }
}

impl Clone for MeshPairingSnapshot {
    fn clone(&self) -> (r: Self)
        ensures
            r@ == self@,
    {
        MeshPairingSnapshot {
            network_name: self.network_name.clone(),
            device_id: self.device_id.clone(),
            display_name: self.display_name.clone(),
            invite_code: self.invite_code.clone(),
            config_dir: self.config_dir.clone(),
            message: self.message.clone(),
            message_kind: self.message_kind,
            restart_required: self.restart_required,
        }
    }
}

impl MeshPairingSnapshot {
    /// Tells that the code was copied.
    pub fn code_copied(&mut self)
        ensures
            final(self)@ == old(self)@.telling(
                "Device-group code copied to clipboard."@,
                MeshPairingMessageKind::Success,
                false,
            ),
    {
        self.message = "Device-group code copied to clipboard.".to_owned();
        self.message_kind = MeshPairingMessageKind::Success;
        self.restart_required = false;
    }

    /// The line below a group that the mesh does not use yet.
    pub fn restart_text(&self) -> (r: &'static str)
        ensures
            r@ == (if self.restart_required {
                "Mesh will use this group after restart."@
            } else {
                ""@
            }),
    {
        if self.restart_required {
            "Mesh will use this group after restart."
        } else {
            ""
        }
    }
}

impl Pairing {
    /// The same group with another message.
    pub open spec fn telling(
        self,
        message: Seq<char>,
        message_kind: MeshPairingMessageKind,
        restart_required: bool,
    ) -> Self {
        Pairing { message, message_kind, restart_required, ..self }
    }
}

/// A device group, as it is stored.
#[derive(Debug)]
pub struct MeshGroup {
    pub network_name: String,
    pub device_id: String,
    pub display_name: String,
    pub invite_code: String,
}

/// What came of asking the network services to start anew.
#[derive(Debug, Clone, Copy, PartialEq, Eq, Structural)]
pub enum ReloadOutcome {
    /// There are none that could be asked.
    Unavailable,
    /// They were asked.
    Requested,
    /// They are gone.
    Failed,
}

/// A code that the user wants to join with.
#[derive(Debug)]
pub enum InviteStep {
    /// There was nothing; the user was told.
    Empty,
    /// Read this code.
    Read(String),
}

/// What to do once a code was read.
#[derive(Debug)]
pub enum PairingStep {
    /// Nothing: it could not be read, and the user was told.
    Told(MeshPairingSnapshot),
    /// Store this group.
    Save(MeshGroup),
}

/// A group that was stored, and what is told of it.
#[derive(Debug)]
pub struct SavedGroup {
    group: MeshGroup,
    message: String,
}

impl SavedGroup {
    pub closed spec fn group(&self) -> MeshGroup {
        self.group
    }

    pub closed spec fn message(&self) -> Seq<char> {
        self.message@
    }
}

/// What to do once a group was to be stored.
#[derive(Debug)]
pub enum SavedStep {
    /// Nothing: it could not be stored, and the user was told.
    Told(MeshPairingSnapshot),
    /// Ask the network services to start anew, and then use the group.
    Reload(SavedGroup),
}

pub struct MeshPairingControl {
    snapshot: MeshPairingSnapshot,
}

impl View for MeshPairingControl {
    type V = Pairing;

    closed spec fn view(&self) -> Pairing {
        self.snapshot@
    }
}

impl MeshPairingControl {
    /// Starts with the group that was loaded or made.
    pub fn load_or_create(config_dir: String, loaded: Result<MeshGroup, String>) -> (r: Result<
        Self,
        String,
    >)
        ensures
            match loaded {
                Ok(group) => r is Ok && r->Ok_0@ == (Pairing {
                    network_name: group.network_name@,
                    device_id: group.device_id@,
                    display_name: group.display_name@,
                    invite_code: group.invite_code@,
                    config_dir: config_dir@,
                    message: "Device group is ready."@,
                    message_kind: MeshPairingMessageKind::Neutral,
                    restart_required: false,
                }),
                Err(e) => r is Err && r->Err_0@ == "Mesh setup failed: "@ + e@,
            },
    {
        match loaded {
            Ok(group) => Ok(
                MeshPairingControl {
                    snapshot: MeshPairingSnapshot {
                        network_name: group.network_name,
                        device_id: group.device_id,
                        display_name: group.display_name,
                        invite_code: group.invite_code,
                        config_dir,
                        message: "Device group is ready.".to_owned(),
                        message_kind: MeshPairingMessageKind::Neutral,
                        restart_required: false,
                    },
                },
            ),
            Err(e) => Err(join("Mesh setup failed: ", e.as_str())),
        }
    }

    pub fn snapshot(&self) -> (r: MeshPairingSnapshot)
        ensures
            r@ == self@,
    {
        self.snapshot.clone()
    }

    fn update_message(
        &mut self,
        message: String,
        message_kind: MeshPairingMessageKind,
        restart_required: bool,
    ) -> (r: MeshPairingSnapshot)
        ensures
            final(self)@ == old(self)@.telling(message@, message_kind, restart_required),
            r@ == final(self)@,
    {
        self.snapshot.message = message;
        self.snapshot.message_kind = message_kind;
        self.snapshot.restart_required = restart_required;
        self.snapshot.clone()
    }

    /// Takes in what came of reading a code. Only a group that was read is to be stored.
    pub fn invite_read(&mut self, read: Result<MeshGroup, String>) -> (r: PairingStep)
        ensures
            match read {
                Ok(group) => r == PairingStep::Save(group) && final(self)@ == old(self)@,
                Err(e) => {
                    &&& r is Told
                    &&& r->Told_0@ == final(self)@
                    &&& final(self)@ == unread(old(self)@, e@)
                },
            },
    {
        match read {
            Ok(group) => PairingStep::Save(group),
            Err(e) => PairingStep::Told(
                self.update_message(
                    join("Could not read that device-group code: ", e.as_str()),
                    MeshPairingMessageKind::Error,
                    false,
                ),
            ),
        }
    }

    /// Takes in whether a group was stored. Only for one that was, the network services are to be
    /// asked to start anew.
    pub fn group_saved(
        &mut self,
        group: MeshGroup,
        saved: Result<(), String>,
        message: &str,
    ) -> (r: SavedStep)
        ensures
            match saved {
                Ok(()) => {
                    &&& r is Reload
                    &&& r->Reload_0.group() == group
                    &&& r->Reload_0.message() == message@
                    &&& final(self)@ == old(self)@
                },
                Err(e) => {
                    &&& r is Told
                    &&& r->Told_0@ == final(self)@
                    &&& final(self)@ == unsaved(old(self)@, e@)
                },
            },
    {
        match saved {
            Ok(()) => SavedStep::Reload(SavedGroup { group, message: message.to_owned() }),
            Err(e) => SavedStep::Told(
                self.update_message(
                    join("Could not save device-group config: ", e.as_str()),
                    MeshPairingMessageKind::Error,
                    false,
                ),
            ),
        }
    }

    /// Takes a stored group over, with what came of asking the network services.
    pub fn group_reloaded(&mut self, saved: SavedGroup, reload: ReloadOutcome) -> (r:
        MeshPairingSnapshot)
        ensures
            final(self)@ == taken_over(old(self)@, saved.group(), reload, saved.message()),
            r@ == final(self)@,
    {
        let SavedGroup { group, message } = saved;
        self.snapshot.network_name = group.network_name;
        self.snapshot.device_id = group.device_id;
        self.snapshot.display_name = group.display_name;
        self.snapshot.invite_code = group.invite_code;
        let refreshed = reload == ReloadOutcome::Requested;
        let message = if refreshed {
            join(message.as_str(), " Network services are refreshing.")
        } else {
            message
        };
        self.update_message(message, MeshPairingMessageKind::Success, !refreshed)
    }

    fn save_and_update(
        &mut self,
        group: MeshGroup,
        saved: Result<(), String>,
        reload: ReloadOutcome,
        message: &str,
    ) -> (r: MeshPairingSnapshot)
        ensures
            final(self)@ == stored(old(self)@, group, saved, reload, message@),
            r@ == final(self)@,
    {
        match self.group_saved(group, saved, message) {
            SavedStep::Told(snapshot) => snapshot,
            SavedStep::Reload(saved) => self.group_reloaded(saved, reload),
        }
    }

    /// Takes in a whole run for a group that was just made: `group_saved`, and then `group_reloaded`
    /// where it asks for that.
    pub fn create_new_group(
        &mut self,
        group: MeshGroup,
        saved: Result<(), String>,
        reload: ReloadOutcome,
    ) -> (r: MeshPairingSnapshot)
        ensures
            final(self)@ == stored(
                old(self)@,
                group,
                saved,
                reload,
                "Created a new device group. Share the new code with the other device."@,
            ),
            r@ == final(self)@,
    {
        self.save_and_update(
            group,
            saved,
            reload,
            "Created a new device group. Share the new code with the other device.",
        )
    }

    /// Looks at a code before it is read.
    pub fn invite_step(&mut self, invite_code: &str) -> (r: InviteStep)
        ensures
            match r {
                InviteStep::Empty => {
                    &&& trimmed(invite_code@).len() == 0
                    &&& final(self)@ == old(self)@.telling(
                        "Clipboard does not contain a device-group code."@,
                        MeshPairingMessageKind::Warning,
                        false,
                    )
                },
                InviteStep::Read(code) => {
                    &&& trimmed(invite_code@).len() > 0
                    &&& code@ == trimmed(invite_code@)
                    &&& final(self)@ == old(self)@
                },
            },
    {
        let code = trim(invite_code);
        if code.as_str().unicode_len() == 0 {
            let _ = self.update_message(
                "Clipboard does not contain a device-group code.".to_owned(),
                MeshPairingMessageKind::Warning,
                false,
            );
            return InviteStep::Empty;
        }
        InviteStep::Read(code)
    }

    /// Takes in a whole run for a code: `invite_read`, and then, as far as each asks for the next,
    /// `group_saved` and `group_reloaded`. What a step does not ask for does not matter.
    pub fn join_from_invite_code(
        &mut self,
        read: Result<MeshGroup, String>,
        saved: Result<(), String>,
        reload: ReloadOutcome,
    ) -> (r: MeshPairingSnapshot)
        ensures
            r@ == final(self)@,
            match read {
                Ok(group) => final(self)@ == stored(
                    old(self)@,
                    group,
                    saved,
                    reload,
                    "Joined the device group from clipboard."@,
                ),
                Err(e) => final(self)@ == unread(old(self)@, e@),
            },
    {
        match self.invite_read(read) {
            PairingStep::Told(snapshot) => snapshot,
            PairingStep::Save(group) => self.save_and_update(
                group,
                saved,
                reload,
                "Joined the device group from clipboard.",
            ),
        }
    }

    /// Takes in that the network services were asked to start anew for another reason.
    pub fn request_runtime_reload(&mut self, message: &str, reload: ReloadOutcome) -> (r:
        MeshPairingSnapshot)
        ensures
            r@ == final(self)@,
            final(self)@ == (if reload is Requested {
                old(self)@.telling(
                    message@ + " Network services are refreshing."@,
                    MeshPairingMessageKind::Success,
                    false,
                )
            } else {
                old(self)@.telling(
                    message@ + " Restart RemotePlay to use it."@,
                    MeshPairingMessageKind::Warning,
                    true,
                )
            }),
    {
        match reload {
            ReloadOutcome::Requested => self.update_message(
                join(message, " Network services are refreshing."),
                MeshPairingMessageKind::Success,
                false,
            ),
            ReloadOutcome::Unavailable | ReloadOutcome::Failed => self.update_message(
                join(message, " Restart RemotePlay to use it."),
                MeshPairingMessageKind::Warning,
                true,
            ),
        }
    }
}

/// The pairing after a code that could not be read.
pub open spec fn unread(before: Pairing, why: Seq<char>) -> Pairing {
    before.telling(
        "Could not read that device-group code: "@ + why,
        MeshPairingMessageKind::Error,
        false,
    )
}

/// The pairing after a group that could not be stored.
pub open spec fn unsaved(before: Pairing, why: Seq<char>) -> Pairing {
    before.telling(
        "Could not save device-group config: "@ + why,
        MeshPairingMessageKind::Error,
        false,
    )
}

/// The pairing after a group was taken over.
pub open spec fn taken_over(
    before: Pairing,
    group: MeshGroup,
    reload: ReloadOutcome,
    message: Seq<char>,
) -> Pairing {
    Pairing {
        network_name: group.network_name@,
        device_id: group.device_id@,
        display_name: group.display_name@,
        invite_code: group.invite_code@,
        config_dir: before.config_dir,
        message: if reload is Requested {
            message + " Network services are refreshing."@
        } else {
            message
        },
        message_kind: MeshPairingMessageKind::Success,
        restart_required: !(reload is Requested),
    }
}

/// The pairing after a group was to be stored.
pub open spec fn stored(
    before: Pairing,
    group: MeshGroup,
    saved: Result<(), String>,
    reload: ReloadOutcome,
    message: Seq<char>,
) -> Pairing {
    match saved {
        Ok(()) => taken_over(before, group, reload, message),
        Err(e) => unsaved(before, e@),
    }
}

/// A code that is refused, because it is empty or because it could not be read, changes nothing but
/// what the user is told.
pub proof fn refused_codes_keep_the_group(before: Pairing, why: Seq<char>)
    ensures
        ({
            let empty = before.telling(
                "Clipboard does not contain a device-group code."@,
                MeshPairingMessageKind::Warning,
                false,
            );
            let after = unread(before, why);
            &&& empty == (Pairing {
                message: empty.message,
                message_kind: MeshPairingMessageKind::Warning,
                restart_required: false,
                ..before
            })
            &&& after == (Pairing {
                message: after.message,
                message_kind: MeshPairingMessageKind::Error,
                restart_required: false,
                ..before
            })
        }),
{
}

/// A group is replaced only by one that was stored.
pub proof fn group_survives_failure(
    before: Pairing,
    group: MeshGroup,
    e: String,
    reload: ReloadOutcome,
    message: Seq<char>,
)
    ensures
        ({
            let after = stored(before, group, Err(e), reload, message);
            &&& after.network_name == before.network_name
            &&& after.device_id == before.device_id
            &&& after.display_name == before.display_name
            &&& after.invite_code == before.invite_code
            &&& after.config_dir == before.config_dir
        }),
{
}

/// A group that was stored is the one that is shown from then on, field by field. It takes effect by
/// itself where the services could be asked to reload, and else after a restart.
pub proof fn stored_groups_are_shown(
    before: Pairing,
    group: MeshGroup,
    reload: ReloadOutcome,
    message: Seq<char>,
)
    ensures
        ({
            let after = stored(before, group, Ok(()), reload, message);
            &&& after.network_name == group.network_name@
            &&& after.device_id == group.device_id@
            &&& after.display_name == group.display_name@
            &&& after.invite_code == group.invite_code@
            &&& after.config_dir == before.config_dir
            &&& after.message_kind == MeshPairingMessageKind::Success
            &&& after.restart_required == !(reload is Requested)
            &&& !(reload is Requested) ==> after.message == message
            &&& reload is Requested ==> after.message == message
                + " Network services are refreshing."@
            &&& after == taken_over(before, group, reload, message)
        }),
{
}

/// What the user is told changes nothing of the group.
pub proof fn told_messages_keep_the_group(
    before: Pairing,
    message: Seq<char>,
    kind: MeshPairingMessageKind,
    restart_required: bool,
    why: Seq<char>,
)
    ensures
        ({
            let after = before.telling(message, kind, restart_required);
            &&& after.message == message
            &&& after.message_kind == kind
            &&& after.restart_required == restart_required
            &&& after.network_name == before.network_name
            &&& after.device_id == before.device_id
            &&& after.display_name == before.display_name
            &&& after.invite_code == before.invite_code
            &&& after.config_dir == before.config_dir
        }),
        unread(before, why).message_kind == MeshPairingMessageKind::Error,
        unread(before, why).message == "Could not read that device-group code: "@ + why,
        unsaved(before, why).message_kind == MeshPairingMessageKind::Error,
        unsaved(before, why).message == "Could not save device-group config: "@ + why,
        !unread(before, why).restart_required && !unsaved(before, why).restart_required,
{
}

} // verus!
