//! What each message of a viewer does to the host's state, and what it leaves alone.
use crate::host::connection::{
    AudioGroupKey, Conn, Refusal, SourceChoice, Subscribed, Subscription,
};
use crate::host::service::{
    DataTarget, HelloRefusal, HelloStep, HostAction, HostReply, PeerAddr, Service,
};
use crate::protocol::control::{ControlMessage, InputEvent};
use crate::protocol::lane::ContentKind;
use crate::protocol::session::{
    CaptureSource, CaptureSourceInfo, SessionCommand, SubscriptionRequest,
};
use vstd::prelude::*;

verus! {

/// Who speaks, and what is known then.
pub ghost struct Hearing {
    pub addr: PeerAddr,
    pub now_ms: u64,
    pub unix_ms: u64,
    pub valid: bool,
    pub sources: Option<Seq<SourceChoice>>,
}

impl Hearing {
    /// The state after a message.
    pub open spec fn state(self, service: Service, message: ControlMessage) -> Service {
        service.controlled(
            self.addr,
            message,
            self.now_ms,
            self.unix_ms,
            self.valid,
            self.sources,
        ).0
    }

    /// What is done about a message.
    pub open spec fn actions(self, service: Service, message: ControlMessage) -> Seq<HostAction> {
        service.controlled(
            self.addr,
            message,
            self.now_ms,
            self.unix_ms,
            self.valid,
            self.sources,
        ).1
    }

    /// The viewer is listened to, and has a connection.
    pub open spec fn connected(self, service: Service) -> bool {
        &&& self.is_heard(service)
        &&& service.peers.dom().contains(self.addr)
    }

    /// The viewer is listened to.
    pub open spec fn is_heard(self, service: Service) -> bool {
        !service.require_auth || service.authenticated.dom().contains(self.addr)
    }

    /// The viewer has that subscription.
    pub open spec fn subscribed(self, service: Service, id: u32) -> bool {
        &&& self.connected(service)
        &&& service.peers[self.addr].subs.dom().contains(id)
    }
}

/// Nothing was answered.
pub open spec fn unanswered(actions: Seq<HostAction>) -> bool {
    forall|i: int| 0 <= i < actions.len() ==> #[trigger] actions[i] == HostAction::ReleaseAllInput
}

/// One thing was answered, before all else.
pub open spec fn answered(actions: Seq<HostAction>, reply: HostReply) -> bool {
    &&& actions.len() > 0
    &&& actions[0] == HostAction::Reply(reply)
    &&& forall|i: int|
        1 <= i < actions.len() ==> #[trigger] actions[i] == HostAction::ReleaseAllInput
}

/// All but one viewer's connection, and who holds the input, is as it was.
pub open spec fn others_kept(before: Service, after: Service, addr: PeerAddr) -> bool {
    &&& after.config == before.config
    &&& after.authenticated == before.authenticated
    &&& after.has_psk == before.has_psk
    &&& after.require_auth == before.require_auth
    &&& forall|k: PeerAddr|
        k != addr ==> #[trigger] after.peers.dom().contains(k) == before.peers.dom().contains(k)
    &&& forall|k: PeerAddr|
        k != addr && before.peers.dom().contains(k) ==> #[trigger] after.peers[k]
            == before.peers[k]
}

/// All that a connection has besides its subscriptions, their audio and when it was heard of is as
/// it was.
pub open spec fn manners_kept(before: Conn, after: Conn) -> bool {
    &&& after.id == before.id
    &&& after.clipboard == before.clipboard
    &&& after.files == before.files
    &&& after.talkback == before.talkback
}

/// All subscriptions but one are as they were.
pub open spec fn other_subs_kept(before: Conn, after: Conn, id: u32) -> bool {
    &&& forall|k: u32|
        k != id ==> #[trigger] after.subs.dom().contains(k) == before.subs.dom().contains(k)
    &&& forall|k: u32|
        k != id && before.subs.dom().contains(k) ==> #[trigger] after.subs[k] == before.subs[k]
}

/// Audio is captured for exactly those of the groups of before that a subscription wants, under the
/// same owner and from the same source, and it is paused exactly if no subscription listens to it.
pub open spec fn audio_follows(before: Conn, after: Conn) -> bool {
    &&& forall|k: AudioGroupKey| #[trigger]
        after.groups.dom().contains(k) == (before.groups.dom().contains(k) && exists|id: u32|
            #[trigger] after.subs.dom().contains(id) && after.subs[id].audio_group == Some(k))
    &&& forall|k: AudioGroupKey| #[trigger]
        after.groups.dom().contains(k) ==> {
            &&& after.groups[k].owner == before.groups[k].owner
            &&& after.groups[k].source == before.groups[k].source
            &&& after.groups[k].include_audio == before.groups[k].include_audio
            &&& after.groups[k].include_microphone == before.groups[k].include_microphone
            &&& after.groups[k].paused == !exists|id: u32|
                #[trigger] after.subs.dom().contains(id) && after.subs[id].audio_group == Some(k)
                    && after.subs[id].audio_active
        }
}

/// All of a connection but when it was heard of is as it was.
pub open spec fn only_heard(before: Service, after: Service, addr: PeerAddr, now_ms: u64) -> bool {
    &&& others_kept(before, after, addr)
    &&& after.peers.dom().contains(addr) == before.peers.dom().contains(addr)
    &&& before.peers.dom().contains(addr) ==> {
        &&& manners_kept(before.peers[addr], after.peers[addr])
        &&& after.peers[addr].last_seen_ms == now_ms
        &&& after.peers[addr].subs == before.peers[addr].subs
        &&& after.peers[addr].retired == before.peers[addr].retired
        &&& after.peers[addr].groups == before.peers[addr].groups
    }
}

/// One subscription has changed, and nothing else but when the viewer was heard of.
pub open spec fn only_sub_changed(
    before: Service,
    after: Service,
    addr: PeerAddr,
    id: u32,
    now_ms: u64,
) -> bool {
    &&& others_kept(before, after, addr)
    &&& after.peers.dom().contains(addr)
    &&& after.peers[addr].last_seen_ms == now_ms
    &&& manners_kept(before.peers[addr], after.peers[addr])
    &&& other_subs_kept(before.peers[addr], after.peers[addr], id)
    &&& after.peers[addr].subs.dom().contains(id)
    &&& after.peers[addr].retired == before.peers[addr].retired
}

/// New settings are taken over field by field, and for that subscription only; whether it is paused
/// stays as it was. Settings that make no sense, or for a subscription that is not there, change
/// nothing.
pub proof fn updated_settings_are_those_of_the_message(
    service: Service,
    hearing: Hearing,
    width: u32,
    height: u32,
    fps: u32,
    bitrate_kbps: u32,
    session_id: u32,
)
    requires
        hearing.is_heard(service),
    ensures
        ({
            let message = ControlMessage::UpdateStreamSettings {
                width,
                height,
                fps,
                bitrate_kbps,
                session_id,
            };
            let after = hearing.state(service, message);
            &&& unanswered(hearing.actions(service, message))
            &&& hearing.subscribed(service, session_id) && hearing.valid ==> {
                let old_sub = service.peers[hearing.addr].subs[session_id];
                let new_sub = after.peers[hearing.addr].subs[session_id];
                &&& only_sub_changed(service, after, hearing.addr, session_id, hearing.now_ms)
                &&& after.peers[hearing.addr].groups == service.peers[hearing.addr].groups
                &&& new_sub.settings.width == width
                &&& new_sub.settings.height == height
                &&& new_sub.settings.fps == fps
                &&& new_sub.settings.bitrate_kbps == bitrate_kbps
                &&& new_sub.settings.paused == old_sub.settings.paused
                &&& new_sub == (Subscription { settings: new_sub.settings, ..old_sub })
            }
            &&& !hearing.valid || !hearing.subscribed(service, session_id) ==> only_heard(
                service,
                after,
                hearing.addr,
                hearing.now_ms,
            )
        }),
{
}

/// A keyframe that is asked for is owed by that subscription, and nothing else changes.
pub proof fn keyframes_are_owed_on_request(service: Service, hearing: Hearing, session_id: u32)
    requires
        hearing.is_heard(service),
    ensures
        ({
            let message = ControlMessage::RequestKeyframe { session_id };
            let after = hearing.state(service, message);
            &&& unanswered(hearing.actions(service, message))
            &&& hearing.subscribed(service, session_id) ==> {
                let old_sub = service.peers[hearing.addr].subs[session_id];
                let new_sub = after.peers[hearing.addr].subs[session_id];
                &&& only_sub_changed(service, after, hearing.addr, session_id, hearing.now_ms)
                &&& after.peers[hearing.addr].groups == service.peers[hearing.addr].groups
                &&& new_sub.keyframe
                &&& new_sub == (Subscription { keyframe: true, ..old_sub })
            }
            &&& !hearing.subscribed(service, session_id) ==> only_heard(
                service,
                after,
                hearing.addr,
                hearing.now_ms,
            )
        }),
{
}

/// What a newer change of activity makes of a subscription: it is paused exactly if its video is
/// off, its audio is on exactly if it was asked for, and a keyframe is owed once video is on.
pub open spec fn activity_taken(
    old_sub: Subscription,
    new_sub: Subscription,
    revision: u64,
    video: bool,
    audio: bool,
) -> bool {
    if revision <= old_sub.revision {
        new_sub == old_sub
    } else {
        &&& new_sub.revision == revision
        &&& new_sub.settings.paused == !video
        &&& new_sub.audio_active == audio
        &&& video ==> new_sub.keyframe
        &&& !video ==> new_sub.keyframe == old_sub.keyframe
        &&& new_sub.settings.width == old_sub.settings.width
        &&& new_sub.settings.height == old_sub.settings.height
        &&& new_sub.settings.fps == old_sub.settings.fps
        &&& new_sub.settings.bitrate_kbps == old_sub.settings.bitrate_kbps
        &&& new_sub.request == old_sub.request
        &&& new_sub.settings_revision == old_sub.settings_revision
        &&& new_sub.audio_group == old_sub.audio_group
        &&& new_sub.supports_input == old_sub.supports_input
    }
}

/// A change of activity is taken over if it is newer than the last, and is answered with what holds
/// from then on.
pub proof fn newer_activity_is_taken_over(
    service: Service,
    hearing: Hearing,
    id: u32,
    revision: u64,
    video: bool,
    audio: bool,
)
    requires
        hearing.is_heard(service),
    ensures
        ({
            let message = ControlMessage::Session(
                SessionCommand::SetActivity { id, revision, video, audio },
            );
            let after = hearing.state(service, message);
            let actions = hearing.actions(service, message);
            &&& hearing.subscribed(service, id) ==> {
                let old_sub = service.peers[hearing.addr].subs[id];
                let new_sub = after.peers[hearing.addr].subs[id];
                &&& only_sub_changed(service, after, hearing.addr, id, hearing.now_ms)
                &&& audio_follows(service.peers[hearing.addr], after.peers[hearing.addr])
                &&& activity_taken(old_sub, new_sub, revision, video, audio)
                &&& actions.len() > 0
                &&& actions[0] is Reply
                &&& actions[0]->Reply_0 is Activity
                &&& ({
                    let told = (actions[0]->Reply_0)->Activity_0;
                    &&& told.id == id
                    &&& told.revision == new_sub.revision
                    &&& told.video == !new_sub.settings.paused
                    &&& told.audio == new_sub.audio_active
                    &&& answered(actions, HostReply::Activity(told))
                })
            }
            &&& !hearing.subscribed(service, id) ==> {
                &&& only_heard(service, after, hearing.addr, hearing.now_ms)
                &&& unanswered(actions)
            }
        }),
{
}

/// Pausing media is a change of activity that turns video and audio off together, and on again
/// together.
pub proof fn paused_media_is_without_activity(
    service: Service,
    hearing: Hearing,
    session_id: u32,
    revision: u64,
    paused: bool,
)
    requires
        hearing.is_heard(service),
    ensures
        ({
            let message = ControlMessage::SetMediaPaused { session_id, revision, paused };
            let after = hearing.state(service, message);
            let actions = hearing.actions(service, message);
            &&& hearing.subscribed(service, session_id) ==> {
                let old_sub = service.peers[hearing.addr].subs[session_id];
                let new_sub = after.peers[hearing.addr].subs[session_id];
                &&& only_sub_changed(service, after, hearing.addr, session_id, hearing.now_ms)
                &&& audio_follows(service.peers[hearing.addr], after.peers[hearing.addr])
                &&& activity_taken(old_sub, new_sub, revision, !paused, !paused)
                &&& answered(
                    actions,
                    HostReply::MediaPauseState {
                        session_id,
                        revision: new_sub.revision,
                        paused: new_sub.settings.paused,
                    },
                )
            }
            &&& !hearing.subscribed(service, session_id) ==> {
                &&& only_heard(service, after, hearing.addr, hearing.now_ms)
                &&& unanswered(actions)
            }
        }),
{
}

/// How loud talkback is played is taken over, up to twice its loudness, on the connection with that
/// identifier and only where talkback is played at all.
pub proof fn talkback_volume_is_that_of_the_message(
    service: Service,
    hearing: Hearing,
    message: ControlMessage,
)
    requires
        hearing.is_heard(service),
        message is AudioControl,
    ensures
        ({
            let after = hearing.state(service, message);
            let before = service.peers[hearing.addr];
            let now = after.peers[hearing.addr];
            &&& unanswered(hearing.actions(service, message))
            &&& others_kept(service, after, hearing.addr)
            &&& if hearing.connected(service) && before.id == message->AudioControl_session_id
                && before.talkback is Some {
                &&& after.peers.dom().contains(hearing.addr)
                &&& now.talkback is Some
                &&& now.talkback->0.muted == message->AudioControl_muted
                &&& now.talkback->0.volume_percent <= 200
                &&& message->AudioControl_volume_percent <= 200 ==> now.talkback->0.volume_percent
                    == message->AudioControl_volume_percent
                &&& message->AudioControl_volume_percent > 200 ==> now.talkback->0.volume_percent
                    == 200
                &&& now == (Conn {
                    talkback: now.talkback,
                    last_seen_ms: hearing.now_ms,
                    ..before
                })
            } else {
                only_heard(service, after, hearing.addr, hearing.now_ms)
            }
        }),
{
}

/// What newer settings make of a subscription: they are what it streams with and what it asks for,
/// field by field.
pub open spec fn settings_taken(
    old_sub: Subscription,
    new_sub: Subscription,
    revision: u64,
    width: u32,
    height: u32,
    fps: u32,
    bitrate_kbps: u32,
) -> bool {
    &&& new_sub.settings_revision == revision
    &&& new_sub.settings.width == width
    &&& new_sub.settings.height == height
    &&& new_sub.settings.fps == fps
    &&& new_sub.settings.bitrate_kbps == bitrate_kbps
    &&& new_sub.settings.paused == old_sub.settings.paused
    &&& new_sub.request.width == width
    &&& new_sub.request.height == height
    &&& new_sub.request.fps == fps
    &&& new_sub.request.bitrate_kbps == bitrate_kbps
    &&& new_sub.request.id == old_sub.request.id
    &&& new_sub.request.source == old_sub.request.source
    &&& new_sub.request.audio == old_sub.request.audio
    &&& new_sub.revision == old_sub.revision
    &&& new_sub.keyframe == old_sub.keyframe
    &&& new_sub.audio_group == old_sub.audio_group
    &&& new_sub.audio_active == old_sub.audio_active
    &&& new_sub.supports_input == old_sub.supports_input
}

/// Newer settings are taken over and confirmed; late ones are answered with the revision that
/// holds. Settings that make no sense, are larger than what is captured, or are for a subscription
/// that is not there are refused, in that order.
#[verifier::spinoff_prover]
#[verifier::rlimit(40)]
pub proof fn newer_settings_are_taken_over(
    service: Service,
    hearing: Hearing,
    id: u32,
    revision: u64,
    width: u32,
    height: u32,
    fps: u32,
    bitrate_kbps: u32,
)
    requires
        hearing.is_heard(service),
    ensures
        ({
            let message = ControlMessage::Session(
                SessionCommand::Configure { id, revision, width, height, fps, bitrate_kbps },
            );
            let after = hearing.state(service, message);
            let actions = hearing.actions(service, message);
            let captured = width <= 8192 && height <= 8192 && width * height <= 33_554_432;
            if !hearing.valid || !captured {
                &&& only_heard(service, after, hearing.addr, hearing.now_ms)
                &&& answered(
                    actions,
                    HostReply::Refused { request_id: id, refusal: Refusal::UnsupportedSettings },
                )
            } else if !hearing.subscribed(service, id) {
                &&& only_heard(service, after, hearing.addr, hearing.now_ms)
                &&& answered(
                    actions,
                    HostReply::Refused { request_id: id, refusal: Refusal::NoSubscription },
                )
            } else {
                let old_sub = service.peers[hearing.addr].subs[id];
                let new_sub = after.peers[hearing.addr].subs[id];
                &&& only_sub_changed(service, after, hearing.addr, id, hearing.now_ms)
                &&& after.peers[hearing.addr].groups == service.peers[hearing.addr].groups
                &&& answered(
                    actions,
                    HostReply::Configured { id, revision: new_sub.settings_revision },
                )
                &&& if revision > old_sub.settings_revision {
                    settings_taken(old_sub, new_sub, revision, width, height, fps, bitrate_kbps)
                } else {
                    new_sub == old_sub
                }
            }
        }),
{
}

/// A connection is opened for whoever asks with the one version and an identifier, if it has no
/// other connection and there is room; asking again changes nothing.
pub proof fn connections_open_on_request(
    service: Service,
    hearing: Hearing,
    connection_id: u32,
    version: u32,
)
    requires
        hearing.is_heard(service),
    ensures
        ({
            let message = ControlMessage::Session(SessionCommand::Open { connection_id, version });
            let after = hearing.state(service, message);
            let actions = hearing.actions(service, message);
            let known = service.peers.dom().contains(hearing.addr);
            let refused = |refusal: Refusal|
                {
                    &&& only_heard(service, after, hearing.addr, hearing.now_ms)
                    &&& answered(actions, HostReply::Refused { request_id: connection_id, refusal })
                };
            if version != 2 || connection_id == 0 {
                refused(Refusal::UnsupportedVersion)
            } else if known && service.peers[hearing.addr].id != connection_id {
                refused(Refusal::ConnectionOpen)
            } else if !known && service.peers.dom().len() >= 8 {
                refused(Refusal::TooManyConnections)
            } else {
                let now = after.peers[hearing.addr];
                &&& others_kept(service, after, hearing.addr)
                &&& after.peers.dom().contains(hearing.addr)
                &&& now.id == connection_id
                &&& now.last_seen_ms == hearing.now_ms
                &&& known ==> only_heard(service, after, hearing.addr, hearing.now_ms)
                &&& !known ==> {
                    &&& !now.clipboard
                    &&& now.files == service.config.files
                    &&& (now.talkback is Some) == service.config.talkback
                    &&& now.talkback is Some ==> !now.talkback->0.muted
                        && now.talkback->0.volume_percent == 100
                    &&& now.subs.dom() == Set::<u32>::empty()
                    &&& now.retired == Set::<u32>::empty()
                    &&& now.groups.dom() == Set::<AudioGroupKey>::empty()
                }
                &&& answered(
                    actions,
                    HostReply::Opened {
                        connection_id,
                        files: now.files,
                        clipboard: service.config.clipboard_sync,
                        window_capture: service.config.window_capture,
                    },
                )
            }
        }),
{
    let message = ControlMessage::Session(SessionCommand::Open { connection_id, version });
    let after = hearing.state(service, message);
    assert(service.seen(hearing.addr, hearing.now_ms).peers.dom() =~= service.peers.dom());
    if !service.peers.dom().contains(hearing.addr) {
        assert(after.peers.dom().contains(hearing.addr) ==> after.peers[hearing.addr].subs.dom()
            =~= Set::<u32>::empty());
        assert(after.peers.dom().contains(hearing.addr) ==> after.peers[hearing.addr].groups.dom()
            =~= Set::<AudioGroupKey>::empty());
    }
}

/// A connection goes away when the viewer closes it by its identifier, or stops its stream.
pub proof fn closed_connections_are_gone(service: Service, hearing: Hearing, connection_id: u32)
    requires
        hearing.is_heard(service),
    ensures
        ({
            let message = ControlMessage::Session(SessionCommand::Close { connection_id });
            let after = hearing.state(service, message);
            &&& unanswered(hearing.actions(service, message))
            &&& if hearing.connected(service) && service.peers[hearing.addr].id == connection_id {
                &&& others_kept(service, after, hearing.addr)
                &&& !after.peers.dom().contains(hearing.addr)
            } else {
                only_heard(service, after, hearing.addr, hearing.now_ms)
            }
        }),
        ({
            let message = ControlMessage::StopStream;
            let after = hearing.state(service, message);
            &&& unanswered(hearing.actions(service, message))
            &&& others_kept(service, after, hearing.addr)
            &&& !after.peers.dom().contains(hearing.addr)
        }),
{
}

/// A subscription that is given up is gone, its identifier is used up, and audio that only it wanted
/// is no longer captured.
pub proof fn given_up_subscriptions_are_gone(service: Service, hearing: Hearing, id: u32)
    requires
        hearing.is_heard(service),
    ensures
        ({
            let message = ControlMessage::Session(SessionCommand::Unsubscribe { id });
            let after = hearing.state(service, message);
            let actions = hearing.actions(service, message);
            &&& others_kept(service, after, hearing.addr)
            &&& hearing.connected(service) ==> {
                let before = service.peers[hearing.addr];
                let now = after.peers[hearing.addr];
                &&& answered(actions, HostReply::Unsubscribed { id })
                &&& after.peers.dom().contains(hearing.addr)
                &&& now.last_seen_ms == hearing.now_ms
                &&& manners_kept(before, now)
                &&& other_subs_kept(before, now, id)
                &&& !now.subs.dom().contains(id)
                &&& now.retired == before.retired.union(set![id])
                &&& audio_follows(before, now)
            }
            &&& !hearing.connected(service) ==> {
                &&& unanswered(actions)
                &&& only_heard(service, after, hearing.addr, hearing.now_ms)
            }
        }),
{
    let message = ControlMessage::Session(SessionCommand::Unsubscribe { id });
    let after = hearing.state(service, message);
    if hearing.connected(service) {
        assert(after.peers[hearing.addr].retired =~= service.peers[hearing.addr].retired.union(
            set![id],
        ));
    }
}

/// A ping is answered with its own time and that of the host, and changes nothing.
pub proof fn pings_are_answered(service: Service, hearing: Hearing, client_send_ts: u64)
    requires
        hearing.is_heard(service),
    ensures
        ({
            let message = ControlMessage::Ping { client_send_ts };
            let after = hearing.state(service, message);
            let actions = hearing.actions(service, message);
            &&& only_heard(service, after, hearing.addr, hearing.now_ms)
            &&& hearing.connected(service) ==> answered(
                actions,
                HostReply::Pong { client_send_ts, host_ts: hearing.unix_ms },
            )
            &&& !hearing.connected(service) ==> unanswered(actions)
        }),
{
}

/// Input may go to that subscription: it takes input, and its video is on.
pub open spec fn takes_input(conn: Conn, id: u32) -> bool {
    &&& conn.subs.dom().contains(id)
    &&& conn.subs[id].supports_input
    &&& !conn.subs[id].settings.paused
}

/// An event was handed to the machine as it came, and its viewer holds the input from then on. If
/// somebody else held it before, all keys were let go first.
pub open spec fn handed_over(
    before: Service,
    after: Service,
    actions: Seq<HostAction>,
    owner: (PeerAddr, u32),
    event: InputEvent,
) -> bool {
    &&& after.input_owner == Some(owner)
    &&& before.input_owner == Some(owner) ==> actions == seq![HostAction::InjectInput(event)]
    &&& before.input_owner != Some(owner) ==> actions == seq![
        HostAction::ReleaseAllInput,
        HostAction::InjectInput(event),
    ]
}

/// Input for a subscription goes to the machine if the subscription takes it, and nowhere if not.
#[verifier::spinoff_prover]
#[verifier::rlimit(40)]
pub proof fn input_goes_to_the_machine(
    service: Service,
    hearing: Hearing,
    id: u32,
    event: InputEvent,
)
    requires
        hearing.is_heard(service),
    ensures
        ({
            let message = ControlMessage::Session(SessionCommand::Input { id, event });
            let after = hearing.state(service, message);
            let actions = hearing.actions(service, message);
            &&& only_heard(service, after, hearing.addr, hearing.now_ms)
            &&& if hearing.connected(service) && takes_input(service.peers[hearing.addr], id) {
                handed_over(service, after, actions, (hearing.addr, id), event)
            } else {
                unanswered(actions)
            }
        }),
{
    let message = ControlMessage::Session(SessionCommand::Input { id, event });
    let actions = hearing.actions(service, message);
    if hearing.connected(service) && takes_input(service.peers[hearing.addr], id) {
        if service.input_owner == Some((hearing.addr, id)) {
            assert(actions =~= seq![HostAction::InjectInput(event)]);
        } else {
            assert(actions =~= seq![HostAction::ReleaseAllInput, HostAction::InjectInput(event)]);
        }
    }
}

/// Input by the old protocol goes to the only subscription that there is, if that takes it.
#[verifier::spinoff_prover]
#[verifier::rlimit(40)]
pub proof fn input_goes_to_the_only_subscription(
    service: Service,
    hearing: Hearing,
    id: u32,
    event: InputEvent,
)
    requires
        hearing.is_heard(service),
    ensures
        ({
            let message = ControlMessage::Input(event);
            let after = hearing.state(service, message);
            let actions = hearing.actions(service, message);
            let only = hearing.connected(service) && service.peers[hearing.addr].subs.dom() == set![
                id,
            ];
            &&& only_heard(service, after, hearing.addr, hearing.now_ms)
            &&& only && takes_input(service.peers[hearing.addr], id) ==> handed_over(
                service,
                after,
                actions,
                (hearing.addr, id),
                event,
            )
            &&& only && !takes_input(service.peers[hearing.addr], id) ==> unanswered(actions)
            &&& !hearing.connected(service) || service.peers[hearing.addr].subs.dom().len() != 1
                ==> unanswered(actions)
        }),
{
    let message = ControlMessage::Input(event);
    let actions = hearing.actions(service, message);
    if hearing.connected(service) && service.peers[hearing.addr].subs.dom() == set![id] {
        let ids = service.peers[hearing.addr].subs.dom();
        assert(set![id] =~= Set::<u32>::empty().insert(id));
        assert(ids.len() == 1);
        assert(ids.contains(id));
        assert(set![id].contains(ids.choose()));
        assert(ids.choose() == id);
        if takes_input(service.peers[hearing.addr], id) {
            if service.input_owner == Some((hearing.addr, id)) {
                assert(actions =~= seq![HostAction::InjectInput(event)]);
            } else {
                assert(actions =~= seq![
                    HostAction::ReleaseAllInput,
                    HostAction::InjectInput(event),
                ]);
            }
        }
    }
}

/// Whoever holds the input gives it up on request, all keys are let go then, and the request is
/// confirmed in any case.
pub proof fn input_is_given_up_on_request(service: Service, hearing: Hearing, id: u32)
    requires
        hearing.is_heard(service),
    ensures
        ({
            let message = ControlMessage::Session(SessionCommand::ReleaseInput { id });
            let after = hearing.state(service, message);
            let actions = hearing.actions(service, message);
            &&& only_heard(service, after, hearing.addr, hearing.now_ms)
            &&& after.input_owner != Some((hearing.addr, id))
            &&& service.input_owner == Some((hearing.addr, id)) ==> actions == seq![
                HostAction::ReleaseAllInput,
                HostAction::Reply(HostReply::InputReleased { id }),
            ]
            &&& service.input_owner != Some((hearing.addr, id)) ==> answered(
                actions,
                HostReply::InputReleased { id },
            )
        }),
{
    let message = ControlMessage::Session(SessionCommand::ReleaseInput { id });
    if service.input_owner == Some((hearing.addr, id)) {
        assert(hearing.actions(service, message) =~= seq![
            HostAction::ReleaseAllInput,
            HostAction::Reply(HostReply::InputReleased { id }),
        ]);
    }
}

/// What was done lets all keys go exactly if the input changed hands, and it went only to a
/// subscription that takes it.
spec fn let_go_rightly(before: Service, after: Service, actions: Seq<HostAction>) -> bool {
    &&& actions.contains(HostAction::ReleaseAllInput) == (after.input_owner != before.input_owner)
    &&& after.input_owner != before.input_owner ==> match after.input_owner {
        Some((addr, id)) => after.can_input(addr, id),
        None => true,
    }
}

proof fn lemma_no_action(service: Service, after: Service, actions: Seq<HostAction>)
    requires
        after.input_owner == service.input_owner,
        actions.len() == 0 || (actions.len() == 1 && actions[0] is Reply),
    ensures
        let_go_rightly(service, after, actions),
{
}

proof fn lemma_injected(service: Service, addr: PeerAddr, id: u32, event: InputEvent)
    requires
        service.can_input(addr, id),
    ensures
        let_go_rightly(
            service,
            service.injected(addr, id, event).0,
            service.injected(addr, id, event).1,
        ),
{
    let (after, actions) = service.injected(addr, id, event);
    if service.input_owner != Some((addr, id)) {
        assert(actions[0] == HostAction::ReleaseAllInput);
    }
}

#[verifier::spinoff_prover]
#[verifier::rlimit(60)]
proof fn lemma_commanded_lets_go(
    service: Service,
    addr: PeerAddr,
    command: SessionCommand,
    now_ms: u64,
    valid: bool,
    sources: Option<Seq<SourceChoice>>,
)
    ensures
        let_go_rightly(
            service,
            service.commanded(addr, command, now_ms, valid, sources).0,
            service.commanded(addr, command, now_ms, valid, sources).1,
        ),
{
    let (after, actions) = service.commanded(addr, command, now_ms, valid, sources);
    match command {
        SessionCommand::ReleaseInput { id } => {
            if service.input_owner == Some((addr, id)) {
                assert(actions[0] == HostAction::ReleaseAllInput);
            } else {
                lemma_no_action(service, after, actions);
            }
        },
        SessionCommand::Input { id, event } => {
            if service.can_input(addr, id) {
                lemma_injected(service, addr, id, event);
            } else {
                lemma_no_action(service, after, actions);
            }
        },
        _ => {
            lemma_no_action(service, after, actions);
        },
    }
}

#[verifier::spinoff_prover]
#[verifier::rlimit(60)]
proof fn lemma_messaged_lets_go(service: Service, hearing: Hearing, message: ControlMessage)
    ensures
        ({
            let (after, actions, settle) = service.messaged(
                hearing.addr,
                message,
                hearing.now_ms,
                hearing.unix_ms,
                hearing.valid,
                hearing.sources,
            );
            let_go_rightly(service, after, actions)
        }),
{
    let (after, actions, settle) = service.messaged(
        hearing.addr,
        message,
        hearing.now_ms,
        hearing.unix_ms,
        hearing.valid,
        hearing.sources,
    );
    match message {
        ControlMessage::Session(command) => {
            lemma_commanded_lets_go(
                service,
                hearing.addr,
                command,
                hearing.now_ms,
                hearing.valid,
                hearing.sources,
            );
        },
        ControlMessage::Input(event) => {
            let id = service.peers[hearing.addr].subs.dom().choose();
            if service.can_input(hearing.addr, id) {
                lemma_injected(service, hearing.addr, id, event);
            }
            if actions.len() == 0 {
                lemma_no_action(service, after, actions);
            }
        },
        _ => {
            lemma_no_action(service, after, actions);
        },
    }
}

/// All keys are let go exactly when the input changes hands.
pub proof fn keys_are_let_go_when_the_input_changes_hands(
    service: Service,
    hearing: Hearing,
    message: ControlMessage,
)
    ensures
        hearing.actions(service, message).contains(HostAction::ReleaseAllInput) == (hearing.state(
            service,
            message,
        ).input_owner != service.input_owner),
{
    let actions = hearing.actions(service, message);
    if hearing.is_heard(service) {
        let seen = service.seen(hearing.addr, hearing.now_ms);
        lemma_messaged_lets_go(seen, hearing, message);
        let (state, done, settle) = seen.messaged(
            hearing.addr,
            message,
            hearing.now_ms,
            hearing.unix_ms,
            hearing.valid,
            hearing.sources,
        );
        let calm = state.settled().1;
        if settle {
            assert(actions == done + calm);
            if done.contains(HostAction::ReleaseAllInput) {
                let i = done.index_of(HostAction::ReleaseAllInput);
                assert(actions[i] == HostAction::ReleaseAllInput);
            }
            if calm.len() > 0 {
                assert(actions[done.len() as int] == HostAction::ReleaseAllInput);
            } else {
                assert(actions =~= done);
            }
        }
    } else {
        assert(actions[0] == HostAction::Reply(HostReply::AuthenticateFirst));
    }
}

/// The clipboard goes to the viewer that asks for it, where the host shares it, and to nobody else;
/// one that does not want it any more loses it, and nobody else does.
pub proof fn clipboard_goes_to_whoever_asked(service: Service, hearing: Hearing, enabled: bool)
    requires
        hearing.is_heard(service),
    ensures
        ({
            let message = ControlMessage::Session(SessionCommand::SetClipboard { enabled });
            let after = hearing.state(service, message);
            let actions = hearing.actions(service, message);
            let on = enabled && service.config.clipboard_sync;
            &&& after.config == service.config
            &&& after.authenticated == service.authenticated
            &&& after.has_psk == service.has_psk
            &&& after.require_auth == service.require_auth
            &&& after.peers.dom() == service.peers.dom()
            &&& hearing.connected(service) ==> {
                &&& answered(actions, HostReply::ClipboardState { enabled: on })
                &&& after.peers[hearing.addr] == (Conn {
                    clipboard: on,
                    last_seen_ms: hearing.now_ms,
                    ..service.peers[hearing.addr]
                })
                &&& forall|k: PeerAddr| #[trigger]
                    service.peers.dom().contains(k) && k != hearing.addr ==> after.peers[k] == (
                    Conn {
                        clipboard: !on && service.peers[k].clipboard,
                        ..service.peers[k]
                    })
            }
            &&& !hearing.connected(service) ==> {
                &&& unanswered(actions)
                &&& only_heard(service, after, hearing.addr, hearing.now_ms)
            }
        }),
{
    let message = ControlMessage::Session(SessionCommand::SetClipboard { enabled });
    let after = hearing.state(service, message);
    assert(after.peers.dom() =~= service.peers.dom());
    if hearing.connected(service) {
        let on = enabled && service.config.clipboard_sync;
        assert forall|k: PeerAddr| #[trigger]
            service.peers.dom().contains(k) && k != hearing.addr implies after.peers[k] == (Conn {
            clipboard: !on && service.peers[k].clipboard,
            ..service.peers[k]
        }) by {
            assert(service.seen(hearing.addr, hearing.now_ms).peers.dom().contains(k));
        }
    }
}

/// The list of sources is told to a viewer with a connection, or it is told that there is none.
pub proof fn sources_are_told_on_request(service: Service, hearing: Hearing, request_id: u32)
    requires
        hearing.is_heard(service),
    ensures
        ({
            let message = ControlMessage::Session(SessionCommand::ListSources { request_id });
            let after = hearing.state(service, message);
            let actions = hearing.actions(service, message);
            &&& only_heard(service, after, hearing.addr, hearing.now_ms)
            &&& !hearing.connected(service) ==> unanswered(actions)
            &&& hearing.connected(service) && hearing.sources is Some ==> answered(
                actions,
                HostReply::Sources { request_id },
            )
            &&& hearing.connected(service) && hearing.sources is None ==> answered(
                actions,
                HostReply::Refused { request_id, refusal: Refusal::SourcesUnknown },
            )
        }),
{
}

proof fn lemma_find_choice(choices: Seq<SourceChoice>, source: CaptureSource)
    ensures
        match crate::host::connection::find_choice(choices, source) {
            Some(choice) => exists|i: int| first_listed(choices, source, i) && choices[i] == choice,
            None => forall|i: int| 0 <= i < choices.len() ==> (#[trigger] choices[i]).source
                != source,
        },
    decreases choices.len(),
{
    if choices.len() > 0 {
        if choices[0].source == source {
            assert(first_listed(choices, source, 0));
        } else {
            let rest = choices.drop_first();
            lemma_find_choice(rest, source);
            match crate::host::connection::find_choice(rest, source) {
                Some(choice) => {
                    let i = choose|i: int| first_listed(rest, source, i) && rest[i] == choice;
                    assert(choices[i + 1] == rest[i]);
                    assert forall|j: int| 0 <= j < i + 1 implies (#[trigger] choices[j]).source
                        != source by {
                        if j > 0 {
                            assert(rest[j - 1] == choices[j]);
                        }
                    }
                    assert(first_listed(choices, source, i + 1));
                },
                None => {
                    assert forall|j: int| 0 <= j < choices.len() implies (
                    #[trigger] choices[j]).source != source by {
                        if j > 0 {
                            assert(rest[j - 1] == choices[j]);
                        }
                    }
                },
            }
        }
    }
}

/// The first entry for `source` is the one at `i`.
pub open spec fn first_listed(choices: Seq<SourceChoice>, source: CaptureSource, i: int) -> bool {
    &&& 0 <= i < choices.len()
    &&& choices[i].source == source
    &&& forall|j: int| 0 <= j < i ==> (#[trigger] choices[j]).source != source
}

/// A subscription is what was asked for, field by field, before anything was changed in it.
pub open spec fn is_new_sub(
    s: Subscription,
    request: SubscriptionRequest,
    group: Option<AudioGroupKey>,
    supports_input: bool,
) -> bool {
    &&& s.request == request
    &&& s.settings.width == request.width
    &&& s.settings.height == request.height
    &&& s.settings.fps == request.fps
    &&& s.settings.bitrate_kbps == request.bitrate_kbps
    &&& !s.settings.paused
    &&& s.settings_revision == 0
    &&& s.revision == 0
    &&& s.keyframe
    &&& s.audio_active
    &&& s.audio_group == group
    &&& s.supports_input == supports_input
}

/// The audio of a new subscription is captured from then on, under the owner that it had already or
/// else under the new subscription, and is not paused.
pub open spec fn audio_joined(
    before: Conn,
    after: Conn,
    request: SubscriptionRequest,
    key: AudioGroupKey,
    legacy: bool,
) -> bool {
    &&& after.groups.dom().contains(key)
    &&& !after.groups[key].paused
    &&& if before.groups.dom().contains(key) {
        &&& after.groups[key].owner == before.groups[key].owner
        &&& after.groups[key].source == before.groups[key].source
        &&& after.groups[key].include_audio == before.groups[key].include_audio
        &&& after.groups[key].include_microphone == before.groups[key].include_microphone
    } else {
        &&& after.groups[key].owner == request.id
        &&& after.groups[key].source == request.source
        &&& after.groups[key].include_audio == request.audio
        &&& after.groups[key].include_microphone == legacy
    }
}

/// The other audio is captured as long as a subscription wants it, and is paused exactly if none
/// listens to it.
pub open spec fn other_audio_follows(
    before: Conn,
    after: Conn,
    key: Option<AudioGroupKey>,
) -> bool {
    &&& forall|k: AudioGroupKey|
        key != Some(k) ==> #[trigger] after.groups.dom().contains(k) == (
        before.groups.dom().contains(k) && exists|id: u32|
            #[trigger] after.subs.dom().contains(id) && after.subs[id].audio_group == Some(k))
    &&& forall|k: AudioGroupKey|
        key != Some(k) && #[trigger] after.groups.dom().contains(k) ==> {
            &&& after.groups[k].owner == before.groups[k].owner
            &&& after.groups[k].source == before.groups[k].source
            &&& after.groups[k].include_audio == before.groups[k].include_audio
            &&& after.groups[k].include_microphone == before.groups[k].include_microphone
            &&& after.groups[k].paused == !exists|id: u32|
                #[trigger] after.subs.dom().contains(id) && after.subs[id].audio_group == Some(k)
                    && after.subs[id].audio_active
        }
}

/// The first reason, in this order, for which a request is refused: settings that make no sense, an
/// identifier that is used up, a size that is not captured, an identifier out of range, one that
/// stands for something else, too many subscriptions, a source that is not there.
pub open spec fn why_refused(conn: Conn, request: SubscriptionRequest, hearing: Hearing) -> Option<
    Refusal,
> {
    let known = conn.subs.dom().contains(request.id);
    let fits = request.width <= 8192 && request.height <= 8192 && request.width * request.height
        <= 33_554_432;
    if !hearing.valid {
        Some(Refusal::InvalidSettings)
    } else if conn.retired.contains(request.id) || conn.retired.len() >= 4096 {
        Some(Refusal::Retired)
    } else if !fits {
        Some(Refusal::TooLarge)
    } else if request.id == 0 || request.id >= 0x1000_0000 {
        Some(Refusal::IdOutOfRange)
    } else if known && (conn.subs[request.id].request.source != request.source
        || conn.subs[request.id].request.audio != request.audio) {
        Some(Refusal::IdTaken)
    } else if known {
        None
    } else if conn.subs.dom().len() >= 8 {
        Some(Refusal::TooManySubscriptions)
    } else if request.source == CaptureSource::MainDisplay {
        None
    } else if hearing.sources is None {
        Some(Refusal::SourcesUnknown)
    } else if forall|i: int|
        0 <= i < hearing.sources->0.len() ==> (#[trigger] hearing.sources->0[i]).source
            != request.source {
        Some(Refusal::SourceGone)
    } else {
        None
    }
}

/// The first entry that a request selects among the sources that are known.
pub open spec fn selected(request: SubscriptionRequest, hearing: Hearing) -> SourceChoice {
    hearing.sources->0[choose|i: int| first_listed(hearing.sources->0, request.source, i)]
}

/// The audio that a request wants: that of the application whose window it selects, or else
/// everything.
pub open spec fn wanted_audio(request: SubscriptionRequest, hearing: Hearing) -> AudioGroupKey {
    if request.source != CaptureSource::MainDisplay && selected(
        request,
        hearing,
    ).process_id is Some {
        AudioGroupKey::Application(selected(request, hearing).process_id->0)
    } else {
        AudioGroupKey::System
    }
}

#[verifier::spinoff_prover]
#[verifier::rlimit(40)]
proof fn lemma_refusal(conn: Conn, request: SubscriptionRequest, hearing: Hearing)
    ensures
        conn.subscribe_refusal(request, hearing.valid, hearing.sources) == why_refused(
            conn,
            request,
            hearing,
        ),
{
    if hearing.sources is Some {
        lemma_find_choice(hearing.sources->0, request.source);
    }
}

proof fn lemma_selected(request: SubscriptionRequest, hearing: Hearing)
    requires
        hearing.sources is Some,
        crate::host::connection::find_choice(hearing.sources->0, request.source) is Some,
    ensures
        crate::host::connection::find_choice(hearing.sources->0, request.source) == Some(
            selected(request, hearing),
        ),
{
    let choices = hearing.sources->0;
    lemma_find_choice(choices, request.source);
    let found = crate::host::connection::find_choice(choices, request.source)->0;
    let i = choose|i: int| first_listed(choices, request.source, i) && choices[i] == found;
    let j = choose|i: int| first_listed(choices, request.source, i);
    assert(first_listed(choices, request.source, i));
    assert(first_listed(choices, request.source, j));
    if i < j {
        assert(choices[i].source != request.source);
    }
    if j < i {
        assert(choices[j].source != request.source);
    }
}

#[verifier::spinoff_prover]
#[verifier::rlimit(40)]
proof fn lemma_joined(conn: Conn, request: SubscriptionRequest, hearing: Hearing, legacy: bool)
    requires
        why_refused(conn, request, hearing) is None,
        !conn.subs.dom().contains(request.id),
    ensures
        ({
            let after = conn.subscribed(request, hearing.sources, legacy);
            let wants = request.audio || legacy;
            let key = wanted_audio(request, hearing);
            let s = after.subs[request.id];
            &&& manners_kept(conn, after)
            &&& after.last_seen_ms == conn.last_seen_ms
            &&& after.retired == conn.retired
            &&& other_subs_kept(conn, after, request.id)
            &&& after.subs.dom().contains(request.id)
            &&& is_new_sub(
                s,
                request,
                if wants {
                    Some(key)
                } else {
                    None
                },
                request.source == CaptureSource::MainDisplay || selected(
                    request,
                    hearing,
                ).supports_input,
            )
            &&& wants ==> audio_joined(conn, after, request, key, legacy)
            &&& other_audio_follows(
                conn,
                after,
                if wants {
                    Some(key)
                } else {
                    None
                },
            )
        }),
{
    lemma_refusal(conn, request, hearing);
    if !(request.source is MainDisplay) {
        lemma_selected(request, hearing);
    }
    let after = conn.subscribed(request, hearing.sources, legacy);
    assert(after.subs.dom().contains(request.id));
}

/// A request that nothing refuses makes the subscription that it describes, and is answered with
/// whose audio it hears and whether it takes input. One that is there already is answered alike and
/// changes nothing. A request that is refused changes nothing, and the first reason is told.
pub proof fn subscriptions_are_what_was_asked_for(
    service: Service,
    hearing: Hearing,
    request: SubscriptionRequest,
)
    requires
        hearing.is_heard(service),
    ensures
        ({
            let message = ControlMessage::Session(SessionCommand::Subscribe(request));
            let after = hearing.state(service, message);
            let actions = hearing.actions(service, message);
            let before = service.peers[hearing.addr];
            let now = after.peers[hearing.addr];
            let refusal = if service.peers.dom().contains(hearing.addr) {
                why_refused(before, request, hearing)
            } else {
                Some(Refusal::NotOpen)
            };
            &&& refusal is Some ==> {
                &&& only_heard(service, after, hearing.addr, hearing.now_ms)
                &&& answered(
                    actions,
                    HostReply::Refused { request_id: request.id, refusal: refusal->0 },
                )
            }
            &&& refusal is None && before.subs.dom().contains(request.id) ==> only_heard(
                service,
                after,
                hearing.addr,
                hearing.now_ms,
            )
            &&& refusal is None && !before.subs.dom().contains(request.id) ==> {
                &&& only_sub_changed(service, after, hearing.addr, request.id, hearing.now_ms)
                &&& is_new_sub(
                    now.subs[request.id],
                    request,
                    if request.audio {
                        Some(wanted_audio(request, hearing))
                    } else {
                        None
                    },
                    request.source == CaptureSource::MainDisplay || selected(
                        request,
                        hearing,
                    ).supports_input,
                )
                &&& request.audio ==> audio_joined(
                    before,
                    now,
                    request,
                    wanted_audio(request, hearing),
                    false,
                )
                &&& other_audio_follows(
                    before,
                    now,
                    if request.audio {
                        Some(wanted_audio(request, hearing))
                    } else {
                        None
                    },
                )
            }
            &&& refusal is None ==> {
                let s = now.subs[request.id];
                let told = Subscribed {
                    id: request.id,
                    audio_owner: if s.audio_group is Some && now.groups.dom().contains(
                        s.audio_group->0,
                    ) {
                        Some(now.groups[s.audio_group->0].owner)
                    } else {
                        None
                    },
                    supports_input: s.supports_input,
                };
                answered(actions, HostReply::Subscribed(told))
            }
        }),
{
    let seen = service.seen(hearing.addr, hearing.now_ms);
    if service.peers.dom().contains(hearing.addr) {
        let conn = seen.peers[hearing.addr];
        lemma_refusal(conn, request, hearing);
        assert(why_refused(conn, request, hearing) == why_refused(
            service.peers[hearing.addr],
            request,
            hearing,
        ));
        if why_refused(conn, request, hearing) is None && !conn.subs.dom().contains(request.id) {
            lemma_joined(conn, request, hearing, false);
        }
    }
}

/// A stream by the old protocol is one subscription of the main display with the fields of the
/// message, and with what is played and the microphone; other subscriptions give way to it. The
/// shared clipboard goes with it where the host shares it.
#[verifier::spinoff_prover]
#[verifier::rlimit(40)]
pub proof fn streams_are_what_was_asked_for(
    service: Service,
    hearing: Hearing,
    width: u32,
    height: u32,
    fps: u32,
    bitrate_kbps: u32,
    session_id: u32,
)
    requires
        hearing.is_heard(service),
    ensures
        ({
            let message = ControlMessage::StartStream {
                width,
                height,
                fps,
                bitrate_kbps,
                session_id,
            };
            let after = hearing.state(service, message);
            let actions = hearing.actions(service, message);
            let addr = hearing.addr;
            let known = service.peers.dom().contains(addr);
            let had = known && service.peers[addr].subs.dom().contains(session_id);
            let now = after.peers[addr];
            let fits = width <= 8192 && height <= 8192 && width * height <= 33_554_432;
            &&& others_kept(service, after, addr)
            &&& !hearing.valid || (!known && service.peers.dom().len() >= 8) ==> {
                &&& only_heard(service, after, addr, hearing.now_ms)
                &&& actions.len() == 0
            }
            &&& hearing.valid && (known || service.peers.dom().len() < 8) ==> {
                &&& after.peers.dom().contains(addr)
                &&& now.last_seen_ms == hearing.now_ms
                &&& now.clipboard == service.config.clipboard_sync
                &&& known ==> {
                    &&& now.id == service.peers[addr].id
                    &&& now.files == service.peers[addr].files
                    &&& now.talkback == service.peers[addr].talkback
                    &&& now.retired == service.peers[addr].retired
                }
                &&& !known ==> {
                    &&& now.id == session_id
                    &&& now.files == service.config.files
                    &&& (now.talkback is Some) == service.config.talkback
                    &&& now.retired == Set::<u32>::empty()
                }
                &&& had ==> now.subs == service.peers[addr].subs
                &&& !had && fits && 0 < session_id < 0x1000_0000 && (known ==>
                    !service.peers[addr].retired.contains(session_id)
                    && service.peers[addr].retired.len() < 4096) ==> {
                    &&& now.subs.dom() == set![session_id]
                    &&& unanswered(actions)
                    &&& is_new_sub(
                        now.subs[session_id],
                        SubscriptionRequest {
                            id: session_id,
                            source: CaptureSource::MainDisplay,
                            width,
                            height,
                            fps,
                            bitrate_kbps,
                            audio: service.config.system_audio,
                        },
                        Some(AudioGroupKey::System),
                        true,
                    )
                    &&& now.groups.dom() == set![AudioGroupKey::System]
                    &&& now.groups[AudioGroupKey::System].owner == session_id
                    &&& now.groups[AudioGroupKey::System].include_audio
                        == service.config.system_audio
                    &&& now.groups[AudioGroupKey::System].include_microphone
                    &&& !now.groups[AudioGroupKey::System].paused
                }
            }
        }),
{
    let request = SubscriptionRequest {
        id: session_id,
        source: CaptureSource::MainDisplay,
        width,
        height,
        fps,
        bitrate_kbps,
        audio: service.config.system_audio,
    };
    let seen = service.seen(hearing.addr, hearing.now_ms);
    assert(seen.peers.dom() =~= service.peers.dom());
    if hearing.valid && seen.has_room(hearing.addr) {
        let found = seen.conn_or_new(hearing.addr, session_id, hearing.now_ms);
        let shared = Conn { clipboard: service.config.clipboard_sync, ..found };
        let cleared = if shared.subs.dom().contains(session_id) {
            shared
        } else {
            shared.without_subs().refreshed()
        };
        let calm = Hearing { valid: true, ..hearing };
        lemma_refusal(cleared, request, calm);
        if !shared.subs.dom().contains(session_id) {
            assert(cleared.subs.dom() =~= Set::<u32>::empty());
            assert(cleared.groups.dom() =~= Set::<AudioGroupKey>::empty());
            if why_refused(cleared, request, calm) is None {
                lemma_joined(cleared, request, calm, true);
                let now = cleared.subscribed(request, hearing.sources, true);
                assert(now.subs.dom() =~= set![session_id]);
                assert(now.groups.dom() =~= set![AudioGroupKey::System]);
            }
        }
    }
}

/// A handshake is accepted only from whoever proves the key, and never beside an open connection. One
/// that was accepted before is answered as before, and sixteen addresses are the most.
pub proof fn handshakes_need_the_key(
    service: Service,
    addr: PeerAddr,
    nonce: u128,
    proof_holds: bool,
)
    ensures
        ({
            let step = service.hello(addr, nonce, proof_holds);
            let known = service.authenticated.dom().contains(addr);
            let again = known && service.authenticated[addr].nonce == nonce;
            &&& !service.has_psk ==> step == HelloStep::Refuse(HelloRefusal::NoKey)
            &&& service.has_psk && !proof_holds ==> step == HelloStep::Refuse(
                HelloRefusal::BadProof,
            )
            &&& service.has_psk && proof_holds && again ==> {
                &&& step is Repeat
                &&& step->salt == service.authenticated[addr].salt
                &&& step->timestamp_ms == service.authenticated[addr].timestamp_ms
            }
            &&& service.has_psk && proof_holds && known && !again
                && service.peers.dom().contains(addr) ==> step == HelloStep::Refuse(
                HelloRefusal::ConnectionOpen,
            )
            &&& service.has_psk && proof_holds && !known && service.authenticated.dom().len() >= 16
                ==> step == HelloStep::Refuse(HelloRefusal::TooMany)
            &&& service.has_psk && proof_holds && !known && service.authenticated.dom().len() < 16
                ==> step is Install
            &&& service.has_psk && proof_holds && known && !again && !service.peers.dom().contains(
                addr,
            ) ==> step is Install
        }),
{
}

/// A look at the clock keeps exactly the connections that were heard of within fifteen seconds, as
/// they are, and of the handshakes those of kept connections and those that are younger than thirty
/// seconds, unless their connection was dropped. Nothing else changes.
pub proof fn sweeps_keep_what_is_young(
    service: Service,
    now_ms: u64,
    unix_ms: u64,
    addr: PeerAddr,
)
    ensures
        ({
            let after = service.swept(now_ms, unix_ms);
            let here = service.peers.dom().contains(addr);
            let silent = here && now_ms > service.peers[addr].last_seen_ms + 15_000;
            &&& after.peers.dom().contains(addr) == (here && !silent)
            &&& here && !silent ==> after.peers[addr] == service.peers[addr]
            &&& after.authenticated.dom().contains(addr) == (service.authenticated.dom().contains(
                addr,
            ) && !silent && (here || unix_ms < service.authenticated[addr].timestamp_ms + 30_000))
            &&& after.authenticated.dom().contains(addr) ==> after.authenticated[addr]
                == service.authenticated[addr]
            &&& after.config == service.config
            &&& after.has_psk == service.has_psk
            &&& after.require_auth == service.require_auth
            &&& after.input_owner == service.input_owner
            &&& service.expired(addr, now_ms) == silent
        }),
{
}

/// After a new key nobody is connected and nobody is authenticated; what the host offers stays.
pub proof fn new_keys_start_everyone_anew(
    service: Service,
    has_psk: bool,
    require_auth: bool,
    addr: PeerAddr,
)
    ensures
        ({
            let after = service.rekeyed(has_psk, require_auth);
            &&& !after.peers.dom().contains(addr)
            &&& !after.authenticated.dom().contains(addr)
            &&& after.has_psk == has_psk
            &&& after.require_auth == require_auth
            &&& after.config == service.config
            &&& after.input_owner == service.input_owner
        }),
{
}

/// Of the subscriptions of a viewer exactly those are dropped whose streams have ended, and audio
/// that only they wanted is no longer captured.
pub proof fn ended_streams_are_dropped(
    service: Service,
    addr: PeerAddr,
    ids: Set<u32>,
)
    ensures
        ({
            let after = service.finished(addr, ids);
            &&& others_kept(service, after, addr)
            &&& after.input_owner == service.input_owner
            &&& after.peers.dom().contains(addr) == service.peers.dom().contains(addr)
            &&& service.peers.dom().contains(addr) ==> {
                let before = service.peers[addr];
                let now = after.peers[addr];
                &&& manners_kept(before, now)
                &&& now.last_seen_ms == before.last_seen_ms
                &&& now.retired == before.retired
                &&& audio_follows(before, now)
                &&& forall|id: u32| #[trigger]
                    now.subs.dom().contains(id) == (before.subs.dom().contains(id) && !ids.contains(
                        id,
                    ))
                &&& forall|id: u32|
                    now.subs.dom().contains(id) ==> #[trigger] now.subs[id] == before.subs[id]
            }
        }),
{
}

/// A packet of the data plane goes to the service for its kind, exactly if the connection has that
/// service; no other packet goes anywhere.
pub proof fn packets_go_to_the_service_for_them(
    service: Service,
    addr: PeerAddr,
    kind: ContentKind,
)
    ensures
        ({
            let target = service.data_target(addr, kind);
            let here = service.peers.dom().contains(addr);
            let conn = service.peers[addr];
            let of_files = kind == ContentKind::FileManifest || kind == ContentKind::FileChunk
                || kind == ContentKind::FileControl;
            let of_talkback = kind == ContentKind::AudioStreamConfig || kind
                == ContentKind::AudioOpus;
            &&& target == Some(DataTarget::Clipboard) <==> here && kind
                == ContentKind::ClipboardBundle && conn.clipboard
            &&& target == Some(DataTarget::Files) <==> here && of_files && conn.files
            &&& target == Some(DataTarget::Talkback) <==> here && of_talkback
                && conn.talkback is Some
        }),
{
}

/// Input that its viewer may not hold any more is taken away, and all keys are let go then; else
/// nothing changes.
pub proof fn input_is_taken_from_whoever_may_not_hold_it(service: Service)
    ensures
        ({
            let (after, actions) = service.settled();
            let rightly = match service.input_owner {
                Some((addr, id)) => service.peers.dom().contains(addr) && takes_input(
                    service.peers[addr],
                    id,
                ),
                None => true,
            };
            &&& after == (Service { input_owner: after.input_owner, ..service })
            &&& rightly ==> after.input_owner == service.input_owner && actions.len() == 0
            &&& !rightly ==> after.input_owner is None && actions == seq![
                HostAction::ReleaseAllInput,
            ]
        }),
{
}

/// An answer is sent with its own fields: what was opened in the one version and with room for eight
/// subscriptions, at most two hundred and fifty-six sources, and a host's time for when a ping came
/// and when it was answered.
pub proof fn answers_are_sent_with_their_fields(
    reply: HostReply,
    detail: Seq<char>,
    sources: Seq<CaptureSourceInfo>,
    message: ControlMessage,
)
    requires
        reply.is_message(detail, sources, message),
    ensures
        match reply {
            HostReply::AuthenticateFirst => message is SessionReject,
            HostReply::InputReleased { id } => message == ControlMessage::Session(
                SessionCommand::InputReleased { id },
            ),
            HostReply::Configured { id, revision } => message == ControlMessage::Session(
                SessionCommand::Configured { id, revision },
            ),
            HostReply::ClipboardState { enabled } => message == ControlMessage::Session(
                SessionCommand::ClipboardState { enabled },
            ),
            HostReply::Opened { connection_id, files, clipboard, window_capture } => message
                == ControlMessage::Session(
                SessionCommand::Opened {
                    connection_id,
                    version: 2,
                    max_subscriptions: 8,
                    files,
                    clipboard,
                    window_capture,
                },
            ),
            HostReply::Sources { request_id } => {
                &&& message is Session
                &&& message->Session_0 is Sources
                &&& (message->Session_0)->Sources_request_id == request_id
                &&& (message->Session_0)->Sources_sources@.len() == (if sources.len() > 256 {
                    256
                } else {
                    sources.len()
                })
                &&& forall|i: int|
                    0 <= i < (message->Session_0)->Sources_sources@.len() ==> #[trigger] (
                    message->Session_0)->Sources_sources@[i] == sources[i]
            },
            HostReply::Subscribed(told) => message == ControlMessage::Session(
                SessionCommand::Subscribed {
                    id: told.id,
                    audio_owner: told.audio_owner,
                    supports_input: told.supports_input,
                },
            ),
            HostReply::Activity(told) => message == ControlMessage::Session(
                SessionCommand::Activity {
                    id: told.id,
                    revision: told.revision,
                    video: told.video,
                    audio: told.audio,
                },
            ),
            HostReply::Unsubscribed { id } => message == ControlMessage::Session(
                SessionCommand::Unsubscribed { id },
            ),
            HostReply::Refused { request_id, refusal } => {
                &&& message is Session
                &&& message->Session_0 is Error
                &&& (message->Session_0)->Error_request_id == request_id
                &&& refusal == Refusal::InvalidSettings || refusal == Refusal::SourcesUnknown ==> (
                message->Session_0)->Error_reason@ == detail
            },
            HostReply::Pong { client_send_ts, host_ts } => {
                &&& message is Pong
                &&& message->Pong_client_send_ts == client_send_ts
                &&& message->host_recv_ts == host_ts
                &&& message->host_send_ts == host_ts
            },
            HostReply::MediaPauseState { session_id, revision, paused } => {
                &&& message is MediaPauseState
                &&& message->MediaPauseState_session_id == session_id
                &&& message->MediaPauseState_revision == revision
                &&& message->MediaPauseState_paused == paused
            },
        },
{
}

/// A handshake that is refused is told why.
pub proof fn refused_handshakes_are_told_why(detail: Seq<char>)
    ensures
        HelloRefusal::NoKey.text(detail) == "host has no session PSK configured"@,
        HelloRefusal::BadProof.text(detail) == detail,
        HelloRefusal::ConnectionOpen.text(detail)
            == "close the existing connection before rekeying"@,
        HelloRefusal::TooMany.text(detail) == "authentication capacity reached"@,
{
}

} // verus!
