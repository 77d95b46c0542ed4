//! The host's control plane: connections by address, authentication, and who holds the input.
use crate::host::connection::{
    is_too_large, listed, too_large, Activity, Conn, Connection, Refusal, SourceChoice,
    StreamSettings, Subscribed, Subscription,
};
use crate::host::talkback_player::TalkbackPlaybackSettings;
use crate::protocol::control::{ControlMessage, InputEvent};
use crate::protocol::lane::ContentKind;
use crate::protocol::session::{
    CaptureSource, CaptureSourceInfo, SessionCommand, SubscriptionRequest, MAX_SUBSCRIPTIONS,
    SESSION_VERSION,
};
use crate::table::{Key, Table};
use vstd::prelude::*;

verus! {

/// Connections that the host serves at a time.
pub const MAX_CONNECTIONS: usize = 8;

/// Addresses that can be authenticated at a time.
pub const MAX_AUTHENTICATED: usize = 16;

/// A connection that is silent for longer is dropped.
pub const CONNECTION_TIMEOUT_MS: u64 = 15_000;

/// An address that is authenticated but opens no connection is forgotten after this.
pub const AUTHENTICATION_TIMEOUT_MS: u64 = 30_000;

/// Sources that are told at a time.
pub const MAX_LISTED_SOURCES: usize = 256;

/// The address of a viewer: a socket address, as numbers.
#[derive(Debug, Clone, Copy, PartialEq, Eq, Hash, Structural)]
pub struct PeerAddr {
    pub is_v6: bool,
    pub ip: u128,
    pub port: u16,
    pub flow_info: u32,
    pub scope_id: u32,
}

impl Key for PeerAddr {
    fn same(&self, other: &Self) -> (r: bool) {
        *self == *other
    }
}

/// What the host offers.
#[derive(Debug, Clone, Copy, PartialEq, Eq, Structural)]
pub struct HostServiceConfig {
    pub clipboard_sync: bool,
    pub files: bool,
    pub talkback: bool,
    pub system_audio: bool,
    pub window_capture: bool,
}

/// A handshake that was accepted.
#[derive(Debug, Clone, Copy, PartialEq, Eq, Structural)]
pub struct AuthEntry {
    /// Sixteen bytes, the first the least significant.
    pub nonce: u128,
    /// Sixteen bytes, the first the least significant.
    pub salt: u128,
    pub timestamp_ms: u64,
}

/// What the host answers.
#[derive(Debug, Clone, Copy, PartialEq, Eq, Structural)]
pub enum HostReply {
    AuthenticateFirst,
    InputReleased { id: u32 },
    Configured { id: u32, revision: u64 },
    ClipboardState { enabled: bool },
    Opened { connection_id: u32, files: bool, clipboard: bool, window_capture: bool },
    /// The list of sources that was at hand.
    Sources { request_id: u32 },
    Subscribed(Subscribed),
    Activity(Activity),
    Unsubscribed { id: u32 },
    Refused { request_id: u32, refusal: Refusal },
    Pong { client_send_ts: u64, host_ts: u64 },
    MediaPauseState { session_id: u32, revision: u64, paused: bool },
}

/// What the host does besides changing its state.
#[derive(Debug, Clone, Copy, PartialEq, Eq, Structural)]
pub enum HostAction {
    /// Answer the viewer.
    Reply(HostReply),
    ReleaseAllInput,
    InjectInput(InputEvent),
}

/// What is known when a message comes in.
pub struct MessageContext {
    /// A clock that only goes forward, in milliseconds.
    pub now_ms: u64,
    /// The time of day, in milliseconds since the epoch.
    pub unix_ms: u64,
    /// The video settings in the message, if it has any, make sense.
    pub valid_settings: bool,
    /// What can be captured, if the list could be made.
    pub sources: Option<Vec<SourceChoice>>,
}

/// The host's state.
pub ghost struct Service {
    pub config: HostServiceConfig,
    pub peers: Map<PeerAddr, Conn>,
    pub authenticated: Map<PeerAddr, AuthEntry>,
    pub has_psk: bool,
    pub require_auth: bool,
    pub input_owner: Option<(PeerAddr, u32)>,
}

impl Service {
    /// Input for this subscription of this viewer is let through.
    pub open spec fn can_input(self, addr: PeerAddr, id: u32) -> bool {
        self.peers.dom().contains(addr) && self.peers[addr].can_input(id)
    }

    pub open spec fn has_sub(self, addr: PeerAddr, id: u32) -> bool {
        self.peers.dom().contains(addr) && self.peers[addr].subs.dom().contains(id)
    }

    pub open spec fn with_peer(self, addr: PeerAddr, conn: Conn) -> Self {
        Service { peers: self.peers.insert(addr, conn), ..self }
    }

    pub open spec fn without_peer(self, addr: PeerAddr) -> Self {
        Service { peers: self.peers.remove(addr), ..self }
    }

    pub open spec fn with_sub(self, addr: PeerAddr, id: u32, s: Subscription) -> Self {
        self.with_peer(
            addr,
            Conn { subs: self.peers[addr].subs.insert(id, s), ..self.peers[addr] },
        )
    }

    /// The viewer was heard of, if it has a connection.
    pub open spec fn seen(self, addr: PeerAddr, now_ms: u64) -> Self {
        if self.peers.dom().contains(addr) {
            self.with_peer(addr, Conn { last_seen_ms: now_ms, ..self.peers[addr] })
        } else {
            self
        }
    }

    /// There is room for a connection of this viewer, or it has one.
    pub open spec fn has_room(self, addr: PeerAddr) -> bool {
        self.peers.dom().len() < MAX_CONNECTIONS || self.peers.dom().contains(addr)
    }

    /// The viewer's connection, or a new one.
    pub open spec fn conn_or_new(self, addr: PeerAddr, id: u32, now_ms: u64) -> Conn {
        if self.peers.dom().contains(addr) {
            self.peers[addr]
        } else {
            Conn::fresh(id, now_ms, self.config.files, self.config.talkback)
        }
    }

    /// Input from a viewer: whoever held it before lets everything go first.
    pub open spec fn injected(self, addr: PeerAddr, id: u32, event: InputEvent) -> (
        Self,
        Seq<HostAction>,
    ) {
        if self.input_owner == Some((addr, id)) {
            (self, seq![HostAction::InjectInput(event)])
        } else {
            (
                Service { input_owner: Some((addr, id)), ..self },
                seq![HostAction::ReleaseAllInput, HostAction::InjectInput(event)],
            )
        }
    }

    /// Whoever holds the input but may not any more lets everything go.
    pub open spec fn settled(self) -> (Self, Seq<HostAction>) {
        match self.input_owner {
            Some((addr, id)) => if self.can_input(addr, id) {
                (self, Seq::empty())
            } else {
                (Service { input_owner: None, ..self }, seq![HostAction::ReleaseAllInput])
            },
            None => (self, Seq::empty()),
        }
    }

    /// Turns the shared clipboard on or off for one viewer; turning it on takes it from the others.
    pub open spec fn with_clipboard(self, addr: PeerAddr, enabled: bool) -> Self {
        Service {
            peers: self.peers.map_entries(
                |k: PeerAddr, c: Conn|
                    if k == addr {
                        Conn { clipboard: enabled, ..c }
                    } else if enabled {
                        Conn { clipboard: false, ..c }
                    } else {
                        c
                    },
            ),
            ..self
        }
    }

    /// A stream by the old protocol: one subscription of the main display, which replaces others.
    pub open spec fn stream_started(
        self,
        addr: PeerAddr,
        request: SubscriptionRequest,
        now_ms: u64,
        sources: Option<Seq<SourceChoice>>,
    ) -> (Self, Seq<HostAction>) {
        let found = self.conn_or_new(addr, request.id, now_ms);
        let shared = Conn { clipboard: self.config.clipboard_sync, ..found };
        let cleared = if shared.subs.dom().contains(request.id) {
            shared
        } else {
            shared.without_subs().refreshed()
        };
        match cleared.subscribe_refusal(request, true, sources) {
            Some(refusal) => (
                self.with_peer(addr, cleared),
                seq![
                    HostAction::Reply(HostReply::Refused { request_id: request.id, refusal }),
                ],
            ),
            None => (
                self.with_peer(addr, cleared.subscribed(request, sources, true)),
                Seq::empty(),
            ),
        }
    }

    /// New settings for a subscription; those that come late are passed over.
    pub open spec fn configured(
        self,
        addr: PeerAddr,
        id: u32,
        revision: u64,
        asked: StreamSettings,
        valid: bool,
    ) -> (Self, Seq<HostAction>) {
        if !valid || too_large(asked.width, asked.height) {
            (
                self,
                seq![
                    HostAction::Reply(
                        HostReply::Refused { request_id: id, refusal: Refusal::UnsupportedSettings },
                    ),
                ],
            )
        } else if self.has_sub(addr, id) {
            let s = self.peers[addr].subs[id];
            if revision > s.settings_revision {
                (
                    self.with_sub(
                        addr,
                        id,
                        Subscription {
                            settings_revision: revision,
                            request: SubscriptionRequest {
                                width: asked.width,
                                height: asked.height,
                                fps: asked.fps,
                                bitrate_kbps: asked.bitrate_kbps,
                                ..s.request
                            },
                            settings: StreamSettings { paused: s.settings.paused, ..asked },
                            ..s
                        },
                    ),
                    seq![HostAction::Reply(HostReply::Configured { id, revision })],
                )
            } else {
                (
                    self,
                    seq![
                        HostAction::Reply(
                            HostReply::Configured { id, revision: s.settings_revision },
                        ),
                    ],
                )
            }
        } else {
            (
                self,
                seq![
                    HostAction::Reply(
                        HostReply::Refused { request_id: id, refusal: Refusal::NoSubscription },
                    ),
                ],
            )
        }
    }

    /// A connection is asked for.
    pub open spec fn opened(self, addr: PeerAddr, connection_id: u32, version: u32, now_ms: u64) -> (
        Self,
        Seq<HostAction>,
    ) {
        let refusal = if version != SESSION_VERSION || connection_id == 0 {
            Some(Refusal::UnsupportedVersion)
        } else if self.peers.dom().contains(addr) && self.peers[addr].id != connection_id {
            Some(Refusal::ConnectionOpen)
        } else if !self.has_room(addr) {
            Some(Refusal::TooManyConnections)
        } else {
            None
        };
        match refusal {
            Some(refusal) => (
                self,
                seq![
                    HostAction::Reply(HostReply::Refused { request_id: connection_id, refusal }),
                ],
            ),
            None => {
                let conn = self.conn_or_new(addr, connection_id, now_ms);
                (
                    self.with_peer(addr, conn),
                    seq![
                        HostAction::Reply(
                            HostReply::Opened {
                                connection_id,
                                files: conn.files,
                                clipboard: self.config.clipboard_sync,
                                window_capture: self.config.window_capture,
                            },
                        ),
                    ],
                )
            },
        }
    }

    /// A subscription is asked for.
    pub open spec fn subscribed(
        self,
        addr: PeerAddr,
        request: SubscriptionRequest,
        valid: bool,
        sources: Option<Seq<SourceChoice>>,
    ) -> (Self, Seq<HostAction>) {
        let refusal = if self.peers.dom().contains(addr) {
            self.peers[addr].subscribe_refusal(request, valid, sources)
        } else {
            Some(Refusal::NotOpen)
        };
        match refusal {
            Some(refusal) => (
                self,
                seq![
                    HostAction::Reply(HostReply::Refused { request_id: request.id, refusal }),
                ],
            ),
            None => {
                let conn = self.peers[addr].subscribed(request, sources, false);
                (
                    self.with_peer(addr, conn),
                    seq![HostAction::Reply(HostReply::Subscribed(conn.answer(request.id)))],
                )
            },
        }
    }

    /// What a change of activity of a subscription is answered with.
    pub open spec fn activity(
        self,
        addr: PeerAddr,
        id: u32,
        revision: u64,
        video: bool,
        audio: bool,
    ) -> Activity {
        let s = self.peers[addr].active_sub(id, revision, video, audio);
        Activity { id, revision: s.revision, video: !s.settings.paused, audio: s.audio_active }
    }

    /// The state and the actions after a command of the session layer, before the input is settled.
    pub open spec fn commanded(
        self,
        addr: PeerAddr,
        command: SessionCommand,
        now_ms: u64,
        valid: bool,
        sources: Option<Seq<SourceChoice>>,
    ) -> (Self, Seq<HostAction>) {
        match command {
            SessionCommand::ReleaseInput { id } => if self.input_owner == Some((addr, id)) {
                (
                    Service { input_owner: None, ..self },
                    seq![
                        HostAction::ReleaseAllInput,
                        HostAction::Reply(HostReply::InputReleased { id }),
                    ],
                )
            } else {
                (self, seq![HostAction::Reply(HostReply::InputReleased { id })])
            },
            SessionCommand::Configure { id, revision, width, height, fps, bitrate_kbps } =>
                self.configured(
                    addr,
                    id,
                    revision,
                    StreamSettings { width, height, fps, bitrate_kbps, paused: false },
                    valid,
                ),
            SessionCommand::SetClipboard { enabled } => if self.peers.dom().contains(addr) {
                let on = enabled && self.config.clipboard_sync;
                (
                    self.with_clipboard(addr, on),
                    seq![HostAction::Reply(HostReply::ClipboardState { enabled: on })],
                )
            } else {
                (self, Seq::empty())
            },
            SessionCommand::Open { connection_id, version } => self.opened(
                addr,
                connection_id,
                version,
                now_ms,
            ),
            SessionCommand::ListSources { request_id } => if !self.peers.dom().contains(addr) {
                (self, Seq::empty())
            } else if sources is Some {
                (self, seq![HostAction::Reply(HostReply::Sources { request_id })])
            } else {
                (
                    self,
                    seq![
                        HostAction::Reply(
                            HostReply::Refused { request_id, refusal: Refusal::SourcesUnknown },
                        ),
                    ],
                )
            },
            SessionCommand::Subscribe(request) => self.subscribed(addr, request, valid, sources),
            SessionCommand::Unsubscribe { id } => if self.peers.dom().contains(addr) {
                (
                    self.with_peer(addr, self.peers[addr].unsubscribed(id)),
                    seq![HostAction::Reply(HostReply::Unsubscribed { id })],
                )
            } else {
                (self, Seq::empty())
            },
            SessionCommand::Close { connection_id } => if self.peers.dom().contains(addr)
                && self.peers[addr].id == connection_id {
                (self.without_peer(addr), Seq::empty())
            } else {
                (self, Seq::empty())
            },
            SessionCommand::Input { id, event } => if self.can_input(addr, id) {
                self.injected(addr, id, event)
            } else {
                (self, Seq::empty())
            },
            SessionCommand::SetActivity { id, revision, video, audio } => if self.has_sub(
                addr,
                id,
            ) {
                (
                    self.with_peer(
                        addr,
                        self.peers[addr].with_activity(id, revision, video, audio),
                    ),
                    seq![
                        HostAction::Reply(
                            HostReply::Activity(self.activity(addr, id, revision, video, audio)),
                        ),
                    ],
                )
            } else {
                (self, Seq::empty())
            },
            _ => (self, Seq::empty()),
        }
    }
}

impl Service {
    /// The state and the actions after a message of a viewer that may speak, before the input is
    /// settled; the flag tells whether it is to be settled.
    pub open spec fn messaged(
        self,
        addr: PeerAddr,
        message: ControlMessage,
        now_ms: u64,
        unix_ms: u64,
        valid: bool,
        sources: Option<Seq<SourceChoice>>,
    ) -> (Self, Seq<HostAction>, bool) {
        match message {
            ControlMessage::StartStream { width, height, fps, bitrate_kbps, session_id } =>
                if !valid || !self.has_room(addr) {
                    (self, Seq::empty(), false)
                } else {
                    let (state, actions) = self.stream_started(
                        addr,
                        SubscriptionRequest {
                            id: session_id,
                            source: CaptureSource::MainDisplay,
                            width,
                            height,
                            fps,
                            bitrate_kbps,
                            audio: self.config.system_audio,
                        },
                        now_ms,
                        sources,
                    );
                    (state, actions, true)
                },
            ControlMessage::Session(command) => {
                let (state, actions) = self.commanded(addr, command, now_ms, valid, sources);
                (state, actions, true)
            },
            ControlMessage::StopStream => (self.without_peer(addr), Seq::empty(), true),
            ControlMessage::Input(event) => if self.peers.dom().contains(addr)
                && self.peers[addr].subs.dom().len() == 1 && self.can_input(
                addr,
                self.peers[addr].subs.dom().choose(),
            ) {
                let (state, actions) = self.injected(
                    addr,
                    self.peers[addr].subs.dom().choose(),
                    event,
                );
                (state, actions, true)
            } else {
                (self, Seq::empty(), true)
            },
            ControlMessage::Ping { client_send_ts } => if self.peers.dom().contains(addr) {
                (
                    self,
                    seq![
                        HostAction::Reply(HostReply::Pong { client_send_ts, host_ts: unix_ms }),
                    ],
                    true,
                )
            } else {
                (self, Seq::empty(), true)
            },
            ControlMessage::SetMediaPaused { session_id, revision, paused } => if self.has_sub(
                addr,
                session_id,
            ) {
                let now = self.activity(addr, session_id, revision, !paused, !paused);
                (
                    self.with_peer(
                        addr,
                        self.peers[addr].with_activity(session_id, revision, !paused, !paused),
                    ),
                    seq![
                        HostAction::Reply(
                            HostReply::MediaPauseState {
                                session_id,
                                revision: now.revision,
                                paused: !now.video,
                            },
                        ),
                    ],
                    true,
                )
            } else {
                (self, Seq::empty(), true)
            },
            ControlMessage::UpdateStreamSettings {
                width,
                height,
                fps,
                bitrate_kbps,
                session_id,
            } => if valid && self.has_sub(addr, session_id) {
                let s = self.peers[addr].subs[session_id];
                (
                    self.with_sub(
                        addr,
                        session_id,
                        Subscription {
                            settings: StreamSettings {
                                width,
                                height,
                                fps,
                                bitrate_kbps,
                                paused: s.settings.paused,
                            },
                            ..s
                        },
                    ),
                    Seq::empty(),
                    true,
                )
            } else {
                (self, Seq::empty(), true)
            },
            ControlMessage::RequestKeyframe { session_id } => if self.has_sub(addr, session_id) {
                (
                    self.with_sub(
                        addr,
                        session_id,
                        Subscription { keyframe: true, ..self.peers[addr].subs[session_id] },
                    ),
                    Seq::empty(),
                    true,
                )
            } else {
                (self, Seq::empty(), true)
            },
            ControlMessage::AudioControl { session_id, muted, volume_percent, .. } =>
                if self.peers.dom().contains(addr) && self.peers[addr].id == session_id
                    && self.peers[addr].talkback is Some {
                    (
                        self.with_peer(
                            addr,
                            Conn {
                                talkback: Some(
                                    TalkbackPlaybackSettings {
                                        muted,
                                        volume_percent: if volume_percent > 200 {
                                            200
                                        } else {
                                            volume_percent
                                        },
                                    },
                                ),
                                ..self.peers[addr]
                            },
                        ),
                        Seq::empty(),
                        true,
                    )
                } else {
                    (self, Seq::empty(), true)
                },
            _ => (self, Seq::empty(), true),
        }
    }

    /// The state and the actions after a message. A viewer that is not authenticated where it has to
    /// be changes nothing.
    pub open spec fn controlled(
        self,
        addr: PeerAddr,
        message: ControlMessage,
        now_ms: u64,
        unix_ms: u64,
        valid: bool,
        sources: Option<Seq<SourceChoice>>,
    ) -> (Self, Seq<HostAction>) {
        if self.require_auth && !self.authenticated.dom().contains(addr) {
            (self, seq![HostAction::Reply(HostReply::AuthenticateFirst)])
        } else {
            let (state, actions, settle) = self.seen(addr, now_ms).messaged(
                addr,
                message,
                now_ms,
                unix_ms,
                valid,
                sources,
            );
            if settle {
                let (calm, more) = state.settled();
                (calm, actions + more)
            } else {
                (state, actions)
            }
        }
    }
}

pub struct HostService {
    config: HostServiceConfig,
    peers: Table<PeerAddr, Connection>,
    authenticated: Table<PeerAddr, AuthEntry>,
    has_psk: bool,
    require_auth: bool,
    input_owner: Option<(PeerAddr, u32)>,
}

/// The connections, seen as what they are.
spec fn conns(peers: Map<PeerAddr, Connection>) -> Map<PeerAddr, Conn> {
    peers.map_values(|c: Connection| c@)
}

impl View for HostService {
    type V = Service;

    closed spec fn view(&self) -> Service {
        Service {
            config: self.config,
            peers: conns(self.peers@),
            authenticated: self.authenticated@,
            has_psk: self.has_psk,
            require_auth: self.require_auth,
            input_owner: self.input_owner,
        }
    }
}

proof fn lemma_conns_insert(peers: Map<PeerAddr, Connection>, addr: PeerAddr, c: Connection)
    ensures
        conns(peers.insert(addr, c)) == conns(peers).insert(addr, c@),
        conns(peers.remove(addr).insert(addr, c)) == conns(peers).insert(addr, c@),
{
    assert(conns(peers.insert(addr, c)) =~= conns(peers).insert(addr, c@));
    assert(peers.remove(addr).insert(addr, c) =~= peers.insert(addr, c));
}

proof fn lemma_conns_remove(peers: Map<PeerAddr, Connection>, addr: PeerAddr)
    ensures
        conns(peers.remove(addr)) == conns(peers).remove(addr),
{
    assert(conns(peers.remove(addr)) =~= conns(peers).remove(addr));
}

proof fn lemma_conns_dom(peers: Map<PeerAddr, Connection>)
    ensures
        conns(peers).dom() == peers.dom(),
{
    assert(conns(peers).dom() =~= peers.dom());
}

impl HostService {
    pub fn new(config: HostServiceConfig, has_psk: bool, require_auth: bool) -> (r: Self)
        ensures
            r@ == (Service {
                config,
                peers: Map::empty(),
                authenticated: Map::empty(),
                has_psk,
                require_auth,
                input_owner: None,
            }),
    {
        let r = HostService {
            config,
            peers: Table::new(),
            authenticated: Table::new(),
            has_psk,
            require_auth,
            input_owner: None,
        };
        proof {
            assert(r@.peers =~= Map::<PeerAddr, Conn>::empty());
        }
        r
    }

    /// Takes a viewer's connection out, to put it back changed.
    fn take(&mut self, addr: PeerAddr) -> (r: Option<Connection>)
        ensures
            match r {
                Some(c) => {
                    &&& old(self)@.peers.dom().contains(addr)
                    &&& c@ == old(self)@.peers[addr]
                    &&& final(self)@ == old(self)@.without_peer(addr)
                },
                None => {
                    &&& !old(self)@.peers.dom().contains(addr)
                    &&& final(self)@ == old(self)@
                },
            },
    {
        proof {
            lemma_conns_remove(self.peers@, addr);
            lemma_conns_dom(self.peers@);
        }
        let r = self.peers.remove(&addr);
        proof {
            if r is None {
                assert(old(self)@.peers.remove(addr) =~= old(self)@.peers);
            }
        }
        r
    }

    fn put(&mut self, addr: PeerAddr, c: Connection)
        ensures
            final(self)@ == old(self)@.with_peer(addr, c@),
    {
        proof {
            lemma_conns_insert(self.peers@, addr, c);
        }
        self.peers.insert(addr, c);
    }

    /// A viewer's connection.
    pub fn peer(&self, addr: PeerAddr) -> (r: Option<&Connection>)
        ensures
            match r {
                Some(c) => self@.peers.dom().contains(addr) && c@ == self@.peers[addr],
                None => !self@.peers.dom().contains(addr),
            },
    {
        proof {
            lemma_conns_dom(self.peers@);
        }
        self.peers.get(&addr)
    }

    /// The viewers that are connected.
    pub fn peer_addrs(&self) -> (r: Vec<PeerAddr>)
        ensures
            r@.no_duplicates(),
            r@.to_set() == self@.peers.dom(),
    {
        proof {
            lemma_conns_dom(self.peers@);
        }
        self.peers.keys()
    }

    fn has_room(&self, addr: PeerAddr) -> (r: bool)
        ensures
            r == self@.has_room(addr),
    {
        proof {
            lemma_conns_dom(self.peers@);
        }
        self.peers.len() < MAX_CONNECTIONS || self.peers.contains(&addr)
    }

    fn take_or_new(&mut self, addr: PeerAddr, id: u32, now_ms: u64) -> (r: Connection)
        ensures
            r@ == old(self)@.conn_or_new(addr, id, now_ms),
            final(self)@ == old(self)@.without_peer(addr),
    {
        match self.take(addr) {
            Some(c) => c,
            None => {
                proof {
                    assert(self@.peers.remove(addr) =~= self@.peers);
                }
                Connection::new(id, now_ms, self.config.files, self.config.talkback)
            },
        }
    }

    /// A subscription of a viewer.
    pub fn subscription(&self, addr: PeerAddr, id: u32) -> (r: Option<Subscription>)
        ensures
            r == (if self@.has_sub(addr, id) {
                Some(self@.peers[addr].subs[id])
            } else {
                None
            }),
    {
        match self.peer(addr) {
            Some(c) => c.subscription(id),
            None => None,
        }
    }

    fn set_subscription(&mut self, addr: PeerAddr, id: u32, s: Subscription)
        requires
            old(self)@.peers.dom().contains(addr),
        ensures
            final(self)@ == old(self)@.with_sub(addr, id, s),
    {
        match self.take(addr) {
            Some(c) => {
                let mut c = c;
                c.replace(id, s);
                self.put(addr, c);
                proof {
                    assert(self@.peers =~= old(self)@.with_sub(addr, id, s).peers);
                }
            },
            None => {},
        }
    }

    fn mark_seen(&mut self, addr: PeerAddr, now_ms: u64)
        ensures
            final(self)@ == old(self)@.seen(addr, now_ms),
    {
        match self.take(addr) {
            Some(c) => {
                let mut c = c;
                c.seen(now_ms);
                self.put(addr, c);
                proof {
                    assert(self@.peers =~= old(self)@.seen(addr, now_ms).peers);
                }
            },
            None => {},
        }
    }

    /// Whether input for this subscription of this viewer is let through.
    pub fn can_input(&self, addr: PeerAddr, id: u32) -> (r: bool)
        ensures
            r == self@.can_input(addr, id),
    {
        match self.peer(addr) {
            Some(c) => c.can_input(id),
            None => false,
        }
    }

    fn inject(&mut self, addr: PeerAddr, id: u32, event: InputEvent) -> (r: Vec<HostAction>)
        ensures
            (final(self)@, r@) == old(self)@.injected(addr, id, event),
    {
        let mut actions: Vec<HostAction> = Vec::new();
        let held = match self.input_owner {
            Some((a, i)) => a == addr && i == id,
            None => false,
        };
        if !held {
            actions.push(HostAction::ReleaseAllInput);
            self.input_owner = Some((addr, id));
        }
        actions.push(HostAction::InjectInput(event));
        proof {
            assert(actions@ =~= old(self)@.injected(addr, id, event).1);
        }
        actions
    }

    fn settle(&mut self, actions: &mut Vec<HostAction>)
        ensures
            final(self)@ == old(self)@.settled().0,
            final(actions)@ == old(actions)@ + old(self)@.settled().1,
    {
        proof {
            assert(old(actions)@ + Seq::<HostAction>::empty() =~= old(actions)@);
        }
        if let Some((addr, id)) = self.input_owner {
            if !self.can_input(addr, id) {
                self.input_owner = None;
                actions.push(HostAction::ReleaseAllInput);
                proof {
                    assert(actions@ =~= old(actions)@ + old(self)@.settled().1);
                }
            }
        }
    }

    fn set_clipboard(&mut self, addr: PeerAddr, enabled: bool)
        ensures
            final(self)@ == old(self)@.with_clipboard(addr, enabled),
    {
        let addrs = self.peer_addrs();
        let ghost before = self@;
        let ghost goal = before.with_clipboard(addr, enabled);
        let mut i: usize = 0;
        while i < addrs.len()
            invariant
                i <= addrs@.len(),
                addrs@.no_duplicates(),
                addrs@.to_set() == before.peers.dom(),
                goal == before.with_clipboard(addr, enabled),
                self@ == (Service { peers: self@.peers, ..before }),
                self@.peers.dom() == before.peers.dom(),
                forall|j: int|
                    0 <= j < i ==> self@.peers[#[trigger] addrs@[j]] == goal.peers[addrs@[j]],
                forall|j: int|
                    i <= j < addrs@.len() ==> self@.peers[#[trigger] addrs@[j]]
                        == before.peers[addrs@[j]],
            decreases addrs.len() - i,
        {
            let at = addrs[i];
            let ghost now = self@;
            proof {
                assert(addrs@.to_set().contains(addrs@[i as int]));
            }
            if let Some(c) = self.take(at) {
                let mut c = c;
                if at == addr {
                    c.set_clipboard(enabled);
                } else if enabled {
                    c.set_clipboard(false);
                }
                self.put(at, c);
                proof {
                    assert(self@.peers.dom() =~= before.peers.dom());
                    assert(self@.peers[at] == goal.peers[at]);
                    assert forall|j: int| 0 <= j < addrs@.len() && j != i implies self@.peers[
                    #[trigger] addrs@[j]] == now.peers[addrs@[j]] by {
                        assert(addrs@[j] != at);
                    }
                }
            }
            i += 1;
        }
        proof {
            assert forall|k: PeerAddr| #[trigger] self@.peers.dom().contains(k) implies
                self@.peers[k] == goal.peers[k] by {
                assert(addrs@.to_set().contains(k));
                let j = addrs@.index_of(k);
                assert(addrs@[j] == k);
            }
            assert(self@.peers =~= goal.peers);
        }
    }

    fn start_stream(
        &mut self,
        addr: PeerAddr,
        request: SubscriptionRequest,
        context: &MessageContext,
    ) -> (r: Vec<HostAction>)
        ensures
            (final(self)@, r@) == old(self)@.stream_started(
                addr,
                request,
                context.now_ms,
                listed(context.sources),
            ),
    {
        let mut actions: Vec<HostAction> = Vec::new();
        let mut c = self.take_or_new(addr, request.id, context.now_ms);
        c.set_clipboard(self.config.clipboard_sync);
        if c.subscription(request.id).is_none() {
            c.clear_subscriptions();
        }
        let outcome = c.subscribe(request, true, &context.sources, true);
        if let Err(refusal) = outcome {
            actions.push(
                HostAction::Reply(HostReply::Refused { request_id: request.id, refusal }),
            );
        }
        self.put(addr, c);
        proof {
            let goal = old(self)@.stream_started(
                addr,
                request,
                context.now_ms,
                listed(context.sources),
            );
            assert(self@.peers =~= goal.0.peers);
            assert(actions@ =~= goal.1);
        }
        actions
    }

    fn configure(
        &mut self,
        addr: PeerAddr,
        id: u32,
        revision: u64,
        asked: StreamSettings,
        valid: bool,
    ) -> (r: Vec<HostAction>)
        requires
            !asked.paused,
        ensures
            (final(self)@, r@) == old(self)@.configured(addr, id, revision, asked, valid),
    {
        let mut actions: Vec<HostAction> = Vec::new();
        let reply = if !valid || is_too_large(asked.width, asked.height) {
            HostReply::Refused { request_id: id, refusal: Refusal::UnsupportedSettings }
        } else if let Some(found) = self.subscription(addr, id) {
            let mut s = found;
            if revision > s.settings_revision {
                s.settings_revision = revision;
                s.request.width = asked.width;
                s.request.height = asked.height;
                s.request.fps = asked.fps;
                s.request.bitrate_kbps = asked.bitrate_kbps;
                s.settings.width = asked.width;
                s.settings.height = asked.height;
                s.settings.fps = asked.fps;
                s.settings.bitrate_kbps = asked.bitrate_kbps;
                self.set_subscription(addr, id, s);
            }
            HostReply::Configured { id, revision: s.settings_revision }
        } else {
            HostReply::Refused { request_id: id, refusal: Refusal::NoSubscription }
        };
        actions.push(HostAction::Reply(reply));
        proof {
            assert(actions@ =~= old(self)@.configured(addr, id, revision, asked, valid).1);
        }
        actions
    }

    fn open(&mut self, addr: PeerAddr, connection_id: u32, version: u32, now_ms: u64) -> (r: Vec<
        HostAction,
    >)
        ensures
            (final(self)@, r@) == old(self)@.opened(addr, connection_id, version, now_ms),
    {
        let mut actions: Vec<HostAction> = Vec::new();
        let other = match self.peer(addr) {
            Some(c) => c.id() != connection_id,
            None => false,
        };
        let reply = if version != SESSION_VERSION || connection_id == 0 {
            HostReply::Refused {
                request_id: connection_id,
                refusal: Refusal::UnsupportedVersion,
            }
        } else if other {
            HostReply::Refused { request_id: connection_id, refusal: Refusal::ConnectionOpen }
        } else if !self.has_room(addr) {
            HostReply::Refused { request_id: connection_id, refusal: Refusal::TooManyConnections }
        } else {
            let c = self.take_or_new(addr, connection_id, now_ms);
            let files = c.has_files();
            self.put(addr, c);
            proof {
                assert(self@.peers =~= old(self)@.opened(
                    addr,
                    connection_id,
                    version,
                    now_ms,
                ).0.peers);
            }
            HostReply::Opened {
                connection_id,
                files,
                clipboard: self.config.clipboard_sync,
                window_capture: self.config.window_capture,
            }
        };
        actions.push(HostAction::Reply(reply));
        proof {
            assert(actions@ =~= old(self)@.opened(addr, connection_id, version, now_ms).1);
        }
        actions
    }

    fn subscribe(&mut self, addr: PeerAddr, request: SubscriptionRequest, context: &MessageContext) -> (r: Vec<
        HostAction,
    >)
        ensures
            (final(self)@, r@) == old(self)@.subscribed(
                addr,
                request,
                context.valid_settings,
                listed(context.sources),
            ),
    {
        let mut actions: Vec<HostAction> = Vec::new();
        let ghost goal = self@.subscribed(
            addr,
            request,
            context.valid_settings,
            listed(context.sources),
        );
        let reply = match self.take(addr) {
            Some(c) => {
                let mut c = c;
                let outcome = c.subscribe(
                    request,
                    context.valid_settings,
                    &context.sources,
                    false,
                );
                self.put(addr, c);
                proof {
                    assert(self@.peers =~= goal.0.peers);
                }
                match outcome {
                    Ok(answer) => HostReply::Subscribed(answer),
                    Err(refusal) => HostReply::Refused { request_id: request.id, refusal },
                }
            },
            None => HostReply::Refused { request_id: request.id, refusal: Refusal::NotOpen },
        };
        actions.push(HostAction::Reply(reply));
        proof {
            assert(actions@ =~= goal.1);
        }
        actions
    }

    fn activity(
        &mut self,
        addr: PeerAddr,
        id: u32,
        revision: u64,
        video: bool,
        audio: bool,
    ) -> (r: Option<Activity>)
        ensures
            match r {
                Some(a) => {
                    &&& old(self)@.has_sub(addr, id)
                    &&& a == old(self)@.activity(addr, id, revision, video, audio)
                    &&& final(self)@ == old(self)@.with_peer(
                        addr,
                        old(self)@.peers[addr].with_activity(id, revision, video, audio),
                    )
                },
                None => !old(self)@.has_sub(addr, id) && final(self)@ == old(self)@,
            },
    {
        match self.take(addr) {
            Some(c) => {
                let mut c = c;
                let r = c.set_activity(id, revision, video, audio);
                self.put(addr, c);
                proof {
                    assert(self@.peers =~= old(self)@.with_peer(addr, c@).peers);
                    if r is None {
                        assert(self@.peers =~= old(self)@.peers);
                    }
                }
                r
            },
            None => None,
        }
    }

    fn command(&mut self, addr: PeerAddr, command: &SessionCommand, context: &MessageContext) -> (r: Vec<
        HostAction,
    >)
        ensures
            (final(self)@, r@) == old(self)@.commanded(
                addr,
                *command,
                context.now_ms,
                context.valid_settings,
                listed(context.sources),
            ),
    {
        let ghost goal = self@.commanded(
            addr,
            *command,
            context.now_ms,
            context.valid_settings,
            listed(context.sources),
        );
        let mut actions: Vec<HostAction> = Vec::new();
        match command {
            SessionCommand::ReleaseInput { id } => {
                let held = match self.input_owner {
                    Some((a, i)) => a == addr && i == *id,
                    None => false,
                };
                if held {
                    actions.push(HostAction::ReleaseAllInput);
                    self.input_owner = None;
                }
                actions.push(HostAction::Reply(HostReply::InputReleased { id: *id }));
            },
            SessionCommand::Configure { id, revision, width, height, fps, bitrate_kbps } => {
                return self.configure(
                    addr,
                    *id,
                    *revision,
                    StreamSettings {
                        width: *width,
                        height: *height,
                        fps: *fps,
                        bitrate_kbps: *bitrate_kbps,
                        paused: false,
                    },
                    context.valid_settings,
                );
            },
            SessionCommand::SetClipboard { enabled } => {
                if self.peer(addr).is_some() {
                    let enabled = *enabled && self.config.clipboard_sync;
                    self.set_clipboard(addr, enabled);
                    actions.push(HostAction::Reply(HostReply::ClipboardState { enabled }));
                }
            },
            SessionCommand::Open { connection_id, version } => {
                return self.open(addr, *connection_id, *version, context.now_ms);
            },
            SessionCommand::ListSources { request_id } => {
                if self.peer(addr).is_some() {
                    let reply = if context.sources.is_some() {
                        HostReply::Sources { request_id: *request_id }
                    } else {
                        HostReply::Refused {
                            request_id: *request_id,
                            refusal: Refusal::SourcesUnknown,
                        }
                    };
                    actions.push(HostAction::Reply(reply));
                }
            },
            SessionCommand::Subscribe(request) => {
                return self.subscribe(addr, *request, context);
            },
            SessionCommand::Unsubscribe { id } => {
                if let Some(c) = self.take(addr) {
                    let mut c = c;
                    c.unsubscribe(*id);
                    self.put(addr, c);
                    proof {
                        assert(self@.peers =~= goal.0.peers);
                    }
                    actions.push(HostAction::Reply(HostReply::Unsubscribed { id: *id }));
                }
            },
            SessionCommand::Close { connection_id } => {
                let same = match self.peer(addr) {
                    Some(c) => c.id() == *connection_id,
                    None => false,
                };
                if same {
                    let _ = self.take(addr);
                }
            },
            SessionCommand::Input { id, event } => {
                if self.can_input(addr, *id) {
                    return self.inject(addr, *id, *event);
                }
            },
            SessionCommand::SetActivity { id, revision, video, audio } => {
                if let Some(a) = self.activity(addr, *id, *revision, *video, *audio) {
                    actions.push(HostAction::Reply(HostReply::Activity(a)));
                }
            },
            _ => {},
        }
        proof {
            assert(actions@ =~= goal.1);
        }
        actions
    }
}

/// The one element of a set of one.
proof fn lemma_only(ids: Set<u32>, id: u32)
    requires
        ids.finite(),
        ids.len() == 1,
        ids.contains(id),
    ensures
        ids.choose() == id,
{
    let rest = ids.remove(id);
    assert(rest.len() == 0);
    assert(rest =~= Set::<u32>::empty());
    if ids.choose() != id {
        assert(rest.contains(ids.choose()));
    }
}

impl HostService {
    /// Takes a message of a viewer in, and tells what to do about it.
    pub fn handle_control(
        &mut self,
        addr: PeerAddr,
        message: &ControlMessage,
        context: &MessageContext,
    ) -> (r: Vec<HostAction>)
        ensures
            (final(self)@, r@) == old(self)@.controlled(
                addr,
                *message,
                context.now_ms,
                context.unix_ms,
                context.valid_settings,
                listed(context.sources),
            ),
    {
        let mut actions: Vec<HostAction> = Vec::new();
        if self.require_auth && !self.authenticated.contains(&addr) {
            actions.push(HostAction::Reply(HostReply::AuthenticateFirst));
            proof {
                assert(actions@ =~= seq![HostAction::Reply(HostReply::AuthenticateFirst)]);
            }
            return actions;
        }
        self.mark_seen(addr, context.now_ms);
        let (done, settle) = self.message(addr, message, context);
        actions = done;
        if settle {
            self.settle(&mut actions);
        }
        actions
    }

    fn message(
        &mut self,
        addr: PeerAddr,
        message: &ControlMessage,
        context: &MessageContext,
    ) -> (r: (Vec<HostAction>, bool))
        ensures
            (final(self)@, r.0@, r.1) == old(self)@.messaged(
                addr,
                *message,
                context.now_ms,
                context.unix_ms,
                context.valid_settings,
                listed(context.sources),
            ),
    {
        let ghost goal = self@.messaged(
            addr,
            *message,
            context.now_ms,
            context.unix_ms,
            context.valid_settings,
            listed(context.sources),
        );
        let mut actions: Vec<HostAction> = Vec::new();
        match message {
            ControlMessage::StartStream { width, height, fps, bitrate_kbps, session_id } => {
                if !context.valid_settings || !self.has_room(addr) {
                    proof {
                        assert(actions@ =~= goal.1);
                    }
                    return (actions, false);
                }
                let request = SubscriptionRequest {
                    id: *session_id,
                    source: CaptureSource::MainDisplay,
                    width: *width,
                    height: *height,
                    fps: *fps,
                    bitrate_kbps: *bitrate_kbps,
                    audio: self.config.system_audio,
                };
                return (self.start_stream(addr, request, context), true);
            },
            ControlMessage::Session(command) => {
                return (self.command(addr, command, context), true);
            },
            ControlMessage::StopStream => {
                let _ = self.take(addr);
                proof {
                    assert(self@.peers =~= goal.0.peers);
                }
            },
            ControlMessage::Input(event) => {
                let only = match self.peer(addr) {
                    Some(c) => c.only_subscription(),
                    None => None,
                };
                if let Some(id) = only {
                    proof {
                        lemma_only(self@.peers[addr].subs.dom(), id);
                    }
                    if self.can_input(addr, id) {
                        return (self.inject(addr, id, *event), true);
                    }
                }
            },
            ControlMessage::Ping { client_send_ts } => {
                if self.peer(addr).is_some() {
                    actions.push(
                        HostAction::Reply(
                            HostReply::Pong {
                                client_send_ts: *client_send_ts,
                                host_ts: context.unix_ms,
                            },
                        ),
                    );
                }
            },
            ControlMessage::SetMediaPaused { session_id, revision, paused } => {
                if let Some(a) = self.activity(addr, *session_id, *revision, !*paused, !*paused) {
                    actions.push(
                        HostAction::Reply(
                            HostReply::MediaPauseState {
                                session_id: *session_id,
                                revision: a.revision,
                                paused: !a.video,
                            },
                        ),
                    );
                }
            },
            ControlMessage::UpdateStreamSettings {
                width,
                height,
                fps,
                bitrate_kbps,
                session_id,
            } => {
                if context.valid_settings {
                    if let Some(found) = self.subscription(addr, *session_id) {
                        let mut s = found;
                        s.settings.width = *width;
                        s.settings.height = *height;
                        s.settings.fps = *fps;
                        s.settings.bitrate_kbps = *bitrate_kbps;
                        self.set_subscription(addr, *session_id, s);
                    }
                }
            },
            ControlMessage::RequestKeyframe { session_id } => {
                if let Some(found) = self.subscription(addr, *session_id) {
                    let mut s = found;
                    s.keyframe = true;
                    self.set_subscription(addr, *session_id, s);
                }
            },
            ControlMessage::AudioControl { session_id, muted, volume_percent, .. } => {
                let mine = match self.peer(addr) {
                    Some(c) => c.id() == *session_id && c.talkback().is_some(),
                    None => false,
                };
                if mine {
                    if let Some(c) = self.take(addr) {
                        let mut c = c;
                        c.set_talkback(*muted, *volume_percent);
                        self.put(addr, c);
                        proof {
                            assert(self@.peers =~= goal.0.peers);
                        }
                    }
                }
            },
            _ => {},
        }
        proof {
            assert(actions@ =~= goal.1);
        }
        (actions, true)
    }

    /// Whether the next frame of a stream is to be one that decoding can start at; asking settles
    /// it.
    pub fn take_keyframe(&mut self, addr: PeerAddr, id: u32) -> (r: bool)
        ensures
            r == (old(self)@.has_sub(addr, id) && old(self)@.peers[addr].subs[id].keyframe),
            final(self)@ == (if r {
                old(self)@.with_sub(
                    addr,
                    id,
                    Subscription { keyframe: false, ..old(self)@.peers[addr].subs[id] },
                )
            } else {
                old(self)@
            }),
    {
        match self.subscription(addr, id) {
            Some(found) => {
                if found.keyframe {
                    let mut s = found;
                    s.keyframe = false;
                    self.set_subscription(addr, id, s);
                    true
                } else {
                    false
                }
            },
            None => false,
        }
    }
}

/// Which of a connection's services a packet of the data plane is for.
#[derive(Debug, Clone, Copy, PartialEq, Eq, Structural)]
pub enum DataTarget {
    Clipboard,
    Files,
    Talkback,
}

impl Service {
    /// Which service takes a packet of that kind, if the connection has it.
    pub open spec fn data_target(self, addr: PeerAddr, kind: ContentKind) -> Option<DataTarget> {
        if !self.peers.dom().contains(addr) {
            None
        } else {
            let c = self.peers[addr];
            match kind {
                ContentKind::ClipboardBundle => if c.clipboard {
                    Some(DataTarget::Clipboard)
                } else {
                    None
                },
                ContentKind::FileManifest | ContentKind::FileChunk | ContentKind::FileControl =>
                    if c.files {
                        Some(DataTarget::Files)
                    } else {
                        None
                    },
                ContentKind::AudioStreamConfig | ContentKind::AudioOpus =>
                    if c.talkback is Some {
                        Some(DataTarget::Talkback)
                    } else {
                        None
                    },
                _ => None,
            }
        }
    }
}

impl HostService {
    /// Takes note of a packet of the data plane, and tells which service it is for.
    pub fn handle_data(&mut self, addr: PeerAddr, kind: ContentKind, now_ms: u64) -> (r: Option<
        DataTarget,
    >)
        ensures
            final(self)@ == old(self)@.seen(addr, now_ms),
            r == old(self)@.data_target(addr, kind),
    {
        self.mark_seen(addr, now_ms);
        match self.peer(addr) {
            Some(c) => match kind {
                ContentKind::ClipboardBundle => if c.has_clipboard() {
                    Some(DataTarget::Clipboard)
                } else {
                    None
                },
                ContentKind::FileManifest | ContentKind::FileChunk | ContentKind::FileControl =>
                    if c.has_files() {
                        Some(DataTarget::Files)
                    } else {
                        None
                    },
                ContentKind::AudioStreamConfig | ContentKind::AudioOpus =>
                    if c.talkback().is_some() {
                        Some(DataTarget::Talkback)
                    } else {
                        None
                    },
                _ => None,
            },
            None => None,
        }
    }
}

/// Why a handshake is refused.
#[derive(Debug, Clone, Copy, PartialEq, Eq, Structural)]
pub enum HelloRefusal {
    NoKey,
    /// The proof of the key does not hold; why is for those to say who looked at it.
    BadProof,
    ConnectionOpen,
    TooMany,
}

impl HelloRefusal {
    /// The refusal in words; `detail` are the words of those who looked at the proof.
    pub open spec fn text(self, detail: Seq<char>) -> Seq<char> {
        match self {
            HelloRefusal::NoKey => "host has no session PSK configured"@,
            HelloRefusal::BadProof => detail,
            HelloRefusal::ConnectionOpen => "close the existing connection before rekeying"@,
            HelloRefusal::TooMany => "authentication capacity reached"@,
        }
    }

    /// The refusal in words.
    pub fn message(&self, detail: &str) -> (r: String)
        ensures
            r@ == self.text(detail@),
    {
        let text = match self {
            HelloRefusal::NoKey => "host has no session PSK configured",
            HelloRefusal::BadProof => detail,
            HelloRefusal::ConnectionOpen => "close the existing connection before rekeying",
            HelloRefusal::TooMany => "authentication capacity reached",
        };
        text.to_owned()
    }
}

/// What to do about a handshake.
#[derive(Debug, Clone, Copy, PartialEq, Eq, Structural)]
pub enum HelloStep {
    Refuse(HelloRefusal),
    /// It was accepted before: the same answer again.
    Repeat { salt: u128, timestamp_ms: u64 },
    /// Make a salt, set up encryption with it, and then call `authenticate`.
    Install,
}

impl Service {
    pub open spec fn hello(self, addr: PeerAddr, nonce: u128, proof_holds: bool) -> HelloStep {
        let known = self.authenticated.dom().contains(addr);
        if !self.has_psk {
            HelloStep::Refuse(HelloRefusal::NoKey)
        } else if !proof_holds {
            HelloStep::Refuse(HelloRefusal::BadProof)
        } else if known && self.authenticated[addr].nonce == nonce {
            HelloStep::Repeat {
                salt: self.authenticated[addr].salt,
                timestamp_ms: self.authenticated[addr].timestamp_ms,
            }
        } else if known && self.peers.dom().contains(addr) {
            HelloStep::Refuse(HelloRefusal::ConnectionOpen)
        } else if !known && self.authenticated.dom().len() >= MAX_AUTHENTICATED {
            HelloStep::Refuse(HelloRefusal::TooMany)
        } else {
            HelloStep::Install
        }
    }

    /// The connection has been silent for too long. A clock that was turned back counts as silence
    /// of no time.
    pub open spec fn expired(self, addr: PeerAddr, now_ms: u64) -> bool {
        self.peers.dom().contains(addr) && now_ms - self.peers[addr].last_seen_ms
            > CONNECTION_TIMEOUT_MS
    }

    /// The state after a look at the clock: connections that are silent for too long are dropped,
    /// with their authentication; so is authentication that was never used.
    pub open spec fn swept(self, now_ms: u64, unix_ms: u64) -> Self {
        let peers = self.peers.restrict(
            Set::new(|a: PeerAddr| self.peers.dom().contains(a) && !self.expired(a, now_ms)),
        );
        Service {
            peers,
            authenticated: self.authenticated.restrict(
                Set::new(
                    |a: PeerAddr|
                        self.authenticated.dom().contains(a) && !self.expired(a, now_ms) && (
                        peers.dom().contains(a) || unix_ms - self.authenticated[a].timestamp_ms
                            < AUTHENTICATION_TIMEOUT_MS),
                ),
            ),
            ..self
        }
    }

    /// The state after a new key: everyone has to start anew.
    pub open spec fn rekeyed(self, has_psk: bool, require_auth: bool) -> Self {
        Service {
            peers: Map::empty(),
            authenticated: Map::empty(),
            has_psk,
            require_auth,
            ..self
        }
    }

    /// The subscriptions of a viewer whose streams have ended are dropped.
    pub open spec fn finished(self, addr: PeerAddr, ids: Set<u32>) -> Self {
        if self.peers.dom().contains(addr) {
            self.with_peer(
                addr,
                Conn {
                    subs: self.peers[addr].subs.remove_keys(ids),
                    ..self.peers[addr]
                }.refreshed(),
            )
        } else {
            self
        }
    }
}

impl HostService {
    /// What to do about a handshake whose proof of the key was looked at.
    pub fn hello(&self, addr: PeerAddr, nonce: u128, proof_holds: bool) -> (r: HelloStep)
        ensures
            r == self@.hello(addr, nonce, proof_holds),
    {
        if !self.has_psk {
            return HelloStep::Refuse(HelloRefusal::NoKey);
        }
        if !proof_holds {
            return HelloStep::Refuse(HelloRefusal::BadProof);
        }
        match self.authenticated.get(&addr) {
            Some(entry) => {
                if entry.nonce == nonce {
                    return HelloStep::Repeat {
                        salt: entry.salt,
                        timestamp_ms: entry.timestamp_ms,
                    };
                }
                if self.peer(addr).is_some() {
                    return HelloStep::Refuse(HelloRefusal::ConnectionOpen);
                }
            },
            None => {
                if self.authenticated.len() >= MAX_AUTHENTICATED {
                    return HelloStep::Refuse(HelloRefusal::TooMany);
                }
            },
        }
        HelloStep::Install
    }

    /// Remembers a handshake for which encryption was set up.
    pub fn authenticate(&mut self, addr: PeerAddr, nonce: u128, salt: u128, timestamp_ms: u64)
        ensures
            final(self)@ == (Service {
                authenticated: old(self)@.authenticated.insert(
                    addr,
                    AuthEntry { nonce, salt, timestamp_ms },
                ),
                ..old(self)@
            }),
    {
        self.authenticated.insert(addr, AuthEntry { nonce, salt, timestamp_ms });
    }

    /// Takes a new key over. The addresses whose encryption is to be dropped are handed out.
    pub fn rekey(&mut self, has_psk: bool, require_auth: bool) -> (r: Vec<PeerAddr>)
        ensures
            final(self)@ == old(self)@.rekeyed(has_psk, require_auth),
            r@.to_set() == old(self)@.authenticated.dom(),
    {
        let addrs = self.authenticated.keys();
        self.peers = Table::new();
        self.authenticated = Table::new();
        self.has_psk = has_psk;
        self.require_auth = require_auth;
        proof {
            assert(self@.peers =~= Map::<PeerAddr, Conn>::empty());
        }
        addrs
    }

    fn is_expired(&self, addr: PeerAddr, now_ms: u64) -> (r: bool)
        ensures
            r == self@.expired(addr, now_ms),
    {
        match self.peer(addr) {
            Some(c) => now_ms.saturating_sub(c.last_seen_ms()) > CONNECTION_TIMEOUT_MS,
            None => false,
        }
    }

    /// Looks at the clock. The addresses whose encryption is to be dropped are handed out: those of
    /// connections that are dropped, and those whose authentication is.
    pub fn sweep(&mut self, now_ms: u64, unix_ms: u64) -> (r: Vec<PeerAddr>)
        ensures
            final(self)@ == old(self)@.swept(now_ms, unix_ms),
            forall|a: PeerAddr|
                #[trigger] r@.contains(a) <==> old(self)@.expired(a, now_ms) || (old(
                    self,
                )@.authenticated.dom().contains(a) && !final(self)@.authenticated.dom().contains(
                    a,
                )),
    {
        let ghost before = self@;
        let ghost goal = before.swept(now_ms, unix_ms);
        let addrs = self.peer_addrs();
        let mut dropped: Vec<PeerAddr> = Vec::new();
        let mut i: usize = 0;
        while i < addrs.len()
            invariant
                i <= addrs@.len(),
                addrs@.no_duplicates(),
                addrs@.to_set() == before.peers.dom(),
                self@ == (Service {
                    peers: self@.peers,
                    authenticated: self@.authenticated,
                    ..before
                }),
                forall|a: PeerAddr|
                    #[trigger] self@.peers.dom().contains(a) <==> before.peers.dom().contains(a)
                        && !dropped@.contains(a),
                forall|a: PeerAddr|
                    #[trigger] self@.peers.dom().contains(a) ==> self@.peers[a] == before.peers[a],
                forall|a: PeerAddr|
                    #[trigger] self@.authenticated.dom().contains(a)
                        <==> before.authenticated.dom().contains(a) && !dropped@.contains(a),
                forall|a: PeerAddr|
                    #[trigger] self@.authenticated.dom().contains(a) ==> self@.authenticated[a]
                        == before.authenticated[a],
                forall|a: PeerAddr|
                    #[trigger] dropped@.contains(a) ==> before.expired(a, now_ms),
                forall|j: int|
                    0 <= j < i && before.expired(addrs@[j], now_ms) ==> dropped@.contains(
                        #[trigger] addrs@[j],
                    ),
                forall|j: int|
                    i <= j < addrs@.len() ==> !dropped@.contains(#[trigger] addrs@[j]),
            decreases addrs.len() - i,
        {
            let addr = addrs[i];
            proof {
                assert(addrs@.to_set().contains(addr));
                assert(self@.peers.dom().contains(addr));
            }
            if self.is_expired(addr, now_ms) {
                let ghost then = dropped@;
                let _ = self.take(addr);
                let _ = self.authenticated.remove(&addr);
                dropped.push(addr);
                proof {
                    assert forall|a: PeerAddr| #[trigger] dropped@.contains(a) == (then.contains(a)
                        || a == addr) by {
                        if then.contains(a) {
                            let k = then.index_of(a);
                            assert(dropped@[k] == a);
                        }
                        if a == addr {
                            assert(dropped@[then.len() as int] == a);
                        }
                        if dropped@.contains(a) && a != addr {
                            let k = dropped@.index_of(a);
                            assert(then[k] == a);
                        }
                    }
                }
            }
            i += 1;
        }
        proof {
            assert forall|a: PeerAddr| before.expired(a, now_ms) == #[trigger] dropped@.contains(
                a,
            ) by {
                if before.expired(a, now_ms) {
                    assert(addrs@.to_set().contains(a));
                    let j = addrs@.index_of(a);
                    assert(addrs@[j] == a);
                }
            }
            assert(self@.peers.dom() =~= goal.peers.dom());
            assert(self@.peers =~= goal.peers);
        }
        let ghost silent = dropped@;
        let ghost middle = self@;
        let known = self.authenticated.keys();
        let mut k: usize = 0;
        while k < known.len()
            invariant
                k <= known@.len(),
                known@.no_duplicates(),
                known@.to_set() == middle.authenticated.dom(),
                goal == before.swept(now_ms, unix_ms),
                self@ == (Service { authenticated: self@.authenticated, ..middle }),
                middle == (Service { peers: goal.peers, authenticated: middle.authenticated, ..before }),
                forall|a: PeerAddr|
                    #[trigger] middle.authenticated.dom().contains(a)
                        <==> before.authenticated.dom().contains(a) && !before.expired(a, now_ms),
                forall|a: PeerAddr|
                    #[trigger] middle.authenticated.dom().contains(a) ==> middle.authenticated[a]
                        == before.authenticated[a],
                forall|a: PeerAddr|
                    #[trigger] self@.authenticated.dom().contains(a)
                        ==> middle.authenticated.dom().contains(a) && self@.authenticated[a]
                        == before.authenticated[a],
                forall|a: PeerAddr|
                    #[trigger] dropped@.contains(a) <==> before.expired(a, now_ms) || (
                    middle.authenticated.dom().contains(a)
                        && !self@.authenticated.dom().contains(a)),
                forall|j: int|
                    0 <= j < k ==> self@.authenticated.dom().contains(#[trigger] known@[j])
                        == goal.authenticated.dom().contains(known@[j]),
                forall|j: int|
                    k <= j < known@.len() ==> self@.authenticated.dom().contains(
                        #[trigger] known@[j],
                    ),
            decreases known.len() - k,
        {
            let addr = known[k];
            proof {
                assert(known@.to_set().contains(addr));
                assert(middle.authenticated.dom().contains(addr));
                assert(self@.authenticated.dom().contains(known@[k as int]));
            }
            let keep = if self.peer(addr).is_some() {
                true
            } else {
                match self.authenticated.get(&addr) {
                    Some(entry) => unix_ms.saturating_sub(entry.timestamp_ms)
                        < AUTHENTICATION_TIMEOUT_MS,
                    None => false,
                }
            };
            proof {
                assert(keep == goal.authenticated.dom().contains(addr));
            }
            if !keep {
                let ghost then = dropped@;
                let _ = self.authenticated.remove(&addr);
                dropped.push(addr);
                proof {
                    assert forall|a: PeerAddr| #[trigger] dropped@.contains(a) == (then.contains(a)
                        || a == addr) by {
                        if then.contains(a) {
                            let m = then.index_of(a);
                            assert(dropped@[m] == a);
                        }
                        if a == addr {
                            assert(dropped@[then.len() as int] == a);
                        }
                        if dropped@.contains(a) && a != addr {
                            let m = dropped@.index_of(a);
                            assert(then[m] == a);
                        }
                    }
                }
            }
            k += 1;
        }
        proof {
            assert forall|a: PeerAddr| #[trigger] self@.authenticated.dom().contains(a)
                == goal.authenticated.dom().contains(a) by {
                if middle.authenticated.dom().contains(a) {
                    assert(known@.to_set().contains(a));
                    let j = known@.index_of(a);
                    assert(known@[j] == a);
                }
            }
            assert(self@.authenticated.dom() =~= goal.authenticated.dom());
            assert(self@.authenticated =~= goal.authenticated);
        }
        dropped
    }

    /// Drops the subscriptions of a viewer whose streams have ended.
    pub fn finish_streams(&mut self, addr: PeerAddr, ids: &Vec<u32>)
        ensures
            final(self)@ == old(self)@.finished(addr, ids@.to_set()),
    {
        match self.take(addr) {
            Some(c) => {
                let mut c = c;
                c.drop_finished(ids);
                self.put(addr, c);
                proof {
                    assert(self@.peers =~= old(self)@.finished(addr, ids@.to_set()).peers);
                }
            },
            None => {},
        }
    }

    /// Takes the input from a viewer that may not hold it any more. The flag tells whether it was
    /// taken: everything is to be let go then.
    pub fn settle_input(&mut self) -> (r: bool)
        ensures
            final(self)@ == old(self)@.settled().0,
            r == (old(self)@.settled().1.len() > 0),
    {
        let mut actions: Vec<HostAction> = Vec::new();
        self.settle(&mut actions);
        actions.len() > 0
    }
}

/// The sources that are told: the first of them, if there are too many.
pub fn told_sources(sources: Vec<CaptureSourceInfo>) -> (r: Vec<CaptureSourceInfo>)
    ensures
        r@ == (if sources@.len() > MAX_LISTED_SOURCES {
            sources@.take(MAX_LISTED_SOURCES as int)
        } else {
            sources@
        }),
{
    let mut sources = sources;
    if sources.len() > MAX_LISTED_SOURCES {
        sources.truncate(MAX_LISTED_SOURCES);
        proof {
            assert(sources@ =~= sources@.take(MAX_LISTED_SOURCES as int));
        }
    }
    sources
}

impl HostReply {
    /// `message` is this answer. `detail` are the words of those who looked at settings or sources,
    /// and `sources` the list that was at hand.
    pub open spec fn is_message(
        self,
        detail: Seq<char>,
        sources: Seq<CaptureSourceInfo>,
        message: ControlMessage,
    ) -> bool {
        match self {
            HostReply::AuthenticateFirst => message is SessionReject
                && message->SessionReject_reason@ == "authenticate before opening a connection"@,
            HostReply::Pong { client_send_ts, host_ts } => message == (ControlMessage::Pong {
                client_send_ts,
                host_recv_ts: host_ts,
                host_send_ts: host_ts,
            }),
            HostReply::MediaPauseState { session_id, revision, paused } => message == (
            ControlMessage::MediaPauseState { session_id, revision, paused }),
            _ => message is Session && self.is_command(detail, sources, message->Session_0),
        }
    }

    /// `command` is this answer in the session layer.
    pub open spec fn is_command(
        self,
        detail: Seq<char>,
        sources: Seq<CaptureSourceInfo>,
        command: SessionCommand,
    ) -> bool {
        match self {
            HostReply::InputReleased { id } => command == (SessionCommand::InputReleased { id }),
            HostReply::Configured { id, revision } => command == (SessionCommand::Configured {
                id,
                revision,
            }),
            HostReply::ClipboardState { enabled } => command == (SessionCommand::ClipboardState {
                enabled,
            }),
            HostReply::Opened { connection_id, files, clipboard, window_capture } => command == (
            SessionCommand::Opened {
                connection_id,
                version: SESSION_VERSION,
                max_subscriptions: MAX_SUBSCRIPTIONS as u32,
                files,
                clipboard,
                window_capture,
            }),
            HostReply::Sources { request_id } => {
                &&& command is Sources
                &&& command->Sources_request_id == request_id
                &&& command->Sources_sources@ == (if sources.len() > MAX_LISTED_SOURCES {
                    sources.take(MAX_LISTED_SOURCES as int)
                } else {
                    sources
                })
            },
            HostReply::Subscribed(answer) => command == (SessionCommand::Subscribed {
                id: answer.id,
                audio_owner: answer.audio_owner,
                supports_input: answer.supports_input,
            }),
            HostReply::Activity(a) => command == (SessionCommand::Activity {
                id: a.id,
                revision: a.revision,
                video: a.video,
                audio: a.audio,
            }),
            HostReply::Unsubscribed { id } => command == (SessionCommand::Unsubscribed { id }),
            HostReply::Refused { request_id, refusal } => {
                &&& command is Error
                &&& command->Error_request_id == request_id
                &&& command->Error_reason@ == refusal.text(detail)
            },
            _ => false,
        }
    }

    /// The answer as it is sent.
    pub fn to_message(self, detail: &str, sources: Vec<CaptureSourceInfo>) -> (r: ControlMessage)
        ensures
            self.is_message(detail@, sources@, r),
    {
        let command = match self {
            HostReply::AuthenticateFirst => {
                return ControlMessage::SessionReject {
                    reason: "authenticate before opening a connection".to_owned(),
                };
            },
            HostReply::Pong { client_send_ts, host_ts } => {
                return ControlMessage::Pong {
                    client_send_ts,
                    host_recv_ts: host_ts,
                    host_send_ts: host_ts,
                };
            },
            HostReply::MediaPauseState { session_id, revision, paused } => {
                return ControlMessage::MediaPauseState { session_id, revision, paused };
            },
            HostReply::InputReleased { id } => SessionCommand::InputReleased { id },
            HostReply::Configured { id, revision } => SessionCommand::Configured { id, revision },
            HostReply::ClipboardState { enabled } => SessionCommand::ClipboardState { enabled },
            HostReply::Opened { connection_id, files, clipboard, window_capture } =>
                SessionCommand::Opened {
                    connection_id,
                    version: SESSION_VERSION,
                    max_subscriptions: MAX_SUBSCRIPTIONS as u32,
                    files,
                    clipboard,
                    window_capture,
                },
            HostReply::Sources { request_id } => SessionCommand::Sources {
                request_id,
                sources: told_sources(sources),
            },
            HostReply::Subscribed(answer) => SessionCommand::Subscribed {
                id: answer.id,
                audio_owner: answer.audio_owner,
                supports_input: answer.supports_input,
            },
            HostReply::Activity(a) => SessionCommand::Activity {
                id: a.id,
                revision: a.revision,
                video: a.video,
                audio: a.audio,
            },
            HostReply::Unsubscribed { id } => SessionCommand::Unsubscribed { id },
            HostReply::Refused { request_id, refusal } => SessionCommand::Error {
                request_id,
                reason: refusal.message(detail),
            },
        };
        ControlMessage::Session(command)
    }
}

/// Where authentication is required, a viewer without it changes nothing, and is told so.
pub proof fn strangers_change_nothing(
    service: Service,
    addr: PeerAddr,
    message: ControlMessage,
    now_ms: u64,
    unix_ms: u64,
    valid: bool,
    sources: Option<Seq<SourceChoice>>,
)
    requires
        service.require_auth,
        !service.authenticated.dom().contains(addr),
    ensures
        service.controlled(addr, message, now_ms, unix_ms, valid, sources) == (
            service,
            seq![HostAction::Reply(HostReply::AuthenticateFirst)],
        ),
{
}

/// The connections are few enough.
pub open spec fn bounded(service: Service) -> bool {
    service.peers.dom().finite() && service.peers.dom().len() <= MAX_CONNECTIONS
}

proof fn lemma_with_peer_bounded(service: Service, addr: PeerAddr, conn: Conn)
    requires
        bounded(service),
        service.has_room(addr),
    ensures
        bounded(service.with_peer(addr, conn)),
{
    let before = service.peers.dom();
    assert(service.with_peer(addr, conn).peers.dom() =~= before.insert(addr));
}

proof fn lemma_without_peer_bounded(service: Service, addr: PeerAddr)
    requires
        bounded(service),
    ensures
        bounded(service.without_peer(addr)),
{
    assert(service.without_peer(addr).peers.dom() =~= service.peers.dom().remove(addr));
}

/// No message opens more connections than the host serves.
pub proof fn connections_stay_bounded(
    service: Service,
    addr: PeerAddr,
    message: ControlMessage,
    now_ms: u64,
    unix_ms: u64,
    valid: bool,
    sources: Option<Seq<SourceChoice>>,
)
    requires
        bounded(service),
    ensures
        bounded(service.controlled(addr, message, now_ms, unix_ms, valid, sources).0),
{
    let seen = service.seen(addr, now_ms);
    if service.peers.dom().contains(addr) {
        lemma_with_peer_bounded(
            service,
            addr,
            Conn { last_seen_ms: now_ms, ..service.peers[addr] },
        );
    }
    let after = seen.messaged(addr, message, now_ms, unix_ms, valid, sources).0;
    assert(bounded(after)) by {
        if seen.has_room(addr) {
            assert forall|conn: Conn| bounded(#[trigger] seen.with_peer(addr, conn)) by {
                lemma_with_peer_bounded(seen, addr, conn);
            }
        }
        lemma_without_peer_bounded(seen, addr);
        assert forall|on: bool| bounded(#[trigger] seen.with_clipboard(addr, on)) by {
            assert(seen.with_clipboard(addr, on).peers.dom() =~= seen.peers.dom());
        }
    }
}

/// Whoever holds the input may hold it.
pub open spec fn input_is_held_rightly(service: Service) -> bool {
    match service.input_owner {
        Some((addr, id)) => service.can_input(addr, id),
        None => true,
    }
}

/// Input is held only by a viewer that may: every message leaves it so, and so does every look at
/// who holds it.
pub proof fn input_stays_held_rightly(
    service: Service,
    addr: PeerAddr,
    message: ControlMessage,
    now_ms: u64,
    unix_ms: u64,
    valid: bool,
    sources: Option<Seq<SourceChoice>>,
)
    requires
        input_is_held_rightly(service),
    ensures
        input_is_held_rightly(
            service.controlled(addr, message, now_ms, unix_ms, valid, sources).0,
        ),
        input_is_held_rightly(service.settled().0),
{
    let seen = service.seen(addr, now_ms);
    assert(input_is_held_rightly(seen));
    let (after, actions, settle) = seen.messaged(addr, message, now_ms, unix_ms, valid, sources);
    if settle {
        assert(input_is_held_rightly(after.settled().0));
    } else {
        assert(after == seen);
    }
}

/// Input goes to the machine only for a subscription that is shown and takes input.
pub proof fn injected_input_is_allowed(
    service: Service,
    addr: PeerAddr,
    message: ControlMessage,
    now_ms: u64,
    unix_ms: u64,
    valid: bool,
    sources: Option<Seq<SourceChoice>>,
    event: InputEvent,
)
    requires
        service.controlled(addr, message, now_ms, unix_ms, valid, sources).1.contains(
            HostAction::InjectInput(event),
        ),
    ensures
        exists|id: u32| #[trigger] service.can_input(addr, id),
{
    let actions = service.controlled(addr, message, now_ms, unix_ms, valid, sources).1;
    let i = actions.index_of(HostAction::InjectInput(event));
    assert(actions[i] == HostAction::InjectInput(event));
    let seen = service.seen(addr, now_ms);
    assert forall|id: u32| seen.can_input(addr, id) implies #[trigger] service.can_input(
        addr,
        id,
    ) by {}
    let (after, done, settle) = seen.messaged(addr, message, now_ms, unix_ms, valid, sources);
    let calm = after.settled().1;
    if settle && i >= done.len() {
        assert(actions[i] == calm[i - done.len()]);
    } else {
        assert(done[i] == HostAction::InjectInput(event));
    }
    match message {
        ControlMessage::Input(_) => {
            assert(seen.can_input(addr, seen.peers[addr].subs.dom().choose()));
            assert(service.can_input(addr, seen.peers[addr].subs.dom().choose()));
        },
        ControlMessage::Session(command) => match command {
            SessionCommand::Input { id, .. } => {
                assert(service.can_input(addr, id));
            },
            _ => {},
        },
        _ => {},
    }
}

/// When one viewer is given the clipboard, no other keeps it.
pub proof fn clipboard_goes_to_one(service: Service, addr: PeerAddr, other: PeerAddr)
    requires
        service.peers.dom().contains(addr),
        service.peers.dom().contains(other),
        other != addr,
    ensures
        service.with_clipboard(addr, true).peers[addr].clipboard,
        !service.with_clipboard(addr, true).peers[other].clipboard,
{
}

/// A look at the clock drops exactly the connections that were silent for too long, and leaves no
/// connection without the authentication it had.
pub proof fn sweep_drops_the_silent(service: Service, now_ms: u64, unix_ms: u64, addr: PeerAddr)
    ensures
        service.swept(now_ms, unix_ms).peers.dom().contains(addr) == (
        service.peers.dom().contains(addr) && !service.expired(addr, now_ms)),
        service.swept(now_ms, unix_ms).peers.dom().contains(addr)
            && service.authenticated.dom().contains(addr) ==> service.swept(
            now_ms,
            unix_ms,
        ).authenticated.dom().contains(addr),
{
}

} // verus!
