//! One viewer's connection to the host: what it is subscribed to, and whose audio is captured for
//! it.
use crate::host::talkback_player::TalkbackPlaybackSettings;
use crate::protocol::session::{
    CaptureSource, CaptureSourceInfo, SubscriptionRequest, MAX_SUBSCRIPTIONS,
};
use crate::table::{lemma_to_map, to_map, Key, Table};
use vstd::prelude::*;

verus! {

/// Identifiers of subscriptions that a connection may use up.
pub const MAX_RETIRED: usize = 4096;

/// The longest side that is captured.
pub const MAX_CAPTURE_SIDE: u32 = 8192;

/// The most pixels that are captured.
pub const MAX_CAPTURE_PIXELS: u64 = 33_554_432;

/// Identifiers of subscriptions are smaller than this.
pub const SUBSCRIPTION_ID_LIMIT: u32 = 0x1000_0000;

/// How a stream is captured and encoded.
#[derive(Debug, Clone, Copy, PartialEq, Eq, Structural)]
pub struct StreamSettings {
    pub width: u32,
    pub height: u32,
    pub fps: u32,
    pub bitrate_kbps: u32,
    pub paused: bool,
}

/// The settings that a request asks for.
pub open spec fn requested(request: SubscriptionRequest) -> StreamSettings {
    StreamSettings {
        width: request.width,
        height: request.height,
        fps: request.fps,
        bitrate_kbps: request.bitrate_kbps,
        paused: false,
    }
}

/// The settings that a request asks for.
pub fn stream_settings(request: &SubscriptionRequest) -> (r: StreamSettings)
    ensures
        r == requested(*request),
{
    StreamSettings {
        width: request.width,
        height: request.height,
        fps: request.fps,
        bitrate_kbps: request.bitrate_kbps,
        paused: false,
    }
}

/// Whose audio is captured: everything, or one application.
#[derive(Debug, Clone, Copy, PartialEq, Eq, Hash, Structural)]
pub enum AudioGroupKey {
    System,
    Application(i32),
}

impl Key for AudioGroupKey {
    fn same(&self, other: &Self) -> (r: bool) {
        *self == *other
    }
}

#[derive(Debug, Clone, Copy, PartialEq, Eq, Structural)]
pub struct Subscription {
    pub settings_revision: u64,
    pub request: SubscriptionRequest,
    pub settings: StreamSettings,
    pub revision: u64,
    /// The next frame is to be one that decoding can start at.
    pub keyframe: bool,
    pub audio_group: Option<AudioGroupKey>,
    pub audio_active: bool,
    pub supports_input: bool,
}

/// Audio that is captured once for all subscriptions that want it.
#[derive(Debug, Clone, Copy, PartialEq, Eq, Structural)]
pub struct AudioGroup {
    /// The subscription under whose identifier the audio is sent.
    pub owner: u32,
    pub source: CaptureSource,
    pub include_audio: bool,
    pub include_microphone: bool,
    pub paused: bool,
}

/// What matters here of something that can be captured.
#[derive(Debug, Clone, Copy, PartialEq, Eq, Structural)]
pub struct SourceChoice {
    pub source: CaptureSource,
    pub process_id: Option<i32>,
    pub supports_input: bool,
}

/// What matters here of a list of sources.
pub fn source_choices(infos: &Vec<CaptureSourceInfo>) -> (r: Vec<SourceChoice>)
    ensures
        r@.len() == infos@.len(),
        forall|i: int|
            0 <= i < r@.len() ==> #[trigger] r@[i] == (SourceChoice {
                source: infos@[i].source,
                process_id: infos@[i].process_id,
                supports_input: infos@[i].supports_input,
            }),
{
    let mut out: Vec<SourceChoice> = Vec::new();
    let mut i: usize = 0;
    while i < infos.len()
        invariant
            i <= infos@.len(),
            out@.len() == i,
            forall|j: int|
                0 <= j < i ==> #[trigger] out@[j] == (SourceChoice {
                    source: infos@[j].source,
                    process_id: infos@[j].process_id,
                    supports_input: infos@[j].supports_input,
                }),
        decreases infos.len() - i,
    {
        out.push(
            SourceChoice {
                source: infos[i].source,
                process_id: infos[i].process_id,
                supports_input: infos[i].supports_input,
            },
        );
        i += 1;
    }
    out
}

/// The first entry for `source`.
pub open spec fn find_choice(choices: Seq<SourceChoice>, source: CaptureSource) -> Option<
    SourceChoice,
>
    decreases choices.len(),
{
    if choices.len() == 0 {
        None
    } else if choices[0].source == source {
        Some(choices[0])
    } else {
        find_choice(choices.drop_first(), source)
    }
}

fn find(choices: &Vec<SourceChoice>, source: CaptureSource) -> (r: Option<SourceChoice>)
    ensures
        r == find_choice(choices@, source),
{
    let mut i: usize = 0;
    proof {
        assert(choices@.skip(0) =~= choices@);
    }
    while i < choices.len()
        invariant
            i <= choices@.len(),
            find_choice(choices@, source) == find_choice(choices@.skip(i as int), source),
        decreases choices.len() - i,
    {
        proof {
            assert(choices@.skip(i as int)[0] == choices@[i as int]);
            assert(choices@.skip(i as int).drop_first() =~= choices@.skip(i + 1));
        }
        if choices[i].source == source {
            return Some(choices[i]);
        }
        i += 1;
    }
    None
}

/// Why the host does not do what it was asked for.
#[derive(Debug, Clone, Copy, PartialEq, Eq, Structural)]
pub enum Refusal {
    /// The settings are out of the question; why is for those to say who looked at them.
    InvalidSettings,
    Retired,
    TooLarge,
    IdOutOfRange,
    IdTaken,
    TooManySubscriptions,
    /// The sources could not be listed; why is for those to say who tried.
    SourcesUnknown,
    SourceGone,
    UnsupportedSettings,
    NoSubscription,
    UnsupportedVersion,
    ConnectionOpen,
    TooManyConnections,
    NotOpen,
}

impl Refusal {
    /// The refusal in words; `detail` are the words of those who looked at settings or sources.
    pub open spec fn text(self, detail: Seq<char>) -> Seq<char> {
        match self {
            Refusal::InvalidSettings | Refusal::SourcesUnknown => detail,
            Refusal::Retired => "subscription was closed; use a new ID"@,
            Refusal::TooLarge => "requested size exceeds this host's capture budget"@,
            Refusal::IdOutOfRange => "subscription ID outside supported range"@,
            Refusal::IdTaken => "subscription ID already has a different source/settings"@,
            Refusal::TooManySubscriptions => "subscription limit reached"@,
            Refusal::SourceGone => "selected capture source is unavailable"@,
            Refusal::UnsupportedSettings => "unsupported capture settings"@,
            Refusal::NoSubscription => "subscription is unavailable"@,
            Refusal::UnsupportedVersion => "unsupported connection version or ID"@,
            Refusal::ConnectionOpen => "close the existing connection first"@,
            Refusal::TooManyConnections => "connection limit reached"@,
            Refusal::NotOpen => "open a connection first"@,
        }
    }

    /// The refusal in words.
    pub fn message(&self, detail: &str) -> (r: String)
        ensures
            r@ == self.text(detail@),
    {
        let text = match self {
            Refusal::InvalidSettings | Refusal::SourcesUnknown => detail,
            Refusal::Retired => "subscription was closed; use a new ID",
            Refusal::TooLarge => "requested size exceeds this host's capture budget",
            Refusal::IdOutOfRange => "subscription ID outside supported range",
            Refusal::IdTaken => "subscription ID already has a different source/settings",
            Refusal::TooManySubscriptions => "subscription limit reached",
            Refusal::SourceGone => "selected capture source is unavailable",
            Refusal::UnsupportedSettings => "unsupported capture settings",
            Refusal::NoSubscription => "subscription is unavailable",
            Refusal::UnsupportedVersion => "unsupported connection version or ID",
            Refusal::ConnectionOpen => "close the existing connection first",
            Refusal::TooManyConnections => "connection limit reached",
            Refusal::NotOpen => "open a connection first",
        };
        text.to_owned()
    }
}

/// The size is more than the host captures.
pub open spec fn too_large(width: u32, height: u32) -> bool {
    width > MAX_CAPTURE_SIDE || height > MAX_CAPTURE_SIDE || width * height > MAX_CAPTURE_PIXELS
}

pub fn is_too_large(width: u32, height: u32) -> (r: bool)
    ensures
        r == too_large(width, height),
{
    if width > MAX_CAPTURE_SIDE || height > MAX_CAPTURE_SIDE {
        return true;
    }
    assert(width * height <= 8192 * 8192) by (nonlinear_arith)
        requires
            width <= 8192,
            height <= 8192,
    ;
    width as u64 * height as u64 > MAX_CAPTURE_PIXELS
}

/// What a subscription is answered with.
#[derive(Debug, Clone, Copy, PartialEq, Eq, Structural)]
pub struct Subscribed {
    pub id: u32,
    pub audio_owner: Option<u32>,
    pub supports_input: bool,
}

/// What a change of activity is answered with.
#[derive(Debug, Clone, Copy, PartialEq, Eq, Structural)]
pub struct Activity {
    pub id: u32,
    pub revision: u64,
    pub video: bool,
    pub audio: bool,
}

/// Some subscription wants this audio.
pub open spec fn has_member(subs: Map<u32, Subscription>, key: AudioGroupKey) -> bool {
    exists|id: u32| #[trigger] subs.dom().contains(id) && subs[id].audio_group == Some(key)
}

/// Some subscription wants this audio now.
pub open spec fn has_listener(subs: Map<u32, Subscription>, key: AudioGroupKey) -> bool {
    exists|id: u32|
        #[trigger] subs.dom().contains(id) && subs[id].audio_group == Some(key)
            && subs[id].audio_active
}

/// A connection.
pub ghost struct Conn {
    pub id: u32,
    pub last_seen_ms: u64,
    pub clipboard: bool,
    pub files: bool,
    pub talkback: Option<TalkbackPlaybackSettings>,
    pub subs: Map<u32, Subscription>,
    pub retired: Set<u32>,
    pub groups: Map<AudioGroupKey, AudioGroup>,
}

impl Conn {
    /// A connection that was just opened.
    pub open spec fn fresh(id: u32, now_ms: u64, files: bool, talkback: bool) -> Self {
        Conn {
            id,
            last_seen_ms: now_ms,
            clipboard: false,
            files,
            talkback: if talkback {
                Some(TalkbackPlaybackSettings { muted: false, volume_percent: 100 })
            } else {
                None
            },
            subs: Map::empty(),
            retired: Set::empty(),
            groups: Map::empty(),
        }
    }

    /// Audio that nobody wants any more is dropped; what nobody wants now is paused.
    pub open spec fn refreshed(self) -> Self {
        Conn {
            groups: Map::new(
                |k: AudioGroupKey| self.groups.dom().contains(k) && has_member(self.subs, k),
                |k: AudioGroupKey|
                    AudioGroup { paused: !has_listener(self.subs, k), ..self.groups[k] },
            ),
            ..self
        }
    }

    pub open spec fn without_subs(self) -> Self {
        Conn { subs: Map::empty(), ..self }
    }

    pub open spec fn can_input(self, id: u32) -> bool {
        self.subs.dom().contains(id) && self.subs[id].supports_input
            && !self.subs[id].settings.paused
    }

    pub open spec fn owner_of(self, key: Option<AudioGroupKey>) -> Option<u32> {
        match key {
            Some(k) => if self.groups.dom().contains(k) {
                Some(self.groups[k].owner)
            } else {
                None
            },
            None => None,
        }
    }

    /// Why a request is refused, if it is. `valid` tells whether its settings make sense, and
    /// `sources` what can be captured, if that is known.
    pub open spec fn subscribe_refusal(
        self,
        request: SubscriptionRequest,
        valid: bool,
        sources: Option<Seq<SourceChoice>>,
    ) -> Option<Refusal> {
        if !valid {
            Some(Refusal::InvalidSettings)
        } else if self.retired.contains(request.id) || self.retired.len() >= MAX_RETIRED {
            Some(Refusal::Retired)
        } else if too_large(request.width, request.height) {
            Some(Refusal::TooLarge)
        } else if request.id == 0 || request.id >= SUBSCRIPTION_ID_LIMIT {
            Some(Refusal::IdOutOfRange)
        } else if self.subs.dom().contains(request.id) {
            if self.subs[request.id].request.source != request.source
                || self.subs[request.id].request.audio != request.audio {
                Some(Refusal::IdTaken)
            } else {
                None
            }
        } else if self.subs.dom().len() >= MAX_SUBSCRIPTIONS {
            Some(Refusal::TooManySubscriptions)
        } else if request.source is MainDisplay {
            None
        } else if sources is None {
            Some(Refusal::SourcesUnknown)
        } else if find_choice(sources->0, request.source) is None {
            Some(Refusal::SourceGone)
        } else {
            None
        }
    }

    /// The audio that a new subscription wants: that of its application, or else everything.
    pub open spec fn audio_key(
        request: SubscriptionRequest,
        choice: Option<SourceChoice>,
        legacy: bool,
    ) -> Option<AudioGroupKey> {
        if request.audio || legacy {
            Some(
                match choice {
                    Some(c) => match c.process_id {
                        Some(pid) => AudioGroupKey::Application(pid),
                        None => AudioGroupKey::System,
                    },
                    None => AudioGroupKey::System,
                },
            )
        } else {
            None
        }
    }

    /// The source that a request selects among `sources`; the main display needs no list.
    pub open spec fn choice_for(
        request: SubscriptionRequest,
        sources: Option<Seq<SourceChoice>>,
    ) -> Option<SourceChoice> {
        if request.source is MainDisplay || sources is None {
            None
        } else {
            find_choice(sources->0, request.source)
        }
    }

    /// The connection after a new subscription, which nothing refused.
    pub open spec fn with_sub(
        self,
        request: SubscriptionRequest,
        choice: Option<SourceChoice>,
        legacy: bool,
    ) -> Self {
        let key = Self::audio_key(request, choice, legacy);
        let subscription = Subscription {
            settings_revision: 0,
            request,
            settings: requested(request),
            revision: 0,
            keyframe: true,
            audio_group: key,
            audio_active: true,
            supports_input: match choice {
                Some(c) => c.supports_input,
                None => true,
            },
        };
        let groups = match key {
            Some(k) => if self.groups.dom().contains(k) {
                self.groups
            } else {
                self.groups.insert(
                    k,
                    AudioGroup {
                        owner: request.id,
                        source: request.source,
                        include_audio: request.audio,
                        include_microphone: legacy,
                        paused: false,
                    },
                )
            },
            None => self.groups,
        };
        Conn { subs: self.subs.insert(request.id, subscription), groups, ..self }.refreshed()
    }

    /// The connection after a request, and the answer if it is not refused.
    pub open spec fn subscribed(
        self,
        request: SubscriptionRequest,
        sources: Option<Seq<SourceChoice>>,
        legacy: bool,
    ) -> Self {
        if self.subs.dom().contains(request.id) {
            self
        } else {
            self.with_sub(request, Self::choice_for(request, sources), legacy)
        }
    }

    /// What a subscription that is there is answered with.
    pub open spec fn answer(self, id: u32) -> Subscribed {
        Subscribed {
            id,
            audio_owner: self.owner_of(self.subs[id].audio_group),
            supports_input: self.subs[id].supports_input,
        }
    }

    /// A subscription after a change of activity; one that is no newer than the last changes
    /// nothing.
    pub open spec fn active_sub(
        self,
        id: u32,
        revision: u64,
        video: bool,
        audio: bool,
    ) -> Subscription {
        let s = self.subs[id];
        if revision > s.revision {
            Subscription {
                revision,
                audio_active: audio,
                settings: StreamSettings { paused: !video, ..s.settings },
                keyframe: s.keyframe || video,
                ..s
            }
        } else {
            s
        }
    }

    pub open spec fn with_activity(self, id: u32, revision: u64, video: bool, audio: bool) -> Self {
        if self.subs.dom().contains(id) {
            Conn {
                subs: self.subs.insert(id, self.active_sub(id, revision, video, audio)),
                ..self
            }.refreshed()
        } else {
            self
        }
    }

    pub open spec fn unsubscribed(self, id: u32) -> Self {
        Conn { subs: self.subs.remove(id), retired: self.retired.insert(id), ..self }.refreshed()
    }
}

pub struct Connection {
    id: u32,
    last_seen_ms: u64,
    clipboard: bool,
    files: bool,
    talkback: Option<TalkbackPlaybackSettings>,
    subscriptions: Table<u32, Subscription>,
    retired: Table<u32, ()>,
    audio_groups: Table<AudioGroupKey, AudioGroup>,
}

impl View for Connection {
    type V = Conn;

    closed spec fn view(&self) -> Conn {
        Conn {
            id: self.id,
            last_seen_ms: self.last_seen_ms,
            clipboard: self.clipboard,
            files: self.files,
            talkback: self.talkback,
            subs: self.subscriptions@,
            retired: self.retired@.dom(),
            groups: self.audio_groups@,
        }
    }
}

impl Connection {
    pub fn new(id: u32, now_ms: u64, files: bool, talkback: bool) -> (r: Self)
        ensures
            r@ == Conn::fresh(id, now_ms, files, talkback),
    {
        let r = Connection {
            id,
            last_seen_ms: now_ms,
            clipboard: false,
            files,
            talkback: if talkback {
                Some(TalkbackPlaybackSettings::default())
            } else {
                None
            },
            subscriptions: Table::new(),
            retired: Table::new(),
            audio_groups: Table::new(),
        };
        proof {
            assert(r@.retired =~= Set::<u32>::empty());
        }
        r
    }

    pub fn id(&self) -> (r: u32)
        ensures
            r == self@.id,
    {
        self.id
    }

    pub fn has_files(&self) -> (r: bool)
        ensures
            r == self@.files,
    {
        self.files
    }

    pub fn has_clipboard(&self) -> (r: bool)
        ensures
            r == self@.clipboard,
    {
        self.clipboard
    }

    pub fn talkback(&self) -> (r: Option<TalkbackPlaybackSettings>)
        ensures
            r == self@.talkback,
    {
        self.talkback
    }

    pub fn last_seen_ms(&self) -> (r: u64)
        ensures
            r == self@.last_seen_ms,
    {
        self.last_seen_ms
    }

    pub fn seen(&mut self, now_ms: u64)
        ensures
            final(self)@ == (Conn { last_seen_ms: now_ms, ..old(self)@ }),
    {
        self.last_seen_ms = now_ms;
    }

    /// Turns the shared clipboard on or off.
    pub fn set_clipboard(&mut self, enabled: bool)
        ensures
            final(self)@ == (Conn { clipboard: enabled, ..old(self)@ }),
    {
        self.clipboard = enabled;
    }

    /// Takes over how loud talkback is to be played, where it is played at all.
    pub fn set_talkback(&mut self, muted: bool, volume_percent: u8)
        ensures
            final(self)@ == (Conn {
                talkback: match old(self)@.talkback {
                    Some(_) => Some(
                        TalkbackPlaybackSettings {
                            muted,
                            volume_percent: if volume_percent > 200 {
                                200
                            } else {
                                volume_percent
                            },
                        },
                    ),
                    None => None,
                },
                ..old(self)@
            }),
    {
        if self.talkback.is_some() {
            let volume_percent: u8 = if volume_percent > 200 {
                200
            } else {
                volume_percent
            };
            self.talkback = Some(TalkbackPlaybackSettings { muted, volume_percent });
        }
    }

    /// The subscription with this identifier.
    pub fn subscription(&self, id: u32) -> (r: Option<Subscription>)
        ensures
            r == (if self@.subs.dom().contains(id) {
                Some(self@.subs[id])
            } else {
                None
            }),
    {
        match self.subscriptions.get(&id) {
            Some(s) => Some(*s),
            None => None,
        }
    }

    /// The identifiers of the subscriptions.
    pub fn subscription_ids(&self) -> (r: Vec<u32>)
        ensures
            r@.no_duplicates(),
            r@.to_set() == self@.subs.dom(),
    {
        self.subscriptions.keys()
    }

    /// The audio that is captured.
    pub fn audio_group_keys(&self) -> (r: Vec<AudioGroupKey>)
        ensures
            r@.no_duplicates(),
            r@.to_set() == self@.groups.dom(),
    {
        self.audio_groups.keys()
    }

    pub fn audio_group(&self, key: AudioGroupKey) -> (r: Option<AudioGroup>)
        ensures
            r == (if self@.groups.dom().contains(key) {
                Some(self@.groups[key])
            } else {
                None
            }),
    {
        match self.audio_groups.get(&key) {
            Some(g) => Some(*g),
            None => None,
        }
    }

    /// Whether some subscription wants this audio, and whether one wants it now.
    fn interest(&self, key: AudioGroupKey) -> (r: (bool, bool))
        ensures
            r.0 == has_member(self@.subs, key),
            r.1 == has_listener(self@.subs, key),
    {
        let n: usize = self.subscriptions.len();
        let ghost entries = self.subscriptions.entries();
        let ghost subs = self@.subs;
        let mut member = false;
        let mut listener = false;
        let mut i: usize = 0;
        proof {
            lemma_to_map(entries);
        }
        while i < n
            invariant
                i <= n,
                n == entries.len(),
                entries == self.subscriptions.entries(),
                subs == self.subscriptions@,
                member == exists|j: int|
                    0 <= j < i && (#[trigger] entries[j]).1.audio_group == Some(key),
                listener == exists|j: int|
                    0 <= j < i && (#[trigger] entries[j]).1.audio_group == Some(key)
                        && entries[j].1.audio_active,
            decreases n - i,
        {
            let (_id, s) = self.subscriptions.nth(i);
            proof {
                assert(entries[i as int].1 == *s);
            }
            if s.audio_group == Some(key) {
                member = true;
                if s.audio_active {
                    listener = true;
                }
            }
            i += 1;
        }
        proof {
            if member {
                let j = choose|j: int|
                    0 <= j < n && (#[trigger] entries[j]).1.audio_group == Some(key);
                assert(subs.dom().contains(entries[j].0) && subs[entries[j].0] == entries[j].1);
            }
            if listener {
                let j = choose|j: int|
                    0 <= j < n && (#[trigger] entries[j]).1.audio_group == Some(key)
                        && entries[j].1.audio_active;
                assert(subs.dom().contains(entries[j].0) && subs[entries[j].0] == entries[j].1);
            }
            if has_member(subs, key) {
                let id = choose|id: u32| #[trigger]
                    subs.dom().contains(id) && subs[id].audio_group == Some(key);
                assert(to_map(entries).dom().contains(id));
                let j = choose|j: int| 0 <= j < entries.len() && (#[trigger] entries[j]).0 == id;
                assert(entries[j].1 == subs[id]);
            }
            if has_listener(subs, key) {
                let id = choose|id: u32| #[trigger]
                    subs.dom().contains(id) && subs[id].audio_group == Some(key)
                        && subs[id].audio_active;
                assert(to_map(entries).dom().contains(id));
                let j = choose|j: int| 0 <= j < entries.len() && (#[trigger] entries[j]).0 == id;
                assert(entries[j].1 == subs[id]);
            }
        }
        (member, listener)
    }

    /// Drops audio that nobody wants, and pauses what nobody wants now.
    pub fn refresh_audio(&mut self)
        ensures
            final(self)@ == old(self)@.refreshed(),
    {
        let keys = self.audio_groups.keys();
        let ghost before = self@;
        let mut i: usize = 0;
        while i < keys.len()
            invariant
                i <= keys@.len(),
                keys@.no_duplicates(),
                keys@.to_set() == before.groups.dom(),
                self@ == (Conn { groups: self@.groups, ..before }),
                forall|k: AudioGroupKey|
                    #[trigger] self@.groups.dom().contains(k) ==> before.groups.dom().contains(k),
                forall|j: int|
                    0 <= j < i ==> {
                        let k = #[trigger] keys@[j];
                        &&& self@.groups.dom().contains(k) == has_member(before.subs, k)
                        &&& self@.groups.dom().contains(k) ==> self@.groups[k] == (AudioGroup {
                            paused: !has_listener(before.subs, k),
                            ..before.groups[k]
                        })
                    },
                forall|j: int|
                    i <= j < keys@.len() ==> {
                        let k = #[trigger] keys@[j];
                        &&& self@.groups.dom().contains(k)
                        &&& self@.groups[k] == before.groups[k]
                    },
            decreases keys.len() - i,
        {
            let key = keys[i];
            let ghost groups = self@.groups;
            let (member, listener) = self.interest(key);
            if member {
                let group = self.audio_groups.get(&key);
                if let Some(group) = group {
                    let mut group = *group;
                    group.paused = !listener;
                    self.audio_groups.insert(key, group);
                }
            } else {
                let _ = self.audio_groups.remove(&key);
            }
            proof {
                assert forall|j: int| 0 <= j < keys@.len() && j != i implies #[trigger] keys@[j]
                    != key by {}
            }
            i += 1;
        }
        proof {
            let after = before.refreshed();
            assert forall|k: AudioGroupKey| #[trigger] self@.groups.dom().contains(k)
                == after.groups.dom().contains(k) by {
                if before.groups.dom().contains(k) {
                    assert(keys@.to_set().contains(k));
                    let j = keys@.index_of(k);
                    assert(keys@[j] == k);
                }
            }
            assert(self@.groups.dom() =~= after.groups.dom());
            assert forall|k: AudioGroupKey| #[trigger] self@.groups.dom().contains(k) implies
                self@.groups[k] == after.groups[k] by {
                assert(keys@.to_set().contains(k));
                let j = keys@.index_of(k);
                assert(keys@[j] == k);
            }
            assert(self@.groups =~= after.groups);
        }
    }

    /// Takes a request in: a new subscription, or one that is there and wants the same again.
    pub fn subscribe(
        &mut self,
        request: SubscriptionRequest,
        valid: bool,
        sources: &Option<Vec<SourceChoice>>,
        legacy: bool,
    ) -> (r: Result<Subscribed, Refusal>)
        ensures
            match r {
                Ok(answer) => {
                    &&& old(self)@.subscribe_refusal(request, valid, listed(*sources)) is None
                    &&& final(self)@ == old(self)@.subscribed(request, listed(*sources), legacy)
                    &&& answer == final(self)@.answer(request.id)
                },
                Err(refusal) => {
                    &&& old(self)@.subscribe_refusal(request, valid, listed(*sources)) == Some(
                        refusal,
                    )
                    &&& final(self)@ == old(self)@
                },
            },
    {
        if !valid {
            return Err(Refusal::InvalidSettings);
        }
        if self.retired.contains(&request.id) || self.retired.len() >= MAX_RETIRED {
            return Err(Refusal::Retired);
        }
        if is_too_large(request.width, request.height) {
            return Err(Refusal::TooLarge);
        }
        if request.id == 0 || request.id >= SUBSCRIPTION_ID_LIMIT {
            return Err(Refusal::IdOutOfRange);
        }
        if let Some(existing) = self.subscriptions.get(&request.id) {
            if existing.request.source != request.source || existing.request.audio
                != request.audio {
                return Err(Refusal::IdTaken);
            }
            let audio_owner = self.owner(existing.audio_group);
            return Ok(
                Subscribed {
                    id: request.id,
                    audio_owner,
                    supports_input: existing.supports_input,
                },
            );
        }
        if self.subscriptions.len() >= MAX_SUBSCRIPTIONS {
            return Err(Refusal::TooManySubscriptions);
        }
        let mut choice: Option<SourceChoice> = None;
        if request.source != CaptureSource::MainDisplay {
            match sources {
                None => return Err(Refusal::SourcesUnknown),
                Some(list) => {
                    choice = find(list, request.source);
                    if choice.is_none() {
                        return Err(Refusal::SourceGone);
                    }
                },
            }
        }
        let supports_input = match choice {
            Some(c) => c.supports_input,
            None => true,
        };
        let audio_key = if request.audio || legacy {
            Some(
                match choice {
                    Some(c) => match c.process_id {
                        Some(pid) => AudioGroupKey::Application(pid),
                        None => AudioGroupKey::System,
                    },
                    None => AudioGroupKey::System,
                },
            )
        } else {
            None
        };
        if let Some(key) = audio_key {
            if !self.audio_groups.contains(&key) {
                self.audio_groups.insert(
                    key,
                    AudioGroup {
                        owner: request.id,
                        source: request.source,
                        include_audio: request.audio,
                        include_microphone: legacy,
                        paused: false,
                    },
                );
            }
        }
        let subscription = Subscription {
            settings_revision: 0,
            request,
            settings: stream_settings(&request),
            revision: 0,
            keyframe: true,
            audio_group: audio_key,
            audio_active: true,
            supports_input,
        };
        self.subscriptions.insert(request.id, subscription);
        let ghost grown = self@;
        self.refresh_audio();
        let audio_owner = self.owner(audio_key);
        proof {
            assert(grown.subs.dom().contains(request.id));
        }
        Ok(Subscribed { id: request.id, audio_owner, supports_input })
    }

    fn owner(&self, key: Option<AudioGroupKey>) -> (r: Option<u32>)
        ensures
            r == self@.owner_of(key),
    {
        match key {
            Some(key) => match self.audio_groups.get(&key) {
                Some(group) => Some(group.owner),
                None => None,
            },
            None => None,
        }
    }

    /// Shows or hides, plays or mutes a subscription. Changes that come late are passed over; the
    /// answer tells what holds.
    pub fn set_activity(&mut self, id: u32, revision: u64, video: bool, audio: bool) -> (r: Option<
        Activity,
    >)
        ensures
            final(self)@ == old(self)@.with_activity(id, revision, video, audio),
            r == (if old(self)@.subs.dom().contains(id) {
                let s = old(self)@.active_sub(id, revision, video, audio);
                Some(
                    Activity {
                        id,
                        revision: s.revision,
                        video: !s.settings.paused,
                        audio: s.audio_active,
                    },
                )
            } else {
                None
            }),
    {
        let mut s = match self.subscriptions.get(&id) {
            Some(s) => *s,
            None => return None,
        };
        if revision > s.revision {
            s.revision = revision;
            s.audio_active = audio;
            s.settings.paused = !video;
            if video {
                s.keyframe = true;
            }
        }
        self.subscriptions.insert(id, s);
        self.refresh_audio();
        Some(Activity { id, revision: s.revision, video: !s.settings.paused, audio: s.audio_active })
    }

    /// Whether input for this subscription is let through: it takes input, and it is shown.
    pub fn can_input(&self, id: u32) -> (r: bool)
        ensures
            r == self@.can_input(id),
    {
        match self.subscriptions.get(&id) {
            Some(s) => s.supports_input && !s.settings.paused,
            None => false,
        }
    }

    /// The subscription if there is exactly one.
    pub fn only_subscription(&self) -> (r: Option<u32>)
        ensures
            match r {
                Some(id) => self@.subs.dom().finite() && self@.subs.dom().len() == 1
                    && self@.subs.dom().contains(id),
                None => self@.subs.dom().len() != 1,
            },
    {
        if self.subscriptions.len() == 1 {
            let (id, _s) = self.subscriptions.nth(0);
            Some(id)
        } else {
            None
        }
    }

    /// Drops all subscriptions, and their audio.
    pub fn clear_subscriptions(&mut self)
        ensures
            final(self)@ == old(self)@.without_subs().refreshed(),
    {
        self.subscriptions = Table::new();
        self.refresh_audio();
    }

    /// Drops a subscription; its identifier is used up.
    pub fn unsubscribe(&mut self, id: u32)
        ensures
            final(self)@ == old(self)@.unsubscribed(id),
    {
        let _ = self.subscriptions.remove(&id);
        let ghost retired = self.retired@.dom();
        self.retired.insert(id, ());
        proof {
            assert(self.retired@.dom() =~= retired.insert(id));
        }
        self.refresh_audio();
    }

    /// Drops the subscriptions whose streams have ended.
    pub fn drop_finished(&mut self, finished: &Vec<u32>)
        ensures
            final(self)@ == (Conn {
                subs: old(self)@.subs.remove_keys(finished@.to_set()),
                ..old(self)@
            }).refreshed(),
    {
        let mut i: usize = 0;
        let ghost before = self@;
        proof {
            assert(before.subs.remove_keys(finished@.take(0).to_set()) =~= before.subs);
        }
        while i < finished.len()
            invariant
                i <= finished@.len(),
                self@ == (Conn {
                    subs: before.subs.remove_keys(finished@.take(i as int).to_set()),
                    ..before
                }),
            decreases finished.len() - i,
        {
            let id: u32 = finished[i];
            let ghost subs = self@.subs;
            let _ = self.subscriptions.remove(&id);
            proof {
                let now = finished@.take(i as int);
                let then = finished@.take(i + 1);
                assert(then =~= now.push(id));
                assert forall|k: u32| #[trigger] then.to_set().contains(k) == (now.to_set().contains(
                    k,
                ) || k == id) by {
                    if now.contains(k) {
                        let j = now.index_of(k);
                        assert(then[j] == k);
                    }
                    if k == id {
                        assert(then[i as int] == k);
                    }
                    if then.contains(k) && k != id {
                        let j = then.index_of(k);
                        assert(now[j] == k);
                    }
                }
                assert(self@.subs =~= before.subs.remove_keys(then.to_set()));
            }
            i += 1;
        }
        proof {
            assert(finished@.take(finished@.len() as int) =~= finished@);
        }
        self.refresh_audio();
    }

    /// Replaces a subscription that is there.
    pub fn replace(&mut self, id: u32, subscription: Subscription)
        ensures
            final(self)@ == (Conn {
                subs: old(self)@.subs.insert(id, subscription),
                ..old(self)@
            }),
    {
        self.subscriptions.insert(id, subscription);
    }
}

/// A list of sources, if there is one.
pub open spec fn listed(sources: Option<Vec<SourceChoice>>) -> Option<Seq<SourceChoice>> {
    match sources {
        Some(v) => Some(v@),
        None => None,
    }
}

/// An identifier that was given up is refused for good: nothing brings it back, and asking for it
/// is answered with the refusal.
pub proof fn retired_ids_stay_retired(
    conn: Conn,
    id: u32,
    request: SubscriptionRequest,
    valid: bool,
    sources: Option<Seq<SourceChoice>>,
    legacy: bool,
)
    requires
        request.id == id,
    ensures
        valid ==> conn.unsubscribed(id).subscribe_refusal(request, valid, sources) == Some(
            Refusal::Retired,
        ),
        conn.retired.subset_of(conn.unsubscribed(id).retired),
        conn.retired == conn.subscribed(request, sources, legacy).retired,
{
}

/// A connection never has more subscriptions than are allowed.
pub proof fn subscriptions_stay_bounded(
    conn: Conn,
    request: SubscriptionRequest,
    valid: bool,
    sources: Option<Seq<SourceChoice>>,
    legacy: bool,
)
    requires
        conn.subs.dom().finite(),
        conn.subs.dom().len() <= MAX_SUBSCRIPTIONS,
        conn.subscribe_refusal(request, valid, sources) is None,
    ensures
        conn.subscribed(request, sources, legacy).subs.dom().finite(),
        conn.subscribed(request, sources, legacy).subs.dom().len() <= MAX_SUBSCRIPTIONS,
{
    if !conn.subs.dom().contains(request.id) {
        assert(conn.subscribed(request, sources, legacy).subs.dom() =~= conn.subs.dom().insert(
            request.id,
        ));
    }
}

/// Audio is captured only while some subscription wants it, and runs only while one wants it now.
pub proof fn audio_is_wanted(conn: Conn, key: AudioGroupKey)
    ensures
        conn.refreshed().groups.dom().contains(key) ==> has_member(conn.refreshed().subs, key),
        conn.refreshed().groups.dom().contains(key) ==> conn.refreshed().groups[key].paused
            == !has_listener(conn.refreshed().subs, key),
{
}

/// Revisions only go forward, and a change that is no newer changes nothing.
pub proof fn activity_revisions_advance(
    conn: Conn,
    id: u32,
    revision: u64,
    video: bool,
    audio: bool,
)
    requires
        conn.subs.dom().contains(id),
    ensures
        conn.with_activity(id, revision, video, audio).subs[id].revision
            >= conn.subs[id].revision,
        revision <= conn.subs[id].revision ==> conn.with_activity(
            id,
            revision,
            video,
            audio,
        ).subs[id] == conn.subs[id],
{
}

/// Every refusal says why, in words of its own or in those of whoever looked.
pub proof fn refusals_say_why(detail: Seq<char>)
    ensures
        Refusal::InvalidSettings.text(detail) == detail,
        Refusal::SourcesUnknown.text(detail) == detail,
        Refusal::Retired.text(detail) == "subscription was closed; use a new ID"@,
        Refusal::TooLarge.text(detail) == "requested size exceeds this host's capture budget"@,
        Refusal::IdOutOfRange.text(detail) == "subscription ID outside supported range"@,
        Refusal::IdTaken.text(detail) == "subscription ID already has a different source/settings"@,
        Refusal::TooManySubscriptions.text(detail) == "subscription limit reached"@,
        Refusal::SourceGone.text(detail) == "selected capture source is unavailable"@,
        Refusal::UnsupportedSettings.text(detail) == "unsupported capture settings"@,
        Refusal::NoSubscription.text(detail) == "subscription is unavailable"@,
        Refusal::UnsupportedVersion.text(detail) == "unsupported connection version or ID"@,
        Refusal::ConnectionOpen.text(detail) == "close the existing connection first"@,
        Refusal::TooManyConnections.text(detail) == "connection limit reached"@,
        Refusal::NotOpen.text(detail) == "open a connection first"@,
{
}

/// Neither side of what is captured is longer than 8192 pixels, and the whole has no more pixels than
/// 8192 times 4096; sides can be exchanged.
pub proof fn sizes_are_bounded(width: u32, height: u32)
    ensures
        too_large(width, height) <==> width > 8192 || height > 8192 || width * height > 8192 * 4096,
        too_large(width, height) == too_large(height, width),
{
    assert(width * height == height * width) by (nonlinear_arith);
}

/// A subscription starts with the settings of its request, field by field, and not paused.
pub proof fn requested_settings_are_those_of_the_request(request: SubscriptionRequest)
    ensures
        requested(request).width == request.width,
        requested(request).height == request.height,
        requested(request).fps == request.fps,
        requested(request).bitrate_kbps == request.bitrate_kbps,
        !requested(request).paused,
{
}

} // verus!
