//! The bytes of session commands.
use crate::protocol::control::InputEvent;
use crate::protocol::session::{
    CaptureSource, CaptureSourceInfo, SessionCommand, SubscriptionRequest,
};
use crate::wire::{
    begins, lemma_after_number, lemma_append, lemma_none_begins, lemma_rest_begins, put_number,
    Wire, WireError,
};
use vstd::prelude::*;

verus! {

impl CaptureSource {
    /// The number of the variant.
    pub open spec fn number(m: CaptureSource) -> u32 {
        match m {
            CaptureSource::MainDisplay => 0,
            CaptureSource::Display(_) => 1,
            CaptureSource::Window(_) => 2,
        }
    }

    /// What stands behind the number.
    pub open spec fn body(m: CaptureSource) -> Seq<u8> {
        match m {
            CaptureSource::MainDisplay => <()>::wire(()),
            CaptureSource::Display(value) => u32::wire(value),
            CaptureSource::Window(value) => u32::wire(value),
        }
    }
}

impl Wire for CaptureSource {
    type Model = CaptureSource;

    open spec fn model(&self) -> CaptureSource {
        *self
    }

    open spec fn fits(m: CaptureSource) -> bool {
        match m {
            CaptureSource::MainDisplay => <()>::fits(()),
            CaptureSource::Display(value) => u32::fits(value),
            CaptureSource::Window(value) => u32::fits(value),
        }
    }

    open spec fn wire(m: CaptureSource) -> Seq<u8> {
        u32::wire(Self::number(m)) + Self::body(m)
    }

    proof fn unique(a: CaptureSource, b: CaptureSource, s: Seq<u8>, t: Seq<u8>) {
        lemma_after_number::<u32>(
            Self::number(a),
            Self::number(b),
            Self::body(a),
            Self::body(b),
            s,
            t,
        );
        match (a, b) {
            (CaptureSource::Display(value_a), CaptureSource::Display(value_b)) => {
                u32::unique(value_a, value_b, s, t);
            },
            (CaptureSource::Window(value_a), CaptureSource::Window(value_b)) => {
                u32::unique(value_a, value_b, s, t);
            },
            _ => {},
        }
    }

    fn put(&self, out: &mut Vec<u8>) {
        match self {
            CaptureSource::MainDisplay => {
                let ghost s0 = out@;
                put_number(0, out);
                proof {
                    assert(out@ =~= s0 + (u32::wire(0) + Seq::<u8>::empty()));
                }
            },
            CaptureSource::Display(value) => {
                let ghost s0 = out@;
                put_number(1, out);
                value.put(out);
                proof {
                    let row = u32::wire(value.model());
                    lemma_append(s0, u32::wire(1), row);
                }
            },
            CaptureSource::Window(value) => {
                let ghost s0 = out@;
                put_number(2, out);
                value.put(out);
                proof {
                    let row = u32::wire(value.model());
                    lemma_append(s0, u32::wire(2), row);
                }
            },
        }
    }

    fn take(data: &[u8], from: usize) -> (r: Result<(CaptureSource, usize), WireError>) {
        let ghost tail = data@.subrange(from as int, data@.len() as int);
        let (number, start) = match u32::take(data, from) {
            Ok((number, start)) => (number, start),
            Err(e) => {
                proof {
                    assert forall|m: CaptureSource| Self::fits(m) implies !begins(
                        tail,
                        #[trigger] Self::wire(m),
                    ) by {
                        lemma_none_begins::<u32>(tail, Self::number(m), Self::body(m));
                    }
                }
                return Err(e);
            },
        };
        proof {
            assert forall|m: CaptureSource|
                Self::fits(m) && begins(tail, #[trigger] Self::wire(m)) implies Self::number(m)
                == number && begins(
                data@.subrange(start as int, data@.len() as int),
                Self::body(m),
            ) by {
                lemma_rest_begins::<u32>(
                    data@,
                    from as int,
                    start as int,
                    number,
                    Self::number(m),
                    Self::body(m),
                );
            }
        }
        let (message, to) = match number {
            0 => (CaptureSource::MainDisplay, start),
            1 => match u32::take(data, start) {
                Ok((value, to)) => (CaptureSource::Display(value), to),
                Err(e) => {
                    return Err(e);
                },
            },
            2 => match u32::take(data, start) {
                Ok((value, to)) => (CaptureSource::Window(value), to),
                Err(e) => {
                    return Err(e);
                },
            },
            _ => {
                return Err(WireError);
            },
        };
        proof {
            assert(data@.subrange(from as int, to as int) =~= data@.subrange(
                from as int,
                start as int,
            ) + data@.subrange(start as int, to as int));
            assert(data@.subrange(start as int, start as int) =~= Seq::<u8>::empty());
        }
        Ok((message, to))
    }
}

/// What is sent of `CaptureSourceInfo`.
pub ghost struct SourceInfo {
    pub source: CaptureSource,
    pub title: Seq<char>,
    pub application: Seq<char>,
    pub process_id: Option<i32>,
    pub width: u32,
    pub height: u32,
    pub supports_input: bool,
}

/// The fields of `CaptureSourceInfo`, in the order in which they are sent.
pub type CaptureSourceInfoFields = (CaptureSource, (String, (String, (Option<i32>, (u32, (u32,
    bool))))));

impl CaptureSourceInfo {
    pub open spec fn parts(m: SourceInfo) -> <CaptureSourceInfoFields as Wire>::Model {
        (m.source, (m.title, (m.application, (m.process_id, (m.width, (m.height,
            m.supports_input))))))
    }
}

impl Wire for CaptureSourceInfo {
    type Model = SourceInfo;

    open spec fn model(&self) -> SourceInfo {
        SourceInfo {
            source: self.source,
            title: self.title@,
            application: self.application@,
            process_id: self.process_id,
            width: self.width,
            height: self.height,
            supports_input: self.supports_input,
        }
    }

    open spec fn fits(m: SourceInfo) -> bool {
        CaptureSourceInfoFields::fits(Self::parts(m))
    }

    open spec fn wire(m: SourceInfo) -> Seq<u8> {
        CaptureSourceInfoFields::wire(Self::parts(m))
    }

    proof fn unique(a: SourceInfo, b: SourceInfo, s: Seq<u8>, t: Seq<u8>) {
        CaptureSourceInfoFields::unique(Self::parts(a), Self::parts(b), s, t);
    }

    fn put(&self, out: &mut Vec<u8>) {
        let ghost s0 = out@;
        self.source.put(out);
        let ghost s1 = out@;
        self.title.put(out);
        let ghost s2 = out@;
        self.application.put(out);
        let ghost s3 = out@;
        self.process_id.put(out);
        let ghost s4 = out@;
        self.width.put(out);
        let ghost s5 = out@;
        self.height.put(out);
        self.supports_input.put(out);
        proof {
            let row = bool::wire(self.supports_input.model());
            lemma_append(s5, u32::wire(self.height.model()), row);
            let row = u32::wire(self.height.model()) + row;
            lemma_append(s4, u32::wire(self.width.model()), row);
            let row = u32::wire(self.width.model()) + row;
            lemma_append(s3, <Option<i32>>::wire(self.process_id.model()), row);
            let row = <Option<i32>>::wire(self.process_id.model()) + row;
            lemma_append(s2, String::wire(self.application.model()), row);
            let row = String::wire(self.application.model()) + row;
            lemma_append(s1, String::wire(self.title.model()), row);
            let row = String::wire(self.title.model()) + row;
            lemma_append(s0, CaptureSource::wire(self.source.model()), row);
        }
    }

    fn take(data: &[u8], from: usize) -> (r: Result<(CaptureSourceInfo, usize), WireError>) {
        match CaptureSourceInfoFields::take(data, from) {
            Ok((fields, to)) => {
                let (source, (title, (application, (process_id, (width, (height,
                    supports_input)))))) = fields;
                Ok((CaptureSourceInfo { source, title, application, process_id, width, height,
                    supports_input }, to))
            },
            Err(e) => {
                proof {
                    assert forall|m: SourceInfo| Self::fits(m) implies !begins(
                        data@.subrange(from as int, data@.len() as int),
                        #[trigger] Self::wire(m),
                    ) by {
                        assert(CaptureSourceInfoFields::fits(Self::parts(m)));
                    }
                }
                Err(e)
            },
        }
    }
}

/// The fields of `SubscriptionRequest`, in the order in which they are sent.
pub type SubscriptionRequestFields = (u32, (CaptureSource, (u32, (u32, (u32, (u32, bool))))));

impl SubscriptionRequest {
    pub open spec fn parts(m: SubscriptionRequest) -> <SubscriptionRequestFields as Wire>::Model {
        (m.id, (m.source, (m.width, (m.height, (m.fps, (m.bitrate_kbps, m.audio))))))
    }
}

impl Wire for SubscriptionRequest {
    type Model = SubscriptionRequest;

    open spec fn model(&self) -> SubscriptionRequest {
        *self
    }

    open spec fn fits(m: SubscriptionRequest) -> bool {
        SubscriptionRequestFields::fits(Self::parts(m))
    }

    open spec fn wire(m: SubscriptionRequest) -> Seq<u8> {
        SubscriptionRequestFields::wire(Self::parts(m))
    }

    proof fn unique(a: SubscriptionRequest, b: SubscriptionRequest, s: Seq<u8>, t: Seq<u8>) {
        SubscriptionRequestFields::unique(Self::parts(a), Self::parts(b), s, t);
    }

    fn put(&self, out: &mut Vec<u8>) {
        let ghost s0 = out@;
        self.id.put(out);
        let ghost s1 = out@;
        self.source.put(out);
        let ghost s2 = out@;
        self.width.put(out);
        let ghost s3 = out@;
        self.height.put(out);
        let ghost s4 = out@;
        self.fps.put(out);
        let ghost s5 = out@;
        self.bitrate_kbps.put(out);
        self.audio.put(out);
        proof {
            let row = bool::wire(self.audio.model());
            lemma_append(s5, u32::wire(self.bitrate_kbps.model()), row);
            let row = u32::wire(self.bitrate_kbps.model()) + row;
            lemma_append(s4, u32::wire(self.fps.model()), row);
            let row = u32::wire(self.fps.model()) + row;
            lemma_append(s3, u32::wire(self.height.model()), row);
            let row = u32::wire(self.height.model()) + row;
            lemma_append(s2, u32::wire(self.width.model()), row);
            let row = u32::wire(self.width.model()) + row;
            lemma_append(s1, CaptureSource::wire(self.source.model()), row);
            let row = CaptureSource::wire(self.source.model()) + row;
            lemma_append(s0, u32::wire(self.id.model()), row);
        }
    }

    fn take(data: &[u8], from: usize) -> (r: Result<(SubscriptionRequest, usize), WireError>) {
        match SubscriptionRequestFields::take(data, from) {
            Ok((fields, to)) => {
                let (id, (source, (width, (height, (fps, (bitrate_kbps, audio)))))) = fields;
                Ok((SubscriptionRequest { id, source, width, height, fps, bitrate_kbps, audio },
                    to))
            },
            Err(e) => {
                proof {
                    assert forall|m: SubscriptionRequest| Self::fits(m) implies !begins(
                        data@.subrange(from as int, data@.len() as int),
                        #[trigger] Self::wire(m),
                    ) by {
                        assert(SubscriptionRequestFields::fits(Self::parts(m)));
                    }
                }
                Err(e)
            },
        }
    }
}

/// What is sent of `SessionCommand`.
pub ghost enum Command {
    ReleaseInput { id: u32 },
    InputReleased { id: u32 },
    Configure { id: u32, revision: u64, width: u32, height: u32, fps: u32, bitrate_kbps: u32 },
    Configured { id: u32, revision: u64 },
    Closed { connection_id: u32, reason: Seq<char> },
    SetClipboard { enabled: bool },
    ClipboardState { enabled: bool },
    Open { connection_id: u32, version: u32 },
    Opened {
        connection_id: u32,
        version: u32,
        max_subscriptions: u32,
        files: bool,
        clipboard: bool,
        window_capture: bool,
    },
    ListSources { request_id: u32 },
    Sources { request_id: u32, sources: Seq<SourceInfo> },
    Subscribe(SubscriptionRequest),
    Subscribed { id: u32, audio_owner: Option<u32>, supports_input: bool },
    Input { id: u32, event: InputEvent },
    SetActivity { id: u32, revision: u64, video: bool, audio: bool },
    Activity { id: u32, revision: u64, video: bool, audio: bool },
    Unsubscribe { id: u32 },
    Unsubscribed { id: u32 },
    Close { connection_id: u32 },
    Error { request_id: u32, reason: Seq<char> },
}

impl SessionCommand {
    /// The number of the variant.
    pub open spec fn number(m: Command) -> u32 {
        match m {
            Command::ReleaseInput { .. } => 0,
            Command::InputReleased { .. } => 1,
            Command::Configure { .. } => 2,
            Command::Configured { .. } => 3,
            Command::Closed { .. } => 4,
            Command::SetClipboard { .. } => 5,
            Command::ClipboardState { .. } => 6,
            Command::Open { .. } => 7,
            Command::Opened { .. } => 8,
            Command::ListSources { .. } => 9,
            Command::Sources { .. } => 10,
            Command::Subscribe(_) => 11,
            Command::Subscribed { .. } => 12,
            Command::Input { .. } => 13,
            Command::SetActivity { .. } => 14,
            Command::Activity { .. } => 15,
            Command::Unsubscribe { .. } => 16,
            Command::Unsubscribed { .. } => 17,
            Command::Close { .. } => 18,
            Command::Error { .. } => 19,
        }
    }

    /// What stands behind the number.
    pub open spec fn body(m: Command) -> Seq<u8> {
        match m {
            Command::ReleaseInput { id } => u32::wire(id),
            Command::InputReleased { id } => u32::wire(id),
            Command::Configure { id, revision, width, height, fps, bitrate_kbps } => <(u32, (u64,
                (u32, (u32, (u32, u32)))))>::wire((id, (revision, (width, (height, (fps,
                bitrate_kbps)))))),
            Command::Configured { id, revision } => <(u32, u64)>::wire((id, revision)),
            Command::Closed { connection_id, reason } => <(u32, String)>::wire((connection_id,
                reason)),
            Command::SetClipboard { enabled } => bool::wire(enabled),
            Command::ClipboardState { enabled } => bool::wire(enabled),
            Command::Open { connection_id, version } => <(u32, u32)>::wire((connection_id,
                version)),
            Command::Opened { connection_id, version, max_subscriptions, files, clipboard,
                window_capture } => <(u32, (u32, (u32, (bool, (bool,
                bool)))))>::wire((connection_id, (version, (max_subscriptions, (files,
                (clipboard, window_capture)))))),
            Command::ListSources { request_id } => u32::wire(request_id),
            Command::Sources { request_id, sources } => <(u32,
                Vec<CaptureSourceInfo>)>::wire((request_id, sources)),
            Command::Subscribe(value) => SubscriptionRequest::wire(value),
            Command::Subscribed { id, audio_owner, supports_input } => <(u32, (Option<u32>,
                bool))>::wire((id, (audio_owner, supports_input))),
            Command::Input { id, event } => <(u32, InputEvent)>::wire((id, event)),
            Command::SetActivity { id, revision, video, audio } => <(u32, (u64, (bool,
                bool)))>::wire((id, (revision, (video, audio)))),
            Command::Activity { id, revision, video, audio } => <(u32, (u64, (bool,
                bool)))>::wire((id, (revision, (video, audio)))),
            Command::Unsubscribe { id } => u32::wire(id),
            Command::Unsubscribed { id } => u32::wire(id),
            Command::Close { connection_id } => u32::wire(connection_id),
            Command::Error { request_id, reason } => <(u32, String)>::wire((request_id, reason)),
        }
    }
}

impl Wire for SessionCommand {
    type Model = Command;

    open spec fn model(&self) -> Command {
        match self {
            SessionCommand::ReleaseInput { id } => Command::ReleaseInput { id: *id },
            SessionCommand::InputReleased { id } => Command::InputReleased { id: *id },
            SessionCommand::Configure { id, revision, width, height, fps,
                bitrate_kbps } => Command::Configure { id: *id, revision: *revision,
                width: *width, height: *height, fps: *fps, bitrate_kbps: *bitrate_kbps },
            SessionCommand::Configured { id, revision } => Command::Configured { id: *id,
                revision: *revision },
            SessionCommand::Closed { connection_id,
                reason } => Command::Closed { connection_id: *connection_id, reason: reason@ },
            SessionCommand::SetClipboard { enabled } => Command::SetClipboard { enabled: *enabled },
            SessionCommand::ClipboardState { enabled } => Command::ClipboardState {
                enabled: *enabled,
            },
            SessionCommand::Open { connection_id,
                version } => Command::Open { connection_id: *connection_id, version: *version },
            SessionCommand::Opened { connection_id, version, max_subscriptions, files, clipboard,
                window_capture } => Command::Opened { connection_id: *connection_id,
                version: *version, max_subscriptions: *max_subscriptions, files: *files,
                clipboard: *clipboard, window_capture: *window_capture },
            SessionCommand::ListSources { request_id } => Command::ListSources {
                request_id: *request_id,
            },
            SessionCommand::Sources { request_id,
                sources } => Command::Sources { request_id: *request_id,
                sources: sources.model() },
            SessionCommand::Subscribe(value) => Command::Subscribe(*value),
            SessionCommand::Subscribed { id, audio_owner,
                supports_input } => Command::Subscribed { id: *id, audio_owner: *audio_owner,
                supports_input: *supports_input },
            SessionCommand::Input { id, event } => Command::Input { id: *id, event: *event },
            SessionCommand::SetActivity { id, revision, video,
                audio } => Command::SetActivity { id: *id, revision: *revision, video: *video,
                audio: *audio },
            SessionCommand::Activity { id, revision, video,
                audio } => Command::Activity { id: *id, revision: *revision, video: *video,
                audio: *audio },
            SessionCommand::Unsubscribe { id } => Command::Unsubscribe { id: *id },
            SessionCommand::Unsubscribed { id } => Command::Unsubscribed { id: *id },
            SessionCommand::Close { connection_id } => Command::Close {
                connection_id: *connection_id,
            },
            SessionCommand::Error { request_id,
                reason } => Command::Error { request_id: *request_id, reason: reason@ },
        }
    }

    open spec fn fits(m: Command) -> bool {
        match m {
            Command::ReleaseInput { id } => u32::fits(id),
            Command::InputReleased { id } => u32::fits(id),
            Command::Configure { id, revision, width, height, fps, bitrate_kbps } => <(u32, (u64,
                (u32, (u32, (u32, u32)))))>::fits((id, (revision, (width, (height, (fps,
                bitrate_kbps)))))),
            Command::Configured { id, revision } => <(u32, u64)>::fits((id, revision)),
            Command::Closed { connection_id, reason } => <(u32, String)>::fits((connection_id,
                reason)),
            Command::SetClipboard { enabled } => bool::fits(enabled),
            Command::ClipboardState { enabled } => bool::fits(enabled),
            Command::Open { connection_id, version } => <(u32, u32)>::fits((connection_id,
                version)),
            Command::Opened { connection_id, version, max_subscriptions, files, clipboard,
                window_capture } => <(u32, (u32, (u32, (bool, (bool,
                bool)))))>::fits((connection_id, (version, (max_subscriptions, (files,
                (clipboard, window_capture)))))),
            Command::ListSources { request_id } => u32::fits(request_id),
            Command::Sources { request_id, sources } => <(u32,
                Vec<CaptureSourceInfo>)>::fits((request_id, sources)),
            Command::Subscribe(value) => SubscriptionRequest::fits(value),
            Command::Subscribed { id, audio_owner, supports_input } => <(u32, (Option<u32>,
                bool))>::fits((id, (audio_owner, supports_input))),
            Command::Input { id, event } => <(u32, InputEvent)>::fits((id, event)),
            Command::SetActivity { id, revision, video, audio } => <(u32, (u64, (bool,
                bool)))>::fits((id, (revision, (video, audio)))),
            Command::Activity { id, revision, video, audio } => <(u32, (u64, (bool,
                bool)))>::fits((id, (revision, (video, audio)))),
            Command::Unsubscribe { id } => u32::fits(id),
            Command::Unsubscribed { id } => u32::fits(id),
            Command::Close { connection_id } => u32::fits(connection_id),
            Command::Error { request_id, reason } => <(u32, String)>::fits((request_id, reason)),
        }
    }

    open spec fn wire(m: Command) -> Seq<u8> {
        u32::wire(Self::number(m)) + Self::body(m)
    }

    proof fn unique(a: Command, b: Command, s: Seq<u8>, t: Seq<u8>) {
        lemma_after_number::<u32>(
            Self::number(a),
            Self::number(b),
            Self::body(a),
            Self::body(b),
            s,
            t,
        );
        match (a, b) {
            (Command::ReleaseInput { id: id_a }, Command::ReleaseInput { id: id_b }) => {
                u32::unique(id_a, id_b, s, t);
            },
            (Command::InputReleased { id: id_a }, Command::InputReleased { id: id_b }) => {
                u32::unique(id_a, id_b, s, t);
            },
            (Command::Configure { id: id_a, revision: revision_a, width: width_a,
                height: height_a, fps: fps_a, bitrate_kbps: bitrate_kbps_a },
                Command::Configure { id: id_b, revision: revision_b, width: width_b,
                height: height_b, fps: fps_b, bitrate_kbps: bitrate_kbps_b }) => {
                <(u32, (u64, (u32, (u32, (u32, u32)))))>::unique((id_a, (revision_a, (width_a,
                    (height_a, (fps_a, bitrate_kbps_a))))), (id_b, (revision_b, (width_b,
                    (height_b, (fps_b, bitrate_kbps_b))))), s, t);
            },
            (Command::Configured { id: id_a, revision: revision_a },
                Command::Configured { id: id_b, revision: revision_b }) => {
                <(u32, u64)>::unique((id_a, revision_a), (id_b, revision_b), s, t);
            },
            (Command::Closed { connection_id: connection_id_a, reason: reason_a },
                Command::Closed { connection_id: connection_id_b, reason: reason_b }) => {
                <(u32, String)>::unique((connection_id_a, reason_a), (connection_id_b, reason_b),
                    s, t);
            },
            (Command::SetClipboard { enabled: enabled_a },
                Command::SetClipboard { enabled: enabled_b }) => {
                bool::unique(enabled_a, enabled_b, s, t);
            },
            (Command::ClipboardState { enabled: enabled_a },
                Command::ClipboardState { enabled: enabled_b }) => {
                bool::unique(enabled_a, enabled_b, s, t);
            },
            (Command::Open { connection_id: connection_id_a, version: version_a },
                Command::Open { connection_id: connection_id_b, version: version_b }) => {
                <(u32, u32)>::unique((connection_id_a, version_a), (connection_id_b, version_b),
                    s, t);
            },
            (Command::Opened { connection_id: connection_id_a, version: version_a,
                max_subscriptions: max_subscriptions_a, files: files_a, clipboard: clipboard_a,
                window_capture: window_capture_a },
                Command::Opened { connection_id: connection_id_b, version: version_b,
                max_subscriptions: max_subscriptions_b, files: files_b, clipboard: clipboard_b,
                window_capture: window_capture_b }) => {
                <(u32, (u32, (u32, (bool, (bool, bool)))))>::unique((connection_id_a, (version_a,
                    (max_subscriptions_a, (files_a, (clipboard_a, window_capture_a))))),
                    (connection_id_b, (version_b, (max_subscriptions_b, (files_b, (clipboard_b,
                    window_capture_b))))), s, t);
            },
            (Command::ListSources { request_id: request_id_a },
                Command::ListSources { request_id: request_id_b }) => {
                u32::unique(request_id_a, request_id_b, s, t);
            },
            (Command::Sources { request_id: request_id_a, sources: sources_a },
                Command::Sources { request_id: request_id_b, sources: sources_b }) => {
                <(u32, Vec<CaptureSourceInfo>)>::unique((request_id_a, sources_a), (request_id_b,
                    sources_b), s, t);
            },
            (Command::Subscribe(value_a), Command::Subscribe(value_b)) => {
                SubscriptionRequest::unique(value_a, value_b, s, t);
            },
            (Command::Subscribed { id: id_a, audio_owner: audio_owner_a,
                supports_input: supports_input_a }, Command::Subscribed { id: id_b,
                audio_owner: audio_owner_b, supports_input: supports_input_b }) => {
                <(u32, (Option<u32>, bool))>::unique((id_a, (audio_owner_a, supports_input_a)),
                    (id_b, (audio_owner_b, supports_input_b)), s, t);
            },
            (Command::Input { id: id_a, event: event_a }, Command::Input { id: id_b,
                event: event_b }) => {
                <(u32, InputEvent)>::unique((id_a, event_a), (id_b, event_b), s, t);
            },
            (Command::SetActivity { id: id_a, revision: revision_a, video: video_a,
                audio: audio_a }, Command::SetActivity { id: id_b, revision: revision_b,
                video: video_b, audio: audio_b }) => {
                <(u32, (u64, (bool, bool)))>::unique((id_a, (revision_a, (video_a, audio_a))),
                    (id_b, (revision_b, (video_b, audio_b))), s, t);
            },
            (Command::Activity { id: id_a, revision: revision_a, video: video_a,
                audio: audio_a }, Command::Activity { id: id_b, revision: revision_b,
                video: video_b, audio: audio_b }) => {
                <(u32, (u64, (bool, bool)))>::unique((id_a, (revision_a, (video_a, audio_a))),
                    (id_b, (revision_b, (video_b, audio_b))), s, t);
            },
            (Command::Unsubscribe { id: id_a }, Command::Unsubscribe { id: id_b }) => {
                u32::unique(id_a, id_b, s, t);
            },
            (Command::Unsubscribed { id: id_a }, Command::Unsubscribed { id: id_b }) => {
                u32::unique(id_a, id_b, s, t);
            },
            (Command::Close { connection_id: connection_id_a },
                Command::Close { connection_id: connection_id_b }) => {
                u32::unique(connection_id_a, connection_id_b, s, t);
            },
            (Command::Error { request_id: request_id_a, reason: reason_a },
                Command::Error { request_id: request_id_b, reason: reason_b }) => {
                <(u32, String)>::unique((request_id_a, reason_a), (request_id_b, reason_b), s,
                    t);
            },
            _ => {},
        }
    }

    fn put(&self, out: &mut Vec<u8>) {
        match self {
            SessionCommand::ReleaseInput { id } => {
                let ghost s0 = out@;
                put_number(0, out);
                id.put(out);
                proof {
                    let row = u32::wire(id.model());
                    lemma_append(s0, u32::wire(0), row);
                }
            },
            SessionCommand::InputReleased { id } => {
                let ghost s0 = out@;
                put_number(1, out);
                id.put(out);
                proof {
                    let row = u32::wire(id.model());
                    lemma_append(s0, u32::wire(1), row);
                }
            },
            SessionCommand::Configure { id, revision, width, height, fps, bitrate_kbps } => {
                let ghost s0 = out@;
                put_number(2, out);
                let ghost s1 = out@;
                id.put(out);
                let ghost s2 = out@;
                revision.put(out);
                let ghost s3 = out@;
                width.put(out);
                let ghost s4 = out@;
                height.put(out);
                let ghost s5 = out@;
                fps.put(out);
                bitrate_kbps.put(out);
                proof {
                    let row = u32::wire(bitrate_kbps.model());
                    lemma_append(s5, u32::wire(fps.model()), row);
                    let row = u32::wire(fps.model()) + row;
                    lemma_append(s4, u32::wire(height.model()), row);
                    let row = u32::wire(height.model()) + row;
                    lemma_append(s3, u32::wire(width.model()), row);
                    let row = u32::wire(width.model()) + row;
                    lemma_append(s2, u64::wire(revision.model()), row);
                    let row = u64::wire(revision.model()) + row;
                    lemma_append(s1, u32::wire(id.model()), row);
                    let row = u32::wire(id.model()) + row;
                    lemma_append(s0, u32::wire(2), row);
                }
            },
            SessionCommand::Configured { id, revision } => {
                let ghost s0 = out@;
                put_number(3, out);
                let ghost s1 = out@;
                id.put(out);
                revision.put(out);
                proof {
                    let row = u64::wire(revision.model());
                    lemma_append(s1, u32::wire(id.model()), row);
                    let row = u32::wire(id.model()) + row;
                    lemma_append(s0, u32::wire(3), row);
                }
            },
            SessionCommand::Closed { connection_id, reason } => {
                let ghost s0 = out@;
                put_number(4, out);
                let ghost s1 = out@;
                connection_id.put(out);
                reason.put(out);
                proof {
                    let row = String::wire(reason.model());
                    lemma_append(s1, u32::wire(connection_id.model()), row);
                    let row = u32::wire(connection_id.model()) + row;
                    lemma_append(s0, u32::wire(4), row);
                }
            },
            SessionCommand::SetClipboard { enabled } => {
                let ghost s0 = out@;
                put_number(5, out);
                enabled.put(out);
                proof {
                    let row = bool::wire(enabled.model());
                    lemma_append(s0, u32::wire(5), row);
                }
            },
            SessionCommand::ClipboardState { enabled } => {
                let ghost s0 = out@;
                put_number(6, out);
                enabled.put(out);
                proof {
                    let row = bool::wire(enabled.model());
                    lemma_append(s0, u32::wire(6), row);
                }
            },
            SessionCommand::Open { connection_id, version } => {
                let ghost s0 = out@;
                put_number(7, out);
                let ghost s1 = out@;
                connection_id.put(out);
                version.put(out);
                proof {
                    let row = u32::wire(version.model());
                    lemma_append(s1, u32::wire(connection_id.model()), row);
                    let row = u32::wire(connection_id.model()) + row;
                    lemma_append(s0, u32::wire(7), row);
                }
            },
            SessionCommand::Opened {
                connection_id,
                version,
                max_subscriptions,
                files,
                clipboard,
                window_capture,
            } => {
                let ghost s0 = out@;
                put_number(8, out);
                let ghost s1 = out@;
                connection_id.put(out);
                let ghost s2 = out@;
                version.put(out);
                let ghost s3 = out@;
                max_subscriptions.put(out);
                let ghost s4 = out@;
                files.put(out);
                let ghost s5 = out@;
                clipboard.put(out);
                window_capture.put(out);
                proof {
                    let row = bool::wire(window_capture.model());
                    lemma_append(s5, bool::wire(clipboard.model()), row);
                    let row = bool::wire(clipboard.model()) + row;
                    lemma_append(s4, bool::wire(files.model()), row);
                    let row = bool::wire(files.model()) + row;
                    lemma_append(s3, u32::wire(max_subscriptions.model()), row);
                    let row = u32::wire(max_subscriptions.model()) + row;
                    lemma_append(s2, u32::wire(version.model()), row);
                    let row = u32::wire(version.model()) + row;
                    lemma_append(s1, u32::wire(connection_id.model()), row);
                    let row = u32::wire(connection_id.model()) + row;
                    lemma_append(s0, u32::wire(8), row);
                }
            },
            SessionCommand::ListSources { request_id } => {
                let ghost s0 = out@;
                put_number(9, out);
                request_id.put(out);
                proof {
                    let row = u32::wire(request_id.model());
                    lemma_append(s0, u32::wire(9), row);
                }
            },
            SessionCommand::Sources { request_id, sources } => {
                let ghost s0 = out@;
                put_number(10, out);
                let ghost s1 = out@;
                request_id.put(out);
                sources.put(out);
                proof {
                    let row = <Vec<CaptureSourceInfo>>::wire(sources.model());
                    lemma_append(s1, u32::wire(request_id.model()), row);
                    let row = u32::wire(request_id.model()) + row;
                    lemma_append(s0, u32::wire(10), row);
                }
            },
            SessionCommand::Subscribe(value) => {
                let ghost s0 = out@;
                put_number(11, out);
                value.put(out);
                proof {
                    let row = SubscriptionRequest::wire(value.model());
                    lemma_append(s0, u32::wire(11), row);
                }
            },
            SessionCommand::Subscribed { id, audio_owner, supports_input } => {
                let ghost s0 = out@;
                put_number(12, out);
                let ghost s1 = out@;
                id.put(out);
                let ghost s2 = out@;
                audio_owner.put(out);
                supports_input.put(out);
                proof {
                    let row = bool::wire(supports_input.model());
                    lemma_append(s2, <Option<u32>>::wire(audio_owner.model()), row);
                    let row = <Option<u32>>::wire(audio_owner.model()) + row;
                    lemma_append(s1, u32::wire(id.model()), row);
                    let row = u32::wire(id.model()) + row;
                    lemma_append(s0, u32::wire(12), row);
                }
            },
            SessionCommand::Input { id, event } => {
                let ghost s0 = out@;
                put_number(13, out);
                let ghost s1 = out@;
                id.put(out);
                event.put(out);
                proof {
                    let row = InputEvent::wire(event.model());
                    lemma_append(s1, u32::wire(id.model()), row);
                    let row = u32::wire(id.model()) + row;
                    lemma_append(s0, u32::wire(13), row);
                }
            },
            SessionCommand::SetActivity { id, revision, video, audio } => {
                let ghost s0 = out@;
                put_number(14, out);
                let ghost s1 = out@;
                id.put(out);
                let ghost s2 = out@;
                revision.put(out);
                let ghost s3 = out@;
                video.put(out);
                audio.put(out);
                proof {
                    let row = bool::wire(audio.model());
                    lemma_append(s3, bool::wire(video.model()), row);
                    let row = bool::wire(video.model()) + row;
                    lemma_append(s2, u64::wire(revision.model()), row);
                    let row = u64::wire(revision.model()) + row;
                    lemma_append(s1, u32::wire(id.model()), row);
                    let row = u32::wire(id.model()) + row;
                    lemma_append(s0, u32::wire(14), row);
                }
            },
            SessionCommand::Activity { id, revision, video, audio } => {
                let ghost s0 = out@;
                put_number(15, out);
                let ghost s1 = out@;
                id.put(out);
                let ghost s2 = out@;
                revision.put(out);
                let ghost s3 = out@;
                video.put(out);
                audio.put(out);
                proof {
                    let row = bool::wire(audio.model());
                    lemma_append(s3, bool::wire(video.model()), row);
                    let row = bool::wire(video.model()) + row;
                    lemma_append(s2, u64::wire(revision.model()), row);
                    let row = u64::wire(revision.model()) + row;
                    lemma_append(s1, u32::wire(id.model()), row);
                    let row = u32::wire(id.model()) + row;
                    lemma_append(s0, u32::wire(15), row);
                }
            },
            SessionCommand::Unsubscribe { id } => {
                let ghost s0 = out@;
                put_number(16, out);
                id.put(out);
                proof {
                    let row = u32::wire(id.model());
                    lemma_append(s0, u32::wire(16), row);
                }
            },
            SessionCommand::Unsubscribed { id } => {
                let ghost s0 = out@;
                put_number(17, out);
                id.put(out);
                proof {
                    let row = u32::wire(id.model());
                    lemma_append(s0, u32::wire(17), row);
                }
            },
            SessionCommand::Close { connection_id } => {
                let ghost s0 = out@;
                put_number(18, out);
                connection_id.put(out);
                proof {
                    let row = u32::wire(connection_id.model());
                    lemma_append(s0, u32::wire(18), row);
                }
            },
            SessionCommand::Error { request_id, reason } => {
                let ghost s0 = out@;
                put_number(19, out);
                let ghost s1 = out@;
                request_id.put(out);
                reason.put(out);
                proof {
                    let row = String::wire(reason.model());
                    lemma_append(s1, u32::wire(request_id.model()), row);
                    let row = u32::wire(request_id.model()) + row;
                    lemma_append(s0, u32::wire(19), row);
                }
            },
        }
    }

    fn take(data: &[u8], from: usize) -> (r: Result<(SessionCommand, usize), WireError>) {
        let ghost tail = data@.subrange(from as int, data@.len() as int);
        let (number, start) = match u32::take(data, from) {
            Ok((number, start)) => (number, start),
            Err(e) => {
                proof {
                    assert forall|m: Command| Self::fits(m) implies !begins(
                        tail,
                        #[trigger] Self::wire(m),
                    ) by {
                        lemma_none_begins::<u32>(tail, Self::number(m), Self::body(m));
                    }
                }
                return Err(e);
            },
        };
        proof {
            assert forall|m: Command|
                Self::fits(m) && begins(tail, #[trigger] Self::wire(m)) implies Self::number(m)
                == number && begins(
                data@.subrange(start as int, data@.len() as int),
                Self::body(m),
            ) by {
                lemma_rest_begins::<u32>(
                    data@,
                    from as int,
                    start as int,
                    number,
                    Self::number(m),
                    Self::body(m),
                );
            }
        }
        let (message, to) = match number {
            0 => match u32::take(data, start) {
                Ok((id, to)) => (SessionCommand::ReleaseInput { id }, to),
                Err(e) => {
                    return Err(e);
                },
            },
            1 => match u32::take(data, start) {
                Ok((id, to)) => (SessionCommand::InputReleased { id }, to),
                Err(e) => {
                    return Err(e);
                },
            },
            2 => match <(u32, (u64, (u32, (u32, (u32, u32)))))>::take(data, start) {
                Ok(((id, (revision, (width, (height, (fps, bitrate_kbps))))),
                    to)) => (SessionCommand::Configure { id, revision, width, height, fps,
                    bitrate_kbps }, to),
                Err(e) => {
                    return Err(e);
                },
            },
            3 => match <(u32, u64)>::take(data, start) {
                Ok(((id, revision), to)) => (SessionCommand::Configured { id, revision }, to),
                Err(e) => {
                    return Err(e);
                },
            },
            4 => match <(u32, String)>::take(data, start) {
                Ok(((connection_id, reason), to)) => (SessionCommand::Closed { connection_id,
                    reason }, to),
                Err(e) => {
                    return Err(e);
                },
            },
            5 => match bool::take(data, start) {
                Ok((enabled, to)) => (SessionCommand::SetClipboard { enabled }, to),
                Err(e) => {
                    return Err(e);
                },
            },
            6 => match bool::take(data, start) {
                Ok((enabled, to)) => (SessionCommand::ClipboardState { enabled }, to),
                Err(e) => {
                    return Err(e);
                },
            },
            7 => match <(u32, u32)>::take(data, start) {
                Ok(((connection_id, version), to)) => (SessionCommand::Open { connection_id,
                    version }, to),
                Err(e) => {
                    return Err(e);
                },
            },
            8 => match <(u32, (u32, (u32, (bool, (bool, bool)))))>::take(data, start) {
                Ok(((connection_id, (version, (max_subscriptions, (files, (clipboard,
                    window_capture))))), to)) => (SessionCommand::Opened { connection_id,
                    version, max_subscriptions, files, clipboard, window_capture }, to),
                Err(e) => {
                    return Err(e);
                },
            },
            9 => match u32::take(data, start) {
                Ok((request_id, to)) => (SessionCommand::ListSources { request_id }, to),
                Err(e) => {
                    return Err(e);
                },
            },
            10 => match <(u32, Vec<CaptureSourceInfo>)>::take(data, start) {
                Ok(((request_id, sources), to)) => (SessionCommand::Sources { request_id,
                    sources }, to),
                Err(e) => {
                    return Err(e);
                },
            },
            11 => match SubscriptionRequest::take(data, start) {
                Ok((value, to)) => (SessionCommand::Subscribe(value), to),
                Err(e) => {
                    return Err(e);
                },
            },
            12 => match <(u32, (Option<u32>, bool))>::take(data, start) {
                Ok(((id, (audio_owner, supports_input)),
                    to)) => (SessionCommand::Subscribed { id, audio_owner, supports_input }, to),
                Err(e) => {
                    return Err(e);
                },
            },
            13 => match <(u32, InputEvent)>::take(data, start) {
                Ok(((id, event), to)) => (SessionCommand::Input { id, event }, to),
                Err(e) => {
                    return Err(e);
                },
            },
            14 => match <(u32, (u64, (bool, bool)))>::take(data, start) {
                Ok(((id, (revision, (video, audio))), to)) => (SessionCommand::SetActivity { id,
                    revision, video, audio }, to),
                Err(e) => {
                    return Err(e);
                },
            },
            15 => match <(u32, (u64, (bool, bool)))>::take(data, start) {
                Ok(((id, (revision, (video, audio))), to)) => (SessionCommand::Activity { id,
                    revision, video, audio }, to),
                Err(e) => {
                    return Err(e);
                },
            },
            16 => match u32::take(data, start) {
                Ok((id, to)) => (SessionCommand::Unsubscribe { id }, to),
                Err(e) => {
                    return Err(e);
                },
            },
            17 => match u32::take(data, start) {
                Ok((id, to)) => (SessionCommand::Unsubscribed { id }, to),
                Err(e) => {
                    return Err(e);
                },
            },
            18 => match u32::take(data, start) {
                Ok((connection_id, to)) => (SessionCommand::Close { connection_id }, to),
                Err(e) => {
                    return Err(e);
                },
            },
            19 => match <(u32, String)>::take(data, start) {
                Ok(((request_id, reason), to)) => (SessionCommand::Error { request_id, reason },
                    to),
                Err(e) => {
                    return Err(e);
                },
            },
            _ => {
                return Err(WireError);
            },
        };
        proof {
            assert(data@.subrange(from as int, to as int) =~= data@.subrange(
                from as int,
                start as int,
            ) + data@.subrange(start as int, to as int));
        }
        Ok((message, to))
    }
}

} // verus!
