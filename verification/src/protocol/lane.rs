//! Lanes, kinds of content, priorities and delivery modes, with their identifiers on the wire.
use crate::protocol::compact::CompactRealtimeError;
use vstd::prelude::*;

verus! {

/// How traffic of one urgency is queued and dropped.
#[derive(Debug, Clone, Copy, PartialEq, Eq, Structural)]
pub enum DataLane {
    RealtimeVideo,
    RealtimeAudio,
    InteractiveControl,
    ReliableObject,
    Background,
}

impl DataLane {
    /// The lanes that carry traffic with a deadline: media and interactive control.
    pub open spec fn realtime(self) -> bool {
        self is RealtimeVideo || self is RealtimeAudio || self is InteractiveControl
    }

    /// The lanes on which a late packet is worth nothing.
    pub open spec fn stale_drop(self) -> bool {
        self is RealtimeVideo || self is RealtimeAudio
    }

    /// The lanes on which nothing may be lost.
    pub open spec fn reliable(self) -> bool {
        self is ReliableObject || self is Background
    }

    /// The identifier on the wire: lanes are numbered from one.
    pub open spec fn id(self) -> u8 {
        match self {
            DataLane::RealtimeVideo => 1,
            DataLane::RealtimeAudio => 2,
            DataLane::InteractiveControl => 3,
            DataLane::ReliableObject => 4,
            DataLane::Background => 5,
        }
    }

    pub fn is_realtime(self) -> (r: bool)
        ensures
            r == self.realtime(),
    {
        matches!(
            self,
            DataLane::RealtimeVideo | DataLane::RealtimeAudio | DataLane::InteractiveControl
        )
    }

    pub fn allows_stale_drop(self) -> (r: bool)
        ensures
            r == self.stale_drop(),
    {
        matches!(self, DataLane::RealtimeVideo | DataLane::RealtimeAudio)
    }

    pub fn requires_reliable_delivery(self) -> (r: bool)
        ensures
            r == self.reliable(),
    {
        matches!(self, DataLane::ReliableObject | DataLane::Background)
    }

    pub fn wire_id(self) -> (r: u8)
        ensures
            r == self.id(),
    {
        match self {
            DataLane::RealtimeVideo => 1,
            DataLane::RealtimeAudio => 2,
            DataLane::InteractiveControl => 3,
            DataLane::ReliableObject => 4,
            DataLane::Background => 5,
        }
    }

    /// The lane with this identifier.
    pub fn from_wire_id(id: u8) -> (r: Result<Self, CompactRealtimeError>)
        ensures
            match r {
                Ok(lane) => lane.id() == id,
                Err(e) => !(1 <= id <= 5) && e == CompactRealtimeError::InvalidLane(id),
            },
    {
        match id {
            1 => Ok(DataLane::RealtimeVideo),
            2 => Ok(DataLane::RealtimeAudio),
            3 => Ok(DataLane::InteractiveControl),
            4 => Ok(DataLane::ReliableObject),
            5 => Ok(DataLane::Background),
            _ => Err(CompactRealtimeError::InvalidLane(id)),
        }
    }

    /// The variant's own name.
    pub open spec fn name_text(self) -> Seq<char> {
        match self {
            DataLane::RealtimeVideo => "RealtimeVideo"@,
            DataLane::RealtimeAudio => "RealtimeAudio"@,
            DataLane::InteractiveControl => "InteractiveControl"@,
            DataLane::ReliableObject => "ReliableObject"@,
            DataLane::Background => "Background"@,
        }
    }

    pub fn name(self) -> (r: &'static str)
        ensures
            r@ == self.name_text(),
    {
        match self {
            DataLane::RealtimeVideo => "RealtimeVideo",
            DataLane::RealtimeAudio => "RealtimeAudio",
            DataLane::InteractiveControl => "InteractiveControl",
            DataLane::ReliableObject => "ReliableObject",
            DataLane::Background => "Background",
        }
    }
}

/// What a payload holds.
#[derive(Debug, Clone, Copy, PartialEq, Eq, Structural)]
pub enum ContentKind {
    VideoH265,
    AudioOpus,
    Control,
    ClipboardText,
    ClipboardBinary,
    FileChunk,
    FileManifest,
    Arbitrary,
    ClipboardBundle,
    FileControl,
    AudioStreamConfig,
}

impl ContentKind {
    /// The lane that this content travels on unless told otherwise.
    pub open spec fn lane(self) -> DataLane {
        match self {
            ContentKind::VideoH265 => DataLane::RealtimeVideo,
            ContentKind::AudioOpus => DataLane::RealtimeAudio,
            ContentKind::AudioStreamConfig | ContentKind::Control | ContentKind::FileControl =>
                DataLane::InteractiveControl,
            _ => DataLane::ReliableObject,
        }
    }

    /// The identifier on the wire, which is not the order of declaration.
    pub open spec fn id(self) -> u8 {
        match self {
            ContentKind::VideoH265 => 1,
            ContentKind::AudioOpus => 2,
            ContentKind::Control => 3,
            ContentKind::ClipboardText => 4,
            ContentKind::ClipboardBinary => 5,
            ContentKind::FileManifest => 6,
            ContentKind::FileChunk => 7,
            ContentKind::Arbitrary => 8,
            ContentKind::ClipboardBundle => 9,
            ContentKind::FileControl => 10,
            ContentKind::AudioStreamConfig => 11,
        }
    }

    pub fn default_lane(self) -> (r: DataLane)
        ensures
            r == self.lane(),
    {
        match self {
            ContentKind::VideoH265 => DataLane::RealtimeVideo,
            ContentKind::AudioOpus => DataLane::RealtimeAudio,
            ContentKind::AudioStreamConfig => DataLane::InteractiveControl,
            ContentKind::Control => DataLane::InteractiveControl,
            ContentKind::ClipboardText
            | ContentKind::ClipboardBinary
            | ContentKind::FileManifest
            | ContentKind::FileChunk
            | ContentKind::Arbitrary
            | ContentKind::ClipboardBundle => DataLane::ReliableObject,
            ContentKind::FileControl => DataLane::InteractiveControl,
        }
    }

    pub fn wire_id(self) -> (r: u8)
        ensures
            r == self.id(),
    {
        match self {
            ContentKind::VideoH265 => 1,
            ContentKind::AudioOpus => 2,
            ContentKind::Control => 3,
            ContentKind::ClipboardText => 4,
            ContentKind::ClipboardBinary => 5,
            ContentKind::FileManifest => 6,
            ContentKind::FileChunk => 7,
            ContentKind::Arbitrary => 8,
            ContentKind::ClipboardBundle => 9,
            ContentKind::FileControl => 10,
            ContentKind::AudioStreamConfig => 11,
        }
    }

    /// The kind with this identifier.
    pub fn from_wire_id(id: u8) -> (r: Result<Self, CompactRealtimeError>)
        ensures
            match r {
                Ok(kind) => kind.id() == id,
                Err(e) => !(1 <= id <= 11) && e == CompactRealtimeError::InvalidContentKind(id),
            },
    {
        match id {
            1 => Ok(ContentKind::VideoH265),
            2 => Ok(ContentKind::AudioOpus),
            3 => Ok(ContentKind::Control),
            4 => Ok(ContentKind::ClipboardText),
            5 => Ok(ContentKind::ClipboardBinary),
            6 => Ok(ContentKind::FileManifest),
            7 => Ok(ContentKind::FileChunk),
            8 => Ok(ContentKind::Arbitrary),
            9 => Ok(ContentKind::ClipboardBundle),
            10 => Ok(ContentKind::FileControl),
            11 => Ok(ContentKind::AudioStreamConfig),
            _ => Err(CompactRealtimeError::InvalidContentKind(id)),
        }
    }
}

/// Who goes first when the link is short.
#[derive(Debug, Clone, Copy, PartialEq, Eq, PartialOrd, Ord, Structural)]
pub enum DataPriority {
    Background,
    Normal,
    Interactive,
    Realtime,
}

impl DataPriority {
    /// The priority that traffic of a lane starts with.
    pub open spec fn of_lane(lane: DataLane) -> Self {
        match lane {
            DataLane::RealtimeVideo | DataLane::RealtimeAudio => DataPriority::Realtime,
            DataLane::InteractiveControl => DataPriority::Interactive,
            DataLane::ReliableObject => DataPriority::Normal,
            DataLane::Background => DataPriority::Background,
        }
    }

    /// The identifier on the wire: higher means more urgent.
    pub open spec fn id(self) -> u8 {
        match self {
            DataPriority::Background => 0,
            DataPriority::Normal => 1,
            DataPriority::Interactive => 2,
            DataPriority::Realtime => 3,
        }
    }

    pub fn for_lane(lane: DataLane) -> (r: Self)
        ensures
            r == Self::of_lane(lane),
    {
        match lane {
            DataLane::RealtimeVideo | DataLane::RealtimeAudio => DataPriority::Realtime,
            DataLane::InteractiveControl => DataPriority::Interactive,
            DataLane::ReliableObject => DataPriority::Normal,
            DataLane::Background => DataPriority::Background,
        }
    }

    pub fn wire_id(self) -> (r: u8)
        ensures
            r == self.id(),
    {
        match self {
            DataPriority::Background => 0,
            DataPriority::Normal => 1,
            DataPriority::Interactive => 2,
            DataPriority::Realtime => 3,
        }
    }

    /// The priority with this identifier.
    pub fn from_wire_id(id: u8) -> (r: Result<Self, CompactRealtimeError>)
        ensures
            match r {
                Ok(priority) => priority.id() == id,
                Err(e) => id > 3 && e == CompactRealtimeError::InvalidPriority(id),
            },
    {
        match id {
            0 => Ok(DataPriority::Background),
            1 => Ok(DataPriority::Normal),
            2 => Ok(DataPriority::Interactive),
            3 => Ok(DataPriority::Realtime),
            _ => Err(CompactRealtimeError::InvalidPriority(id)),
        }
    }
}

/// Whether a lost packet is sent again.
#[derive(Debug, Clone, Copy, PartialEq, Eq, Structural)]
pub enum ReliabilityMode {
    BestEffort,
    Reliable,
}

impl ReliabilityMode {
    /// The mode that traffic of a lane starts with.
    pub open spec fn of_lane(lane: DataLane) -> Self {
        if lane.reliable() {
            ReliabilityMode::Reliable
        } else {
            ReliabilityMode::BestEffort
        }
    }

    pub fn for_lane(lane: DataLane) -> (r: Self)
        ensures
            r == Self::of_lane(lane),
    {
        if lane.requires_reliable_delivery() {
            ReliabilityMode::Reliable
        } else {
            ReliabilityMode::BestEffort
        }
    }
}

/// Every lane is either realtime or reliable, and only realtime lanes may drop stale packets.
pub proof fn lane_classes_partition(lane: DataLane)
    ensures
        lane.realtime() != lane.reliable(),
        lane.stale_drop() ==> lane.realtime(),
        ReliabilityMode::of_lane(lane) is BestEffort <==> lane.realtime(),
{
}

/// No two lanes share an identifier, no two kinds do, and no two priorities do.
pub proof fn wire_ids_are_unique(
    lane: DataLane,
    other_lane: DataLane,
    kind: ContentKind,
    other_kind: ContentKind,
    priority: DataPriority,
    other_priority: DataPriority,
)
    ensures
        lane.id() == other_lane.id() ==> lane == other_lane,
        kind.id() == other_kind.id() ==> kind == other_kind,
        priority.id() == other_priority.id() ==> priority == other_priority,
{
}

/// Lanes are numbered from one in the order of their urgency, kinds of content as they are told apart
/// on the wire, and priorities from nought.
pub proof fn wire_ids_are_as_agreed()
    ensures
        DataLane::RealtimeVideo.id() == 1 && DataLane::RealtimeAudio.id() == 2,
        DataLane::InteractiveControl.id() == 3 && DataLane::ReliableObject.id() == 4,
        DataLane::Background.id() == 5,
        ContentKind::VideoH265.id() == 1 && ContentKind::AudioOpus.id() == 2,
        ContentKind::Control.id() == 3 && ContentKind::ClipboardText.id() == 4,
        ContentKind::ClipboardBinary.id() == 5 && ContentKind::FileManifest.id() == 6,
        ContentKind::FileChunk.id() == 7 && ContentKind::Arbitrary.id() == 8,
        ContentKind::ClipboardBundle.id() == 9 && ContentKind::FileControl.id() == 10,
        ContentKind::AudioStreamConfig.id() == 11,
        DataPriority::Background.id() == 0 && DataPriority::Normal.id() == 1,
        DataPriority::Interactive.id() == 2 && DataPriority::Realtime.id() == 3,
{
}

/// Only media may be dropped when it is late, only what is on the last two lanes is sent again when it
/// is lost, and lanes are as urgent as they are numbered. Video and audio travel on lanes of their
/// own, what steers the session on the interactive one, and everything else as objects.
pub proof fn lanes_are_for_their_content(lane: DataLane, kind: ContentKind)
    ensures
        lane.stale_drop() == (lane == DataLane::RealtimeVideo || lane == DataLane::RealtimeAudio),
        lane.reliable() == (lane == DataLane::ReliableObject || lane == DataLane::Background),
        lane.realtime() == (lane.id() <= 3),
        ReliabilityMode::of_lane(lane) == ReliabilityMode::Reliable <==> lane.id() >= 4,
        DataPriority::of_lane(lane) == DataPriority::Realtime <==> lane.id() <= 2,
        DataPriority::of_lane(lane) == DataPriority::Interactive <==> lane.id() == 3,
        DataPriority::of_lane(lane) == DataPriority::Normal <==> lane.id() == 4,
        DataPriority::of_lane(lane) == DataPriority::Background <==> lane.id() == 5,
        kind.lane() == DataLane::RealtimeVideo <==> kind == ContentKind::VideoH265,
        kind.lane() == DataLane::RealtimeAudio <==> kind == ContentKind::AudioOpus,
        kind.lane() == DataLane::InteractiveControl <==> kind == ContentKind::Control || kind
            == ContentKind::FileControl || kind == ContentKind::AudioStreamConfig,
        kind.lane() != DataLane::Background,
{
}

/// Lanes go by their own names.
pub proof fn lanes_go_by_their_names()
    ensures
        DataLane::RealtimeVideo.name_text() == "RealtimeVideo"@,
        DataLane::RealtimeAudio.name_text() == "RealtimeAudio"@,
        DataLane::InteractiveControl.name_text() == "InteractiveControl"@,
        DataLane::ReliableObject.name_text() == "ReliableObject"@,
        DataLane::Background.name_text() == "Background"@,
{
}

} // verus!
