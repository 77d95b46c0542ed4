//! Capturing the screen: sizes, rates, and the power of the display.
use crate::protocol::session::{
    at_least_two, even_floor, fit_capture_size, scaled_side, CaptureSource,
};
use crate::protocol::timing::FrameTimingCheckpoints;
use vstd::prelude::*;

verus! {

/// A frame that was captured on Linux.
#[derive(Debug)]
pub struct LinuxVideoFrame {
    pub width: u32,
    pub height: u32,
    pub data: Vec<u8>,
    pub capture_time_ms: u32,
    pub is_keyframe: bool,
}

/// A frame that was captured on Windows; its pixels stay where they are.
#[derive(Debug, Clone, Copy, PartialEq, Eq, Structural)]
pub struct WindowsVideoFrame {
    pub width: u32,
    pub height: u32,
    pub timing: FrameTimingCheckpoints,
}

/// A frame rate that a software capture keeps up with.
pub open spec fn clamped_fps(fps: u32) -> u32 {
    if fps < 15 {
        15
    } else if fps > 120 {
        120
    } else {
        fps
    }
}

fn clamp_fps(fps: u32) -> (r: u32)
    ensures
        r == clamped_fps(fps),
{
    if fps < 15 {
        15
    } else if fps > 120 {
        120
    } else {
        fps
    }
}

/// How a software capture runs.
#[derive(Debug)]
pub struct SoftwareCapturer {
    target_width: u32,
    target_height: u32,
    target_fps: u32,
}

impl SoftwareCapturer {
    pub closed spec fn size(&self) -> (u32, u32) {
        (self.target_width, self.target_height)
    }

    pub closed spec fn fps(&self) -> u32 {
        self.target_fps
    }

    pub closed spec fn wf(&self) -> bool {
        15 <= self.target_fps <= 120
    }

    pub fn new(width: u32, height: u32, fps: u32) -> (r: Self)
        ensures
            r.wf(),
            r.size() == (width, height),
            r.fps() == clamped_fps(fps),
    {
        SoftwareCapturer {
            target_width: width,
            target_height: height,
            target_fps: clamp_fps(fps),
        }
    }

    /// Takes another height and rate over; the width stays.
    pub fn update_resolution_and_fps(&mut self, height: u32, fps: u32)
        requires
            old(self).wf(),
        ensures
            final(self).wf(),
            final(self).size() == (old(self).size().0, height),
            final(self).fps() == clamped_fps(fps),
    {
        self.target_height = height;
        self.target_fps = clamp_fps(fps);
    }

    /// The time from one frame to the next, in microseconds.
    pub fn interval_us(&self) -> (r: u64)
        requires
            self.wf(),
        ensures
            r == 1_000_000int / self.fps() as int,
    {
        (1_000_000 / self.target_fps) as u64
    }

    /// The bytes of a frame, at four for a pixel.
    pub fn frame_bytes(&self) -> (r: u32)
        requires
            self.size().0 * self.size().1 * 4 <= u32::MAX,
        ensures
            r == self.size().0 * self.size().1 * 4,
    {
        proof {
            assert(self.target_width * self.target_height <= self.target_width
                * self.target_height * 4) by (nonlinear_arith)
                requires
                    self.target_width >= 0,
                    self.target_height >= 0,
            ;
        }
        self.target_width * self.target_height * 4
    }

    /// A blank frame, the `frame_count`th.
    pub fn blank_frame(&self, frame_count: u64, capture_time_ms: u32) -> (r: LinuxVideoFrame)
        requires
            self.wf(),
            self.size().0 * self.size().1 * 4 <= u32::MAX,
        ensures
            (r.width, r.height) == self.size(),
            r.data@ == Seq::new((self.size().0 * self.size().1 * 4) as nat, |i: int| 0u8),
            r.capture_time_ms == capture_time_ms,
            r.is_keyframe == (frame_count as int % (self.fps() * 2) == 0),
    {
        let len: usize = self.frame_bytes() as usize;
        let mut data: Vec<u8> = Vec::with_capacity(len);
        while data.len() < len
            invariant
                data@.len() <= len,
                forall|i: int| 0 <= i < data@.len() ==> data@[i] == 0,
            decreases len - data@.len(),
        {
            data.push(0);
        }
        proof {
            assert(data@ =~= Seq::new((self.size().0 * self.size().1 * 4) as nat, |i: int| 0u8));
        }
        LinuxVideoFrame {
            width: self.target_width,
            height: self.target_height,
            data,
            capture_time_ms,
            is_keyframe: self.is_keyframe(frame_count),
        }
    }

    /// Whether a frame is one that decoding can start at: one every two seconds, the first among
    /// them.
    pub fn is_keyframe(&self, frame_count: u64) -> (r: bool)
        requires
            self.wf(),
        ensures
            r == (frame_count as int % (self.fps() * 2) == 0),
    {
        frame_count % (self.target_fps as u64 * 2) == 0
    }
}

/// How a capture by the operating system is set up.
#[derive(Debug, Clone, Copy, PartialEq, Eq, Structural)]
pub struct CaptureConfiguration {
    pub width: u32,
    pub height: u32,
    /// A frame comes at most once in one part of this many of a second.
    pub frames_per_second: i32,
}

/// The configuration for a source of that size.
pub open spec fn configuration_for(
    source: (u32, u32),
    target: (u32, u32),
    fps: u32,
) -> CaptureConfiguration {
    CaptureConfiguration {
        width: even_floor(
            scaled_side(
                at_least_two(source.0),
                at_least_two(source.1),
                at_least_two(target.0),
                at_least_two(target.1),
            ),
        ) as u32,
        height: even_floor(
            scaled_side(
                at_least_two(source.1),
                at_least_two(source.0),
                at_least_two(target.1),
                at_least_two(target.0),
            ),
        ) as u32,
        frames_per_second: if fps * 2 > i32::MAX {
            i32::MAX
        } else {
            (fps * 2) as i32
        },
    }
}

/// How a capture that was paused goes on.
#[derive(Debug, Clone, Copy, PartialEq, Eq, Structural)]
pub enum ResumeStep {
    Continue,
    Start,
}

/// A capture by the operating system.
#[derive(Debug)]
pub struct MacVideoCapturer {
    source: CaptureSource,
    source_size: (u32, u32),
    target_width: u32,
    target_height: u32,
    target_fps: u32,
    streaming: bool,
}

impl MacVideoCapturer {
    pub closed spec fn source(&self) -> CaptureSource {
        self.source
    }

    pub closed spec fn source_size(&self) -> (u32, u32) {
        self.source_size
    }

    /// The size and the rate that are asked for.
    pub closed spec fn target(&self) -> (u32, u32, u32) {
        (self.target_width, self.target_height, self.target_fps)
    }

    pub closed spec fn is_streaming(&self) -> bool {
        self.streaming
    }

    /// What the capture is to be set up as.
    pub open spec fn setup(&self) -> CaptureConfiguration {
        configuration_for(
            self.source_size(),
            (self.target().0, self.target().1),
            self.target().2,
        )
    }

    pub fn new(target_width: u32, target_height: u32, target_fps: u32) -> (r: Self)
        ensures
            r.source() is MainDisplay,
            r.source_size() == (0u32, 0u32),
            r.target() == (target_width, target_height, target_fps),
            !r.is_streaming(),
    {
        MacVideoCapturer {
            source: CaptureSource::MainDisplay,
            source_size: (0, 0),
            target_width,
            target_height,
            target_fps,
            streaming: false,
        }
    }

    pub fn with_source(self, source: CaptureSource) -> (r: Self)
        ensures
            r.source() == source,
            r.source_size() == self.source_size(),
            r.target() == self.target(),
            r.is_streaming() == self.is_streaming(),
    {
        let mut capturer = self;
        capturer.source = source;
        capturer
    }

    pub fn configuration(&self) -> (r: CaptureConfiguration)
        ensures
            r == self.setup(),
    {
        let (width, height) = fit_capture_size(
            self.source_size,
            (self.target_width, self.target_height),
        );
        let doubled: u64 = self.target_fps as u64 * 2;
        let frames_per_second: i32 = if doubled > i32::MAX as u64 {
            i32::MAX
        } else {
            doubled as i32
        };
        CaptureConfiguration { width, height, frames_per_second }
    }

    /// Starts to stream from a source of that size.
    pub fn start(&mut self, size: (u32, u32)) -> (r: CaptureConfiguration)
        ensures
            final(self).source() == old(self).source(),
            final(self).target() == old(self).target(),
            final(self).source_size() == size,
            final(self).is_streaming(),
            r == final(self).setup(),
    {
        self.source_size = size;
        self.streaming = true;
        self.configuration()
    }

    pub fn stop(&mut self) -> (r: bool)
        ensures
            final(self).source() == old(self).source(),
            final(self).target() == old(self).target(),
            final(self).source_size() == old(self).source_size(),
            !final(self).is_streaming(),
            r == old(self).is_streaming(),
    {
        let r = self.streaming;
        self.streaming = false;
        r
    }

    /// What resuming takes: a stream that is there goes on, or one is started.
    pub fn resume(&self) -> (r: ResumeStep)
        ensures
            r == (if self.is_streaming() {
                ResumeStep::Continue
            } else {
                ResumeStep::Start
            }),
    {
        if self.streaming {
            ResumeStep::Continue
        } else {
            ResumeStep::Start
        }
    }

    /// Takes another size and rate over; a stream is then set up as told.
    pub fn update_resolution_and_fps(&mut self, width: u32, height: u32, fps: u32) -> (r: Option<
        CaptureConfiguration,
    >)
        ensures
            final(self).source() == old(self).source(),
            final(self).source_size() == old(self).source_size(),
            final(self).is_streaming() == old(self).is_streaming(),
            final(self).target() == (width, height, fps),
            r == (if old(self).target() != (width, height, fps) && old(self).is_streaming() {
                Some(final(self).setup())
            } else {
                None
            }),
    {
        if self.target_width == width && self.target_height == height && self.target_fps == fps {
            return None;
        }
        self.target_width = width;
        self.target_height = height;
        self.target_fps = fps;
        if self.streaming {
            Some(self.configuration())
        } else {
            None
        }
    }

    /// Looks at the size of the source, at most once a second; a stream is set up as told where it
    /// has changed.
    pub fn refresh_geometry(&mut self, since_check_ms: u64, size: (u32, u32)) -> (r: Option<
        CaptureConfiguration,
    >)
        ensures
            final(self).source() == old(self).source(),
            final(self).target() == old(self).target(),
            final(self).is_streaming() == old(self).is_streaming(),
            final(self).source_size() == (if since_check_ms < 1000 {
                old(self).source_size()
            } else {
                size
            }),
            r == (if since_check_ms >= 1000 && size != old(self).source_size() && old(
                self,
            ).is_streaming() {
                Some(final(self).setup())
            } else {
                None
            }),
    {
        if since_check_ms < 1000 {
            return None;
        }
        if size.0 != self.source_size.0 || size.1 != self.source_size.1 {
            self.source_size = size;
            if self.streaming {
                return Some(self.configuration());
            }
        }
        None
    }
}

/// The holds on the power of the display that were granted: to wake it, and to keep it awake. One
/// that was granted twice is held once.
pub fn granted_assertions(wake: Option<u32>, awake: Option<u32>) -> (r: Vec<u32>)
    ensures
        r@ == (match (wake, awake) {
            (Some(a), Some(b)) => if a == b {
                seq![a]
            } else {
                seq![a, b]
            },
            (Some(a), None) => seq![a],
            (None, Some(b)) => seq![b],
            (None, None) => Seq::empty(),
        }),
{
    let mut ids: Vec<u32> = Vec::new();
    if let Some(a) = wake {
        ids.push(a);
    }
    if let Some(b) = awake {
        if ids.len() == 0 || ids[0] != b {
            ids.push(b);
        }
    }
    proof {
        match (wake, awake) {
            (Some(a), Some(b)) => {
                if a == b {
                    assert(ids@ =~= seq![a]);
                } else {
                    assert(ids@ =~= seq![a, b]);
                }
            },
            (Some(a), None) => {
                assert(ids@ =~= seq![a]);
            },
            (None, Some(b)) => {
                assert(ids@ =~= seq![b]);
            },
            (None, None) => {},
        }
    }
    ids
}

/// Frame rates lie between fifteen and a hundred and twenty; one that does is taken as it is.
pub proof fn frame_rates_are_bounded(fps: u32)
    ensures
        15 <= clamped_fps(fps) <= 120,
        15 <= fps <= 120 ==> clamped_fps(fps) == fps,
        fps < 15 ==> clamped_fps(fps) == 15,
        fps > 120 ==> clamped_fps(fps) == 120,
{
}

/// A capture is set up for twice the frame rate, and for a size with even sides that fits into both
/// source and target: neither side is larger than either, and a source that fits is taken as it is
/// but for an odd pixel.
pub proof fn captures_fit_source_and_target(source: (u32, u32), target: (u32, u32), fps: u32)
    requires
        2 <= source.0 && 2 <= source.1 && 2 <= target.0 && 2 <= target.1,
    ensures
        ({
            let c = configuration_for(source, target, fps);
            &&& c.width % 2 == 0 && 2 <= c.width <= source.0 && c.width <= target.0
            &&& c.height % 2 == 0 && 2 <= c.height <= source.1 && c.height <= target.1
            &&& source.0 <= target.0 && source.1 <= target.1 ==> c.width >= source.0 - 1
                && c.height >= source.1 - 1
            &&& source.0 > target.0 || source.1 > target.1 ==> c.width >= target.0 - 1 || c.height
                >= target.1 - 1
            &&& fps * 2 <= i32::MAX ==> c.frames_per_second == fps * 2
            &&& fps * 2 > i32::MAX ==> c.frames_per_second == i32::MAX
        }),
{
    crate::protocol::session::fitted_size_fits_both_axes(source, target);
}

/// A capture is set up for its own source and target, width to width and height to height: sources and
/// targets with their sides exchanged are captured with their sides exchanged.
pub proof fn captures_are_set_up_side_by_side(
    capture: MacVideoCapturer,
    source: (u32, u32),
    target: (u32, u32),
    fps: u32,
)
    ensures
        capture.source_size() == source && capture.target() == (target.0, target.1, fps)
            ==> capture.setup() == configuration_for(source, target, fps),
        ({
            let upright = configuration_for(source, target, fps);
            let turned = configuration_for(
                (source.1, source.0),
                (target.1, target.0),
                fps,
            );
            turned.width == upright.height && turned.height == upright.width
        }),
{
}

} // verus!
