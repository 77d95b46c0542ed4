//! The settings of the video encoders, and when they have to be set up anew.
use crate::protocol::timing::FrameTimingCheckpoints;
use crate::text::{decimal, decimal_text, push_decimal};
use vstd::prelude::*;

verus! {

/// What the low 32 bits of a number mean as a signed number.
pub open spec fn low_signed(n: int) -> int {
    let low = n % 0x1_0000_0000;
    if low < 0x8000_0000 {
        low
    } else {
        low - 0x1_0000_0000
    }
}

fn low_i32(n: u64) -> (r: i32)
    ensures
        r == low_signed(n as int),
{
    let low: u64 = n % 0x1_0000_0000;
    if low < 0x8000_0000 {
        low as i32
    } else {
        (low as i64 - 0x1_0000_0000) as i32
    }
}

/// The properties that an encoder is given for a rate.
#[derive(Debug, Clone, Copy, PartialEq, Eq, Structural)]
pub struct RateProperties {
    /// Bits a second on the average.
    pub average_bit_rate: i64,
    /// Bytes a second at most.
    pub data_rate_limit: i32,
    pub expected_frame_rate: i32,
}

pub open spec fn rate_properties(fps: u32, bitrate_kbps: u32) -> RateProperties {
    RateProperties {
        average_bit_rate: (bitrate_kbps * 1000) as i64,
        data_rate_limit: low_signed((bitrate_kbps * 1000) / 8) as i32,
        expected_frame_rate: low_signed(fps as int) as i32,
    }
}

pub fn encoder_rate(fps: u32, bitrate_kbps: u32) -> (r: RateProperties)
    ensures
        r == rate_properties(fps, bitrate_kbps),
{
    let bits: u64 = bitrate_kbps as u64 * 1000;
    RateProperties {
        average_bit_rate: bits as i64,
        data_rate_limit: low_i32(bits / 8),
        expected_frame_rate: low_i32(fps as u64),
    }
}

/// How a session of the encoder is set up.
#[derive(Debug, Clone, Copy, PartialEq, Eq, Structural)]
pub struct SessionProperties {
    pub width: i32,
    pub height: i32,
    pub rate: RateProperties,
    /// Frames that the encoder may hold back.
    pub max_frame_delay: i32,
    /// Frames from one that decoding can start at to the next, at most.
    pub max_keyframe_interval: i32,
    /// The same in seconds.
    pub max_keyframe_seconds: i32,
}

/// The properties of a session. Frames that decoding can start at come every ten seconds, so that
/// the network does not see a burst every so often.
pub fn session_properties(width: u32, height: u32, fps: u32, bitrate_kbps: u32) -> (r:
    SessionProperties)
    requires
        fps * 10 <= u32::MAX,
    ensures
        r == (SessionProperties {
            width: low_signed(width as int) as i32,
            height: low_signed(height as int) as i32,
            rate: rate_properties(fps, bitrate_kbps),
            max_frame_delay: 0,
            max_keyframe_interval: low_signed(fps * 10) as i32,
            max_keyframe_seconds: 10,
        }),
{
    SessionProperties {
        width: low_i32(width as u64),
        height: low_i32(height as u64),
        rate: encoder_rate(fps, bitrate_kbps),
        max_frame_delay: 0,
        max_keyframe_interval: low_i32((fps * 10) as u64),
        max_keyframe_seconds: 10,
    }
}

/// What new settings ask of an encoder that holds a session.
#[derive(Debug, Clone, Copy, PartialEq, Eq, Structural)]
pub enum EncoderUpdate {
    /// Give the session, if there is one, another rate.
    AdjustRate(RateProperties),
    /// Throw the session away and make another; tell `recreated` what came of it.
    Recreate,
}

/// An encoder that holds a session for one size.
#[derive(Debug)]
pub struct MacVideoEncoder {
    pub width: u32,
    pub height: u32,
    pub fps: u32,
    pub bitrate_kbps: u32,
    pub force_keyframe: bool,
    pub has_session: bool,
}

impl MacVideoEncoder {
    /// An encoder whose session was made.
    pub fn new(width: u32, height: u32, fps: u32, bitrate_kbps: u32) -> (r: Self)
        ensures
            r == (MacVideoEncoder {
                width,
                height,
                fps,
                bitrate_kbps,
                force_keyframe: true,
                has_session: true,
            }),
    {
        MacVideoEncoder {
            width,
            height,
            fps,
            bitrate_kbps,
            force_keyframe: true,
            has_session: true,
        }
    }

    pub fn request_keyframe(&mut self)
        ensures
            *final(self) == (MacVideoEncoder { force_keyframe: true, ..*old(self) }),
    {
        self.force_keyframe = true;
    }

    /// Takes new settings over. A session serves one size only.
    pub fn update_settings(&mut self, width: u32, height: u32, fps: u32, bitrate_kbps: u32) -> (r:
        EncoderUpdate)
        ensures
            if old(self).width == width && old(self).height == height {
                &&& r == EncoderUpdate::AdjustRate(rate_properties(fps, bitrate_kbps))
                &&& *final(self) == (MacVideoEncoder { fps, bitrate_kbps, ..*old(self) })
            } else {
                &&& r == EncoderUpdate::Recreate
                &&& *final(self) == (MacVideoEncoder { has_session: false, ..*old(self) })
            },
    {
        if self.width == width && self.height == height {
            EncoderUpdate::AdjustRate(self.update_rate_settings(fps, bitrate_kbps))
        } else {
            self.has_session = false;
            EncoderUpdate::Recreate
        }
    }

    /// Takes another rate over, for the size that there is.
    pub fn update_rate_settings(&mut self, fps: u32, bitrate_kbps: u32) -> (r: RateProperties)
        ensures
            r == rate_properties(fps, bitrate_kbps),
            *final(self) == (MacVideoEncoder { fps, bitrate_kbps, ..*old(self) }),
    {
        self.fps = fps;
        self.bitrate_kbps = bitrate_kbps;
        encoder_rate(fps, bitrate_kbps)
    }

    /// Takes in what came of making a session for another size. Without one nothing is taken over.
    pub fn recreated(&mut self, made: bool, width: u32, height: u32, fps: u32, bitrate_kbps: u32)
        ensures
            *final(self) == (if made {
                MacVideoEncoder {
                    width,
                    height,
                    fps,
                    bitrate_kbps,
                    force_keyframe: true,
                    has_session: true,
                }
            } else {
                *old(self)
            }),
    {
        if made {
            self.has_session = true;
            self.width = width;
            self.height = height;
            self.fps = fps;
            self.bitrate_kbps = bitrate_kbps;
            self.force_keyframe = true;
        }
    }

    /// Whether the next frame is to be one that decoding can start at; asking settles it.
    pub fn take_keyframe(&mut self) -> (r: bool)
        ensures
            r == old(self).force_keyframe,
            *final(self) == (MacVideoEncoder { force_keyframe: false, ..*old(self) }),
    {
        let r = self.force_keyframe;
        self.force_keyframe = false;
        r
    }
}

/// An encoder that runs as a process of its own, and stands in with empty frames where the process
/// could not be started.
#[derive(Debug)]
pub struct LinuxVideoEncoder {
    pub width: u32,
    pub height: u32,
    pub fps: u32,
    pub bitrate_kbps: u32,
    pub has_source: bool,
    pub placeholder: bool,
    pub force_keyframe: bool,
}

impl LinuxVideoEncoder {
    pub fn new(width: u32, height: u32, fps: u32, bitrate_kbps: u32, started: bool) -> (r: Self)
        ensures
            r == (LinuxVideoEncoder {
                width,
                height,
                fps,
                bitrate_kbps,
                has_source: started,
                placeholder: !started,
                force_keyframe: !started,
            }),
    {
        LinuxVideoEncoder {
            width,
            height,
            fps,
            bitrate_kbps,
            has_source: started,
            placeholder: !started,
            force_keyframe: !started,
        }
    }

    pub fn request_keyframe(&mut self)
        ensures
            *final(self) == (LinuxVideoEncoder { force_keyframe: true, ..*old(self) }),
    {
        self.force_keyframe = true;
    }

    /// Takes new settings over. The flag tells whether to start the process anew; tell `restarted`
    /// what came of it.
    pub fn update_settings(&mut self, width: u32, height: u32, fps: u32, bitrate_kbps: u32) -> (r:
        bool)
        ensures
            *final(self) == (LinuxVideoEncoder { width, height, fps, bitrate_kbps, ..*old(self) }),
            r == !old(self).placeholder,
    {
        self.width = width;
        self.height = height;
        self.fps = fps;
        self.bitrate_kbps = bitrate_kbps;
        !self.placeholder
    }

    /// Takes in whether the process was started anew; the old one goes on where it was not.
    pub fn restarted(&mut self, started: bool)
        ensures
            *final(self) == (LinuxVideoEncoder {
                has_source: old(self).has_source || started,
                ..*old(self)
            }),
    {
        if started {
            self.has_source = true;
        }
    }

    /// The time between empty frames, in milliseconds.
    pub fn placeholder_interval_ms(&self) -> (r: u64)
        ensures
            r == 1000int / (if self.fps < 1 {
                1
            } else {
                self.fps as int
            }),
    {
        let fps: u32 = if self.fps < 1 {
            1
        } else {
            self.fps
        };
        (1000 / fps) as u64
    }

    /// Whether an empty frame stands in for one that decoding can start at; asking settles it.
    pub fn take_keyframe(&mut self) -> (r: bool)
        ensures
            r == old(self).force_keyframe,
            *final(self) == (LinuxVideoEncoder { force_keyframe: false, ..*old(self) }),
    {
        let r = self.force_keyframe;
        self.force_keyframe = false;
        r
    }
}

/// An encoder that runs as a process of its own, or not at all.
#[derive(Debug)]
pub struct WindowsVideoEncoder {
    pub has_source: bool,
    pub force_keyframe: bool,
}

impl WindowsVideoEncoder {
    pub fn new(started: bool) -> (r: Self)
        ensures
            r == (WindowsVideoEncoder { has_source: started, force_keyframe: !started }),
    {
        WindowsVideoEncoder { has_source: started, force_keyframe: !started }
    }

    pub fn request_keyframe(&mut self)
        ensures
            *final(self) == (WindowsVideoEncoder { force_keyframe: true, ..*old(self) }),
    {
        self.force_keyframe = true;
    }

    /// Takes in whether the process was started anew with other settings; the old one goes on where
    /// it was not.
    pub fn update_settings(&mut self, started: bool)
        ensures
            *final(self) == (WindowsVideoEncoder {
                has_source: old(self).has_source || started,
                ..*old(self)
            }),
    {
        if started {
            self.has_source = true;
        }
    }
}

/// A frame that the encoder handed out.
#[derive(Debug, Clone)]
pub struct EncodedChunk {
    pub nalu: Vec<u8>,
    pub capture_time_ms: u32,
    pub is_keyframe: bool,
    pub timing: FrameTimingCheckpoints,
}

/// The time of a frame as its packets carry it: milliseconds, going round.
pub open spec fn wire_time(capture_ts_us: u64) -> u32 {
    ((capture_ts_us / 1000) % 0x1_0000_0000) as u32
}

impl EncodedChunk {
    /// An access unit that took `encode_us` to come out of the process, at `capture_ts_us`.
    pub fn pulled(nalu: Vec<u8>, is_keyframe: bool, capture_ts_us: u64, encode_us: u64) -> (r: Self)
        ensures
            r.nalu == nalu,
            r.is_keyframe == is_keyframe,
            r.capture_time_ms == wire_time(capture_ts_us),
            r.timing == (FrameTimingCheckpoints {
                encode_done_ts_us: (encode_us % 0x1_0000_0000) as u32,
                ..FrameTimingCheckpoints::at(capture_ts_us)
            }),
    {
        let mut timing = FrameTimingCheckpoints::new(capture_ts_us);
        timing.encode_done_ts_us = (encode_us % 0x1_0000_0000) as u32;
        EncodedChunk {
            nalu,
            capture_time_ms: ((capture_ts_us / 1000) % 0x1_0000_0000) as u32,
            is_keyframe,
            timing,
        }
    }

    /// An empty frame that stands in for one.
    pub fn placeholder(is_keyframe: bool, capture_ts_us: u64) -> (r: Self)
        ensures
            r.nalu@.len() == 0,
            r.is_keyframe == is_keyframe,
            r.capture_time_ms == wire_time(capture_ts_us),
            r.timing == FrameTimingCheckpoints::at(capture_ts_us),
    {
        EncodedChunk {
            nalu: Vec::new(),
            capture_time_ms: ((capture_ts_us / 1000) % 0x1_0000_0000) as u32,
            is_keyframe,
            timing: FrameTimingCheckpoints::new(capture_ts_us),
        }
    }
}

/// Where the process captures from.
pub enum CaptureBackend<'a> {
    WindowsDesktop,
    /// The display of that name.
    X11(&'a str),
    /// The graphics card itself.
    Kms,
}

/// What the backend is called, in the log.
pub fn capture_backend_name(windows: bool, wayland: bool) -> (r: &'static str)
    ensures
        r@ == (if windows {
            "gdigrab"@
        } else if wayland {
            "pipewire/wayland"@
        } else {
            "x11grab"@
        }),
{
    if windows {
        "gdigrab"
    } else if wayland {
        "pipewire/wayland"
    } else {
        "x11grab"
    }
}

/// The arguments that say what to capture.
pub open spec fn input_args(backend: CaptureBackend, width: u32, height: u32, fps: u32) -> Seq<
    Seq<char>,
> {
    match backend {
        CaptureBackend::WindowsDesktop => seq![
            "-f"@,
            "gdigrab"@,
            "-framerate"@,
            decimal(fps as nat),
            "-i"@,
            "desktop"@,
        ],
        CaptureBackend::X11(display) => seq![
            "-f"@,
            "x11grab"@,
            "-video_size"@,
            decimal(width as nat) + "x"@ + decimal(height as nat),
            "-framerate"@,
            decimal(fps as nat),
            "-i"@,
            display@,
        ],
        CaptureBackend::Kms => seq![
            "-f"@,
            "kmsgrab"@,
            "-framerate"@,
            decimal(fps as nat),
            "-i"@,
            "/dev/dri/card0"@,
        ],
    }
}

/// The arguments that say how to encode: a frame that decoding can start at every second, and no
/// frame that refers to a later one.
pub open spec fn encoder_args(fps: u32, bitrate_kbps: u32) -> Seq<Seq<char>> {
    let bitrate = decimal(bitrate_kbps as nat) + "k"@;
    let keyint = decimal(
        (if fps < 1 {
            1
        } else {
            fps as int
        }) as nat,
    );
    seq![
        "-pix_fmt"@,
        "yuv420p"@,
        "-c:v"@,
        "libx265"@,
        "-preset"@,
        "ultrafast"@,
        "-tune"@,
        "zerolatency"@,
        "-x265-params"@,
        "keyint="@ + keyint + ":min-keyint="@ + keyint + ":repeat-headers=1:bframes=0"@,
        "-b:v"@,
        bitrate,
        "-maxrate"@,
        bitrate,
        "-bufsize"@,
        bitrate,
        "-f"@,
        "hevc"@,
        "pipe:1"@,
    ]
}

/// The texts of a list of arguments.
pub open spec fn texts(args: Seq<String>) -> Seq<Seq<char>> {
    args.map_values(|a: String| a@)
}

fn push_arg(args: &mut Vec<String>, arg: &str)
    ensures
        texts(final(args)@) == texts(old(args)@).push(arg@),
{
    args.push(arg.to_owned());
    proof {
        assert(texts(args@) =~= texts(old(args)@).push(arg@));
    }
}

/// The arguments for `ffmpeg` to capture the screen and write HEVC to its output.
pub fn capture_command(
    backend: CaptureBackend,
    width: u32,
    height: u32,
    fps: u32,
    bitrate_kbps: u32,
) -> (r: Vec<String>)
    ensures
        texts(r@) == seq!["-hide_banner"@, "-loglevel"@, "error"@] + input_args(
            backend,
            width,
            height,
            fps,
        ) + encoder_args(fps, bitrate_kbps),
{
    let mut args: Vec<String> = Vec::new();
    push_arg(&mut args, "-hide_banner");
    push_arg(&mut args, "-loglevel");
    push_arg(&mut args, "error");
    let rate = decimal_text(fps as u64);
    match backend {
        CaptureBackend::WindowsDesktop => {
            push_arg(&mut args, "-f");
            push_arg(&mut args, "gdigrab");
            push_arg(&mut args, "-framerate");
            push_arg(&mut args, rate.as_str());
            push_arg(&mut args, "-i");
            push_arg(&mut args, "desktop");
        },
        CaptureBackend::X11(display) => {
            let mut size = decimal_text(width as u64);
            size.append("x");
            push_decimal(&mut size, height as u64);
            push_arg(&mut args, "-f");
            push_arg(&mut args, "x11grab");
            push_arg(&mut args, "-video_size");
            push_arg(&mut args, size.as_str());
            push_arg(&mut args, "-framerate");
            push_arg(&mut args, rate.as_str());
            push_arg(&mut args, "-i");
            push_arg(&mut args, display);
        },
        CaptureBackend::Kms => {
            push_arg(&mut args, "-f");
            push_arg(&mut args, "kmsgrab");
            push_arg(&mut args, "-framerate");
            push_arg(&mut args, rate.as_str());
            push_arg(&mut args, "-i");
            push_arg(&mut args, "/dev/dri/card0");
        },
    }
    let ghost head = texts(args@);
    proof {
        assert(head =~= seq!["-hide_banner"@, "-loglevel"@, "error"@] + input_args(
            backend,
            width,
            height,
            fps,
        ));
    }
    let mut bitrate = decimal_text(bitrate_kbps as u64);
    bitrate.append("k");
    let keyint: u32 = if fps < 1 {
        1
    } else {
        fps
    };
    let mut params = "keyint=".to_owned();
    push_decimal(&mut params, keyint as u64);
    params.append(":min-keyint=");
    push_decimal(&mut params, keyint as u64);
    params.append(":repeat-headers=1:bframes=0");
    push_arg(&mut args, "-pix_fmt");
    push_arg(&mut args, "yuv420p");
    push_arg(&mut args, "-c:v");
    push_arg(&mut args, "libx265");
    push_arg(&mut args, "-preset");
    push_arg(&mut args, "ultrafast");
    push_arg(&mut args, "-tune");
    push_arg(&mut args, "zerolatency");
    push_arg(&mut args, "-x265-params");
    push_arg(&mut args, params.as_str());
    push_arg(&mut args, "-b:v");
    push_arg(&mut args, bitrate.as_str());
    push_arg(&mut args, "-maxrate");
    push_arg(&mut args, bitrate.as_str());
    push_arg(&mut args, "-bufsize");
    push_arg(&mut args, bitrate.as_str());
    push_arg(&mut args, "-f");
    push_arg(&mut args, "hevc");
    push_arg(&mut args, "pipe:1");
    proof {
        assert(texts(args@) =~= head + encoder_args(fps, bitrate_kbps));
    }
    args
}

/// An encoder is told its rate in bits a second, the same in bytes a second as its limit, and the
/// frame rate, as long as they fit.
pub proof fn encoders_are_told_their_rate(fps: u32, bitrate_kbps: u32)
    ensures
        ({
            let r = rate_properties(fps, bitrate_kbps);
            &&& r.average_bit_rate == bitrate_kbps * 1000
            &&& bitrate_kbps * 125 <= i32::MAX ==> r.data_rate_limit == bitrate_kbps * 125
            &&& fps <= i32::MAX ==> r.expected_frame_rate == fps
        }),
{
}

/// Frames carry the time of their capture in milliseconds, whose count goes round.
pub proof fn frames_carry_milliseconds(capture_ts_us: u64)
    ensures
        capture_ts_us < 0x1_0000_0000 * 1000 ==> wire_time(capture_ts_us) * 1000 <= capture_ts_us
            < wire_time(capture_ts_us) * 1000 + 1000,
        wire_time(capture_ts_us) as int == (capture_ts_us as int / 1000) % 0x1_0000_0000,
{
}

/// The argument behind the one at `i`.
pub open spec fn set_to(args: Seq<Seq<char>>, i: int, name: Seq<char>, value: Seq<char>) -> bool {
    0 <= i < args.len() - 1 && args[i] == name && args[i + 1] == value
}

/// What is captured, how often and from where: each is told behind its own name.
pub proof fn captures_are_told_what_is_wanted(
    backend: CaptureBackend,
    width: u32,
    height: u32,
    fps: u32,
)
    ensures
        ({
            let args = input_args(backend, width, height, fps);
            match backend {
                CaptureBackend::WindowsDesktop => {
                    &&& args.len() == 6
                    &&& set_to(args, 0, "-f"@, "gdigrab"@)
                    &&& set_to(args, 2, "-framerate"@, decimal(fps as nat))
                    &&& set_to(args, 4, "-i"@, "desktop"@)
                },
                CaptureBackend::X11(display) => {
                    &&& args.len() == 8
                    &&& set_to(args, 0, "-f"@, "x11grab"@)
                    &&& set_to(
                        args,
                        2,
                        "-video_size"@,
                        decimal(width as nat) + "x"@ + decimal(height as nat),
                    )
                    &&& set_to(args, 4, "-framerate"@, decimal(fps as nat))
                    &&& set_to(args, 6, "-i"@, display@)
                },
                CaptureBackend::Kms => {
                    &&& args.len() == 6
                    &&& set_to(args, 0, "-f"@, "kmsgrab"@)
                    &&& set_to(args, 2, "-framerate"@, decimal(fps as nat))
                    &&& set_to(args, 4, "-i"@, "/dev/dri/card0"@)
                },
            }
        }),
{
}

/// How it is encoded: at the rate that was asked for and no other, with a keyframe every second at
/// least, and written to the standard output.
pub proof fn encoders_are_told_what_is_wanted(fps: u32, bitrate_kbps: u32)
    ensures
        ({
            let args = encoder_args(fps, bitrate_kbps);
            let rate = decimal(bitrate_kbps as nat) + "k"@;
            let frames = if fps == 0 {
                decimal(1)
            } else {
                decimal(fps as nat)
            };
            &&& args.len() == 19
            &&& set_to(args, 0, "-pix_fmt"@, "yuv420p"@)
            &&& set_to(args, 2, "-c:v"@, "libx265"@)
            &&& set_to(args, 4, "-preset"@, "ultrafast"@)
            &&& set_to(args, 6, "-tune"@, "zerolatency"@)
            &&& set_to(
                args,
                8,
                "-x265-params"@,
                "keyint="@ + frames + ":min-keyint="@ + frames + ":repeat-headers=1:bframes=0"@,
            )
            &&& set_to(args, 10, "-b:v"@, rate)
            &&& set_to(args, 12, "-maxrate"@, rate)
            &&& set_to(args, 14, "-bufsize"@, rate)
            &&& set_to(args, 16, "-f"@, "hevc"@)
            &&& args[18] == "pipe:1"@
        }),
{
}

} // verus!
