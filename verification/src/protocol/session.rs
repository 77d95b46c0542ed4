//! Versioned connection and independent media subscription control.
use crate::protocol::control::InputEvent;
use vstd::prelude::*;

verus! {

pub const SESSION_VERSION: u32 = 2;

pub const MAX_SUBSCRIPTIONS: usize = 8;

/// What a subscription shows.
#[derive(Debug, Clone, Copy, PartialEq, Eq, Hash, Structural)]
pub enum CaptureSource {
    MainDisplay,
    Display(u32),
    Window(u32),
}

impl Default for CaptureSource {
    fn default() -> (r: Self)
        ensures
            r == CaptureSource::MainDisplay,
    {
        CaptureSource::MainDisplay
    }
}

#[derive(Debug, PartialEq, Eq)]
pub struct CaptureSourceInfo {
    pub source: CaptureSource,
    pub title: String,
    pub application: String,
    pub process_id: Option<i32>,
    pub width: u32,
    pub height: u32,
    pub supports_input: bool,
}

impl Clone for CaptureSourceInfo {
    fn clone(&self) -> (r: Self)
        ensures
            r.source == self.source,
            r.title@ == self.title@,
            r.application@ == self.application@,
            r.process_id == self.process_id,
            r.width == self.width,
            r.height == self.height,
            r.supports_input == self.supports_input,
    {
        CaptureSourceInfo {
            source: self.source,
            title: self.title.clone(),
            application: self.application.clone(),
            process_id: self.process_id,
            width: self.width,
            height: self.height,
            supports_input: self.supports_input,
        }
    }
}

#[derive(Debug, Clone, Copy, PartialEq, Eq, Structural)]
pub struct SubscriptionRequest {
    pub id: u32,
    pub source: CaptureSource,
    pub width: u32,
    pub height: u32,
    pub fps: u32,
    pub bitrate_kbps: u32,
    pub audio: bool,
}

#[derive(Debug, Clone, PartialEq, Eq)]
pub enum SessionCommand {
    ReleaseInput { id: u32 },
    InputReleased { id: u32 },
    Configure {
        id: u32,
        revision: u64,
        width: u32,
        height: u32,
        fps: u32,
        bitrate_kbps: u32,
    },
    Configured { id: u32, revision: u64 },
    Closed { connection_id: u32, reason: String },
    SetClipboard { enabled: bool },
    ClipboardState { enabled: bool },
    Open { connection_id: u32, version: u32 },
    Opened {
        connection_id: u32,
        version: u32,
        max_subscriptions: u32,
        files: bool,
        clipboard: bool,
        window_capture: bool,
    },
    ListSources { request_id: u32 },
    Sources { request_id: u32, sources: Vec<CaptureSourceInfo> },
    Subscribe(SubscriptionRequest),
    Subscribed { id: u32, audio_owner: Option<u32>, supports_input: bool },
    Input { id: u32, event: InputEvent },
    SetActivity { id: u32, revision: u64, video: bool, audio: bool },
    Activity { id: u32, revision: u64, video: bool, audio: bool },
    Unsubscribe { id: u32 },
    Unsubscribed { id: u32 },
    Close { connection_id: u32 },
    Error { request_id: u32, reason: String },
}

pub open spec fn at_least_two(n: u32) -> int {
    if n < 2 {
        2
    } else {
        n as int
    }
}

/// `n` without its lowest bit, but no less than two.
pub open spec fn even_floor(n: int) -> int {
    if n - n % 2 < 2 {
        2
    } else {
        n - n % 2
    }
}

/// One side of a source of size `side` by `other`, scaled down just enough that `side` fits into
/// `limit` and `other` into `other_limit`, rounded down to a whole pixel.
pub open spec fn scaled_side(side: int, other: int, limit: int, other_limit: int) -> int {
    if side <= limit && other <= other_limit {
        side
    } else if limit * other <= other_limit * side {
        limit
    } else {
        (side * other_limit) / other
    }
}

fn scale_side(side: u32, other: u32, limit: u32, other_limit: u32) -> (r: u32)
    requires
        side >= 2,
        other >= 2,
        limit >= 2,
        other_limit >= 2,
    ensures
        r == even_floor(scaled_side(side as int, other as int, limit as int, other_limit as int)),
{
    proof {
        lemma_product_fits(limit, other);
        lemma_product_fits(other_limit, side);
        lemma_product_fits(side, other_limit);
    }
    let whole: u32 = if side <= limit && other <= other_limit {
        side
    } else if limit as u64 * other as u64 <= other_limit as u64 * side as u64 {
        limit
    } else {
        proof {
            lemma_scaled_side_fits(side as int, other as int, limit as int, other_limit as int);
        }
        ((side as u64 * other_limit as u64) / other as u64) as u32
    };
    let even: u32 = whole - whole % 2;
    if even < 2 {
        2
    } else {
        even
    }
}

proof fn lemma_product_fits(a: u32, b: u32)
    ensures
        0 <= a * b <= u64::MAX,
{
    assert(0 <= a * b <= 0xffff_ffff * 0xffff_ffff) by (nonlinear_arith)
        requires
            0 <= a <= 0xffff_ffff,
            0 <= b <= 0xffff_ffff,
    ;
}

/// A scaled side is no longer than the side it came from nor than its limit.
pub proof fn lemma_scaled_side_fits(side: int, other: int, limit: int, other_limit: int)
    requires
        side >= 2,
        other >= 2,
        limit >= 2,
        other_limit >= 2,
    ensures
        0 <= scaled_side(side, other, limit, other_limit) <= limit,
        scaled_side(side, other, limit, other_limit) <= side,
{
    let r = scaled_side(side, other, limit, other_limit);
    if side <= limit && other <= other_limit {
    } else if limit * other <= other_limit * side {
        if limit > side {
            assert(other > other_limit);
            assert(limit * other > other_limit * side) by (nonlinear_arith)
                requires
                    limit > side >= 2,
                    other > other_limit >= 2,
            ;
        }
    } else {
        assert(r <= limit) by (nonlinear_arith)
            requires
                r == (side * other_limit) / other,
                limit * other > other_limit * side,
                other >= 2,
                side >= 2,
                other_limit >= 2,
        ;
        assert(r >= 0) by (nonlinear_arith)
            requires
                r == (side * other_limit) / other,
                other >= 2,
                side >= 2,
                other_limit >= 2,
        ;
        if other_limit >= other {
            assert(side > limit);
            assert(limit * other <= other_limit * side) by (nonlinear_arith)
                requires
                    side > limit >= 2,
                    other_limit >= other >= 2,
            ;
        }
        assert(r <= side) by (nonlinear_arith)
            requires
                r == (side * other_limit) / other,
                other_limit < other,
                other >= 2,
                side >= 2,
        ;
    }
}

/// Fit inside both requested dimensions, preserve source aspect and align 4:2:0
/// output. Rounding is bounded to one pixel per dimension, never stretch to 16:9.
pub fn fit_capture_size(source: (u32, u32), target: (u32, u32)) -> (r: (u32, u32))
    ensures
        r.0 == even_floor(
            scaled_side(
                at_least_two(source.0),
                at_least_two(source.1),
                at_least_two(target.0),
                at_least_two(target.1),
            ),
        ),
        r.1 == even_floor(
            scaled_side(
                at_least_two(source.1),
                at_least_two(source.0),
                at_least_two(target.1),
                at_least_two(target.0),
            ),
        ),
{
    let sw: u32 = if source.0 < 2 { 2 } else { source.0 };
    let sh: u32 = if source.1 < 2 { 2 } else { source.1 };
    let tw: u32 = if target.0 < 2 { 2 } else { target.0 };
    let th: u32 = if target.1 < 2 { 2 } else { target.1 };
    (scale_side(sw, sh, tw, th), scale_side(sh, sw, th, tw))
}

/// A fitted size lies inside the target, inside the source, is even on both sides and has lost
/// less than two pixels to rounding; a source that fits already is only rounded.
pub proof fn fitted_size_fits_both_axes(source: (u32, u32), target: (u32, u32))
    ensures
        ({
            let (sw, sh) = (at_least_two(source.0), at_least_two(source.1));
            let (tw, th) = (at_least_two(target.0), at_least_two(target.1));
            let w = even_floor(scaled_side(sw, sh, tw, th));
            let h = even_floor(scaled_side(sh, sw, th, tw));
            &&& 2 <= w <= tw && w <= sw && w % 2 == 0
            &&& 2 <= h <= th && h <= sh && h % 2 == 0
            &&& (sw <= tw && sh <= th ==> w >= sw - 1 && h >= sh - 1)
            &&& (sw > tw || sh > th ==> w >= tw - 1 || h >= th - 1)
        }),
{
    let (sw, sh) = (at_least_two(source.0), at_least_two(source.1));
    let (tw, th) = (at_least_two(target.0), at_least_two(target.1));
    lemma_scaled_side_fits(sw, sh, tw, th);
    lemma_scaled_side_fits(sh, sw, th, tw);
    assert(tw * sh == sh * tw && th * sw == sw * th) by (nonlinear_arith);
}

/// The aspect of the source survives: before rounding, neither side is off the other's by as much
/// as one pixel.
pub proof fn fitted_size_keeps_aspect(source: (u32, u32), target: (u32, u32))
    ensures
        ({
            let (sw, sh) = (at_least_two(source.0), at_least_two(source.1));
            let (tw, th) = (at_least_two(target.0), at_least_two(target.1));
            let w = scaled_side(sw, sh, tw, th);
            let h = scaled_side(sh, sw, th, tw);
            &&& w * sh - h * sw < sw
            &&& h * sw - w * sh < sh
        }),
{
    let (sw, sh) = (at_least_two(source.0), at_least_two(source.1));
    let (tw, th) = (at_least_two(target.0), at_least_two(target.1));
    let w = scaled_side(sw, sh, tw, th);
    let h = scaled_side(sh, sw, th, tw);
    if sw <= tw && sh <= th {
        assert(w * sh == h * sw) by (nonlinear_arith)
            requires
                w == sw,
                h == sh,
        ;
    } else {
        assert(tw * sh == sh * tw && th * sw == sw * th) by (nonlinear_arith);
        if tw * sh <= th * sw {
            assert(w == tw);
            if th * sw <= tw * sh {
                assert(h == th);
            } else {
                assert(h == (sh * tw) / sw);
                assert(h * sw <= sh * tw < h * sw + sw) by (nonlinear_arith)
                    requires
                        h == (sh * tw) / sw,
                        sw >= 2,
                ;
            }
        } else {
            assert(h == th);
            assert(w == (sw * th) / sh);
            assert(w * sh <= sw * th < w * sh + sh) by (nonlinear_arith)
                requires
                    w == (sw * th) / sh,
                    sh >= 2,
            ;
        }
    }
}

/// Sides are at least two pixels, and even: the largest even number that is no larger, where there is
/// one.
pub proof fn sides_are_even(n: u32, m: int)
    ensures
        n >= 2 ==> at_least_two(n) == n,
        n < 2 ==> at_least_two(n) == 2,
        m >= 2 ==> even_floor(m) % 2 == 0 && m - 1 <= even_floor(m) <= m,
        m < 2 ==> even_floor(m) == 2,
{
}

/// A side that has to shrink becomes as long as it can: within its own limit, and so that the other
/// side, shrunk alike, stays within the other. One that fits stays as it is.
pub proof fn shrunk_sides_are_as_long_as_can_be(
    side: int,
    other: int,
    limit: int,
    other_limit: int,
)
    requires
        side >= 2,
        other >= 2,
        limit >= 2,
        other_limit >= 2,
    ensures
        ({
            let r = scaled_side(side, other, limit, other_limit);
            &&& side <= limit && other <= other_limit ==> r == side
            &&& side > limit || other > other_limit ==> {
                &&& r <= limit
                &&& r * other <= side * other_limit
                &&& r + 1 > limit || (r + 1) * other > side * other_limit
            }
        }),
{
    let q = (side * other_limit) / other;
    assert(q * other <= side * other_limit < (q + 1) * other) by (nonlinear_arith)
        requires
            other >= 2,
            q == (side * other_limit) / other,
    ;
    assert(other_limit * side == side * other_limit) by (nonlinear_arith);
    if limit * other > other_limit * side {
        assert(q < limit) by (nonlinear_arith)
            requires
                q * other <= side * other_limit,
                limit * other > side * other_limit,
                other >= 2,
        ;
    }
}

} // verus!
