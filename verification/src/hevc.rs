//! HEVC elementary streams: finding NAL units between start codes, cutting a stream into access
//! units, and the two framings, start codes (Annex B) and length prefixes.
use crate::bytes::{
    be_bytes, be_value, field, get_be, lemma_be_roundtrip, lemma_pow256_values, put_be,
};
use vstd::prelude::*;

verus! {

/// An access unit is cut off once it is longer than this, whatever is in it.
pub const MAX_ACCESS_UNIT_SCAN: usize = 2_097_152;

/// The length of the start code at `i`: four for `0 0 0 1`, three for `0 0 1`, nought for none.
pub open spec fn code_len(s: Seq<u8>, i: int) -> int {
    if i + 4 <= s.len() && s[i] == 0 && s[i + 1] == 0 && s[i + 2] == 0 && s[i + 3] == 1 {
        4
    } else if i + 3 <= s.len() && s[i] == 0 && s[i + 1] == 0 && s[i + 2] == 1 {
        3
    } else {
        0
    }
}

/// The first start code at or behind `from`, or the end of `s`.
pub open spec fn next_code(s: Seq<u8>, from: int) -> int
    decreases s.len() - from,
{
    if from >= s.len() {
        s.len() as int
    } else if code_len(s, from) > 0 {
        from
    } else {
        next_code(s, from + 1)
    }
}

/// The type of a NAL unit, from its first byte.
pub open spec fn type_of_byte(b: u8) -> u8 {
    (b / 2) % 64
}

/// The type of a NAL unit with its start code, if there is anything behind the code.
pub open spec fn unit_type(unit: Seq<u8>) -> Option<u8> {
    let prefix = code_len(unit, 0);
    if prefix < unit.len() {
        Some(type_of_byte(unit[prefix]))
    } else {
        None
    }
}

/// The types of pictures that decoding can start at.
pub open spec fn is_key_type(t: Option<u8>) -> bool {
    t is Some && 16 <= t->0 <= 21
}

proof fn lemma_next_code(s: Seq<u8>, from: int)
    requires
        0 <= from,
    ensures
        from <= s.len() ==> from <= next_code(s, from) <= s.len(),
        next_code(s, from) < s.len() ==> from <= next_code(s, from) && code_len(
            s,
            next_code(s, from),
        ) > 0,
        forall|i: int|
            #![trigger code_len(s, i)]
            from <= i < next_code(s, from) ==> code_len(s, i) == 0,
    decreases s.len() - from,
{
    if from < s.len() && code_len(s, from) == 0 {
        lemma_next_code(s, from + 1);
    }
}

/// The start code that `data` begins with.
pub fn start_code_len(data: &[u8]) -> (r: usize)
    ensures
        r == code_len(data@, 0),
{
    if data.len() >= 4 && data[0] == 0 && data[1] == 0 && data[2] == 0 && data[3] == 1 {
        4
    } else if data.len() >= 3 && data[0] == 0 && data[1] == 0 && data[2] == 1 {
        3
    } else {
        0
    }
}

fn code_len_at(data: &[u8], i: usize) -> (r: usize)
    requires
        i <= data@.len(),
    ensures
        r == code_len(data@, i as int),
{
    let left: usize = data.len() - i;
    if left >= 4 && data[i] == 0 && data[i + 1] == 0 && data[i + 2] == 0 && data[i + 3] == 1 {
        4
    } else if left >= 3 && data[i] == 0 && data[i + 1] == 0 && data[i + 2] == 1 {
        3
    } else {
        0
    }
}

/// The first start code at or behind `from`.
pub fn find_start(data: &[u8], from: usize) -> (r: Option<usize>)
    ensures
        match r {
            Some(at) => at == next_code(data@, from as int) && at < data@.len() && at >= from,
            None => next_code(data@, from as int) == data@.len(),
        },
{
    let mut i: usize = from;
    while i < data.len()
        invariant
            from <= i,
            from <= data@.len() ==> i <= data@.len(),
            next_code(data@, from as int) == next_code(data@, i as int),
        decreases data.len() - i,
    {
        if code_len_at(data, i) > 0 {
            return Some(i);
        }
        i += 1;
    }
    None
}

/// The type of a NAL unit with its start code.
pub fn hevc_nal_type(nal: &[u8]) -> (r: Option<u8>)
    ensures
        r == unit_type(nal@),
{
    let prefix: usize = start_code_len(nal);
    if prefix < nal.len() {
        Some((nal[prefix] / 2) % 64)
    } else {
        None
    }
}

/// The types of units that hold a part of a picture.
pub fn is_hevc_vcl(nal_type: u8) -> (r: bool)
    ensures
        r == (nal_type <= 31),
{
    nal_type <= 31
}

/// A unit starts at the beginning of an access unit, and at every start code in it.
pub open spec fn is_cut(s: Seq<u8>, i: int) -> bool {
    0 <= i < s.len() && (i == 0 || code_len(s, i) > 0)
}

/// The unit from `i` up to the next start code.
pub open spec fn unit_from(s: Seq<u8>, i: int) -> Seq<u8> {
    s.subrange(i, next_code(s, i + 1))
}

fn is_key(t: Option<u8>) -> (r: bool)
    ensures
        r == is_key_type(t),
{
    match t {
        Some(t) => 16 <= t && t <= 21,
        None => false,
    }
}

/// Whether a decoder can start at this access unit.
pub fn is_hevc_keyframe(au: &[u8]) -> (r: bool)
    ensures
        r == exists|i: int| #[trigger] is_cut(au@, i) && is_key_type(unit_type(unit_from(au@, i))),
{
    let mut offset: usize = 0;
    while offset < au.len()
        invariant
            offset < au@.len() ==> is_cut(au@, offset as int),
            offset <= au@.len(),
            forall|i: int|
                #[trigger] is_cut(au@, i) && i < offset ==> !is_key_type(
                    unit_type(unit_from(au@, i)),
                ),
        decreases au.len() - offset,
    {
        proof {
            lemma_next_code(au@, offset + 1);
        }
        let next: usize = match find_start(au, offset + 1) {
            Some(next) => next,
            None => au.len(),
        };
        let key = is_key(hevc_nal_type(vstd::slice::slice_subrange(au, offset, next)));
        if key {
            return true;
        }
        offset = next;
    }
    false
}

/// The place where the access unit at the beginning of `s` ends: before the second picture, or at
/// the first unit that ends beyond the limit. `offset` is where to look on, and `saw_picture` tells
/// whether a picture was passed.
pub open spec fn cut_point(s: Seq<u8>, offset: int, saw_picture: bool) -> Option<int>
    decreases s.len() - offset,
{
    let start = next_code(s, offset);
    let next = next_code(s, start + 3);
    if offset < 0 || start < offset || start >= s.len() || next < start + 3 || next >= s.len() {
        None
    } else {
        let picture = match unit_type(s.subrange(start, next)) {
            Some(t) => t <= 31,
            None => true,
        };
        if picture && saw_picture {
            Some(start)
        } else if next > MAX_ACCESS_UNIT_SCAN {
            Some(next)
        } else {
            cut_point(s, next, saw_picture || picture)
        }
    }
}

/// The beginning of `buffer` that `n` bytes make up, cut off from it.
fn cut_off(buffer: &mut Vec<u8>, n: usize) -> (r: Vec<u8>)
    requires
        n <= old(buffer)@.len(),
    ensures
        r@ == old(buffer)@.take(n as int),
        final(buffer)@ == old(buffer)@.skip(n as int),
{
    let rest = buffer.split_off(n);
    let mut r = rest;
    std::mem::swap(&mut r, buffer);
    proof {
        assert(r@ =~= old(buffer)@.take(n as int));
        assert(buffer@ =~= old(buffer)@.skip(n as int));
    }
    r
}

/// What taking the first access unit out of a stream does: what stands before the first start code
/// is thrown away, and the unit is cut off where it ends.
pub open spec fn taken(stream: Seq<u8>, unit: Option<Seq<u8>>, left: Seq<u8>) -> bool {
    let first = next_code(stream, 0);
    let trimmed = if first < stream.len() {
        stream.skip(first)
    } else {
        stream
    };
    match unit {
        Some(au) => {
            let end = cut_point(trimmed, 0, false);
            &&& first < stream.len()
            &&& end is Some
            &&& au == trimmed.take(end->0)
            &&& left == trimmed.skip(end->0)
            &&& au + left == trimmed
        },
        None => {
            &&& first == stream.len() || cut_point(trimmed, 0, false) is None
            &&& left == trimmed
        },
    }
}

/// A unit's first byte stands at `p`: the end of a start code stands before it.
pub open spec fn unit_head(s: Seq<u8>, p: int) -> bool {
    3 <= p < s.len() && s[p - 3] == 0 && s[p - 2] == 0 && s[p - 1] == 1
}

/// A unit that holds a part of a picture begins at `p`: its type is one of the first thirty-two.
pub open spec fn picture_head(s: Seq<u8>, p: int) -> bool {
    unit_head(s, p) && (s[p] / 2) % 64 <= 31
}

/// A start code of three or of four bytes stands at `i`.
pub open spec fn code_at(s: Seq<u8>, i: int) -> bool {
    ||| 0 <= i && i + 3 <= s.len() && s[i] == 0 && s[i + 1] == 0 && s[i + 2] == 1
    ||| 0 <= i && i + 4 <= s.len() && s[i] == 0 && s[i + 1] == 0 && s[i + 2] == 0 && s[i + 3] == 1
}

/// The stream was cut rightly. A unit that was handed out begins with a start code and holds one
/// picture: no two units in it are parts of pictures, and unless it was cut off for its length, one
/// is, and the next picture begins directly behind it. Nothing is handed out before the second
/// picture is there as a whole, or the length is passed; and nothing but what stands before the
/// first start code is lost.
pub open spec fn cut_by_pictures(stream: Seq<u8>, unit: Option<Seq<u8>>, left: Seq<u8>) -> bool {
    match unit {
        Some(au) => {
            let s = au + left;
            let lost = stream.len() - s.len();
            &&& 0 <= lost
            &&& s == stream.skip(lost)
            &&& forall|p: int| #[trigger] unit_head(stream, p) ==> p >= lost + 3
            &&& code_at(s, 0)
            &&& code_at(left, 0)
            &&& forall|p: int, q: int|
                #[trigger] picture_head(s, p) && #[trigger] picture_head(s, q) && p <= au.len() && q
                    <= au.len() ==> p == q
            &&& if au.len() <= 2_097_152 {
                &&& exists|p: int| p <= au.len() && #[trigger] picture_head(s, p)
                &&& exists|p: int|
                    3 <= p <= 4 && #[trigger] picture_head(left, p) && (p == 4 ==> left[0] == 0)
            } else {
                forall|p: int| #[trigger] unit_head(s, p) && p <= au.len() ==> p <= 2_097_156
            }
        },
        None => {
            let lost = stream.len() - left.len();
            &&& 0 <= lost
            &&& left == stream.skip(lost)
            &&& forall|p: int| #[trigger] unit_head(stream, p) ==> p >= lost + 3
            &&& forall|p: int, q: int, next: int|
                #[trigger] picture_head(left, p) && #[trigger] picture_head(left, q)
                    && #[trigger] unit_head(left, next) ==> !(p < q < next)
            &&& forall|p: int| #[trigger] unit_head(left, p) ==> p <= 2_097_156
        },
    }
}

/// Takes the first access unit out of `buffer` once it is there as a whole. What stands before the
/// first start code is thrown away.
pub fn take_access_unit(buffer: &mut Vec<u8>) -> (r: Option<Vec<u8>>)
    ensures
        taken(old(buffer)@, seen(r), final(buffer)@),
        cut_by_pictures(old(buffer)@, seen(r), final(buffer)@),
{
    let ghost stream = buffer@;
    let first: usize = match find_start(buffer, 0) {
        Some(first) => first,
        None => {
            proof {
                access_units_hold_one_picture(stream, None, stream);
            }
            return None;
        },
    };
    if first > 0 {
        let _dropped = cut_off(buffer, first);
    }
    let ghost trimmed = buffer@;
    proof {
        assert(trimmed =~= stream.skip(first as int));
    }
    let mut offset: usize = 0;
    let mut saw_vcl = false;
    loop
        invariant
            buffer@ == trimmed,
            trimmed == stream.skip(first as int),
            stream == old(buffer)@,
            first == next_code(stream, 0),
            first < stream.len(),
            offset <= trimmed.len(),
            cut_point(trimmed, 0, false) == cut_point(trimmed, offset as int, saw_vcl),
        decreases trimmed.len() - offset,
    {
        proof {
            lemma_next_code(trimmed, offset as int);
        }
        let start: usize = match find_start(buffer, offset) {
            Some(start) => start,
            None => {
                proof {
                    access_units_hold_one_picture(stream, None, trimmed);
                }
                return None;
            },
        };
        proof {
            lemma_next_code(trimmed, start + 3);
            assert(buffer@.len() == buffer.len());
        }
        let next: usize = match find_start(buffer, start + 3) {
            Some(next) => next,
            None => {
                proof {
                    access_units_hold_one_picture(stream, None, trimmed);
                }
                return None;
            },
        };
        let nal_type: u8 = match hevc_nal_type(vstd::slice::slice_subrange(buffer, start, next)) {
            Some(nal_type) => nal_type,
            None => 0,
        };
        if is_hevc_vcl(nal_type) {
            if saw_vcl {
                let au = cut_off(buffer, start);
                proof {
                    assert(au@ + buffer@ =~= trimmed);
                    access_units_hold_one_picture(stream, Some(au@), buffer@);
                }
                return Some(au);
            }
            saw_vcl = true;
        }
        offset = next;
        if offset > MAX_ACCESS_UNIT_SCAN {
            let au = cut_off(buffer, next);
            proof {
                assert(au@ + buffer@ =~= trimmed);
                access_units_hold_one_picture(stream, Some(au@), buffer@);
            }
            return Some(au);
        }
    }
}

/// The NAL units of a stream from `from` on, without their start codes.
pub open spec fn nal_units(s: Seq<u8>, from: int) -> Seq<Seq<u8>>
    decreases s.len() - from,
{
    let at = next_code(s, from);
    let start = at + code_len(s, at);
    let end = next_code(s, start);
    if from < 0 || at < from || at >= s.len() || end < start || start <= at || end > s.len() {
        Seq::empty()
    } else {
        seq![s.subrange(start, end)] + nal_units(s, end)
    }
}

/// The last of the units that has the type `t`.
pub open spec fn last_of_type(units: Seq<Seq<u8>>, t: u8) -> Option<Seq<u8>>
    decreases units.len(),
{
    if units.len() == 0 {
        None
    } else if units.last().len() > 0 && type_of_byte(units.last()[0]) == t {
        Some(units.last())
    } else {
        last_of_type(units.drop_last(), t)
    }
}

/// The pictures among the units, each behind its length in four bytes.
pub open spec fn length_prefixed_pictures(units: Seq<Seq<u8>>) -> Seq<u8>
    decreases units.len(),
{
    if units.len() == 0 {
        Seq::empty()
    } else {
        let unit = units.last();
        let before = length_prefixed_pictures(units.drop_last());
        if unit.len() > 0 && 1 <= type_of_byte(unit[0]) <= 21 {
            before + be_bytes(unit.len(), 4) + unit
        } else {
            before
        }
    }
}

/// What a frame brings: parameter sets where it has them, and its pictures, length-prefixed.
#[derive(Debug)]
pub struct FrameUnits {
    pub vps: Option<Vec<u8>>,
    pub sps: Option<Vec<u8>>,
    pub pps: Option<Vec<u8>>,
    pub pictures: Vec<u8>,
}

/// An optional vector, seen as an optional sequence.
pub open spec fn seen(v: Option<Vec<u8>>) -> Option<Seq<u8>> {
    match v {
        Some(v) => Some(v@),
        None => None,
    }
}

impl FrameUnits {
    /// These are the contents of `units`.
    pub open spec fn of(self, units: Seq<Seq<u8>>) -> bool {
        &&& seen(self.vps) == last_of_type(units, 32)
        &&& seen(self.sps) == last_of_type(units, 33)
        &&& seen(self.pps) == last_of_type(units, 34)
        &&& self.pictures@ == length_prefixed_pictures(units)
    }

    fn add_unit(&mut self, nalu: &[u8], Ghost(units): Ghost<Seq<Seq<u8>>>)
        requires
            old(self).of(units),
        ensures
            final(self).of(units.push(nalu@)),
    {
        proof {
            assert(units.push(nalu@).drop_last() =~= units);
            assert(units.push(nalu@).last() == nalu@);
        }
        if nalu.len() > 0 {
            let nalu_type: u8 = (nalu[0] / 2) % 64;
            if nalu_type == 32 {
                self.vps = Some(vstd::slice::slice_to_vec(nalu));
            } else if nalu_type == 33 {
                self.sps = Some(vstd::slice::slice_to_vec(nalu));
            } else if nalu_type == 34 {
                self.pps = Some(vstd::slice::slice_to_vec(nalu));
            } else if 1 <= nalu_type && nalu_type <= 21 {
                put_be(&mut self.pictures, nalu.len() as u64, 4);
                self.pictures.extend_from_slice(nalu);
                proof {
                    assert(self.pictures@ =~= length_prefixed_pictures(units.push(nalu@)));
                }
            }
        }
    }

    /// Reads a frame between start codes.
    pub fn parse(data: &[u8]) -> (r: Self)
        ensures
            r.of(nal_units(data@, 0)),
            r.pictures@ == behind_lengths(picture_units(nal_units(data@, 0))),
    {
        let mut r = FrameUnits { vps: None, sps: None, pps: None, pictures: Vec::new() };
        let mut offset: usize = 0;
        let ghost mut units: Seq<Seq<u8>> = Seq::empty();
        while offset < data.len()
            invariant
                offset <= data@.len(),
                r.of(units),
                units + nal_units(data@, offset as int) == nal_units(data@, 0),
            decreases data.len() - offset,
        {
            proof {
                lemma_next_code(data@, offset as int);
            }
            let at: usize = match find_start(data, offset) {
                Some(at) => at,
                None => {
                    proof {
                        assert(units + Seq::<Seq<u8>>::empty() =~= units);
                        frames_keep_their_pictures(r, units);
                    }
                    return r;
                },
            };
            let start: usize = at + code_len_at(data, at);
            proof {
                lemma_next_code(data@, start as int);
            }
            let next: usize = match find_start(data, start) {
                Some(next) => next,
                None => data.len(),
            };
            let nalu = vstd::slice::slice_subrange(data, start, next);
            r.add_unit(nalu, Ghost(units));
            proof {
                assert(units.push(nalu@) + nal_units(data@, next as int) =~= units + (seq![nalu@]
                    + nal_units(data@, next as int)));
                units = units.push(nalu@);
            }
            offset = next;
        }
        proof {
            assert(nal_units(data@, offset as int) =~= Seq::<Seq<u8>>::empty());
            assert(units + Seq::<Seq<u8>>::empty() =~= units);
            frames_keep_their_pictures(r, units);
        }
        r
    }
}

/// What a decoder remembers of the parameter sets that it was set up with.
#[derive(Debug)]
pub struct DecoderFormat {
    session: bool,
    last_vps: Vec<u8>,
    last_sps: Vec<u8>,
    last_pps: Vec<u8>,
}

/// How setting up the decoder went.
#[derive(Debug, Clone, Copy, PartialEq, Eq, Structural)]
pub enum FormatOutcome {
    /// The parameter sets were refused; what was there before stays.
    FormatRefused,
    /// The parameter sets were taken, but no session came of them.
    SessionRefused,
    /// There is a session for the new parameter sets.
    Ready,
}

fn same_bytes(a: &Vec<u8>, b: &Vec<u8>) -> (r: bool)
    ensures
        r == (a@ == b@),
{
    if a.len() != b.len() {
        return false;
    }
    let mut i: usize = 0;
    while i < a.len()
        invariant
            i <= a@.len(),
            a@.len() == b@.len(),
            forall|j: int| 0 <= j < i ==> a@[j] == b@[j],
        decreases a.len() - i,
    {
        if a[i] != b[i] {
            return false;
        }
        i += 1;
    }
    proof {
        assert(a@ =~= b@);
    }
    true
}

impl DecoderFormat {
    /// Whether there is a session to decode with.
    pub closed spec fn has_session(&self) -> bool {
        self.session
    }

    /// The parameter sets that were asked for last: video, sequence and picture.
    pub closed spec fn parameters(&self) -> (Seq<u8>, Seq<u8>, Seq<u8>) {
        (self.last_vps@, self.last_sps@, self.last_pps@)
    }

    /// A decoder before its first frame.
    pub fn new() -> (r: Self)
        ensures
            !r.has_session(),
            r.parameters() == (Seq::<u8>::empty(), Seq::<u8>::empty(), Seq::<u8>::empty()),
    {
        DecoderFormat {
            session: false,
            last_vps: Vec::new(),
            last_sps: Vec::new(),
            last_pps: Vec::new(),
        }
    }

    /// Whether the decoder has to be set up for this frame: it brings all three parameter sets, and
    /// they are new or there is no session yet. They are remembered then.
    pub fn needs_setup(&mut self, frame: &FrameUnits) -> (r: bool)
        ensures
            final(self).has_session() == old(self).has_session(),
            r == (frame.vps is Some && frame.sps is Some && frame.pps is Some && (!old(
                self,
            ).has_session() || old(self).parameters() != (
                frame.vps->0@,
                frame.sps->0@,
                frame.pps->0@,
            ))),
            final(self).parameters() == (if r {
                (frame.vps->0@, frame.sps->0@, frame.pps->0@)
            } else {
                old(self).parameters()
            }),
    {
        match (&frame.vps, &frame.sps, &frame.pps) {
            (Some(vps), Some(sps), Some(pps)) => {
                if !self.session || !same_bytes(vps, &self.last_vps) || !same_bytes(
                    sps,
                    &self.last_sps,
                ) || !same_bytes(pps, &self.last_pps) {
                    self.last_vps = vstd::slice::slice_to_vec(vps);
                    self.last_sps = vstd::slice::slice_to_vec(sps);
                    self.last_pps = vstd::slice::slice_to_vec(pps);
                    true
                } else {
                    false
                }
            },
            _ => false,
        }
    }

    /// Takes in how setting up went.
    pub fn set_up(&mut self, outcome: FormatOutcome)
        ensures
            final(self).parameters() == old(self).parameters(),
            final(self).has_session() == (match outcome {
                FormatOutcome::FormatRefused => old(self).has_session(),
                FormatOutcome::SessionRefused => false,
                FormatOutcome::Ready => true,
            }),
    {
        match outcome {
            FormatOutcome::FormatRefused => {},
            FormatOutcome::SessionRefused => {
                self.session = false;
            },
            FormatOutcome::Ready => {
                self.session = true;
            },
        }
    }

    /// Whether there is anything to decode and something to decode it with.
    pub fn check_decodable(&self, frame: &FrameUnits) -> (r: Result<(), &'static str>)
        ensures
            match r {
                Ok(()) => frame.pictures@.len() > 0 && self.has_session(),
                Err(e) => {
                    &&& frame.pictures@.len() == 0 || !self.has_session()
                    &&& e@ == "No frame data or session not ready"@
                },
            },
    {
        if frame.pictures.len() == 0 || !self.session {
            return Err("No frame data or session not ready");
        }
        Ok(())
    }
}

/// Units behind start codes of four bytes.
pub open spec fn annex_b(units: Seq<Seq<u8>>) -> Seq<u8>
    decreases units.len(),
{
    if units.len() == 0 {
        Seq::empty()
    } else {
        seq![0u8, 0, 0, 1] + units.first() + annex_b(units.drop_first())
    }
}

/// The units of a length-prefixed buffer from `from` on, up to the first one that is cut short.
pub open spec fn prefixed_units(s: Seq<u8>, from: int) -> Seq<Seq<u8>>
    decreases s.len() - from,
{
    let len = be_value(field(s, from, 4));
    if from < 0 || from + 4 > s.len() || from + 4 + len > s.len() {
        Seq::empty()
    } else {
        seq![s.subrange(from + 4, from + 4 + len)] + prefixed_units(s, from + 4 + len)
    }
}

proof fn lemma_annex_b_push(units: Seq<Seq<u8>>, unit: Seq<u8>)
    ensures
        annex_b(units.push(unit)) == annex_b(units) + seq![0u8, 0, 0, 1] + unit,
    decreases units.len(),
{
    if units.len() == 0 {
        reveal_with_fuel(annex_b, 2);
        assert(units.push(unit).drop_first() =~= Seq::<Seq<u8>>::empty());
        assert(annex_b(units.push(unit)) =~= seq![0u8, 0, 0, 1] + unit);
        assert(annex_b(units) + seq![0u8, 0, 0, 1] + unit =~= seq![0u8, 0, 0, 1] + unit);
    } else {
        lemma_annex_b_push(units.drop_first(), unit);
        assert(units.push(unit).drop_first() =~= units.drop_first().push(unit));
        assert(annex_b(units.push(unit)) =~= annex_b(units) + seq![0u8, 0, 0, 1] + unit);
    }
}

fn put_unit(out: &mut Vec<u8>, unit: &[u8], Ghost(units): Ghost<Seq<Seq<u8>>>)
    requires
        old(out)@ == annex_b(units),
    ensures
        final(out)@ == annex_b(units.push(unit@)),
{
    proof {
        lemma_annex_b_push(units, unit@);
    }
    out.push(0);
    out.push(0);
    out.push(0);
    out.push(1);
    out.extend_from_slice(unit);
    proof {
        assert(out@ =~= annex_b(units) + seq![0u8, 0, 0, 1] + unit@);
    }
}

/// The bytes of each vector.
pub open spec fn contents(sets: Seq<Vec<u8>>) -> Seq<Seq<u8>> {
    sets.map_values(|v: Vec<u8>| v@)
}

/// Puts what an encoder wrote behind length prefixes behind start codes. A keyframe is given its
/// parameter sets first.
pub fn encoder_output_to_annex_b(
    parameter_sets: &Vec<Vec<u8>>,
    is_keyframe: bool,
    data: &[u8],
) -> (r: Vec<u8>)
    ensures
        r@ == annex_b(
            (if is_keyframe {
                contents(parameter_sets@)
            } else {
                Seq::empty()
            }) + prefixed_units(data@, 0),
        ),
{
    let mut out: Vec<u8> = Vec::new();
    let ghost mut units: Seq<Seq<u8>> = Seq::empty();
    let ghost head: Seq<Seq<u8>> = if is_keyframe {
        contents(parameter_sets@)
    } else {
        Seq::empty()
    };
    if is_keyframe {
        let mut i: usize = 0;
        while i < parameter_sets.len()
            invariant
                i <= parameter_sets@.len(),
                units == contents(parameter_sets@).take(i as int),
                out@ == annex_b(units),
            decreases parameter_sets.len() - i,
        {
            put_unit(&mut out, &parameter_sets[i], Ghost(units));
            proof {
                assert(contents(parameter_sets@).take(i + 1) =~= units.push(
                    parameter_sets@[i as int]@,
                ));
                units = contents(parameter_sets@).take(i + 1);
            }
            i += 1;
        }
        proof {
            assert(units =~= head);
        }
    }
    proof {
        assert(units =~= head);
    }
    let mut offset: usize = 0;
    proof {
        assert(head + prefixed_units(data@, 0) == units + prefixed_units(data@, offset as int));
    }
    while data.len() - offset >= 4
        invariant
            offset <= data@.len(),
            out@ == annex_b(units),
            head + prefixed_units(data@, 0) == units + prefixed_units(data@, offset as int),
        ensures
            out@ == annex_b(units),
            head + prefixed_units(data@, 0) == units,
        decreases data.len() - offset,
    {
        let len: u64 = get_be(data, offset, 4);
        let body: usize = offset + 4;
        if len > (data.len() - body) as u64 {
            proof {
                assert(units + Seq::<Seq<u8>>::empty() =~= units);
            }
            break;
        }
        let end: usize = body + len as usize;
        let unit = vstd::slice::slice_subrange(data, body, end);
        put_unit(&mut out, unit, Ghost(units));
        proof {
            assert(units.push(unit@) + prefixed_units(data@, end as int) =~= units + (seq![unit@]
                + prefixed_units(data@, end as int)));
            units = units.push(unit@);
        }
        offset = end;
        proof {
            if data@.len() - offset < 4 {
                assert(units + Seq::<Seq<u8>>::empty() =~= units);
            }
        }
    }
    out
}

/// An access unit that starts with a code of four bytes opens with a picture that decoding can
/// start at, or with the video parameter set.
pub open spec fn opens_with_keyframe(nalu: Seq<u8>) -> bool {
    nalu.len() > 4 && (16 <= type_of_byte(nalu[4]) <= 21 || type_of_byte(nalu[4]) == 32)
}

/// Whether an access unit is one that decoding can start at, by its first unit.
pub fn opens_keyframe(nalu: &[u8]) -> (r: bool)
    ensures
        r == opens_with_keyframe(nalu@),
{
    if nalu.len() > 4 {
        let nalu_type: u8 = (nalu[4] / 2) % 64;
        (16 <= nalu_type && nalu_type <= 21) || nalu_type == 32
    } else {
        false
    }
}

/// No start code lies in the unit.
pub open spec fn free_of_codes(unit: Seq<u8>) -> bool {
    forall|i: int| 0 <= i < unit.len() ==> #[trigger] code_len(unit, i) == 0
}

proof fn lemma_shift(prefix: Seq<u8>, s: Seq<u8>, i: int)
    requires
        0 <= i <= s.len(),
    ensures
        code_len(prefix + s, prefix.len() + i) == code_len(s, i),
        next_code(prefix + s, prefix.len() + i) == prefix.len() + next_code(s, i),
    decreases s.len() - i,
{
    let whole = prefix + s;
    let p = prefix.len() as int;
    if i + 3 <= s.len() {
        assert(whole[p + i] == s[i] && whole[p + i + 1] == s[i + 1] && whole[p + i + 2]
            == s[i + 2]);
    }
    if i + 4 <= s.len() {
        assert(whole[p + i + 3] == s[i + 3]);
    }
    if i < s.len() {
        lemma_shift(prefix, s, i + 1);
    }
}

proof fn lemma_shift_units(prefix: Seq<u8>, s: Seq<u8>, i: int)
    requires
        0 <= i <= s.len(),
    ensures
        nal_units(prefix + s, prefix.len() + i) == nal_units(s, i),
    decreases s.len() - i,
{
    let whole = prefix + s;
    let p = prefix.len() as int;
    lemma_shift(prefix, s, i);
    lemma_next_code(s, i);
    let at = next_code(s, i);
    if at < s.len() {
        lemma_shift(prefix, s, at);
        let start = at + code_len(s, at);
        lemma_shift(prefix, s, start);
        lemma_next_code(s, start);
        let end = next_code(s, start);
        lemma_shift_units(prefix, s, end);
        assert(whole.subrange(p + start, p + end) =~= s.subrange(start, end));
    }
}

/// In a unit that is free of codes, followed by nothing or by a start code of four bytes, the first
/// code from `i` on is the one behind the unit.
proof fn lemma_code_behind_unit(unit: Seq<u8>, rest: Seq<u8>, i: int)
    requires
        0 <= i <= unit.len(),
        free_of_codes(unit),
        rest.len() == 0 || rest.len() >= 4 && rest[0] == 0 && rest[1] == 0 && rest[2] == 0
            && rest[3] == 1,
    ensures
        next_code(unit + rest, i) == unit.len(),
    decreases unit.len() - i,
{
    let s = unit + rest;
    if i < unit.len() {
        assert(code_len(unit, i) == 0);
        assert(code_len(s, i) == 0) by {
            if i + 4 <= unit.len() {
                assert(s[i] == unit[i] && s[i + 1] == unit[i + 1] && s[i + 2] == unit[i + 2]
                    && s[i + 3] == unit[i + 3]);
            } else if i + 3 <= unit.len() {
                assert(s[i] == unit[i] && s[i + 1] == unit[i + 1] && s[i + 2] == unit[i + 2]);
                if rest.len() > 0 {
                    assert(s[i + 3] == rest[0]);
                }
            } else if rest.len() > 0 {
                assert(s[i + 2] == rest[i + 2 - unit.len()]);
                assert(s[i + 3] == rest[i + 3 - unit.len()]);
            }
        }
        lemma_code_behind_unit(unit, rest, i + 1);
    } else if rest.len() > 0 {
        assert(s[i] == rest[0] && s[i + 1] == rest[1] && s[i + 2] == rest[2] && s[i + 3]
            == rest[3]);
        assert(code_len(s, i) == 4);
    }
}

/// What one side puts behind start codes, the other side takes apart again: units that are free of
/// start codes come back as they were, in their order.
pub proof fn annex_b_units_come_back(units: Seq<Seq<u8>>)
    requires
        forall|i: int| 0 <= i < units.len() ==> free_of_codes(#[trigger] units[i]),
    ensures
        nal_units(annex_b(units), 0) == units,
    decreases units.len(),
{
    let s = annex_b(units);
    if units.len() == 0 {
        assert(nal_units(s, 0) =~= units);
    } else {
        let unit = units.first();
        let rest = annex_b(units.drop_first());
        let code = seq![0u8, 0, 0, 1];
        assert forall|i: int| 0 <= i < units.drop_first().len() implies free_of_codes(
            #[trigger] units.drop_first()[i],
        ) by {
            assert(units.drop_first()[i] == units[i + 1]);
        }
        annex_b_units_come_back(units.drop_first());
        assert(units[0] == unit);
        assert(s =~= code + (unit + rest));
        assert(s =~= (code + unit) + rest);
        assert(code_len(s, 0) == 4);
        assert(next_code(s, 0) == 0);
        if units.drop_first().len() > 0 {
            assert(rest =~= code + (units.drop_first().first() + annex_b(
                units.drop_first().drop_first(),
            )));
        }
        lemma_code_behind_unit(unit, rest, 0);
        lemma_shift(code, unit + rest, 0);
        assert(next_code(s, 4) == 4 + unit.len());
        lemma_shift_units(code + unit, rest, 0);
        assert(s.subrange(4, 4 + unit.len() as int) =~= unit);
        assert(seq![unit] + units.drop_first() =~= units);
    }
}

/// A start code that was found stays the first one, whatever follows.
proof fn lemma_code_stays(s: Seq<u8>, more: Seq<u8>, from: int)
    requires
        0 <= from,
        next_code(s, from) < s.len(),
    ensures
        next_code(s + more, from) == next_code(s, from),
    decreases s.len() - from,
{
    lemma_next_code(s, from);
    let at = next_code(s, from);
    assert(at + 3 <= s.len());
    if from < at {
        assert(code_len(s, from) == 0);
        assert(code_len(s + more, from) == 0);
        lemma_code_stays(s, more, from + 1);
    }
}

proof fn lemma_cut_stays(s: Seq<u8>, more: Seq<u8>, offset: int, saw_picture: bool)
    requires
        cut_point(s, offset, saw_picture) is Some,
    ensures
        cut_point(s + more, offset, saw_picture) == cut_point(s, offset, saw_picture),
    decreases s.len() - offset,
{
    let start = next_code(s, offset);
    let next = next_code(s, start + 3);
    lemma_code_stays(s, more, offset);
    lemma_code_stays(s, more, start + 3);
    assert((s + more).subrange(start, next) =~= s.subrange(start, next));
    let picture = match unit_type(s.subrange(start, next)) {
        Some(t) => t <= 31,
        None => true,
    };
    if !(picture && saw_picture) && next <= MAX_ACCESS_UNIT_SCAN {
        lemma_cut_stays(s, more, next, saw_picture || picture);
    }
}

/// An access unit that is there as a whole is the same however much of the stream has come in: more
/// of it changes neither where the unit begins nor where it ends.
pub proof fn access_units_do_not_wait_for_more(stream: Seq<u8>, more: Seq<u8>)
    requires
        next_code(stream, 0) < stream.len(),
        cut_point(stream.skip(next_code(stream, 0)), 0, false) is Some,
    ensures
        next_code(stream + more, 0) == next_code(stream, 0),
        cut_point((stream + more).skip(next_code(stream, 0)), 0, false) == cut_point(
            stream.skip(next_code(stream, 0)),
            0,
            false,
        ),
{
    let first = next_code(stream, 0);
    lemma_next_code(stream, 0);
    lemma_code_stays(stream, more, 0);
    assert((stream + more).skip(first) =~= stream.skip(first) + more);
    lemma_cut_stays(stream.skip(first), more, 0, false);
}

proof fn lemma_code(s: Seq<u8>, i: int)
    ensures
        0 <= i ==> ((code_len(s, i) > 0) == code_at(s, i)),
        0 <= i && code_len(s, i) > 0 && i + code_len(s, i) < s.len() ==> unit_head(
            s,
            i + code_len(s, i),
        ),
        unit_head(s, i) ==> code_len(s, i - 3) == 3,
{
}

/// From a start code up to the next one there is one unit head.
proof fn lemma_one_head(s: Seq<u8>, start: int)
    requires
        0 <= start,
        code_len(s, start) > 0,
    ensures
        ({
            let next = next_code(s, start + 3);
            let h = start + code_len(s, start);
            &&& start + 3 <= next <= s.len()
            &&& h <= next
            &&& next < s.len() ==> unit_head(s, h)
            &&& forall|p: int|
                #[trigger] unit_head(s, p) && start + 3 <= p && (p <= next + 2 || next == s.len())
                    ==> p == h
            &&& next < s.len() ==> (picture_head(s, h) == (match unit_type(
                s.subrange(start, next),
            ) {
                Some(t) => t <= 31,
                None => true,
            }))
        }),
{
    let next = next_code(s, start + 3);
    let h = start + code_len(s, start);
    lemma_next_code(s, start + 3);
    if code_len(s, start) == 4 {
        assert(code_len(s, start + 3) == 0);
    }
    assert forall|p: int|
        #[trigger] unit_head(s, p) && start + 3 <= p && (p <= next + 2 || next
            == s.len()) implies p == h by {
        lemma_code(s, p);
        if p - 3 >= start + 3 {
            assert(code_len(s, p - 3) == 0);
        }
    }
    if next < s.len() {
        lemma_code(s, start);
        let unit = s.subrange(start, next);
        assert(unit[0] == s[start] && unit[1] == s[start + 1] && unit[2] == s[start + 2]);
        if unit.len() >= 4 {
            assert(unit[3] == s[start + 3]);
        }
        assert(code_len(unit, 0) == code_len(s, start));
        if h < next {
            assert(unit[h - start] == s[h]);
        } else {
            assert(code_len(s, next) > 0);
            assert(s[next] == 0);
        }
    }
}

proof fn lemma_cut_holds_one(s: Seq<u8>, offset: int, saw_picture: bool)
    requires
        0 <= offset <= 2_097_152,
        code_len(s, offset) > 0,
        cut_point(s, offset, saw_picture) is Some,
    ensures
        ({
            let end = cut_point(s, offset, saw_picture)->0;
            &&& offset <= end < s.len()
            &&& !saw_picture ==> offset < end
            &&& code_len(s, end) > 0
            &&& forall|p: int, q: int|
                #[trigger] picture_head(s, p) && #[trigger] picture_head(s, q) && offset + 3 <= p
                    <= end && offset + 3 <= q <= end ==> p == q
            &&& saw_picture ==> forall|p: int|
                #[trigger] picture_head(s, p) ==> !(offset + 3 <= p <= end)
            &&& if end <= 2_097_152 {
                &&& !saw_picture ==> exists|p: int|
                    offset + 3 <= p <= end && #[trigger] picture_head(s, p)
                &&& picture_head(s, end + code_len(s, end))
            } else {
                forall|p: int|
                    #[trigger] unit_head(s, p) && offset + 3 <= p <= end ==> p <= 2_097_156
            }
        }),
    decreases s.len() - offset,
{
    let start = next_code(s, offset);
    assert(start == offset);
    let next = next_code(s, start + 3);
    let h = start + code_len(s, start);
    lemma_one_head(s, start);
    lemma_next_code(s, start + 3);
    let picture = picture_head(s, h);
    let end = cut_point(s, offset, saw_picture)->0;
    if picture && saw_picture {
    } else if next > MAX_ACCESS_UNIT_SCAN {
    } else {
        lemma_cut_holds_one(s, next, saw_picture || picture);
        assert forall|p: int| #[trigger] unit_head(s, p) && offset + 3 <= p <= end implies p == h || p
            >= next + 3 by {}
        if picture {
            assert(offset + 3 <= h <= end);
        }
    }
}

proof fn lemma_no_cut(s: Seq<u8>, offset: int, saw_picture: bool)
    requires
        0 <= offset <= 2_097_152,
        code_len(s, offset) > 0,
        cut_point(s, offset, saw_picture) is None,
    ensures
        forall|p: int, q: int, next: int|
            #[trigger] picture_head(s, p) && #[trigger] picture_head(s, q) && #[trigger] unit_head(
                s,
                next,
            ) && offset + 3 <= p ==> !(p < q < next),
        saw_picture ==> forall|p: int, next: int|
            #[trigger] picture_head(s, p) && #[trigger] unit_head(s, next) && offset + 3 <= p ==> !(p
                < next),
        forall|p: int| #[trigger] unit_head(s, p) && offset + 3 <= p ==> p <= 2_097_156,
    decreases s.len() - offset,
{
    let start = next_code(s, offset);
    assert(start == offset);
    let next = next_code(s, start + 3);
    let h = start + code_len(s, start);
    lemma_one_head(s, start);
    lemma_next_code(s, start + 3);
    if next < s.len() {
        let picture = picture_head(s, h);
        lemma_no_cut(s, next, saw_picture || picture);
        assert forall|p: int| #[trigger] unit_head(s, p) && offset + 3 <= p implies p == h || p >= next
            + 3 by {}
    }
}

proof fn lemma_heads_before(stream: Seq<u8>)
    ensures
        forall|p: int| #[trigger] unit_head(stream, p) ==> p >= next_code(stream, 0) + 3,
{
    lemma_next_code(stream, 0);
    assert forall|p: int| #[trigger] unit_head(stream, p) implies p >= next_code(stream, 0) + 3 by {
        lemma_code(stream, p);
        if p - 3 < next_code(stream, 0) {
            assert(code_len(stream, p - 3) == 0);
        }
    }
}

/// Access units hold one picture each.
pub proof fn access_units_hold_one_picture(stream: Seq<u8>, unit: Option<Seq<u8>>, left: Seq<u8>)
    requires
        taken(stream, unit, left),
    ensures
        cut_by_pictures(stream, unit, left),
{
    let first = next_code(stream, 0);
    lemma_next_code(stream, 0);
    lemma_heads_before(stream);
    if first < stream.len() {
        let s = stream.skip(first);
        assert(code_len(stream, first) > 0);
        assert(code_len(s, 0) > 0) by {
            assert(s[0] == stream[first] && s[1] == stream[first + 1] && s[2] == stream[first + 2]);
            if first + 4 <= stream.len() {
                assert(s[3] == stream[first + 3]);
            }
        }
        lemma_code(s, 0);
        match unit {
            Some(au) => {
                let end = cut_point(s, 0, false)->0;
                lemma_cut_holds_one(s, 0, false);
                lemma_code(s, end);
                assert(au.len() == end);
                assert(au + left == s);
                assert(code_at(left, 0)) by {
                    assert(left[0] == s[end] && left[1] == s[end + 1] && left[2] == s[end + 2]);
                    if end + 4 <= s.len() {
                        assert(left[3] == s[end + 3]);
                    }
                }
                assert(stream.skip(stream.len() - s.len()) =~= s);
                if end <= 2_097_152 {
                    let n = code_len(s, end);
                    assert(picture_head(s, end + n));
                    assert(left[n] == s[end + n] && left[n - 1] == s[end + n - 1] && left[n - 2]
                        == s[end + n - 2] && left[n - 3] == s[end + n - 3]);
                    assert(picture_head(left, n));
                }
            },
            None => {
                lemma_no_cut(s, 0, false);
                assert(stream.skip(stream.len() - s.len()) =~= s);
            },
        }
    } else {
        assert(stream.skip(0) =~= stream);
        assert forall|p: int| !(#[trigger] unit_head(stream, p)) by {
            if unit_head(stream, p) {
                lemma_code(stream, p);
                assert(code_len(stream, p - 3) == 0);
            }
        }
    }
}

/// A decoder can start at an access unit exactly if some unit in it has one of the types sixteen to
/// twenty-one. A unit without a start code is one, too, where it stands first.
pub proof fn keyframes_hold_a_picture_to_start_at(au: Seq<u8>)
    ensures
        (exists|i: int| #[trigger] is_cut(au, i) && is_key_type(unit_type(unit_from(au, i)))) == (
        exists|p: int|
            (#[trigger] unit_head(au, p) || (p == 0 && au.len() > 0 && !code_at(au, 0))) && 16 <= (
            au[p] / 2) % 64 <= 21),
{
    if exists|i: int| #[trigger] is_cut(au, i) && is_key_type(unit_type(unit_from(au, i))) {
        let i = choose|i: int| #[trigger]
            is_cut(au, i) && is_key_type(unit_type(unit_from(au, i)));
        lemma_code(au, i);
        lemma_next_code(au, i + 1);
        let next = next_code(au, i + 1);
        let unit = unit_from(au, i);
        if code_len(au, i) == 4 {
            assert(code_len(au, i + 1) == 3);
            assert(next == i + 1);
            assert(unit[0] == 0);
        } else if code_len(au, i) == 3 {
            assert(code_len(au, i + 1) == 0 && code_len(au, i + 2) == 0);
            assert(next >= i + 3);
            assert(unit[0] == au[i] && unit[1] == au[i + 1] && unit[2] == au[i + 2]);
            assert(code_len(unit, 0) == 3);
            assert(unit[3] == au[i + 3]);
            assert(unit_head(au, i + 3));
        } else {
            assert(i == 0);
            assert(unit[0] == au[0]);
            if unit.len() >= 3 {
                assert(unit[1] == au[1] && unit[2] == au[2]);
            }
            if unit.len() >= 4 {
                assert(unit[3] == au[3]);
            }
            assert(code_len(unit, 0) == 0);
            assert(!unit_head(au, 0));
        }
    }
    if exists|p: int|
        (#[trigger] unit_head(au, p) || (p == 0 && au.len() > 0 && !code_at(au, 0))) && 16 <= (
        au[p] / 2) % 64 <= 21 {
        let p = choose|p: int|
            (#[trigger] unit_head(au, p) || (p == 0 && au.len() > 0 && !code_at(au, 0))) && 16 <= (
            au[p] / 2) % 64 <= 21;
        lemma_code(au, p);
        lemma_code(au, 0);
        let i = if unit_head(au, p) { p - 3 } else { 0 };
        lemma_next_code(au, i + 1);
        let next = next_code(au, i + 1);
        let unit = unit_from(au, i);
        assert(is_cut(au, i));
        if unit_head(au, p) {
            assert(code_len(au, i + 1) == 0 && code_len(au, i + 2) == 0 && code_len(au, p) == 0);
            assert(next > p);
            assert(unit[0] == au[i] && unit[1] == au[i + 1] && unit[2] == au[i + 2] && unit[3]
                == au[p]);
            assert(code_len(unit, 0) == 3);
        } else {
            assert(unit[0] == au[0]);
            if unit.len() >= 3 {
                assert(unit[1] == au[1] && unit[2] == au[2]);
            }
            if unit.len() >= 4 {
                assert(unit[3] == au[3]);
            }
            assert(code_len(unit, 0) == 0);
        }
        assert(is_key_type(unit_type(unit)));
    }
}

/// The units of the types one to twenty-one that are not empty, in their order.
pub open spec fn picture_units(units: Seq<Seq<u8>>) -> Seq<Seq<u8>> {
    units.filter(|unit: Seq<u8>| unit.len() > 0 && 1 <= (unit[0] / 2) % 64 <= 21)
}

/// Units behind their lengths in four bytes each, the most significant byte first.
pub open spec fn behind_lengths(units: Seq<Seq<u8>>) -> Seq<u8>
    decreases units.len(),
{
    if units.len() == 0 {
        Seq::empty()
    } else {
        let n = units.first().len();
        seq![
            (n / 0x100_0000 % 0x100) as u8,
            (n / 0x1_0000 % 0x100) as u8,
            (n / 0x100 % 0x100) as u8,
            (n % 0x100) as u8,
        ] + units.first() + behind_lengths(units.drop_first())
    }
}

proof fn lemma_length_bytes(n: nat)
    ensures
        be_bytes(n, 4) == seq![
            (n / 0x100_0000 % 0x100) as u8,
            (n / 0x1_0000 % 0x100) as u8,
            (n / 0x100 % 0x100) as u8,
            (n % 0x100) as u8,
        ],
{
    reveal_with_fuel(be_bytes, 5);
    assert(n / 256 / 256 == n / 0x1_0000);
    assert(n / 256 / 256 / 256 == n / 0x100_0000);
    assert(be_bytes(n, 4) =~= seq![
        (n / 0x100_0000 % 0x100) as u8,
        (n / 0x1_0000 % 0x100) as u8,
        (n / 0x100 % 0x100) as u8,
        (n % 0x100) as u8,
    ]);
}

proof fn lemma_behind_lengths_push(units: Seq<Seq<u8>>, unit: Seq<u8>)
    ensures
        behind_lengths(units.push(unit)) == behind_lengths(units) + be_bytes(unit.len(), 4) + unit,
    decreases units.len(),
{
    lemma_length_bytes(unit.len());
    if units.len() == 0 {
        reveal_with_fuel(behind_lengths, 2);
        assert(units.push(unit).drop_first() =~= Seq::<Seq<u8>>::empty());
        assert(behind_lengths(units.push(unit)) =~= behind_lengths(units) + be_bytes(unit.len(), 4)
            + unit);
    } else {
        lemma_behind_lengths_push(units.drop_first(), unit);
        assert(units.push(unit).drop_first() =~= units.drop_first().push(unit));
        assert(behind_lengths(units.push(unit)) =~= behind_lengths(units) + be_bytes(unit.len(), 4)
            + unit);
    }
}

/// Units shorter than four gibibytes come back out of what puts them behind their lengths.
pub proof fn lengths_lead_to_the_units(units: Seq<Seq<u8>>)
    requires
        forall|i: int| 0 <= i < units.len() ==> (#[trigger] units[i]).len() < 0x1_0000_0000,
    ensures
        prefixed_units(behind_lengths(units), 0) == units,
{
    lemma_prefixed(Seq::empty(), units);
    assert(Seq::<u8>::empty() + behind_lengths(units) =~= behind_lengths(units));
}

proof fn lemma_prefixed(before: Seq<u8>, units: Seq<Seq<u8>>)
    requires
        forall|i: int| 0 <= i < units.len() ==> (#[trigger] units[i]).len() < 0x1_0000_0000,
    ensures
        prefixed_units(before + behind_lengths(units), before.len() as int) == units,
    decreases units.len(),
{
    let s = before + behind_lengths(units);
    let from = before.len() as int;
    if units.len() == 0 {
        assert(s.len() == from);
        assert(prefixed_units(s, from) =~= units);
    } else {
        let unit = units[0];
        let head = be_bytes(unit.len(), 4);
        lemma_length_bytes(unit.len());
        lemma_pow256_values();
        lemma_be_roundtrip(unit.len(), 4);
        let rest = behind_lengths(units.drop_first());
        assert(s =~= before + (head + unit + rest));
        assert(field(s, from, 4) =~= head);
        assert(s.subrange(from + 4, from + 4 + unit.len() as int) =~= unit);
        let next = before + head + unit;
        assert(s =~= next + rest);
        assert forall|i: int| 0 <= i < units.drop_first().len() implies (
        #[trigger] units.drop_first()[i]).len() < 0x1_0000_0000 by {
            assert(units.drop_first()[i] == units[i + 1]);
        }
        lemma_prefixed(next, units.drop_first());
        assert(next.len() as int == from + 4 + unit.len());
        assert(seq![unit] + units.drop_first() =~= units);
    }
}

proof fn lemma_pictures(units: Seq<Seq<u8>>)
    ensures
        length_prefixed_pictures(units) == behind_lengths(picture_units(units)),
    decreases units.len(),
{
    reveal(Seq::filter);
    if units.len() > 0 {
        lemma_pictures(units.drop_last());
        let kept = picture_units(units.drop_last());
        let unit = units.last();
        if unit.len() > 0 && 1 <= (unit[0] / 2) % 64 <= 21 {
            lemma_behind_lengths_push(kept, unit);
            assert(picture_units(units) =~= kept.push(unit));
        } else {
            assert(picture_units(units) =~= kept);
        }
    }
}

proof fn lemma_last_of_type(units: Seq<Seq<u8>>, t: u8)
    ensures
        match last_of_type(units, t) {
            Some(set) => exists|i: int|
                0 <= i < units.len() && #[trigger] units[i] == set && set.len() > 0 && (set[0] / 2)
                    % 64 == t && forall|j: int|
                    i < j < units.len() && (#[trigger] units[j]).len() > 0 ==> (units[j][0] / 2)
                        % 64 != t,
            None => forall|j: int|
                0 <= j < units.len() && (#[trigger] units[j]).len() > 0 ==> (units[j][0] / 2) % 64
                    != t,
        },
    decreases units.len(),
{
    if units.len() > 0 {
        let before = units.drop_last();
        lemma_last_of_type(before, t);
        assert forall|j: int| 0 <= j < before.len() implies before[j] == units[j] by {}
        let n = units.len() - 1;
        if units[n].len() > 0 && (units[n][0] / 2) % 64 == t {
            assert(units[n] == units.last());
        } else if last_of_type(units, t) is Some {
            let set = last_of_type(units, t)->0;
            let i = choose|i: int|
                0 <= i < before.len() && #[trigger] before[i] == set && set.len() > 0 && (set[0]
                    / 2) % 64 == t && forall|j: int|
                    i < j < before.len() && (#[trigger] before[j]).len() > 0 ==> (before[j][0] / 2)
                        % 64 != t;
            assert(units[i] == set);
            assert forall|j: int|
                i < j < units.len() && (#[trigger] units[j]).len() > 0 implies (units[j][0] / 2)
                % 64 != t by {
                if j < n {
                    assert(before[j] == units[j]);
                }
            }
        } else {
            assert forall|j: int|
                0 <= j < units.len() && (#[trigger] units[j]).len() > 0 implies (units[j][0] / 2)
                % 64 != t by {
                if j < n {
                    assert(before[j] == units[j]);
                }
            }
        }
    }
}

proof fn lemma_kept_from(units: Seq<Seq<u8>>, i: int)
    requires
        0 <= i < picture_units(units).len(),
    ensures
        exists|j: int| 0 <= j < units.len() && #[trigger] units[j] == picture_units(units)[i],
    decreases units.len(),
{
    reveal(Seq::filter);
    if units.len() > 0 {
        let before = picture_units(units.drop_last());
        if i < before.len() {
            lemma_kept_from(units.drop_last(), i);
            let j = choose|j: int|
                0 <= j < units.drop_last().len() && #[trigger] units.drop_last()[j] == before[i];
            assert(units[j] == before[i]);
        } else {
            assert(units[units.len() - 1] == picture_units(units)[i]);
        }
    }
}

/// The last one in a frame of the units with one type is what was seen of that type.
pub open spec fn is_last_with_type(units: Seq<Seq<u8>>, t: int, set: Option<Seq<u8>>) -> bool {
    match set {
        Some(set) => exists|i: int|
            0 <= i < units.len() && #[trigger] units[i] == set && set.len() > 0 && (set[0] / 2) % 64
                == t && forall|j: int|
                i < j < units.len() && (#[trigger] units[j]).len() > 0 ==> (units[j][0] / 2) % 64
                    != t,
        None => forall|j: int|
            0 <= j < units.len() && (#[trigger] units[j]).len() > 0 ==> (units[j][0] / 2) % 64 != t,
    }
}

/// Every unit of a frame that holds a part of a picture is handed on, whole, in its place and behind
/// its length, and no other; a unit at which a decoder can start is never lost. Of the parameter
/// sets, the last of each type is handed on.
pub proof fn frames_keep_their_pictures(frame: FrameUnits, units: Seq<Seq<u8>>)
    requires
        frame.of(units),
    ensures
        frame.pictures@ == behind_lengths(picture_units(units)),
        (forall|i: int| 0 <= i < units.len() ==> (#[trigger] units[i]).len() < 0x1_0000_0000)
            ==> prefixed_units(frame.pictures@, 0) == units.filter(
            |unit: Seq<u8>| unit.len() > 0 && 1 <= (unit[0] / 2) % 64 <= 21,
        ),
        forall|i: int|
            0 <= i < units.len() && (#[trigger] units[i]).len() > 0 && 16 <= (units[i][0] / 2) % 64
                <= 21 ==> picture_units(units).contains(units[i]),
        is_last_with_type(units, 32, seen(frame.vps)),
        is_last_with_type(units, 33, seen(frame.sps)),
        is_last_with_type(units, 34, seen(frame.pps)),
{
    broadcast use vstd::seq_lib::group_filter_ensures;

    lemma_pictures(units);
    lemma_last_of_type(units, 32);
    lemma_last_of_type(units, 33);
    lemma_last_of_type(units, 34);
    let keep = |unit: Seq<u8>| unit.len() > 0 && 1 <= (unit[0] / 2) % 64 <= 21;
    let kept = picture_units(units);
    assert(kept == units.filter(keep));
    if forall|i: int| 0 <= i < units.len() ==> (#[trigger] units[i]).len() < 0x1_0000_0000 {
        assert forall|i: int| 0 <= i < kept.len() implies (#[trigger] kept[i]).len()
            < 0x1_0000_0000 by {
            lemma_kept_from(units, i);
        }
        lengths_lead_to_the_units(kept);
    }
    assert forall|i: int|
        0 <= i < units.len() && (#[trigger] units[i]).len() > 0 && 16 <= (units[i][0] / 2) % 64
            <= 21 implies kept.contains(units[i]) by {
        assert(keep(units[i]));
    }
}

/// `unit` is what stands at `p` up to the next start code, or to the end.
pub open spec fn unit_at(s: Seq<u8>, p: int, unit: Seq<u8>) -> bool {
    let end = p + unit.len();
    &&& 3 <= p && end <= s.len()
    &&& s[p - 3] == 0 && s[p - 2] == 0 && s[p - 1] == 1
    &&& unit == s.subrange(p, end)
    &&& forall|k: int| p <= k < end ==> !#[trigger] code_at(s, k)
    &&& end == s.len() || code_at(s, end)
}

/// `unit` stands behind some start code.
pub open spec fn is_unit_of(s: Seq<u8>, unit: Seq<u8>) -> bool {
    exists|p: int| #[trigger] unit_at(s, p, unit)
}

proof fn lemma_units_between_codes(s: Seq<u8>, from: int)
    requires
        0 <= from <= s.len(),
    ensures
        forall|p: int| #[trigger]
            unit_head(s, p) && from + 3 <= p ==> exists|i: int|
                0 <= i < nal_units(s, from).len() && unit_at(s, p, #[trigger] nal_units(s, from)[i]),
        forall|i: int|
            0 <= i < nal_units(s, from).len() ==> is_unit_of(s, #[trigger] nal_units(s, from)[i]),
    decreases s.len() - from,
{
    let units = nal_units(s, from);
    let at = next_code(s, from);
    lemma_next_code(s, from);
    if at < s.len() {
        let start = at + code_len(s, at);
        let end = next_code(s, start);
        lemma_next_code(s, start);
        let unit = s.subrange(start, end);
        let rest = nal_units(s, end);
        lemma_units_between_codes(s, end);
        assert(units == seq![unit] + rest);
        assert(units[0] == unit);
        lemma_code(s, end);
        assert forall|k: int| start <= k < end implies !#[trigger] code_at(s, k) by {
            lemma_code(s, k);
            assert(code_len(s, k) == 0);
        }
        assert(unit_at(s, start, units[0]));
        assert forall|i: int| 0 <= i < units.len() implies is_unit_of(s, #[trigger] units[i]) by {
            if i > 0 {
                assert(units[i] == rest[i - 1]);
            }
        }
        assert forall|p: int| #[trigger] unit_head(s, p) && from + 3 <= p implies exists|i: int|
            0 <= i < units.len() && unit_at(s, p, #[trigger] units[i]) by {
            lemma_code(s, p);
            if p - 3 < at {
                assert(code_len(s, p - 3) == 0);
            }
            if p == start {
                assert(unit_at(s, p, units[0]));
            } else {
                if p - 3 >= start && p - 3 < end {
                    assert(code_len(s, p - 3) == 0);
                }
                assert(p >= end + 3);
                let i = choose|i: int| 0 <= i < rest.len() && unit_at(s, p, #[trigger] rest[i]);
                assert(units[i + 1] == rest[i]);
                assert(unit_at(s, p, units[i + 1]));
            }
        }
    } else {
        assert forall|p: int| #[trigger] unit_head(s, p) implies from + 3 > p by {
            lemma_code(s, p);
            if from <= p - 3 {
                assert(code_len(s, p - 3) == 0);
            }
        }
    }
}

/// What stands between two start codes, or behind the last one, is a unit, and nothing else is.
pub proof fn units_are_what_lies_between_codes(s: Seq<u8>)
    ensures
        forall|p: int| #[trigger]
            unit_head(s, p) ==> exists|i: int|
                0 <= i < nal_units(s, 0).len() && unit_at(s, p, #[trigger] nal_units(s, 0)[i]),
        forall|i: int|
            0 <= i < nal_units(s, 0).len() ==> is_unit_of(s, #[trigger] nal_units(s, 0)[i]),
{
    lemma_units_between_codes(s, 0);
}

/// A further unit goes to the end, behind a start code of four bytes.
pub proof fn units_go_behind_codes_of_four_bytes(units: Seq<Seq<u8>>, unit: Seq<u8>)
    ensures
        annex_b(Seq::empty()) == Seq::<u8>::empty(),
        annex_b(units.push(unit)) == annex_b(units) + seq![0u8, 0, 0, 1] + unit,
{
    lemma_annex_b_push(units, unit);
}

/// An encoder's unit behind a start code of four bytes opens a keyframe exactly if its type is one
/// of sixteen to twenty-one, or that of a video parameter set.
pub proof fn keyframes_open_with_their_first_unit(unit: Seq<u8>)
    requires
        unit.len() > 0,
    ensures
        opens_with_keyframe(seq![0u8, 0, 0, 1] + unit) == (16 <= (unit[0] / 2) % 64 <= 21 || (
        unit[0] / 2) % 64 == 32),
        !opens_with_keyframe(seq![0u8, 0, 0, 1]),
{
    assert((seq![0u8, 0, 0, 1] + unit)[4] == unit[0]);
}

/// A start code is two noughts and a one, or three noughts and a one; the longer one counts where both
/// would.
pub proof fn start_codes_are_noughts_and_a_one(s: Seq<u8>, i: int)
    requires
        0 <= i,
    ensures
        code_len(s, i) == 0 || code_len(s, i) == 3 || code_len(s, i) == 4,
        code_len(s, i) == 3 <==> i + 3 <= s.len() && s[i] == 0 && s[i + 1] == 0 && s[i + 2] == 1,
        code_len(s, i) == 4 <==> i + 4 <= s.len() && s[i] == 0 && s[i + 1] == 0 && s[i + 2] == 0
            && s[i + 3] == 1,
{
}

/// The next start code is the first one at or behind a place; there is none exactly if the end is
/// what is found.
pub proof fn next_codes_are_the_first(s: Seq<u8>, from: int, i: int)
    requires
        0 <= from <= s.len(),
    ensures
        from <= next_code(s, from) <= s.len(),
        next_code(s, from) < s.len() ==> code_at(s, next_code(s, from)),
        from <= i < next_code(s, from) ==> !code_at(s, i),
{
    lemma_next_code(s, from);
    lemma_code(s, next_code(s, from));
    if from <= i < next_code(s, from) {
        lemma_code(s, i);
        assert(code_len(s, i) == 0);
    }
}

/// The type of a unit is in the six bits behind the first of its first byte; a start code before it is
/// passed over.
pub proof fn types_are_in_the_first_byte(unit: Seq<u8>)
    ensures
        unit_type(seq![0u8, 0, 1]) is None,
        unit_type(seq![0u8, 0, 0, 1]) is None,
        unit_type(Seq::empty()) is None,
        unit.len() > 0 ==> unit_type(seq![0u8, 0, 1] + unit) == Some((unit[0] / 2) % 64),
        unit.len() > 0 ==> unit_type(seq![0u8, 0, 0, 1] + unit) == Some((unit[0] / 2) % 64),
        unit.len() > 0 && !code_at(unit, 0) ==> unit_type(unit) == Some((unit[0] / 2) % 64),
        is_key_type(unit_type(unit)) <==> unit_type(unit) is Some && 16 <= unit_type(unit)->0 <= 21,
{
    lemma_code(unit, 0);
    if unit.len() > 0 {
        let short = seq![0u8, 0, 1] + unit;
        let long = seq![0u8, 0, 0, 1] + unit;
        assert(short[0] == 0 && short[1] == 0 && short[2] == 1 && short[3] == unit[0]);
        assert(long[0] == 0 && long[1] == 0 && long[2] == 0 && long[3] == 1 && long[4] == unit[0]);
        assert(code_len(short, 0) == 3);
        assert(code_len(long, 0) == 4);
    }
}

} // verus!
