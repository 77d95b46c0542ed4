//! Samples as they come from the operating system: raw bytes, and one buffer for each channel or
//! one for all.
use crate::bytes::{be_value, field, get_be, le_value};
use vstd::prelude::*;

verus! {

/// How samples are stored.
#[derive(Debug, Clone, Copy, PartialEq, Eq, Structural)]
pub enum PcmEncoding {
    /// Single-precision numbers.
    Float32,
    /// Signed integers of sixteen bits.
    Int16,
}

/// What the operating system says of a buffer of samples.
#[derive(Debug, Clone, Copy, PartialEq, Eq, Structural)]
pub struct PcmFormat {
    pub valid: bool,
    pub ready: bool,
    pub channels: u32,
    pub is_float: bool,
    pub bits_per_channel: u32,
}

/// How to read a buffer, if it can be read at all: it is valid, its data are there, it has a number
/// of channels that fits, and its samples are of a kind that is known.
pub fn pcm_encoding(format: &PcmFormat) -> (r: Option<(u16, PcmEncoding)>)
    ensures
        ({
            let readable = format.valid && format.ready && 0 < format.channels <= u16::MAX;
            match r {
                Some((channels, encoding)) => {
                    &&& readable
                    &&& channels == format.channels
                    &&& match encoding {
                        PcmEncoding::Float32 => format.is_float && format.bits_per_channel == 32,
                        PcmEncoding::Int16 => !format.is_float && format.bits_per_channel == 16,
                    }
                },
                None => !readable || !(format.is_float && format.bits_per_channel == 32
                    || !format.is_float && format.bits_per_channel == 16),
            }
        }),
{
    if !format.valid || !format.ready || format.channels == 0 || format.channels
        > u16::MAX as u32 {
        return None;
    }
    let channels: u16 = format.channels as u16;
    if format.is_float && format.bits_per_channel == 32 {
        Some((channels, PcmEncoding::Float32))
    } else if !format.is_float && format.bits_per_channel == 16 {
        Some((channels, PcmEncoding::Int16))
    } else {
        None
    }
}

/// The number that `bytes` stand for, in the order of bytes that is asked for.
pub open spec fn word(bytes: Seq<u8>, big_endian: bool) -> nat {
    if big_endian {
        be_value(bytes)
    } else {
        le_value(bytes)
    }
}

fn get_word(bytes: &[u8], start: usize, width: usize, big_endian: bool) -> (r: u64)
    requires
        width == 2 || width == 4,
        start + width <= bytes@.len(),
    ensures
        r == word(field(bytes@, start as int, width as int), big_endian),
        width == 2 ==> r <= u16::MAX,
        width == 4 ==> r <= u32::MAX,
{
    proof {
        crate::bytes::lemma_pow256_values();
    }
    if big_endian {
        return get_be(bytes, start, width);
    }
    proof {
        assert(bytes@.len() == bytes.len());
        let whole = field(bytes@, start as int, width as int);
        reveal_with_fuel(le_value, 5);
        assert(whole.drop_first()[0] == whole[1]);
        if width == 4 {
            assert(whole.drop_first().drop_first()[0] == whole[2]);
            assert(whole.drop_first().drop_first().drop_first()[0] == whole[3]);
        }
    }
    let low: u64 = bytes[start] as u64 + 256 * (bytes[start + 1] as u64);
    if width == 2 {
        low
    } else {
        low + 65536 * (bytes[start + 2] as u64) + 16777216 * (bytes[start + 3] as u64)
    }
}

/// The bits of the single-precision numbers in `bytes`; an incomplete one at the end is dropped.
pub fn pcm_f32_bits(bytes: &[u8], big_endian: bool) -> (r: Vec<u32>)
    ensures
        r@.len() == bytes@.len() / 4,
        forall|i: int|
            0 <= i < r@.len() ==> #[trigger] r@[i] == word(field(bytes@, 4 * i, 4), big_endian),
{
    let mut out: Vec<u32> = Vec::new();
    let mut at: usize = 0;
    while bytes.len() - at >= 4
        invariant
            at <= bytes@.len(),
            at == 4 * out@.len(),
            forall|i: int|
                0 <= i < out@.len() ==> #[trigger] out@[i] == word(
                    field(bytes@, 4 * i, 4),
                    big_endian,
                ),
        decreases bytes.len() - at,
    {
        out.push(get_word(bytes, at, 4, big_endian) as u32);
        at += 4;
    }
    out
}

/// A word of sixteen bits as a signed number.
pub open spec fn signed16(n: nat) -> int {
    if n < 0x8000 {
        n as int
    } else {
        n - 0x1_0000
    }
}

/// The signed integers in `bytes`; an incomplete one at the end is dropped.
pub fn pcm_i16_samples(bytes: &[u8], big_endian: bool) -> (r: Vec<i16>)
    ensures
        r@.len() == bytes@.len() / 2,
        forall|i: int|
            0 <= i < r@.len() ==> #[trigger] r@[i] == signed16(
                word(field(bytes@, 2 * i, 2), big_endian),
            ),
{
    let mut out: Vec<i16> = Vec::new();
    let mut at: usize = 0;
    while bytes.len() - at >= 2
        invariant
            at <= bytes@.len(),
            at == 2 * out@.len(),
            forall|i: int|
                0 <= i < out@.len() ==> #[trigger] out@[i] == signed16(
                    word(field(bytes@, 2 * i, 2), big_endian),
                ),
        decreases bytes.len() - at,
    {
        let raw: u64 = get_word(bytes, at, 2, big_endian);
        let sample: i16 = if raw < 0x8000 {
            raw as i16
        } else {
            (raw as i64 - 0x1_0000) as i16
        };
        out.push(sample);
        at += 2;
    }
    out
}

/// The length of the shortest channel.
pub open spec fn shortest<T>(planar: Seq<Vec<T>>) -> nat
    decreases planar.len(),
{
    if planar.len() == 0 {
        0
    } else if planar.len() == 1 {
        planar[0]@.len()
    } else {
        let before = shortest(planar.drop_last());
        if planar.last()@.len() < before {
            planar.last()@.len()
        } else {
            before
        }
    }
}

/// Channels that lie one after the other, sample by sample: each frame holds one sample of every
/// channel, and there are as many frames as the shortest channel has samples.
pub fn interleave_planar_channels<T: Copy>(planar: &Vec<Vec<T>>) -> (r: Vec<T>)
    ensures
        r@.len() == shortest(planar@) * planar@.len(),
        forall|frame: int, channel: int|
            0 <= frame < shortest(planar@) && 0 <= channel < planar@.len() ==> r@[frame
                * planar@.len() + channel] == #[trigger] planar@[channel]@[frame],
{
    let mut out: Vec<T> = Vec::new();
    let channels: usize = planar.len();
    if channels == 0 {
        proof {
            assert(shortest(planar@) * planar@.len() == 0);
        }
        return out;
    }
    let mut frames: usize = planar[0].len();
    let mut i: usize = 1;
    proof {
        assert(planar@.take(1).len() == 1);
    }
    while i < channels
        invariant
            1 <= i <= channels,
            channels == planar@.len(),
            frames == shortest(planar@.take(i as int)),
            forall|c: int| 0 <= c < i ==> frames <= (#[trigger] planar@[c])@.len(),
        decreases channels - i,
    {
        proof {
            assert(planar@.take(i + 1).drop_last() =~= planar@.take(i as int));
            assert(planar@.take(i + 1).last() == planar@[i as int]);
        }
        if planar[i].len() < frames {
            frames = planar[i].len();
        }
        i += 1;
    }
    proof {
        assert(planar@.take(channels as int) =~= planar@);
    }
    let mut frame: usize = 0;
    while frame < frames
        invariant
            frame <= frames,
            frames == shortest(planar@),
            channels == planar@.len(),
            forall|c: int| 0 <= c < channels ==> frames <= (#[trigger] planar@[c])@.len(),
            out@.len() == frame * channels,
            forall|f: int, c: int|
                0 <= f < frame && 0 <= c < channels ==> out@[f * channels + c]
                    == #[trigger] planar@[c]@[f],
        decreases frames - frame,
    {
        let mut channel: usize = 0;
        while channel < channels
            invariant
                channel <= channels,
                channels == planar@.len(),
                frame < frames,
                forall|c: int| 0 <= c < channels ==> frames <= (#[trigger] planar@[c])@.len(),
                out@.len() == frame * channels + channel,
                forall|f: int, c: int|
                    0 <= f < frame && 0 <= c < channels ==> out@[f * channels + c]
                        == #[trigger] planar@[c]@[f],
                forall|c: int|
                    0 <= c < channel ==> out@[frame * channels + c]
                        == #[trigger] planar@[c]@[frame as int],
            decreases channels - channel,
        {
            let ghost before = out@;
            out.push(planar[channel][frame]);
            proof {
                assert forall|f: int, c: int|
                    0 <= f < frame && 0 <= c < channels implies out@[f * channels + c]
                    == #[trigger] planar@[c]@[f] by {
                    assert(0 <= f * channels + c < frame * channels) by (nonlinear_arith)
                        requires
                            0 <= f < frame,
                            0 <= c < channels,
                    ;
                    assert(before[f * channels + c] == out@[f * channels + c]);
                }
            }
            channel += 1;
        }
        proof {
            assert((frame + 1) * channels == frame * channels + channels) by (nonlinear_arith);
        }
        frame += 1;
    }
    out
}

/// What the buffers of one capture make up: one buffer holds all channels; otherwise there is one
/// for each channel, or they cannot be read.
pub open spec fn combined<T>(buffers: Seq<Vec<T>>, channels: int, out: Seq<T>) -> bool {
    if channels == 0 || buffers.len() == 0 {
        out.len() == 0
    } else if buffers.len() == 1 {
        out == buffers[0]@
    } else if buffers.len() != channels {
        out.len() == 0
    } else {
        &&& out.len() == shortest(buffers) * channels
        &&& forall|frame: int, channel: int|
            0 <= frame < shortest(buffers) && 0 <= channel < channels ==> out[frame * channels
                + channel] == #[trigger] buffers[channel]@[frame]
    }
}

/// Puts the buffers of one capture together.
pub fn combine_buffers<T: Copy>(buffers: Vec<Vec<T>>, channels: usize) -> (r: Vec<T>)
    ensures
        combined(buffers@, channels as int, r@),
{
    let mut buffers = buffers;
    if channels == 0 || buffers.len() == 0 {
        return Vec::new();
    }
    if buffers.len() == 1 {
        return buffers.remove(0);
    }
    if buffers.len() != channels {
        return Vec::new();
    }
    interleave_planar_channels(&buffers)
}

/// The samples of one capture, unless there are none: then there is no audio frame.
pub fn frame_samples<T: Copy>(buffers: Vec<Vec<T>>, channels: usize) -> (r: Option<Vec<T>>)
    ensures
        match r {
            Some(samples) => samples@.len() > 0 && combined(buffers@, channels as int, samples@),
            None => combined(buffers@, channels as int, Seq::empty()),
        },
{
    let samples = combine_buffers(buffers, channels);
    if samples.len() == 0 {
        proof {
            assert(samples@ =~= Seq::<T>::empty());
        }
        return None;
    }
    Some(samples)
}

/// Samples of two bytes are read in the order that was told, and those with their highest bit set are
/// negative.
pub proof fn samples_are_read_in_order(first: u8, second: u8)
    ensures
        word(seq![first, second], true) == first * 256 + second,
        word(seq![first, second], false) == first + second * 256,
        first < 128 ==> signed16(word(seq![first, second], true)) == first * 256 + second,
        first >= 128 ==> signed16(word(seq![first, second], true)) == first * 256 + second - 65536,
{
    let both = seq![first, second];
    assert(both.drop_last() =~= seq![first]);
    assert(seq![first].drop_last() =~= Seq::<u8>::empty());
    assert(both.drop_first() =~= seq![second]);
    assert(seq![second].drop_first() =~= Seq::<u8>::empty());
    reveal_with_fuel(be_value, 3);
    reveal_with_fuel(le_value, 3);
}

/// No channel is shorter than what is taken of all, and one is as short.
pub proof fn shortest_channel_decides<T>(planar: Seq<Vec<T>>)
    requires
        planar.len() > 0,
    ensures
        forall|i: int| 0 <= i < planar.len() ==> shortest(planar) <= (#[trigger] planar[i])@.len(),
        exists|i: int| 0 <= i < planar.len() && (#[trigger] planar[i])@.len() == shortest(planar),
    decreases planar.len(),
{
    if planar.len() == 1 {
        assert(planar[0]@.len() == shortest(planar));
    } else {
        let before = planar.drop_last();
        shortest_channel_decides(before);
        let n = planar.len() - 1;
        let j = choose|j: int| 0 <= j < before.len() && (#[trigger] before[j])@.len() == shortest(
            before,
        );
        assert(planar[j] == before[j]);
        assert(planar[n] == planar.last());
        assert forall|i: int| 0 <= i < planar.len() implies shortest(planar) <= (
        #[trigger] planar[i])@.len() by {
            if i < n {
                assert(before[i] == planar[i]);
            }
        }
    }
}

/// Channels that come apart are laid side by side, frame by frame; a single buffer is taken as it is,
/// and too few or too many buffers make nothing.
pub proof fn channels_are_laid_side_by_side<T>(
    buffers: Seq<Vec<T>>,
    channels: int,
    out: Seq<T>,
    frame: int,
    channel: int,
)
    requires
        combined(buffers, channels, out),
    ensures
        channels > 0 && buffers.len() == 1 ==> out == buffers[0]@,
        channels == 0 || buffers.len() == 0 ==> out.len() == 0,
        buffers.len() > 1 && buffers.len() != channels ==> out.len() == 0,
        buffers.len() > 1 && buffers.len() == channels ==> {
            &&& out.len() == shortest(buffers) * channels
            &&& 0 <= frame < shortest(buffers) && 0 <= channel < channels ==> out[frame * channels
                + channel] == buffers[channel]@[frame]
        },
{
    if buffers.len() > 1 && buffers.len() == channels && 0 <= frame < shortest(buffers) && 0
        <= channel < channels {
        let sample = buffers[channel]@[frame];
        assert(out[frame * channels + channel] == sample);
    }
}

} // verus!
