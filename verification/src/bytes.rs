//! Unsigned integers as sequences of bytes, most significant byte first or last.
use vstd::prelude::*;

verus! {

/// `256` to the power `width`: how many values `width` bytes can tell apart.
pub open spec fn pow256(width: nat) -> nat
    decreases width,
{
    if width == 0 {
        1
    } else {
        256 * pow256((width - 1) as nat)
    }
}

/// The `width` low bytes of `value`, most significant first.
pub open spec fn be_bytes(value: nat, width: nat) -> Seq<u8>
    decreases width,
{
    if width == 0 {
        Seq::empty()
    } else {
        be_bytes(value / 256, (width - 1) as nat).push((value % 256) as u8)
    }
}

/// The number whose digits to the base 256 are `bytes`, most significant first.
pub open spec fn be_value(bytes: Seq<u8>) -> nat
    decreases bytes.len(),
{
    if bytes.len() == 0 {
        0
    } else {
        be_value(bytes.drop_last()) * 256 + bytes.last() as nat
    }
}

/// The `width` low bytes of `value`, least significant first.
pub open spec fn le_bytes(value: nat, width: nat) -> Seq<u8>
    decreases width,
{
    if width == 0 {
        Seq::empty()
    } else {
        seq![(value % 256) as u8] + le_bytes(value / 256, (width - 1) as nat)
    }
}

/// The number whose digits to the base 256 are `bytes`, least significant first.
pub open spec fn le_value(bytes: Seq<u8>) -> nat
    decreases bytes.len(),
{
    if bytes.len() == 0 {
        0
    } else {
        bytes[0] as nat + 256 * le_value(bytes.drop_first())
    }
}

/// `bytes` from `start` on, `width` of them.
pub open spec fn field(bytes: Seq<u8>, start: int, width: int) -> Seq<u8> {
    bytes.subrange(start, start + width)
}

/// How many values one, two, four and eight bytes hold.
pub proof fn lemma_pow256_values()
    ensures
        pow256(0) == 1,
        pow256(1) == 0x100,
        pow256(2) == 0x1_0000,
        pow256(4) == 0x1_0000_0000,
        pow256(8) == 0x1_0000_0000_0000_0000,
{
    reveal_with_fuel(pow256, 9);
}

/// An encoding has the width it was asked for.
pub proof fn lemma_be_bytes_len(value: nat, width: nat)
    ensures
        be_bytes(value, width).len() == width,
    decreases width,
{
    if width > 0 {
        lemma_be_bytes_len(value / 256, (width - 1) as nat);
    }
}

/// An encoding has the width it was asked for.
pub proof fn lemma_le_bytes_len(value: nat, width: nat)
    ensures
        le_bytes(value, width).len() == width,
    decreases width,
{
    if width > 0 {
        lemma_le_bytes_len(value / 256, (width - 1) as nat);
    }
}

/// A value that fits is read back from its big-endian bytes.
pub proof fn lemma_be_roundtrip(value: nat, width: nat)
    requires
        value < pow256(width),
    ensures
        be_bytes(value, width).len() == width,
        be_value(be_bytes(value, width)) == value,
    decreases width,
{
    lemma_be_bytes_len(value, width);
    if width > 0 {
        let rest = (width - 1) as nat;
        assert(value / 256 < pow256(rest));
        lemma_be_roundtrip(value / 256, rest);
        assert(be_bytes(value, width).drop_last() =~= be_bytes(value / 256, rest));
    }
}

/// Bytes are the big-endian encoding of the number they stand for, and that number fits.
pub proof fn lemma_be_value_roundtrip(bytes: Seq<u8>)
    ensures
        be_value(bytes) < pow256(bytes.len()),
        be_bytes(be_value(bytes), bytes.len()) == bytes,
    decreases bytes.len(),
{
    if bytes.len() > 0 {
        let init = bytes.drop_last();
        lemma_be_value_roundtrip(init);
        let value = be_value(bytes);
        assert(value / 256 == be_value(init));
        assert(value % 256 == bytes.last() as nat);
        assert(init.push(bytes.last()) =~= bytes);
    } else {
        assert(be_bytes(0, 0) =~= bytes);
    }
}

/// A value that fits is read back from its little-endian bytes.
pub proof fn lemma_le_roundtrip(value: nat, width: nat)
    requires
        value < pow256(width),
    ensures
        le_bytes(value, width).len() == width,
        le_value(le_bytes(value, width)) == value,
    decreases width,
{
    lemma_le_bytes_len(value, width);
    if width > 0 {
        let rest = (width - 1) as nat;
        assert(value / 256 < pow256(rest));
        lemma_le_roundtrip(value / 256, rest);
        assert(le_bytes(value, width).drop_first() =~= le_bytes(value / 256, rest));
    }
}

/// Bytes are the little-endian encoding of the number they stand for, and that number fits.
pub proof fn lemma_le_value_roundtrip(bytes: Seq<u8>)
    ensures
        le_value(bytes) < pow256(bytes.len()),
        le_bytes(le_value(bytes), bytes.len()) == bytes,
    decreases bytes.len(),
{
    if bytes.len() > 0 {
        let tail = bytes.drop_first();
        lemma_le_value_roundtrip(tail);
        let value = le_value(bytes);
        assert(value / 256 == le_value(tail));
        assert(value % 256 == bytes[0] as nat);
        assert(seq![bytes[0]] + tail =~= bytes);
    } else {
        assert(le_bytes(0, 0) =~= bytes);
    }
}

/// Appends `value` in `width` bytes, most significant first.
pub fn put_be(out: &mut Vec<u8>, value: u64, width: usize)
    requires
        width <= 8,
    ensures
        final(out)@ == old(out)@ + be_bytes(value as nat, width as nat),
    decreases width,
{
    if width > 0 {
        put_be(out, value / 256, width - 1);
        out.push((value % 256) as u8);
    }
}

/// Reads the `width` bytes of `data` from `start` on, most significant first.
pub fn get_be(data: &[u8], start: usize, width: usize) -> (value: u64)
    requires
        width <= 8,
        start + width <= data@.len(),
    ensures
        value == be_value(field(data@, start as int, width as int)),
        value < pow256(width as nat),
    decreases width,
{
    if width == 0 {
        return 0;
    }
    let high: u64 = get_be(data, start, width - 1);
    proof {
        assert(data@.len() == data.len());
        let whole = field(data@, start as int, width as int);
        assert(whole.drop_last() =~= field(data@, start as int, width - 1));
        assert(pow256(width as nat) == 256 * pow256((width - 1) as nat));
        lemma_pow256_monotonic((width - 1) as nat, 7);
        reveal_with_fuel(pow256, 8);
    }
    high * 256 + data[start + (width - 1)] as u64
}

/// More bytes tell more values apart.
pub proof fn lemma_pow256_monotonic(low: nat, high: nat)
    requires
        low <= high,
    ensures
        pow256(low) <= pow256(high),
    decreases high - low,
{
    if low < high {
        lemma_pow256_monotonic(low, (high - 1) as nat);
    }
}

/// The first byte counts the most where the most significant byte stands first, and the least where
/// it stands last.
pub proof fn first_byte_counts(first: u8, rest: Seq<u8>)
    ensures
        be_value(seq![first] + rest) == first * pow256(rest.len()) + be_value(rest),
        le_value(seq![first] + rest) == first + 256 * le_value(rest),
    decreases rest.len(),
{
    let all = seq![first] + rest;
    assert(all.drop_first() =~= rest);
    if rest.len() == 0 {
        assert(all.drop_last() =~= Seq::<u8>::empty());
        reveal_with_fuel(be_value, 2);
        assert(pow256(0) == 1);
        assert(first * 1 == first);
    } else {
        first_byte_counts(first, rest.drop_last());
        assert(all.drop_last() =~= seq![first] + rest.drop_last());
        let p = pow256((rest.len() - 1) as nat);
        assert(pow256(rest.len()) == 256 * p);
        assert(all.last() == rest.last());
        assert((first * p + be_value(rest.drop_last())) * 256 == first * (256 * p) + be_value(
            rest.drop_last(),
        ) * 256) by (nonlinear_arith);
    }
}

} // verus!
