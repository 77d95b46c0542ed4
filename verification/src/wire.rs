//! Messages as bytes: integers in a fixed width, least significant byte first; lengths in eight
//! bytes before what they count; one byte before what may be missing; the number of a variant in
//! four bytes before what it holds.
use crate::bytes::{
    le_bytes, le_value, lemma_le_bytes_len, lemma_le_roundtrip, lemma_le_value_roundtrip,
    lemma_pow256_values,
};
use vstd::prelude::*;
use vstd::slice::slice_subrange;
use vstd::utf8::{
    char_is_scalar, char_u32_cast, decode_first_scalar, encode_scalar, encode_utf8,
    encode_utf8_decode_utf8, encode_utf8_first_scalar, encode_utf8_valid_utf8, valid_utf8,
};

verus! {

/// Why bytes could not be read: they do not begin with a message.
#[derive(Debug, Clone, Copy, PartialEq, Eq, Structural)]
pub struct WireError;

/// What `bincode` says when it cannot write or read. Nothing is known of its contents.
#[verifier::external_type_specification]
#[verifier::external_body]
pub struct ExErrorKind(bincode::ErrorKind);

/// `whole` begins with `start`.
pub open spec fn begins(whole: Seq<u8>, start: Seq<u8>) -> bool {
    start.len() <= whole.len() && whole.subrange(0, start.len() as int) == start
}

/// `bincode::serialize` of a `u8`: it always succeeds, and writes the byte.
#[verifier::external_body]
fn serialize_u8(value: u8) -> (r: Result<Vec<u8>, bincode::Error>)
    ensures
        r is Ok,
        r->Ok_0@ == le_bytes(value as nat, 1),
{
    bincode::serialize(&value)
}

/// `bincode::deserialize` to a `u8`: it takes the first byte, lets whatever
/// follows be, and fails only where there are fewer.
#[verifier::external_body]
fn deserialize_u8(data: &[u8]) -> (r: Result<u8, bincode::Error>)
    ensures
        match r {
            Ok(value) => data@.len() >= 1 && value == le_value(data@.subrange(0, 1)),
            Err(_) => data@.len() < 1,
        },
{
    bincode::deserialize(data)
}

/// `bincode::serialize` of a `u16`: it always succeeds, and writes two bytes, the least significant
/// first.
#[verifier::external_body]
fn serialize_u16(value: u16) -> (r: Result<Vec<u8>, bincode::Error>)
    ensures
        r is Ok,
        r->Ok_0@ == le_bytes(value as nat, 2),
{
    bincode::serialize(&value)
}

/// `bincode::deserialize` to a `u16`: it takes the first two bytes, the least significant first,
/// lets whatever follows be, and fails only where there are fewer.
#[verifier::external_body]
fn deserialize_u16(data: &[u8]) -> (r: Result<u16, bincode::Error>)
    ensures
        match r {
            Ok(value) => data@.len() >= 2 && value == le_value(data@.subrange(0, 2)),
            Err(_) => data@.len() < 2,
        },
{
    bincode::deserialize(data)
}

/// `bincode::serialize` of a `u32`: it always succeeds, and writes four bytes, the least
/// significant first.
#[verifier::external_body]
fn serialize_u32(value: u32) -> (r: Result<Vec<u8>, bincode::Error>)
    ensures
        r is Ok,
        r->Ok_0@ == le_bytes(value as nat, 4),
{
    bincode::serialize(&value)
}

/// `bincode::deserialize` to a `u32`: it takes the first four bytes, the least significant first,
/// lets whatever follows be, and fails only where there are fewer.
#[verifier::external_body]
fn deserialize_u32(data: &[u8]) -> (r: Result<u32, bincode::Error>)
    ensures
        match r {
            Ok(value) => data@.len() >= 4 && value == le_value(data@.subrange(0, 4)),
            Err(_) => data@.len() < 4,
        },
{
    bincode::deserialize(data)
}

/// `bincode::serialize` of a `u64`: it always succeeds, and writes eight bytes, the least
/// significant first.
#[verifier::external_body]
fn serialize_u64(value: u64) -> (r: Result<Vec<u8>, bincode::Error>)
    ensures
        r is Ok,
        r->Ok_0@ == le_bytes(value as nat, 8),
{
    bincode::serialize(&value)
}

/// `bincode::deserialize` to a `u64`: it takes the first eight bytes, the least significant first,
/// lets whatever follows be, and fails only where there are fewer.
#[verifier::external_body]
fn deserialize_u64(data: &[u8]) -> (r: Result<u64, bincode::Error>)
    ensures
        match r {
            Ok(value) => data@.len() >= 8 && value == le_value(data@.subrange(0, 8)),
            Err(_) => data@.len() < 8,
        },
{
    bincode::deserialize(data)
}

/// `bincode::serialize` of bytes: it always succeeds, and writes their number in eight bytes, the
/// least significant first, and then the bytes.
#[verifier::external_body]
fn serialize_bytes(value: &[u8]) -> (r: Result<Vec<u8>, bincode::Error>)
    ensures
        r is Ok,
        r->Ok_0@ == le_bytes(value@.len(), 8) + value@,
{
    bincode::serialize(value)
}

/// `bincode::deserialize` to bytes: it takes their number from the first eight bytes, and then as
/// many bytes as that; it lets whatever follows be, and fails only where there are fewer.
#[verifier::external_body]
fn deserialize_bytes(data: &[u8]) -> (r: Result<Vec<u8>, bincode::Error>)
    ensures
        match r {
            Ok(value) => {
                &&& data@.len() >= 8 + value@.len()
                &&& value@.len() == le_value(data@.subrange(0, 8))
                &&& value@ == data@.subrange(8, 8 + value@.len() as int)
            },
            Err(_) => data@.len() < 8 || data@.len() - 8 < le_value(data@.subrange(0, 8)),
        },
{
    bincode::deserialize(data)
}

/// `bincode::serialize` of a text: it always succeeds, and writes the number of the bytes that the
/// text takes in UTF-8, in eight bytes, the least significant first, and then those bytes.
#[verifier::external_body]
fn serialize_text(value: &str) -> (r: Result<Vec<u8>, bincode::Error>)
    ensures
        r is Ok,
        r->Ok_0@ == le_bytes(encode_utf8(value@).len(), 8) + encode_utf8(value@),
{
    bincode::serialize(value)
}

/// `bincode::deserialize` to a text: it takes a number from the first eight bytes, and then as many
/// bytes of UTF-8 as that; it lets whatever follows be, and fails only where there are fewer, or
/// where they are not UTF-8.
#[verifier::external_body]
fn deserialize_text(data: &[u8]) -> (r: Result<String, bincode::Error>)
    ensures
        match r {
            Ok(value) => {
                let n = le_value(data@.subrange(0, 8)) as int;
                &&& data@.len() >= 8 + n
                &&& encode_utf8(value@) == data@.subrange(8, 8 + n)
            },
            Err(_) => {
                let n = le_value(data@.subrange(0, 8)) as int;
                ||| data@.len() < 8
                ||| data@.len() - 8 < n
                ||| !valid_utf8(data@.subrange(8, 8 + n))
            },
        },
{
    bincode::deserialize(data)
}

/// `bincode::serialize` of a character: it always succeeds, and writes the bytes that the character
/// takes in UTF-8.
#[verifier::external_body]
fn serialize_char(value: char) -> (r: Result<Vec<u8>, bincode::Error>)
    ensures
        r is Ok,
        r->Ok_0@ == encode_utf8(seq![value]),
{
    bincode::serialize(&value)
}

/// `bincode::deserialize` to a character: it takes the character whose UTF-8 the bytes begin with,
/// lets whatever follows be, and fails only where they begin with that of none.
#[verifier::external_body]
fn deserialize_char(data: &[u8]) -> (r: Result<char, bincode::Error>)
    ensures
        match r {
            Ok(value) => begins(data@, encode_utf8(seq![value])),
            Err(_) => forall|c: char| !begins(data@, #[trigger] encode_utf8(seq![c])),
        },
{
    bincode::deserialize(data)
}

/// What can be sent.
pub trait Wire: Sized {
    /// What the receiver is to know: the value without how it lies in memory.
    type Model;

    spec fn model(&self) -> Self::Model;

    /// Lengths fit into eight bytes. Whatever lies in memory does.
    spec fn fits(m: Self::Model) -> bool;

    /// The bytes that are sent.
    spec fn wire(m: Self::Model) -> Seq<u8>;

    /// The bytes, with whatever behind them, tell what was sent.
    proof fn unique(a: Self::Model, b: Self::Model, s: Seq<u8>, t: Seq<u8>)
        requires
            Self::fits(a),
            Self::fits(b),
            Self::wire(a) + s == Self::wire(b) + t,
        ensures
            a == b,
    ;

    /// Appends the bytes that are sent.
    fn put(&self, out: &mut Vec<u8>)
        ensures
            Self::fits(self.model()),
            final(out)@ == old(out)@ + Self::wire(self.model()),
    ;

    /// Reads a value whose bytes begin at `from`; with it comes where they end. It fails only where
    /// the bytes of no value begin there.
    fn take(data: &[u8], from: usize) -> (r: Result<(Self, usize), WireError>)
        requires
            from <= data@.len(),
        ensures
            match r {
                Ok((value, to)) => {
                    &&& from <= to <= data@.len()
                    &&& Self::fits(value.model())
                    &&& Self::wire(value.model()) == data@.subrange(from as int, to as int)
                },
                Err(_) => forall|m: Self::Model|
                    Self::fits(m) ==> !begins(
                        data@.subrange(from as int, data@.len() as int),
                        #[trigger] Self::wire(m),
                    ),
            },
    ;
}

/// The bytes of a value.
pub fn encode<T: Wire>(value: &T) -> (r: Result<Vec<u8>, WireError>)
    ensures
        r is Ok,
        T::fits(value.model()),
        r->Ok_0@ == T::wire(value.model()),
{
    let mut out: Vec<u8> = Vec::new();
    value.put(&mut out);
    proof {
        assert(out@ =~= T::wire(value.model()));
    }
    Ok(out)
}

/// What reading a value from the start of `data` gives: the value whose bytes `data` begins with,
/// or a failure where `data` begins with the bytes of no value.
pub open spec fn reads<T: Wire>(data: Seq<u8>, r: Result<T, WireError>) -> bool {
    match r {
        Ok(value) => T::fits(value.model()) && begins(data, T::wire(value.model())),
        Err(_) => forall|m: T::Model| T::fits(m) ==> !begins(data, #[trigger] T::wire(m)),
    }
}

/// Reads a value from the start of `data`; what follows it is let be.
pub fn decode<T: Wire>(data: &[u8]) -> (r: Result<T, WireError>)
    ensures
        reads(data@, r),
{
    match T::take(data, 0) {
        Ok((value, _to)) => Ok(value),
        Err(e) => {
            proof {
                assert(data@.subrange(0, data@.len() as int) =~= data@);
            }
            Err(e)
        },
    }
}

/// What was written comes back, whatever follows it: reading succeeds, and gives what was sent.
pub proof fn written_messages_come_back<T: Wire>(
    sent: T::Model,
    rest: Seq<u8>,
    r: Result<T, WireError>,
)
    requires
        T::fits(sent),
        reads(T::wire(sent) + rest, r),
    ensures
        r is Ok,
        r->Ok_0.model() == sent,
{
    let data = T::wire(sent) + rest;
    assert(data.subrange(0, T::wire(sent).len() as int) =~= T::wire(sent));
    assert(begins(data, T::wire(sent)));
    read_gives_back_what_was_written::<T>(data, sent, r->Ok_0.model());
}

/// Whatever is read from bytes that begin with a message is that message.
pub proof fn read_gives_back_what_was_written<T: Wire>(data: Seq<u8>, sent: T::Model, got: T::Model)
    requires
        T::fits(sent),
        T::fits(got),
        begins(data, T::wire(sent)),
        begins(data, T::wire(got)),
    ensures
        got == sent,
{
    let s = data.subrange(T::wire(sent).len() as int, data.len() as int);
    let t = data.subrange(T::wire(got).len() as int, data.len() as int);
    assert(T::wire(sent) + s =~= data);
    assert(T::wire(got) + t =~= data);
    T::unique(sent, got, s, t);
}

/// No message is cut short: the bytes of one never begin those of another.
pub proof fn messages_are_told_apart<T: Wire>(a: T::Model, b: T::Model)
    requires
        T::fits(a),
        T::fits(b),
        begins(T::wire(b), T::wire(a)),
    ensures
        a == b,
{
    assert(begins(T::wire(b), T::wire(b))) by {
        assert(T::wire(b).subrange(0, T::wire(b).len() as int) =~= T::wire(b));
    }
    read_gives_back_what_was_written::<T>(T::wire(b), b, a);
}

/// The bytes that were written; there always are some.
fn written(r: Result<Vec<u8>, bincode::Error>) -> (bytes: Vec<u8>)
    requires
        r is Ok,
    ensures
        bytes == r->Ok_0,
{
    match r {
        Ok(bytes) => bytes,
        Err(_) => Vec::new(),
    }
}

/// What follows in `data` from `from` on.
fn rest(data: &[u8], from: usize) -> (r: &[u8])
    requires
        from <= data@.len(),
    ensures
        r@ == data@.subrange(from as int, data@.len() as int),
        data@.len() <= usize::MAX,
{
    slice_subrange(data, from, data.len())
}

proof fn lemma_same_start(a: Seq<u8>, b: Seq<u8>, s: Seq<u8>, t: Seq<u8>)
    requires
        a + s == b + t,
        a.len() == b.len(),
    ensures
        a == b,
        s == t,
{
    assert((a + s).subrange(0, a.len() as int) =~= a);
    assert((b + t).subrange(0, b.len() as int) =~= b);
    assert((a + s).subrange(a.len() as int, (a + s).len() as int) =~= s);
    assert((b + t).subrange(b.len() as int, (b + t).len() as int) =~= t);
}

impl Wire for u8 {
    type Model = u8;

    open spec fn model(&self) -> u8 {
        *self
    }

    open spec fn fits(m: u8) -> bool {
        true
    }

    open spec fn wire(m: u8) -> Seq<u8> {
        le_bytes(m as nat, 1)
    }

    proof fn unique(a: u8, b: u8, s: Seq<u8>, t: Seq<u8>) {
        lemma_pow256_values();
        lemma_le_roundtrip(a as nat, 1);
        lemma_le_roundtrip(b as nat, 1);
        lemma_same_start(Self::wire(a), Self::wire(b), s, t);
    }

    fn put(&self, out: &mut Vec<u8>) {
        let mut bytes = written(serialize_u8(*self));
        out.append(&mut bytes);
    }

    fn take(data: &[u8], from: usize) -> (r: Result<(u8, usize), WireError>) {
        match deserialize_u8(rest(data, from)) {
            Ok(value) => {
                proof {
                    let bytes = data@.subrange(from as int, from + 1);
                    assert(data@.subrange(from as int, data@.len() as int).subrange(0, 1)
                        =~= bytes);
                    lemma_le_value_roundtrip(bytes);
                }
                Ok((value, from + 1))
            },
            Err(_) => {
                proof {
                    assert forall|m: u8| Self::fits(m) implies !begins(
                        data@.subrange(from as int, data@.len() as int),
                        #[trigger] Self::wire(m),
                    ) by {
                        lemma_le_bytes_len(m as nat, 1);
                    }
                }
                Err(WireError)
            },
        }
    }
}

impl Wire for u16 {
    type Model = u16;

    open spec fn model(&self) -> u16 {
        *self
    }

    open spec fn fits(m: u16) -> bool {
        true
    }

    open spec fn wire(m: u16) -> Seq<u8> {
        le_bytes(m as nat, 2)
    }

    proof fn unique(a: u16, b: u16, s: Seq<u8>, t: Seq<u8>) {
        lemma_pow256_values();
        lemma_le_roundtrip(a as nat, 2);
        lemma_le_roundtrip(b as nat, 2);
        lemma_same_start(Self::wire(a), Self::wire(b), s, t);
    }

    fn put(&self, out: &mut Vec<u8>) {
        let mut bytes = written(serialize_u16(*self));
        out.append(&mut bytes);
    }

    fn take(data: &[u8], from: usize) -> (r: Result<(u16, usize), WireError>) {
        match deserialize_u16(rest(data, from)) {
            Ok(value) => {
                proof {
                    let bytes = data@.subrange(from as int, from + 2);
                    assert(data@.subrange(from as int, data@.len() as int).subrange(0, 2)
                        =~= bytes);
                    lemma_le_value_roundtrip(bytes);
                }
                Ok((value, from + 2))
            },
            Err(_) => {
                proof {
                    assert forall|m: u16| Self::fits(m) implies !begins(
                        data@.subrange(from as int, data@.len() as int),
                        #[trigger] Self::wire(m),
                    ) by {
                        lemma_le_bytes_len(m as nat, 2);
                    }
                }
                Err(WireError)
            },
        }
    }
}

impl Wire for u32 {
    type Model = u32;

    open spec fn model(&self) -> u32 {
        *self
    }

    open spec fn fits(m: u32) -> bool {
        true
    }

    open spec fn wire(m: u32) -> Seq<u8> {
        le_bytes(m as nat, 4)
    }

    proof fn unique(a: u32, b: u32, s: Seq<u8>, t: Seq<u8>) {
        lemma_pow256_values();
        lemma_le_roundtrip(a as nat, 4);
        lemma_le_roundtrip(b as nat, 4);
        lemma_same_start(Self::wire(a), Self::wire(b), s, t);
    }

    fn put(&self, out: &mut Vec<u8>) {
        let mut bytes = written(serialize_u32(*self));
        out.append(&mut bytes);
    }

    fn take(data: &[u8], from: usize) -> (r: Result<(u32, usize), WireError>) {
        match deserialize_u32(rest(data, from)) {
            Ok(value) => {
                proof {
                    let bytes = data@.subrange(from as int, from + 4);
                    assert(data@.subrange(from as int, data@.len() as int).subrange(0, 4)
                        =~= bytes);
                    lemma_le_value_roundtrip(bytes);
                }
                Ok((value, from + 4))
            },
            Err(_) => {
                proof {
                    assert forall|m: u32| Self::fits(m) implies !begins(
                        data@.subrange(from as int, data@.len() as int),
                        #[trigger] Self::wire(m),
                    ) by {
                        lemma_le_bytes_len(m as nat, 4);
                    }
                }
                Err(WireError)
            },
        }
    }
}

impl Wire for u64 {
    type Model = u64;

    open spec fn model(&self) -> u64 {
        *self
    }

    open spec fn fits(m: u64) -> bool {
        true
    }

    open spec fn wire(m: u64) -> Seq<u8> {
        le_bytes(m as nat, 8)
    }

    proof fn unique(a: u64, b: u64, s: Seq<u8>, t: Seq<u8>) {
        lemma_pow256_values();
        lemma_le_roundtrip(a as nat, 8);
        lemma_le_roundtrip(b as nat, 8);
        lemma_same_start(Self::wire(a), Self::wire(b), s, t);
    }

    fn put(&self, out: &mut Vec<u8>) {
        let mut bytes = written(serialize_u64(*self));
        out.append(&mut bytes);
    }

    fn take(data: &[u8], from: usize) -> (r: Result<(u64, usize), WireError>) {
        match deserialize_u64(rest(data, from)) {
            Ok(value) => {
                proof {
                    let bytes = data@.subrange(from as int, from + 8);
                    assert(data@.subrange(from as int, data@.len() as int).subrange(0, 8)
                        =~= bytes);
                    lemma_le_value_roundtrip(bytes);
                }
                Ok((value, from + 8))
            },
            Err(_) => {
                proof {
                    assert forall|m: u64| Self::fits(m) implies !begins(
                        data@.subrange(from as int, data@.len() as int),
                        #[trigger] Self::wire(m),
                    ) by {
                        lemma_le_bytes_len(m as nat, 8);
                    }
                }
                Err(WireError)
            },
        }
    }
}

/// What holds of a length and what it counts, as they are sent.
proof fn lemma_counted(n: nat, m: nat, a: Seq<u8>, b: Seq<u8>, s: Seq<u8>, t: Seq<u8>)
    requires
        n <= u64::MAX,
        m <= u64::MAX,
        (le_bytes(n, 8) + a) + s == (le_bytes(m, 8) + b) + t,
    ensures
        n == m,
        a + s == b + t,
{
    lemma_pow256_values();
    lemma_le_roundtrip(n, 8);
    lemma_le_roundtrip(m, 8);
    assert((le_bytes(n, 8) + a) + s =~= le_bytes(n, 8) + (a + s));
    assert((le_bytes(m, 8) + b) + t =~= le_bytes(m, 8) + (b + t));
    lemma_same_start(le_bytes(n, 8), le_bytes(m, 8), a + s, b + t);
}

/// Bytes that are sent as such.
pub struct Bytes(pub Vec<u8>);

impl Wire for Bytes {
    type Model = Seq<u8>;

    open spec fn model(&self) -> Seq<u8> {
        self.0@
    }

    open spec fn fits(m: Seq<u8>) -> bool {
        m.len() <= u64::MAX
    }

    open spec fn wire(m: Seq<u8>) -> Seq<u8> {
        le_bytes(m.len(), 8) + m
    }

    proof fn unique(a: Seq<u8>, b: Seq<u8>, s: Seq<u8>, t: Seq<u8>) {
        lemma_counted(a.len(), b.len(), a, b, s, t);
        lemma_same_start(a, b, s, t);
    }

    fn put(&self, out: &mut Vec<u8>) {
        put_bytes(&self.0, out);
    }

    fn take(data: &[u8], from: usize) -> (r: Result<(Bytes, usize), WireError>) {
        let ghost tail = data@.subrange(from as int, data@.len() as int);
        match deserialize_bytes(rest(data, from)) {
            Ok(value) => {
                let to: usize = from + 8 + value.len();
                proof {
                    lemma_le_value_roundtrip(tail.subrange(0, 8));
                    assert(data@.subrange(from as int, to as int) =~= tail.subrange(0, 8)
                        + tail.subrange(8, 8 + value@.len() as int));
                }
                Ok((Bytes(value), to))
            },
            Err(_) => {
                proof {
                    assert forall|m: Seq<u8>| Self::fits(m) implies !begins(
                        tail,
                        #[trigger] Self::wire(m),
                    ) by {
                        if begins(tail, Self::wire(m)) {
                            lemma_no_counted(tail, m.len(), m);
                        }
                    }
                }
                Err(WireError)
            },
        }
    }
}

/// Bytes that begin with a length and as many bytes more can be read.
proof fn lemma_no_counted(tail: Seq<u8>, n: nat, m: Seq<u8>)
    requires
        n <= u64::MAX,
        begins(tail, le_bytes(n, 8) + m),
    ensures
        tail.len() >= 8 + m.len(),
        le_value(tail.subrange(0, 8)) == n,
        tail.subrange(8, 8 + m.len() as int) == m,
{
    lemma_pow256_values();
    lemma_le_roundtrip(n, 8);
    let all = le_bytes(n, 8) + m;
    assert(tail.subrange(0, 8) =~= tail.subrange(0, all.len() as int).subrange(0, 8));
    assert(all.subrange(0, 8) =~= le_bytes(n, 8));
    assert(tail.subrange(8, 8 + m.len() as int) =~= tail.subrange(0, all.len() as int).subrange(
        8,
        8 + m.len() as int,
    ));
    assert(all.subrange(8, 8 + m.len() as int) =~= m);
}

/// Appends bytes with their number before them.
pub fn put_bytes(bytes: &[u8], out: &mut Vec<u8>)
    ensures
        Bytes::fits(bytes@),
        final(out)@ == old(out)@ + Bytes::wire(bytes@),
{
    let _count: usize = bytes.len();
    let mut sent = written(serialize_bytes(bytes));
    out.append(&mut sent);
}

impl Wire for String {
    type Model = Seq<char>;

    open spec fn model(&self) -> Seq<char> {
        self@
    }

    open spec fn fits(m: Seq<char>) -> bool {
        encode_utf8(m).len() <= u64::MAX
    }

    open spec fn wire(m: Seq<char>) -> Seq<u8> {
        le_bytes(encode_utf8(m).len(), 8) + encode_utf8(m)
    }

    proof fn unique(a: Seq<char>, b: Seq<char>, s: Seq<u8>, t: Seq<u8>) {
        let (x, y) = (encode_utf8(a), encode_utf8(b));
        lemma_counted(x.len(), y.len(), x, y, s, t);
        lemma_same_start(x, y, s, t);
        encode_utf8_decode_utf8(a);
        encode_utf8_decode_utf8(b);
    }

    fn put(&self, out: &mut Vec<u8>) {
        let _count: usize = self.as_str().as_bytes().len();
        let mut sent = written(serialize_text(self.as_str()));
        out.append(&mut sent);
    }

    fn take(data: &[u8], from: usize) -> (r: Result<(String, usize), WireError>) {
        let ghost tail = data@.subrange(from as int, data@.len() as int);
        match deserialize_text(rest(data, from)) {
            Ok(value) => {
                let n: usize = value.as_str().as_bytes().len();
                let to: usize = from + 8 + n;
                proof {
                    lemma_le_value_roundtrip(tail.subrange(0, 8));
                    assert(data@.subrange(from as int, to as int) =~= tail.subrange(0, 8)
                        + tail.subrange(8, 8 + n));
                }
                Ok((value, to))
            },
            Err(_) => {
                proof {
                    assert forall|m: Seq<char>| Self::fits(m) implies !begins(
                        tail,
                        #[trigger] Self::wire(m),
                    ) by {
                        if begins(tail, Self::wire(m)) {
                            lemma_no_counted(tail, encode_utf8(m).len(), encode_utf8(m));
                            encode_utf8_valid_utf8(m);
                        }
                    }
                }
                Err(WireError)
            },
        }
    }
}

impl Wire for () {
    type Model = ();

    open spec fn model(&self) -> () {
        ()
    }

    open spec fn fits(m: ()) -> bool {
        true
    }

    open spec fn wire(m: ()) -> Seq<u8> {
        Seq::empty()
    }

    proof fn unique(a: (), b: (), s: Seq<u8>, t: Seq<u8>) {
    }

    fn put(&self, out: &mut Vec<u8>) {
        proof {
            assert(out@ =~= out@ + Self::wire(()));
        }
    }

    fn take(data: &[u8], from: usize) -> (r: Result<((), usize), WireError>) {
        proof {
            assert(data@.subrange(from as int, from as int) =~= Seq::<u8>::empty());
        }
        Ok(((), from))
    }
}

impl Wire for bool {
    type Model = bool;

    open spec fn model(&self) -> bool {
        *self
    }

    open spec fn fits(m: bool) -> bool {
        true
    }

    open spec fn wire(m: bool) -> Seq<u8> {
        u8::wire(
            if m {
                1
            } else {
                0
            },
        )
    }

    proof fn unique(a: bool, b: bool, s: Seq<u8>, t: Seq<u8>) {
        u8::unique(
            if a {
                1
            } else {
                0
            },
            if b {
                1
            } else {
                0
            },
            s,
            t,
        );
    }

    fn put(&self, out: &mut Vec<u8>) {
        let byte: u8 = if *self {
            1
        } else {
            0
        };
        byte.put(out);
    }

    fn take(data: &[u8], from: usize) -> (r: Result<(bool, usize), WireError>) {
        match u8::take(data, from) {
            Ok((byte, to)) => {
                if byte == 0 {
                    Ok((false, to))
                } else if byte == 1 {
                    Ok((true, to))
                } else {
                    proof {
                        assert forall|m: bool| Self::fits(m) implies !begins(
                            data@.subrange(from as int, data@.len() as int),
                            #[trigger] Self::wire(m),
                        ) by {
                            lemma_other_number::<u8>(
                                data@,
                                from as int,
                                to as int,
                                byte,
                                if m {
                                    1
                                } else {
                                    0
                                },
                            );
                        }
                    }
                    Err(WireError)
                }
            },
            Err(e) => Err(e),
        }
    }
}

/// Where a value was read, no other begins.
proof fn lemma_other_number<T: Wire>(
    data: Seq<u8>,
    from: int,
    to: int,
    got: T::Model,
    other: T::Model,
)
    requires
        0 <= from <= to <= data.len(),
        T::fits(got),
        T::fits(other),
        T::wire(got) == data.subrange(from, to),
        got != other,
    ensures
        !begins(data.subrange(from, data.len() as int), T::wire(other)),
{
    let tail = data.subrange(from, data.len() as int);
    if begins(tail, T::wire(other)) {
        assert(tail.subrange(0, to - from) =~= data.subrange(from, to));
        assert(begins(tail, T::wire(got)));
        read_gives_back_what_was_written::<T>(tail, got, other);
    }
}

/// Behind a value that was read, the rest of what begins with it begins.
pub proof fn lemma_rest_begins<T: Wire>(
    data: Seq<u8>,
    from: int,
    to: int,
    got: T::Model,
    m: T::Model,
    more: Seq<u8>,
)
    requires
        0 <= from <= to <= data.len(),
        T::fits(got),
        T::fits(m),
        T::wire(got) == data.subrange(from, to),
        begins(data.subrange(from, data.len() as int), T::wire(m) + more),
    ensures
        m == got,
        begins(data.subrange(to, data.len() as int), more),
{
    let tail = data.subrange(from, data.len() as int);
    let w = T::wire(m);
    let all = w + more;
    assert(tail.subrange(0, w.len() as int) =~= tail.subrange(0, all.len() as int).subrange(
        0,
        w.len() as int,
    ));
    assert(all.subrange(0, w.len() as int) =~= w);
    assert(begins(tail, w));
    assert(tail.subrange(0, to - from) =~= data.subrange(from, to));
    assert(begins(tail, T::wire(got)));
    read_gives_back_what_was_written::<T>(tail, got, m);
    assert(data.subrange(to, data.len() as int).subrange(0, more.len() as int) =~= tail.subrange(
        0,
        all.len() as int,
    ).subrange(w.len() as int, all.len() as int));
    assert(all.subrange(w.len() as int, all.len() as int) =~= more);
}

/// Where no value of the first kind begins, nothing begins that begins with one.
pub proof fn lemma_none_begins<T: Wire>(tail: Seq<u8>, m: T::Model, more: Seq<u8>)
    requires
        T::fits(m),
        forall|x: T::Model| T::fits(x) ==> !begins(tail, #[trigger] T::wire(x)),
    ensures
        !begins(tail, T::wire(m) + more),
{
    let w = T::wire(m);
    let all = w + more;
    if begins(tail, all) {
        assert(tail.subrange(0, w.len() as int) =~= tail.subrange(
            0,
            all.len() as int,
        ).subrange(0, w.len() as int));
        assert(all.subrange(0, w.len() as int) =~= w);
        assert(begins(tail, w));
    }
}

/// Two bytes strings behind equal starts that are told apart.
proof fn lemma_unique_pair<A: Wire, B: Wire>(
    a: (A::Model, B::Model),
    b: (A::Model, B::Model),
    s: Seq<u8>,
    t: Seq<u8>,
)
    requires
        A::fits(a.0),
        A::fits(b.0),
        B::fits(a.1),
        B::fits(b.1),
        (A::wire(a.0) + B::wire(a.1)) + s == (A::wire(b.0) + B::wire(b.1)) + t,
    ensures
        a == b,
{
    assert((A::wire(a.0) + B::wire(a.1)) + s =~= A::wire(a.0) + (B::wire(a.1) + s));
    assert((A::wire(b.0) + B::wire(b.1)) + t =~= A::wire(b.0) + (B::wire(b.1) + t));
    A::unique(a.0, b.0, B::wire(a.1) + s, B::wire(b.1) + t);
    lemma_same_start(A::wire(a.0), A::wire(b.0), B::wire(a.1) + s, B::wire(b.1) + t);
    B::unique(a.1, b.1, s, t);
}

impl<A: Wire, B: Wire> Wire for (A, B) {
    type Model = (A::Model, B::Model);

    open spec fn model(&self) -> (A::Model, B::Model) {
        (self.0.model(), self.1.model())
    }

    open spec fn fits(m: (A::Model, B::Model)) -> bool {
        A::fits(m.0) && B::fits(m.1)
    }

    open spec fn wire(m: (A::Model, B::Model)) -> Seq<u8> {
        A::wire(m.0) + B::wire(m.1)
    }

    proof fn unique(
        a: (A::Model, B::Model),
        b: (A::Model, B::Model),
        s: Seq<u8>,
        t: Seq<u8>,
    ) {
        lemma_unique_pair::<A, B>(a, b, s, t);
    }

    fn put(&self, out: &mut Vec<u8>) {
        let ghost before = out@;
        self.0.put(out);
        self.1.put(out);
        proof {
            assert(out@ =~= before + Self::wire(self.model()));
        }
    }

    fn take(data: &[u8], from: usize) -> (r: Result<((A, B), usize), WireError>) {
        let ghost tail = data@.subrange(from as int, data@.len() as int);
        match A::take(data, from) {
            Ok((a, middle)) => match B::take(data, middle) {
                Ok((b, to)) => {
                    proof {
                        assert(data@.subrange(from as int, to as int) =~= data@.subrange(
                            from as int,
                            middle as int,
                        ) + data@.subrange(middle as int, to as int));
                    }
                    Ok(((a, b), to))
                },
                Err(e) => {
                    proof {
                        assert forall|m: (A::Model, B::Model)| Self::fits(m) implies !begins(
                            tail,
                            #[trigger] Self::wire(m),
                        ) by {
                            if begins(tail, Self::wire(m)) {
                                lemma_rest_begins::<A>(
                                    data@,
                                    from as int,
                                    middle as int,
                                    a.model(),
                                    m.0,
                                    B::wire(m.1),
                                );
                            }
                        }
                    }
                    Err(e)
                },
            },
            Err(e) => {
                proof {
                    assert forall|m: (A::Model, B::Model)| Self::fits(m) implies !begins(
                        tail,
                        #[trigger] Self::wire(m),
                    ) by {
                        lemma_none_begins::<A>(tail, m.0, B::wire(m.1));
                    }
                }
                Err(e)
            },
        }
    }
}

/// The bits of a signed number as an unsigned one.
pub open spec fn unsigned(n: i32) -> u32 {
    if n >= 0 {
        n as u32
    } else {
        (n + 0x1_0000_0000) as u32
    }
}

impl Wire for i32 {
    type Model = i32;

    open spec fn model(&self) -> i32 {
        *self
    }

    open spec fn fits(m: i32) -> bool {
        true
    }

    open spec fn wire(m: i32) -> Seq<u8> {
        u32::wire(unsigned(m))
    }

    proof fn unique(a: i32, b: i32, s: Seq<u8>, t: Seq<u8>) {
        u32::unique(unsigned(a), unsigned(b), s, t);
    }

    fn put(&self, out: &mut Vec<u8>) {
        let bits: u32 = if *self >= 0 {
            *self as u32
        } else {
            (*self as i64 + 0x1_0000_0000) as u32
        };
        bits.put(out);
    }

    fn take(data: &[u8], from: usize) -> (r: Result<(i32, usize), WireError>) {
        match u32::take(data, from) {
            Ok((bits, to)) => {
                let value: i32 = if bits < 0x8000_0000 {
                    bits as i32
                } else {
                    (bits as i64 - 0x1_0000_0000) as i32
                };
                Ok((value, to))
            },
            Err(e) => {
                proof {
                    assert forall|m: i32| Self::fits(m) implies !begins(
                        data@.subrange(from as int, data@.len() as int),
                        #[trigger] Self::wire(m),
                    ) by {
                        assert(u32::fits(unsigned(m)));
                    }
                }
                Err(e)
            },
        }
    }
}

/// A character tells its own end: its bytes, with whatever behind them, tell it.
proof fn lemma_char_first(c: char, rest: Seq<u8>)
    ensures
        decode_first_scalar(encode_utf8(seq![c]) + rest) == c as u32,
        encode_utf8(seq![c]) == encode_scalar(c as u32),
{
    let bytes = encode_utf8(seq![c]);
    encode_utf8_first_scalar(seq![c]);
    assert(seq![c].drop_first() =~= Seq::<char>::empty());
    assert(bytes =~= encode_scalar(c as u32)) by {
        reveal_with_fuel(encode_utf8, 2);
    }
    assert((bytes + rest)[0] == bytes[0]);
    if bytes.len() > 1 {
        assert((bytes + rest)[1] == bytes[1]);
    }
    if bytes.len() > 2 {
        assert((bytes + rest)[2] == bytes[2]);
    }
    if bytes.len() > 3 {
        assert((bytes + rest)[3] == bytes[3]);
    }
}

/// How many bytes a character takes.
fn char_len(c: char) -> (r: usize)
    ensures
        r == encode_utf8(seq![c]).len(),
        1 <= r <= 4,
{
    proof {
        lemma_char_first(c, Seq::empty());
        char_is_scalar(c);
    }
    let code: u32 = c as u32;
    if code < 0x80 {
        1
    } else if code < 0x800 {
        2
    } else if code < 0x1_0000 {
        3
    } else {
        4
    }
}

impl Wire for char {
    type Model = char;

    open spec fn model(&self) -> char {
        *self
    }

    open spec fn fits(m: char) -> bool {
        true
    }

    open spec fn wire(m: char) -> Seq<u8> {
        encode_utf8(seq![m])
    }

    proof fn unique(a: char, b: char, s: Seq<u8>, t: Seq<u8>) {
        lemma_char_first(a, s);
        lemma_char_first(b, t);
        char_u32_cast(a, a as u32);
        char_u32_cast(b, b as u32);
    }

    fn put(&self, out: &mut Vec<u8>) {
        let mut bytes = written(serialize_char(*self));
        out.append(&mut bytes);
    }

    fn take(data: &[u8], from: usize) -> (r: Result<(char, usize), WireError>) {
        match deserialize_char(rest(data, from)) {
            Ok(value) => {
                let len: usize = char_len(value);
                proof {
                    let n = len as int;
                    assert(data@.subrange(from as int, data@.len() as int).subrange(0, n)
                        =~= data@.subrange(from as int, from + n));
                }
                Ok((value, from + len))
            },
            Err(_) => Err(WireError),
        }
    }
}

/// Eight bytes, as of a `u64`.
impl Wire for usize {
    type Model = usize;

    open spec fn model(&self) -> usize {
        *self
    }

    open spec fn fits(m: usize) -> bool {
        true
    }

    open spec fn wire(m: usize) -> Seq<u8> {
        u64::wire(m as u64)
    }

    proof fn unique(a: usize, b: usize, s: Seq<u8>, t: Seq<u8>) {
        u64::unique(a as u64, b as u64, s, t);
    }

    fn put(&self, out: &mut Vec<u8>) {
        (*self as u64).put(out);
    }

    fn take(data: &[u8], from: usize) -> (r: Result<(usize, usize), WireError>) {
        match u64::take(data, from) {
            Ok((value, to)) => {
                if value <= usize::MAX as u64 {
                    return Ok((value as usize, to));
                }
                proof {
                    let rest = data@.subrange(from as int, data@.len() as int);
                    assert forall|m: usize| Self::fits(m) implies !begins(
                        rest,
                        #[trigger] Self::wire(m),
                    ) by {
                        assert(rest.subrange(0, to - from) =~= data@.subrange(
                            from as int,
                            to as int,
                        ));
                        if begins(rest, u64::wire(m as u64)) {
                            read_gives_back_what_was_written::<u64>(rest, m as u64, value);
                        }
                    }
                }
                Err(WireError)
            },
            Err(e) => {
                proof {
                    assert forall|m: usize| Self::fits(m) implies !begins(
                        data@.subrange(from as int, data@.len() as int),
                        #[trigger] Self::wire(m),
                    ) by {
                        assert(u64::fits(m as u64));
                    }
                }
                Err(e)
            },
        }
    }
}

/// Sixteen bytes, the first the least significant.
impl Wire for u128 {
    type Model = u128;

    open spec fn model(&self) -> u128 {
        *self
    }

    open spec fn fits(m: u128) -> bool {
        true
    }

    open spec fn wire(m: u128) -> Seq<u8> {
        u64::wire((m % 0x1_0000_0000_0000_0000) as u64) + u64::wire(
            (m / 0x1_0000_0000_0000_0000) as u64,
        )
    }

    proof fn unique(a: u128, b: u128, s: Seq<u8>, t: Seq<u8>) {
        let x = ((a % 0x1_0000_0000_0000_0000) as u64, (a / 0x1_0000_0000_0000_0000) as u64);
        let y = ((b % 0x1_0000_0000_0000_0000) as u64, (b / 0x1_0000_0000_0000_0000) as u64);
        lemma_unique_pair::<u64, u64>(x, y, s, t);
    }

    fn put(&self, out: &mut Vec<u8>) {
        let low: u64 = (*self % 0x1_0000_0000_0000_0000) as u64;
        let high: u64 = (*self / 0x1_0000_0000_0000_0000) as u64;
        (low, high).put(out);
    }

    fn take(data: &[u8], from: usize) -> (r: Result<(u128, usize), WireError>) {
        match <(u64, u64)>::take(data, from) {
            Ok(((low, high), to)) => Ok(
                (high as u128 * 0x1_0000_0000_0000_0000 + low as u128, to),
            ),
            Err(e) => {
                proof {
                    assert forall|m: u128| Self::fits(m) implies !begins(
                        data@.subrange(from as int, data@.len() as int),
                        #[trigger] Self::wire(m),
                    ) by {
                        let pair = (
                            (m % 0x1_0000_0000_0000_0000) as u64,
                            (m / 0x1_0000_0000_0000_0000) as u64,
                        );
                        assert(<(u64, u64)>::wire(pair) == Self::wire(m));
                    }
                }
                Err(e)
            },
        }
    }
}

impl<A: Wire> Wire for Option<A> {
    type Model = Option<A::Model>;

    open spec fn model(&self) -> Option<A::Model> {
        match self {
            Some(a) => Some(a.model()),
            None => None,
        }
    }

    open spec fn fits(m: Option<A::Model>) -> bool {
        m is Some ==> A::fits(m->0)
    }

    open spec fn wire(m: Option<A::Model>) -> Seq<u8> {
        match m {
            Some(a) => u8::wire(1) + A::wire(a),
            None => u8::wire(0) + Seq::<u8>::empty(),
        }
    }

    proof fn unique(a: Option<A::Model>, b: Option<A::Model>, s: Seq<u8>, t: Seq<u8>) {
        let (x, p) = match a {
            Some(v) => (1u8, A::wire(v)),
            None => (0u8, Seq::<u8>::empty()),
        };
        let (y, q) = match b {
            Some(v) => (1u8, A::wire(v)),
            None => (0u8, Seq::<u8>::empty()),
        };
        lemma_after_number::<u8>(x, y, p, q, s, t);
        if x == 1 {
            A::unique(a->0, b->0, s, t);
        }
    }

    fn put(&self, out: &mut Vec<u8>) {
        let ghost before = out@;
        match self {
            Some(a) => {
                let tag: u8 = 1;
                tag.put(out);
                a.put(out);
            },
            None => {
                let tag: u8 = 0;
                tag.put(out);
            },
        }
        proof {
            assert(out@ =~= before + Self::wire(self.model()));
        }
    }

    fn take(data: &[u8], from: usize) -> (r: Result<(Option<A>, usize), WireError>) {
        let ghost tail = data@.subrange(from as int, data@.len() as int);
        match u8::take(data, from) {
            Ok((tag, middle)) => {
                proof {
                    assert forall|m: Option<A::Model>|
                        Self::fits(m) && begins(tail, #[trigger] Self::wire(m)) implies tag == (
                    if m is Some {
                        1u8
                    } else {
                        0u8
                    }) && (m is Some ==> begins(
                        data@.subrange(middle as int, data@.len() as int),
                        A::wire(m->0),
                    )) by {
                        let (x, p) = match m {
                            Some(v) => (1u8, A::wire(v)),
                            None => (0u8, Seq::<u8>::empty()),
                        };
                        lemma_rest_begins::<u8>(data@, from as int, middle as int, tag, x, p);
                    }
                }
                if tag == 0 {
                    proof {
                        assert(data@.subrange(from as int, middle as int) =~= data@.subrange(
                            from as int,
                            middle as int,
                        ) + Seq::<u8>::empty());
                    }
                    Ok((None, middle))
                } else if tag == 1 {
                    match A::take(data, middle) {
                        Ok((a, to)) => {
                            proof {
                                assert(data@.subrange(from as int, to as int) =~= data@.subrange(
                                    from as int,
                                    middle as int,
                                ) + data@.subrange(middle as int, to as int));
                            }
                            Ok((Some(a), to))
                        },
                        Err(e) => Err(e),
                    }
                } else {
                    Err(WireError)
                }
            },
            Err(e) => {
                proof {
                    assert forall|m: Option<A::Model>| Self::fits(m) implies !begins(
                        tail,
                        #[trigger] Self::wire(m),
                    ) by {
                        match m {
                            Some(v) => {
                                lemma_none_begins::<u8>(tail, 1, A::wire(v));
                            },
                            None => {
                                lemma_none_begins::<u8>(tail, 0, Seq::empty());
                            },
                        }
                    }
                }
                Err(e)
            },
        }
    }
}

/// Numbers before what they tell of are equal where the bytes are, and so is what follows.
pub proof fn lemma_after_number<T: Wire>(
    x: T::Model,
    y: T::Model,
    p: Seq<u8>,
    q: Seq<u8>,
    s: Seq<u8>,
    t: Seq<u8>,
)
    requires
        T::fits(x),
        T::fits(y),
        (T::wire(x) + p) + s == (T::wire(y) + q) + t,
    ensures
        x == y,
        p + s == q + t,
{
    assert((T::wire(x) + p) + s =~= T::wire(x) + (p + s));
    assert((T::wire(y) + q) + t =~= T::wire(y) + (q + t));
    T::unique(x, y, p + s, q + t);
    lemma_same_start(T::wire(x), T::wire(y), p + s, q + t);
}

/// The bytes of values one behind the other.
pub open spec fn in_a_row<A: Wire>(items: Seq<A::Model>) -> Seq<u8>
    decreases items.len(),
{
    if items.len() == 0 {
        Seq::empty()
    } else {
        A::wire(items[0]) + in_a_row::<A>(items.drop_first())
    }
}

pub open spec fn all_fit<A: Wire>(items: Seq<A::Model>) -> bool {
    forall|i: int| 0 <= i < items.len() ==> A::fits(#[trigger] items[i])
}

proof fn lemma_row_push<A: Wire>(items: Seq<A::Model>, item: A::Model)
    ensures
        in_a_row::<A>(items.push(item)) == in_a_row::<A>(items) + A::wire(item),
    decreases items.len(),
{
    let more = items.push(item);
    if items.len() == 0 {
        assert(more.drop_first() =~= Seq::<A::Model>::empty());
        assert(in_a_row::<A>(more.drop_first()) =~= Seq::<u8>::empty());
        assert(in_a_row::<A>(more) =~= in_a_row::<A>(items) + A::wire(item));
    } else {
        assert(more.drop_first() =~= items.drop_first().push(item));
        lemma_row_push::<A>(items.drop_first(), item);
        assert(in_a_row::<A>(more) =~= in_a_row::<A>(items) + A::wire(item));
    }
}

proof fn lemma_row_unique<A: Wire>(
    a: Seq<A::Model>,
    b: Seq<A::Model>,
    s: Seq<u8>,
    t: Seq<u8>,
)
    requires
        a.len() == b.len(),
        all_fit::<A>(a),
        all_fit::<A>(b),
        in_a_row::<A>(a) + s == in_a_row::<A>(b) + t,
    ensures
        a == b,
    decreases a.len(),
{
    if a.len() == 0 {
        assert(a =~= b);
    } else {
        let (x, y) = (a.drop_first(), b.drop_first());
        assert(A::fits(a[0]) && A::fits(b[0]));
        lemma_after_number::<A>(a[0], b[0], in_a_row::<A>(x), in_a_row::<A>(y), s, t);
        assert forall|i: int| 0 <= i < x.len() implies A::fits(#[trigger] x[i]) by {
            assert(A::fits(a[i + 1]));
        }
        assert forall|i: int| 0 <= i < y.len() implies A::fits(#[trigger] y[i]) by {
            assert(A::fits(b[i + 1]));
        }
        lemma_row_unique::<A>(x, y, s, t);
        assert(a =~= seq![a[0]] + x);
        assert(b =~= seq![b[0]] + y);
    }
}

/// Behind values that were read, the rest of a row that begins with as many begins.
proof fn lemma_row_rest<A: Wire>(tail: Seq<u8>, got: Seq<A::Model>, m: Seq<A::Model>)
    requires
        got.len() <= m.len(),
        all_fit::<A>(got),
        all_fit::<A>(m),
        begins(tail, in_a_row::<A>(got)),
        begins(tail, in_a_row::<A>(m)),
    ensures
        begins(
            tail.subrange(in_a_row::<A>(got).len() as int, tail.len() as int),
            in_a_row::<A>(m.subrange(got.len() as int, m.len() as int)),
        ),
    decreases got.len(),
{
    if got.len() == 0 {
        assert(m.subrange(0, m.len() as int) =~= m);
        assert(tail.subrange(0, tail.len() as int) =~= tail);
    } else {
        let (x, y) = (got.drop_first(), m.drop_first());
        let w = A::wire(got[0]);
        let row = in_a_row::<A>(got);
        let end = w.len() as int;
        assert(A::fits(got[0]) && A::fits(m[0]));
        assert(row.subrange(0, end) =~= w);
        assert(tail.subrange(0, end) =~= tail.subrange(0, row.len() as int).subrange(0, end));
        assert(tail.subrange(0, tail.len() as int) =~= tail);
        lemma_rest_begins::<A>(tail, 0, end, got[0], m[0], in_a_row::<A>(y));
        lemma_rest_begins::<A>(tail, 0, end, got[0], got[0], in_a_row::<A>(x));
        assert forall|i: int| 0 <= i < x.len() implies A::fits(#[trigger] x[i]) by {
            assert(A::fits(got[i + 1]));
        }
        assert forall|i: int| 0 <= i < y.len() implies A::fits(#[trigger] y[i]) by {
            assert(A::fits(m[i + 1]));
        }
        let short = tail.subrange(end, tail.len() as int);
        lemma_row_rest::<A>(short, x, y);
        assert(short.subrange(in_a_row::<A>(x).len() as int, short.len() as int) =~= tail.subrange(
            row.len() as int,
            tail.len() as int,
        ));
        assert(y.subrange(x.len() as int, y.len() as int) =~= m.subrange(
            got.len() as int,
            m.len() as int,
        ));
    }
}

pub open spec fn models<A: Wire>(items: Seq<A>) -> Seq<A::Model> {
    items.map_values(|a: A| a.model())
}

impl<A: Wire> Wire for Vec<A> {
    type Model = Seq<A::Model>;

    open spec fn model(&self) -> Seq<A::Model> {
        models(self@)
    }

    open spec fn fits(m: Seq<A::Model>) -> bool {
        m.len() <= u64::MAX && all_fit::<A>(m)
    }

    open spec fn wire(m: Seq<A::Model>) -> Seq<u8> {
        u64::wire(m.len() as u64) + in_a_row::<A>(m)
    }

    proof fn unique(a: Seq<A::Model>, b: Seq<A::Model>, s: Seq<u8>, t: Seq<u8>) {
        lemma_after_number::<u64>(
            a.len() as u64,
            b.len() as u64,
            in_a_row::<A>(a),
            in_a_row::<A>(b),
            s,
            t,
        );
        lemma_row_unique::<A>(a, b, s, t);
    }

    fn put(&self, out: &mut Vec<u8>) {
        let ghost before = out@;
        let count: u64 = self.len() as u64;
        count.put(out);
        let ghost head = out@;
        let mut i: usize = 0;
        proof {
            assert(models(self@).take(0) =~= Seq::<A::Model>::empty());
            assert(head =~= head + in_a_row::<A>(models(self@).take(0)));
        }
        while i < self.len()
            invariant
                i <= self@.len(),
                all_fit::<A>(models(self@).take(i as int)),
                out@ == head + in_a_row::<A>(models(self@).take(i as int)),
            decreases self.len() - i,
        {
            let ghost so_far = models(self@).take(i as int);
            self[i].put(out);
            proof {
                let item = models(self@)[i as int];
                assert(models(self@).take(i + 1) =~= so_far.push(item));
                lemma_row_push::<A>(so_far, item);
                assert(out@ =~= head + in_a_row::<A>(models(self@).take(i + 1)));
            }
            i += 1;
        }
        proof {
            assert(models(self@).take(i as int) =~= models(self@));
            assert(out@ =~= before + Self::wire(self.model()));
        }
    }

    fn take(data: &[u8], from: usize) -> (r: Result<(Vec<A>, usize), WireError>) {
        let ghost tail = data@.subrange(from as int, data@.len() as int);
        let (count, start) = match u64::take(data, from) {
            Ok((count, start)) => (count, start),
            Err(e) => {
                proof {
                    assert forall|m: Seq<A::Model>| Self::fits(m) implies !begins(
                        tail,
                        #[trigger] Self::wire(m),
                    ) by {
                        lemma_none_begins::<u64>(tail, m.len() as u64, in_a_row::<A>(m));
                    }
                }
                return Err(e);
            },
        };
        let ghost row = data@.subrange(start as int, data@.len() as int);
        let mut items: Vec<A> = Vec::new();
        let mut at: usize = start;
        let mut i: u64 = 0;
        proof {
            assert(models(items@) =~= Seq::<A::Model>::empty());
            assert(data@.subrange(start as int, start as int) =~= Seq::<u8>::empty());
        }
        while i < count
            invariant
                i <= count,
                i == items@.len(),
                from <= start <= at <= data@.len(),
                tail == data@.subrange(from as int, data@.len() as int),
                row == data@.subrange(start as int, data@.len() as int),
                u64::wire(count) == data@.subrange(from as int, start as int),
                all_fit::<A>(models(items@)),
                in_a_row::<A>(models(items@)) == data@.subrange(start as int, at as int),
            decreases count - i,
        {
            match A::take(data, at) {
                Ok((item, to)) => {
                    let ghost got = models(items@);
                    items.push(item);
                    proof {
                        assert(models(items@) =~= got.push(item.model()));
                        lemma_row_push::<A>(got, item.model());
                        assert(data@.subrange(start as int, to as int) =~= data@.subrange(
                            start as int,
                            at as int,
                        ) + data@.subrange(at as int, to as int));
                    }
                    at = to;
                    i += 1;
                },
                Err(e) => {
                    proof {
                        let got = models(items@);
                        assert forall|m: Seq<A::Model>| Self::fits(m) implies !begins(
                            tail,
                            #[trigger] Self::wire(m),
                        ) by {
                            if begins(tail, Self::wire(m)) {
                                lemma_rest_begins::<u64>(
                                    data@,
                                    from as int,
                                    start as int,
                                    count,
                                    m.len() as u64,
                                    in_a_row::<A>(m),
                                );
                                assert(row.subrange(0, in_a_row::<A>(got).len() as int)
                                    =~= data@.subrange(start as int, at as int));
                                lemma_row_rest::<A>(row, got, m);
                                let rest = m.subrange(got.len() as int, m.len() as int);
                                assert(row.subrange(
                                    in_a_row::<A>(got).len() as int,
                                    row.len() as int,
                                ) =~= data@.subrange(at as int, data@.len() as int));
                                assert(rest[0] == m[got.len() as int]);
                                assert(A::fits(m[got.len() as int]));
                                lemma_none_begins::<A>(
                                    data@.subrange(at as int, data@.len() as int),
                                    rest[0],
                                    in_a_row::<A>(rest.drop_first()),
                                );
                            }
                        }
                    }
                    return Err(e);
                },
            }
        }
        proof {
            assert(data@.subrange(from as int, at as int) =~= data@.subrange(
                from as int,
                start as int,
            ) + data@.subrange(start as int, at as int));
        }
        Ok((items, at))
    }
}

/// What is told apart by its number alone.
pub trait Numbered: Sized + Copy {
    spec fn number(self) -> u32;

    proof fn told_apart(a: Self, b: Self)
        requires
            a.number() == b.number(),
        ensures
            a == b,
    ;

    fn to_number(self) -> (r: u32)
        ensures
            r == self.number(),
    ;

    fn from_number(number: u32) -> (r: Option<Self>)
        ensures
            match r {
                Some(value) => value.number() == number,
                None => forall|value: Self| (#[trigger] value.number()) != number,
            },
    ;
}

/// Reads what is told apart by its number alone.
pub fn take_numbered<T: Numbered>(data: &[u8], from: usize) -> (r: Result<(T, usize), WireError>)
    requires
        from <= data@.len(),
    ensures
        match r {
            Ok((value, to)) => {
                &&& from <= to <= data@.len()
                &&& u32::wire(value.number()) == data@.subrange(from as int, to as int)
            },
            Err(_) => forall|value: T|
                !begins(
                    data@.subrange(from as int, data@.len() as int),
                    #[trigger] u32::wire(value.number()),
                ),
        },
{
    match u32::take(data, from) {
        Ok((number, to)) => match T::from_number(number) {
            Some(value) => Ok((value, to)),
            None => {
                proof {
                    assert forall|value: T|
                        !begins(
                            data@.subrange(from as int, data@.len() as int),
                            #[trigger] u32::wire(value.number()),
                        ) by {
                        lemma_other_number::<u32>(
                            data@,
                            from as int,
                            to as int,
                            number,
                            value.number(),
                        );
                    }
                }
                Err(WireError)
            },
        },
        Err(e) => Err(e),
    }
}

/// Appends the number of a variant.
pub fn put_number(number: u32, out: &mut Vec<u8>)
    ensures
        final(out)@ == old(out)@ + u32::wire(number),
{
    number.put(out);
}

/// What is appended step by step stands in a row.
pub proof fn lemma_append(s: Seq<u8>, a: Seq<u8>, b: Seq<u8>)
    ensures
        (s + a) + b == s + (a + b),
{
    assert((s + a) + b =~= s + (a + b));
}

} // verus!
