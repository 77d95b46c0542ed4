//! Pieces of human-readable text: numbers in decimal and hexadecimal.
use vstd::prelude::*;

verus! {

/// The character of the digit `d` to the base sixteen, in lower case.
pub open spec fn digit_char(d: nat) -> char {
    if d == 0 { '0' }
    else if d == 1 { '1' }
    else if d == 2 { '2' }
    else if d == 3 { '3' }
    else if d == 4 { '4' }
    else if d == 5 { '5' }
    else if d == 6 { '6' }
    else if d == 7 { '7' }
    else if d == 8 { '8' }
    else if d == 9 { '9' }
    else if d == 10 { 'a' }
    else if d == 11 { 'b' }
    else if d == 12 { 'c' }
    else if d == 13 { 'd' }
    else if d == 14 { 'e' }
    else { 'f' }
}

/// `n` written to the base `base`, without leading zeros.
pub open spec fn digits(n: nat, base: nat) -> Seq<char>
    recommends
        2 <= base <= 16,
    decreases n,
    via digits_shrink
{
    if base < 2 || n < base {
        seq![digit_char(n)]
    } else {
        digits(n / base, base).push(digit_char(n % base))
    }
}

#[via_fn]
proof fn digits_shrink(n: nat, base: nat) {
    if base >= 2 && n >= base {
        assert(n / base < n) by (nonlinear_arith)
            requires
                2 <= base <= n,
        ;
    }
}

/// `n` in decimal.
pub open spec fn decimal(n: nat) -> Seq<char> {
    digits(n, 10)
}

/// `n` in hexadecimal behind `0x`.
pub open spec fn prefixed_hex(n: nat) -> Seq<char> {
    "0x"@ + digits(n, 16)
}

fn digit_str(d: u64) -> (r: &'static str)
    requires
        d < 16,
    ensures
        r@ == seq![digit_char(d as nat)],
{
    proof {
        reveal_strlit("0");
        reveal_strlit("1");
        reveal_strlit("2");
        reveal_strlit("3");
        reveal_strlit("4");
        reveal_strlit("5");
        reveal_strlit("6");
        reveal_strlit("7");
        reveal_strlit("8");
        reveal_strlit("9");
        reveal_strlit("a");
        reveal_strlit("b");
        reveal_strlit("c");
        reveal_strlit("d");
        reveal_strlit("e");
        reveal_strlit("f");
    }
    match d {
        0 => "0",
        1 => "1",
        2 => "2",
        3 => "3",
        4 => "4",
        5 => "5",
        6 => "6",
        7 => "7",
        8 => "8",
        9 => "9",
        10 => "a",
        11 => "b",
        12 => "c",
        13 => "d",
        14 => "e",
        _ => "f",
    }
}

/// Appends `n` to the base `base`.
pub fn push_digits(out: &mut String, n: u64, base: u64)
    requires
        2 <= base <= 16,
    ensures
        final(out)@ == old(out)@ + digits(n as nat, base as nat),
    decreases n,
{
    if n < base {
        out.append(digit_str(n));
    } else {
        assert(n / base < n) by (nonlinear_arith)
            requires
                2 <= base <= n,
        ;
        push_digits(out, n / base, base);
        out.append(digit_str(n % base));
    }
}

/// Appends `n` in decimal.
pub fn push_decimal(out: &mut String, n: u64)
    ensures
        final(out)@ == old(out)@ + decimal(n as nat),
{
    push_digits(out, n, 10);
}

/// Appends `n` in hexadecimal behind `0x`.
pub fn push_prefixed_hex(out: &mut String, n: u64)
    ensures
        final(out)@ == old(out)@ + prefixed_hex(n as nat),
{
    out.append("0x");
    push_digits(out, n, 16);
}

/// `n` in decimal.
pub fn decimal_text(n: u64) -> (r: String)
    ensures
        r@ == decimal(n as nat),
{
    let mut out = String::new();
    push_decimal(&mut out, n);
    out
}

/// `first` and then `second`.
pub fn join(first: &str, second: &str) -> (r: String)
    ensures
        r@ == first@ + second@,
{
    let mut out = first.to_owned();
    out.append(second);
    out
}

/// Whether two texts are the same.
pub fn same_text(a: &str, b: &str) -> (r: bool)
    ensures
        r == (a@ == b@),
{
    a.to_owned() == b.to_owned()
}

/// The characters that Unicode counts as white space.
pub open spec fn is_whitespace(c: char) -> bool {
    let n = c as u32;
    ||| 0x09 <= n <= 0x0d
    ||| n == 0x20
    ||| n == 0x85
    ||| n == 0xa0
    ||| n == 0x1680
    ||| 0x2000 <= n <= 0x200a
    ||| n == 0x2028
    ||| n == 0x2029
    ||| n == 0x202f
    ||| n == 0x205f
    ||| n == 0x3000
}

fn whitespace(c: char) -> (r: bool)
    ensures
        r == is_whitespace(c),
{
    let n: u32 = c as u32;
    (0x09 <= n && n <= 0x0d) || n == 0x20 || n == 0x85 || n == 0xa0 || n == 0x1680 || (0x2000 <= n
        && n <= 0x200a) || n == 0x2028 || n == 0x2029 || n == 0x202f || n == 0x205f || n == 0x3000
}

/// The place of the first character at or behind `from` that is no white space, or the end.
pub open spec fn skip_white(s: Seq<char>, from: int) -> int
    decreases s.len() - from,
{
    if from < 0 || from >= s.len() || !is_whitespace(s[from]) {
        from
    } else {
        skip_white(s, from + 1)
    }
}

/// The place behind the last character before `to`, not before `from`, that is no white space.
pub open spec fn skip_white_back(s: Seq<char>, from: int, to: int) -> int
    decreases to - from,
{
    if to <= from || to > s.len() || !is_whitespace(s[to - 1]) {
        to
    } else {
        skip_white_back(s, from, to - 1)
    }
}

/// `s` without white space at its ends.
pub open spec fn trimmed(s: Seq<char>) -> Seq<char> {
    let from = skip_white(s, 0);
    s.subrange(from, skip_white_back(s, from, s.len() as int))
}

/// `s` without white space at its ends.
pub fn trim(s: &str) -> (r: String)
    ensures
        r@ == trimmed(s@),
{
    let len: usize = s.unicode_len();
    let mut from: usize = 0;
    while from < len && whitespace(s.get_char(from))
        invariant
            from <= len,
            len == s@.len(),
            skip_white(s@, 0) == skip_white(s@, from as int),
        decreases len - from,
    {
        from += 1;
    }
    let mut to: usize = len;
    while to > from && whitespace(s.get_char(to - 1))
        invariant
            from <= to <= len,
            len == s@.len(),
            skip_white_back(s@, from as int, s@.len() as int) == skip_white_back(
                s@,
                from as int,
                to as int,
            ),
        decreases to,
    {
        to -= 1;
    }
    s.substring_char(from, to).to_owned()
}

/// The place of the first `c` at or behind `from`, or the end.
pub open spec fn place_of(s: Seq<char>, c: char, from: int) -> int
    decreases s.len() - from,
{
    if from < 0 || from >= s.len() {
        s.len() as int
    } else if s[from] == c {
        from
    } else {
        place_of(s, c, from + 1)
    }
}

/// What stands between the separators `c` from `from` on.
pub open spec fn pieces(s: Seq<char>, c: char, from: int) -> Seq<Seq<char>>
    decreases s.len() - from,
{
    let at = place_of(s, c, from);
    if from < 0 || from > s.len() || at < from || at >= s.len() {
        seq![s.subrange(from, s.len() as int)]
    } else {
        seq![s.subrange(from, at)] + pieces(s, c, at + 1)
    }
}

/// What stands between the separators `c`.
pub fn split(s: &str, c: char) -> (r: Vec<String>)
    ensures
        r@.map_values(|p: String| p@) == pieces(s@, c, 0),
{
    let len: usize = s.unicode_len();
    let mut out: Vec<String> = Vec::new();
    let mut from: usize = 0;
    let mut at: usize = 0;
    let ghost done: Seq<Seq<char>> = Seq::empty();
    proof {
        assert(out@.map_values(|p: String| p@) =~= done);
        assert(done + pieces(s@, c, 0) =~= pieces(s@, c, 0));
    }
    while at < len
        invariant
            from <= at <= len,
            len == s@.len(),
            out@.map_values(|p: String| p@) + pieces(s@, c, from as int) == pieces(s@, c, 0),
            place_of(s@, c, from as int) == place_of(s@, c, at as int),
        decreases len - at,
    {
        if s.get_char(at) == c {
            let ghost before = out@.map_values(|p: String| p@);
            let piece = s.substring_char(from, at).to_owned();
            out.push(piece);
            proof {
                let now = out@.map_values(|p: String| p@);
                assert(now =~= before.push(piece@));
                assert(now + pieces(s@, c, at + 1) =~= before + (seq![piece@] + pieces(
                    s@,
                    c,
                    at + 1,
                )));
            }
            from = at + 1;
        }
        at += 1;
    }
    let ghost before = out@.map_values(|p: String| p@);
    let last = s.substring_char(from, len).to_owned();
    out.push(last);
    proof {
        assert(out@.map_values(|p: String| p@) =~= before.push(last@));
        assert(before.push(last@) =~= before + seq![last@]);
    }
    out
}

/// What a digit stands for.
pub open spec fn digit_value(c: char) -> int {
    if '0' <= c && c <= '9' {
        c as int - 48
    } else {
        c as int - 97 + 10
    }
}

/// The number that digits to the base `base` stand for.
pub open spec fn number_of(text: Seq<char>, base: nat) -> int
    decreases text.len(),
{
    if text.len() == 0 {
        0
    } else {
        number_of(text.drop_last(), base) * base + digit_value(text.last())
    }
}

/// A number that was written out reads as itself, and begins with no needless nought. Digits beyond
/// nine are letters.
pub proof fn written_numbers_read_as_themselves(n: nat, base: nat)
    requires
        2 <= base <= 16,
    ensures
        number_of(digits(n, base), base) == n,
        digits(n, base).len() >= 1,
        n > 0 ==> digits(n, base)[0] != '0',
    decreases n,
{
    if n < base {
        let text = seq![digit_char(n)];
        assert(digits(n, base) == text);
        assert(text.drop_last() =~= Seq::<char>::empty());
        reveal_with_fuel(number_of, 2);
        assert(0 * base == 0);
    } else {
        let high = n / base;
        let low = n % base;
        assert(high < n && n == high * base + low && low < base && high > 0) by (nonlinear_arith)
            requires
                2 <= base <= n,
                high == n / base,
                low == n % base,
        ;
        written_numbers_read_as_themselves(high, base);
        let front = digits(high, base);
        let text = front.push(digit_char(low));
        assert(digits(n, base) == text);
        assert(text.drop_last() =~= front);
        assert(text[0] == front[0]);
    }
}

proof fn lemma_skip_white(s: Seq<char>, from: int)
    requires
        0 <= from <= s.len(),
    ensures
        from <= skip_white(s, from) <= s.len(),
        forall|i: int| from <= i < skip_white(s, from) ==> is_whitespace(#[trigger] s[i]),
        skip_white(s, from) < s.len() ==> !is_whitespace(s[skip_white(s, from)]),
    decreases s.len() - from,
{
    if from < s.len() && is_whitespace(s[from]) {
        lemma_skip_white(s, from + 1);
    }
}

proof fn lemma_skip_white_back(s: Seq<char>, from: int, to: int)
    requires
        0 <= from <= to <= s.len(),
    ensures
        from <= skip_white_back(s, from, to) <= to,
        forall|i: int| skip_white_back(s, from, to) <= i < to ==> is_whitespace(#[trigger] s[i]),
        skip_white_back(s, from, to) > from ==> !is_whitespace(s[skip_white_back(s, from, to) - 1]),
    decreases to - from,
{
    if to > from && is_whitespace(s[to - 1]) {
        lemma_skip_white_back(s, from, to - 1);
    }
}

/// Only white space is cut off, and none is left at the ends.
pub proof fn only_white_space_is_cut_off(s: Seq<char>) -> (ends: (Seq<char>, Seq<char>))
    ensures
        s == ends.0 + trimmed(s) + ends.1,
        forall|i: int| 0 <= i < ends.0.len() ==> is_whitespace(#[trigger] ends.0[i]),
        forall|i: int| 0 <= i < ends.1.len() ==> is_whitespace(#[trigger] ends.1[i]),
        trimmed(s).len() > 0 ==> !is_whitespace(trimmed(s)[0]) && !is_whitespace(trimmed(s).last()),
        is_whitespace(' ') && is_whitespace('\n') && is_whitespace('\t') && is_whitespace('\r'),
{
    let from = skip_white(s, 0);
    lemma_skip_white(s, 0);
    let to = skip_white_back(s, from, s.len() as int);
    lemma_skip_white_back(s, from, s.len() as int);
    let front = s.subrange(0, from);
    let back = s.subrange(to, s.len() as int);
    assert(s =~= front + trimmed(s) + back);
    (front, back)
}

/// Pieces with one separator between each two.
pub open spec fn rejoined(parts: Seq<Seq<char>>, c: char) -> Seq<char>
    decreases parts.len(),
{
    if parts.len() == 0 {
        Seq::empty()
    } else if parts.len() == 1 {
        parts[0]
    } else {
        parts[0] + seq![c] + rejoined(parts.drop_first(), c)
    }
}

proof fn lemma_place_of(s: Seq<char>, c: char, from: int)
    requires
        0 <= from <= s.len(),
    ensures
        from <= place_of(s, c, from) <= s.len(),
        forall|i: int| from <= i < place_of(s, c, from) ==> #[trigger] s[i] != c,
        place_of(s, c, from) < s.len() ==> s[place_of(s, c, from)] == c,
    decreases s.len() - from,
{
    if from < s.len() && s[from] != c {
        lemma_place_of(s, c, from + 1);
    }
}

/// Nothing but the separators is lost when a text is cut at them, and no piece holds one.
pub proof fn pieces_make_up_the_text(s: Seq<char>, c: char, from: int)
    requires
        0 <= from <= s.len(),
    ensures
        rejoined(pieces(s, c, from), c) == s.subrange(from, s.len() as int),
        pieces(s, c, from).len() >= 1,
        forall|i: int|
            0 <= i < pieces(s, c, from).len() ==> !(#[trigger] pieces(s, c, from)[i]).contains(c),
    decreases s.len() - from,
{
    let at = place_of(s, c, from);
    lemma_place_of(s, c, from);
    let parts = pieces(s, c, from);
    if at >= s.len() {
        assert(parts == seq![s.subrange(from, s.len() as int)]);
        assert(rejoined(parts, c) == parts[0]);
    } else {
        let rest = pieces(s, c, at + 1);
        pieces_make_up_the_text(s, c, at + 1);
        let first = s.subrange(from, at);
        assert(parts == seq![first] + rest);
        assert(parts.drop_first() =~= rest);
        assert(parts[0] == first);
        assert(rejoined(parts, c) =~= s.subrange(from, s.len() as int));
        assert forall|i: int| 0 <= i < parts.len() implies !(#[trigger] parts[i]).contains(c) by {
            if i > 0 {
                assert(parts[i] == rest[i - 1]);
            }
        }
    }
}

/// White space is the controls that move on, the spaces and the ends of lines and paragraphs, and
/// nothing else; letters, digits and signs are none of it.
pub proof fn white_space_is_space_and_ends(c: char)
    ensures
        c as int <= 127 ==> is_whitespace(c) == (c == ' ' || c == '\t' || c == '\n' || c == '\r'
            || c as int == 11 || c as int == 12),
        c as int > 127 ==> is_whitespace(c) == (c as int == 133 || c as int == 160 || c as int == 5760
            || 8192 <= c as int <= 8202 || c as int == 8232 || c as int == 8233 || c as int == 8239
            || c as int == 8287 || c as int == 12288),
{
}

/// A number in decimal reads as itself to the base ten, and one in hexadecimal to the base sixteen
/// behind a nought and an x.
pub proof fn numbers_are_written_to_their_base(n: nat)
    ensures
        number_of(decimal(n), 10) == n,
        prefixed_hex(n).len() >= 3,
        prefixed_hex(n)[0] == '0' && prefixed_hex(n)[1] == 'x',
        number_of(prefixed_hex(n).subrange(2, prefixed_hex(n).len() as int), 16) == n,
{
    written_numbers_read_as_themselves(n, 10);
    written_numbers_read_as_themselves(n, 16);
    reveal_strlit("0x");
    assert(prefixed_hex(n).subrange(2, prefixed_hex(n).len() as int) =~= digits(n, 16));
}

} // verus!
