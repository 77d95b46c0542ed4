//! Puts packets that arrive out of order back into order.
use crate::protocol::control::RtpPacket;
use vstd::prelude::*;

verus! {

/// Packets that wait for a missing one before it is given up.
pub const MAX_BUFFER_DEPTH: usize = 15;

/// A jump of more sequence numbers than this is a new stream.
pub const MAX_SEQUENCE_JUMP: i32 = 1000;

/// How far `seq` is ahead of `expected`, on the shorter way round the circle of sequence numbers.
pub open spec fn ahead(seq: u16, expected: u16) -> int {
    let turn = (seq - expected) % 0x1_0000;
    if turn < 0x8000 {
        turn
    } else {
        turn - 0x1_0000
    }
}

/// The sequence number behind `seq`.
pub open spec fn following(seq: u16) -> u16 {
    ((seq + 1) % 0x1_0000) as u16
}

fn distance(seq: u16, expected: u16) -> (r: i32)
    ensures
        r == ahead(seq, expected),
{
    let turn: u16 = seq.wrapping_sub(expected);
    if turn < 0x8000 {
        turn as i32
    } else {
        turn as i32 - 0x1_0000
    }
}

/// Packets from the expected one on; the others are stale.
pub open spec fn fresh(packets: Seq<RtpPacket>, expected: u16) -> Seq<RtpPacket> {
    packets.filter(|p: RtpPacket| ahead(p.header.sequence_number, expected) >= 0)
}

/// Every packet lies near the number.
pub open spec fn near(packets: Seq<RtpPacket>, expected: u16) -> bool {
    forall|i: int|
        #![trigger packets[i]]
        0 <= i < packets.len() ==> -MAX_SEQUENCE_JUMP <= ahead(
            packets[i].header.sequence_number,
            expected,
        ) <= MAX_SEQUENCE_JUMP
}

/// The packet at `i` comes before no other.
pub open spec fn earliest(packets: Seq<RtpPacket>, i: int, expected: u16) -> bool {
    &&& 0 <= i < packets.len()
    &&& forall|j: int|
        #![trigger packets[j]]
        0 <= j < packets.len() ==> ahead(packets[i].header.sequence_number, expected) <= ahead(
            packets[j].header.sequence_number,
            expected,
        )
}

/// What one look for the next packet does: `packets` wait and `expected` is due before it, `left`
/// and `due` after it.
pub open spec fn hands_out(
    packets: Seq<RtpPacket>,
    expected: Option<u16>,
    out: Option<RtpPacket>,
    left: Seq<RtpPacket>,
    due: Option<u16>,
) -> bool {
    match (expected, out) {
        (None, None) => left == packets && due is None,
        (None, Some(_)) => false,
        (Some(next), None) => {
            let waiting = fresh(packets, next);
            &&& left == waiting
            &&& due == expected
            &&& waiting.len() <= MAX_BUFFER_DEPTH
            &&& forall|i: int|
                #![trigger waiting[i]]
                0 <= i < waiting.len() ==> ahead(waiting[i].header.sequence_number, next) > 0
        },
        (Some(next), Some(packet)) => {
            let waiting = fresh(packets, next);
            let distance = ahead(packet.header.sequence_number, next);
            &&& distance == 0 || distance > 0 && waiting.len() > MAX_BUFFER_DEPTH
            &&& due == Some(following(packet.header.sequence_number))
            &&& exists|i: int|
                {
                    &&& #[trigger] earliest(waiting, i, next)
                    &&& waiting[i] == packet
                    &&& left == waiting.remove(i)
                }
        },
    }
}

/// `out` is what is handed out one after the other until nothing more is.
pub open spec fn drains(
    packets: Seq<RtpPacket>,
    expected: Option<u16>,
    out: Seq<RtpPacket>,
    left: Seq<RtpPacket>,
    due: Option<u16>,
) -> bool
    decreases out.len(),
{
    if out.len() == 0 {
        hands_out(packets, expected, None, left, due)
    } else {
        exists|between: Seq<RtpPacket>, next: Option<u16>|
            {
                &&& #[trigger] hands_out(packets, expected, Some(out.first()), between, next)
                &&& drains(between, next, out.drop_first(), left, due)
            }
    }
}

pub struct JitterBuffer {
    packets: Vec<RtpPacket>,
    expected_seq: Option<u16>,
}

/// What taking a packet in does: one that is far off starts the buffer anew.
pub open spec fn pushed(before: JitterBuffer, packet: RtpPacket, after: JitterBuffer) -> bool {
    let seq = packet.header.sequence_number;
    let near = before.expected() is Some && -MAX_SEQUENCE_JUMP <= ahead(seq, before.expected()->0)
        <= MAX_SEQUENCE_JUMP;
    if near {
        &&& after.packets() == before.packets().push(packet)
        &&& after.expected() == before.expected()
    } else {
        &&& after.packets() == seq![packet]
        &&& after.expected() == Some(seq)
    }
}

impl JitterBuffer {
    /// The packets that wait, in the order in which they came.
    pub closed spec fn packets(&self) -> Seq<RtpPacket> {
        self.packets@
    }

    /// The sequence number that is due, once a packet has come.
    pub closed spec fn expected(&self) -> Option<u16> {
        self.expected_seq
    }

    /// Nothing waits before the first packet, and whatever waits is near the number that is due.
    pub open spec fn wf(&self) -> bool {
        match self.expected() {
            None => self.packets().len() == 0,
            Some(expected) => near(self.packets(), expected),
        }
    }

    /// An empty buffer, which starts at whatever comes first.
    pub fn new(_start_seq: u16) -> (r: Self)
        ensures
            r.wf(),
            r.packets() == Seq::<RtpPacket>::empty(),
            r.expected() is None,
    {
        Self { packets: Vec::new(), expected_seq: None }
    }

    /// Takes a packet in. One that is far off starts the buffer anew.
    pub fn push(&mut self, packet: RtpPacket)
        requires
            old(self).wf(),
        ensures
            final(self).wf(),
            pushed(*old(self), packet, *final(self)),
    {
        match self.expected_seq {
            Some(expected) => {
                let diff: i32 = distance(packet.header.sequence_number, expected);
                if diff < -MAX_SEQUENCE_JUMP || diff > MAX_SEQUENCE_JUMP {
                    self.packets.clear();
                    self.expected_seq = Some(packet.header.sequence_number);
                }
            },
            None => {
                self.expected_seq = Some(packet.header.sequence_number);
            },
        }
        self.packets.push(packet);
        proof {
            if self.packets@.len() == 1 {
                assert(self.packets@ =~= seq![packet]);
            }
            assert(ahead(packet.header.sequence_number, packet.header.sequence_number) == 0);
            if self.packets@.len() > 1 {
                assert forall|i: int|
                    #![trigger self.packets@[i]]
                    0 <= i < self.packets@.len() - 1 implies self.packets@[i] == old(
                    self,
                ).packets()[i] by {}
            }
        }
    }

    fn drop_stale(&mut self, expected: u16)
        requires
            old(self).expected() == Some(expected),
        ensures
            final(self).packets() == fresh(old(self).packets(), expected),
            final(self).expected() == old(self).expected(),
    {
        let ghost before = self.packets@;
        let ghost due = |p: RtpPacket| ahead(p.header.sequence_number, expected) >= 0;
        let mut i: usize = 0;
        let ghost mut seen: int = 0;
        while i < self.packets.len()
            invariant
                0 <= seen <= before.len(),
                i <= self.packets@.len(),
                self.packets@.len() - i == before.len() - seen,
                self.packets@.take(i as int) == before.take(seen).filter(due),
                self.packets@.skip(i as int) == before.skip(seen),
                due == (|p: RtpPacket| ahead(p.header.sequence_number, expected) >= 0),
                self.expected_seq == old(self).expected_seq,
            decreases self.packets.len() - i,
        {
            proof {
                assert(self.packets@[i as int] == self.packets@.skip(i as int)[0]);
                assert(before[seen] == before.skip(seen)[0]);
                assert(before.take(seen + 1) =~= before.take(seen).push(before[seen]));
                assert(before.take(seen).push(before[seen]).drop_last() =~= before.take(seen));
                reveal(Seq::filter);
            }
            let ghost rest = self.packets@;
            if distance(self.packets[i].header.sequence_number, expected) < 0 {
                self.packets.remove(i);
                proof {
                    assert(self.packets@.take(i as int) =~= rest.take(i as int));
                    assert(self.packets@.skip(i as int) =~= before.skip(seen + 1)) by {
                        assert(self.packets@.skip(i as int) =~= rest.skip(i as int).drop_first());
                        assert(before.skip(seen + 1) =~= before.skip(seen).drop_first());
                    }
                }
            } else {
                i += 1;
                proof {
                    assert(rest.take(i as int) =~= rest.take(i - 1).push(rest[i - 1]));
                    assert(self.packets@.skip(i as int) =~= rest.skip(i - 1).drop_first());
                    assert(before.skip(seen + 1) =~= before.skip(seen).drop_first());
                }
            }
            proof {
                seen = seen + 1;
            }
        }
        proof {
            assert(before.take(before.len() as int) =~= before);
            assert(self.packets@.take(self.packets@.len() as int) =~= self.packets@);
        }
    }

    fn earliest_index(&self, expected: u16) -> (r: usize)
        requires
            self.packets().len() > 0,
        ensures
            earliest(self.packets(), r as int, expected),
    {
        let mut best: usize = 0;
        let mut i: usize = 1;
        while i < self.packets.len()
            invariant
                best < i <= self.packets@.len(),
                forall|j: int|
                    #![trigger self.packets@[j]]
                    0 <= j < i ==> ahead(
                        self.packets@[best as int].header.sequence_number,
                        expected,
                    ) <= ahead(self.packets@[j].header.sequence_number, expected),
            decreases self.packets.len() - i,
        {
            if distance(self.packets[i].header.sequence_number, expected) < distance(
                self.packets[best].header.sequence_number,
                expected,
            ) {
                best = i;
            }
            i += 1;
        }
        best
    }

    /// Hands out the packet that is due, or the earliest one when too many wait for the one that is
    /// due. Stale packets are dropped on the way.
    pub fn pop(&mut self) -> (r: Option<RtpPacket>)
        requires
            old(self).wf(),
        ensures
            final(self).wf(),
            hands_out(
                old(self).packets(),
                old(self).expected(),
                r,
                final(self).packets(),
                final(self).expected(),
            ),
    {
        let expected = match self.expected_seq {
            Some(expected) => expected,
            None => return None,
        };
        self.drop_stale(expected);
        let ghost waiting = self.packets@;
        proof {
            lemma_fresh(old(self).packets@, expected);
        }
        if self.packets.len() == 0 {
            return None;
        }
        let at = self.earliest_index(expected);
        let diff: i32 = distance(self.packets[at].header.sequence_number, expected);
        if diff == 0 || self.packets.len() > MAX_BUFFER_DEPTH {
            let packet = self.packets.remove(at);
            self.expected_seq = Some(packet.header.sequence_number.wrapping_add(1));
            proof {
                assert(earliest(waiting, at as int, expected));
                let next = following(packet.header.sequence_number);
                assert(self.expected_seq == Some(next));
                assert forall|i: int|
                    #![trigger self.packets@[i]]
                    0 <= i < self.packets@.len() implies -MAX_SEQUENCE_JUMP <= ahead(
                    self.packets@[i].header.sequence_number,
                    next,
                ) <= MAX_SEQUENCE_JUMP by {
                    let j = if i < at { i } else { i + 1 };
                    assert(self.packets@[i] == waiting[j]);
                    assert(ahead(waiting[at as int].header.sequence_number, expected) <= ahead(
                        waiting[j].header.sequence_number,
                        expected,
                    ));
                    lemma_ahead_shifts(
                        waiting[j].header.sequence_number,
                        packet.header.sequence_number,
                        expected,
                    );
                }
            }
            Some(packet)
        } else {
            None
        }
    }
}

impl JitterBuffer {
    /// Hands out packets until nothing more is due.
    pub fn drain(&mut self) -> (r: Vec<RtpPacket>)
        requires
            old(self).wf(),
        ensures
            final(self).wf(),
            drains(
                old(self).packets(),
                old(self).expected(),
                r@,
                final(self).packets(),
                final(self).expected(),
            ),
        decreases old(self).packets().len(),
    {
        let ghost before = (self.packets(), self.expected());
        match self.pop() {
            Some(packet) => {
                let ghost between = (self.packets(), self.expected());
                proof {
                    let next = before.1->0;
                    lemma_fresh(before.0, next);
                    let waiting = fresh(before.0, next);
                    let i = choose|i: int|
                        {
                            &&& #[trigger] earliest(waiting, i, next)
                            &&& waiting[i] == packet
                            &&& between.0 == waiting.remove(i)
                        };
                    assert(between.0.len() == waiting.len() - 1);
                }
                let mut rest = self.drain();
                let ghost later = rest@;
                rest.insert(0, packet);
                proof {
                    assert(rest@.drop_first() =~= later);
                    assert(rest@.first() == packet);
                    assert(hands_out(before.0, before.1, Some(rest@.first()), between.0, between.1));
                }
                rest
            },
            None => Vec::new(),
        }
    }
}

/// Whatever is fresh was there, and is not stale.
proof fn lemma_fresh(packets: Seq<RtpPacket>, expected: u16)
    ensures
        fresh(packets, expected).len() <= packets.len(),
        forall|i: int|
            #![trigger fresh(packets, expected)[i]]
            0 <= i < fresh(packets, expected).len() ==> {
                &&& packets.contains(fresh(packets, expected)[i])
                &&& ahead(fresh(packets, expected)[i].header.sequence_number, expected) >= 0
            },
    decreases packets.len(),
{
    reveal(Seq::filter);
    if packets.len() > 0 {
        let init = packets.drop_last();
        lemma_fresh(init, expected);
        let kept = fresh(packets, expected);
        assert forall|i: int| #![trigger kept[i]] 0 <= i < kept.len() implies {
            &&& packets.contains(kept[i])
            &&& ahead(kept[i].header.sequence_number, expected) >= 0
        } by {
            if i < fresh(init, expected).len() {
                assert(kept[i] == fresh(init, expected)[i]);
                let j = init.index_of(kept[i]);
                assert(packets[j] == kept[i]);
            } else {
                assert(kept[i] == packets[packets.len() - 1]);
            }
        }
    }
}

/// Measured from behind an earlier packet, a later one is nearer by as much.
proof fn lemma_ahead_shifts(seq: u16, earlier: u16, expected: u16)
    requires
        0 <= ahead(earlier, expected) <= ahead(seq, expected) <= MAX_SEQUENCE_JUMP,
    ensures
        ahead(seq, following(earlier)) == ahead(seq, expected) - ahead(earlier, expected) - 1,
{
}

/// Packets come out in order: what is handed out lies at or behind the number that was due, and the
/// number due next lies directly behind it, so that whatever comes later is newer.
pub proof fn handed_out_packets_advance(expected: u16, packet: u16, later: u16)
    requires
        0 <= ahead(packet, expected) <= MAX_SEQUENCE_JUMP,
        0 <= ahead(later, following(packet)) <= MAX_SEQUENCE_JUMP,
    ensures
        ahead(later, packet) == ahead(later, following(packet)) + 1,
        ahead(following(packet), expected) == ahead(packet, expected) + 1,
{
}

/// What is left after one packet was handed out was there before, and lies behind it.
proof fn lemma_left_behind(
    packets: Seq<RtpPacket>,
    expected: u16,
    packet: RtpPacket,
    left: Seq<RtpPacket>,
    due: Option<u16>,
)
    requires
        near(packets, expected),
        hands_out(packets, Some(expected), Some(packet), left, due),
    ensures
        packets.contains(packet),
        0 <= ahead(packet.header.sequence_number, expected) <= MAX_SEQUENCE_JUMP,
        due == Some(following(packet.header.sequence_number)),
        near(left, due->0),
        forall|i: int|
            #![trigger left[i]]
            0 <= i < left.len() ==> packets.contains(left[i]) && ahead(
                left[i].header.sequence_number,
                due->0,
            ) == ahead(left[i].header.sequence_number, expected) - ahead(
                packet.header.sequence_number,
                expected,
            ) - 1,
{
    let waiting = fresh(packets, expected);
    lemma_fresh(packets, expected);
    let at = choose|i: int|
        {
            &&& #[trigger] earliest(waiting, i, expected)
            &&& waiting[i] == packet
            &&& left == waiting.remove(i)
        };
    let seq = packet.header.sequence_number;
    assert(packets.contains(waiting[at]));
    assert(ahead(seq, expected) <= MAX_SEQUENCE_JUMP) by {
        let k = packets.index_of(packet);
        assert(packets[k] == packet);
    }
    assert forall|i: int| #![trigger left[i]] 0 <= i < left.len() implies packets.contains(left[i])
        && ahead(left[i].header.sequence_number, due->0) == ahead(
        left[i].header.sequence_number,
        expected,
    ) - ahead(seq, expected) - 1 && ahead(left[i].header.sequence_number, expected)
        <= MAX_SEQUENCE_JUMP by {
        let j = if i < at { i } else { i + 1 };
        assert(left[i] == waiting[j]);
        assert(packets.contains(waiting[j]));
        let k = packets.index_of(waiting[j]);
        assert(packets[k] == waiting[j]);
        lemma_ahead_shifts(waiting[j].header.sequence_number, seq, expected);
    }
}

/// However packets came in, they go out in order: each that is handed out in one go came in, is not
/// stale, and is newer than those before it. Few enough are left to wait, all of them newer still.
pub proof fn drained_packets_are_in_order(
    packets: Seq<RtpPacket>,
    expected: u16,
    out: Seq<RtpPacket>,
    left: Seq<RtpPacket>,
    due: Option<u16>,
)
    requires
        near(packets, expected),
        drains(packets, Some(expected), out, left, due),
    ensures
        forall|i: int|
            #![trigger out[i]]
            0 <= i < out.len() ==> packets.contains(out[i]) && 0 <= ahead(
                out[i].header.sequence_number,
                expected,
            ) <= MAX_SEQUENCE_JUMP,
        forall|i: int, j: int|
            #![trigger out[i], out[j]]
            0 <= i < j < out.len() ==> ahead(out[i].header.sequence_number, expected) < ahead(
                out[j].header.sequence_number,
                expected,
            ),
        left.len() <= MAX_BUFFER_DEPTH,
        forall|i: int|
            #![trigger left[i]]
            0 <= i < left.len() ==> packets.contains(left[i]) && 0 < ahead(
                left[i].header.sequence_number,
                expected,
            ),
        forall|i: int, j: int|
            #![trigger out[i], left[j]]
            0 <= i < out.len() && 0 <= j < left.len() ==> ahead(
                out[i].header.sequence_number,
                expected,
            ) < ahead(left[j].header.sequence_number, expected),
    decreases out.len(),
{
    if out.len() == 0 {
        lemma_fresh(packets, expected);
    } else {
        let first = out.first();
        let rest = out.drop_first();
        let (between, next) = choose|between: Seq<RtpPacket>, next: Option<u16>|
            {
                &&& #[trigger] hands_out(packets, Some(expected), Some(first), between, next)
                &&& drains(between, next, rest, left, due)
            };
        lemma_left_behind(packets, expected, first, between, next);
        drained_packets_are_in_order(between, next->0, rest, left, due);
        let base = ahead(first.header.sequence_number, expected);
        assert forall|p: RtpPacket| #[trigger] between.contains(p) implies packets.contains(p)
            && ahead(p.header.sequence_number, next->0) == ahead(
            p.header.sequence_number,
            expected,
        ) - base - 1 && ahead(p.header.sequence_number, expected) <= MAX_SEQUENCE_JUMP by {
            let k = between.index_of(p);
            assert(between[k] == p);
            let m = packets.index_of(p);
            assert(packets[m] == p);
        }
        assert forall|i: int| #![trigger out[i]] 0 < i < out.len() implies between.contains(out[i])
            && out[i] == rest[i - 1] by {
            assert(out[i] == rest[i - 1]);
        }
        assert forall|i: int, j: int|
            #![trigger out[i], out[j]]
            0 <= i < j < out.len() implies ahead(out[i].header.sequence_number, expected) < ahead(
            out[j].header.sequence_number,
            expected,
        ) by {
            assert(out[j] == rest[j - 1]);
            if i > 0 {
                assert(out[i] == rest[i - 1]);
            }
        }
        assert forall|i: int, j: int|
            #![trigger out[i], left[j]]
            0 <= i < out.len() && 0 <= j < left.len() implies ahead(
            out[i].header.sequence_number,
            expected,
        ) < ahead(left[j].header.sequence_number, expected) by {
            assert(between.contains(left[j]));
            if i > 0 {
                assert(out[i] == rest[i - 1]);
            }
        }
    }
}

/// How far a number is ahead of another is the one step in the half circle before and behind it that
/// leads from the other to it.
pub proof fn numbers_go_round(seq: u16, expected: u16)
    ensures
        -0x8000 <= ahead(seq, expected) < 0x8000,
        (expected + ahead(seq, expected)) % 0x1_0000 == seq,
        ahead(seq, expected) == 0 <==> seq == expected,
        seq < 0xffff ==> following(seq) == seq + 1,
        seq == 0xffff ==> following(seq) == 0,
        ahead(following(seq), seq) == 1,
{
}

/// A packet joins those that wait if its number lies within a thousand of the one that is due, before
/// it or behind it; else it is the first of a new stream, and nothing else waits any more.
pub proof fn far_packets_start_anew(before: JitterBuffer, packet: RtpPacket, after: JitterBuffer)
    requires
        pushed(before, packet, after),
    ensures
        ({
            let seq = packet.header.sequence_number;
            let way = ahead(seq, before.expected()->0);
            &&& before.expected() is Some && -1000 <= way <= 1000 ==> {
                &&& after.expected() == before.expected()
                &&& after.packets().len() == before.packets().len() + 1
                &&& after.packets().last() == packet
                &&& after.packets().drop_last() == before.packets()
            }
            &&& before.expected() is None || way < -1000 || way > 1000 ==> {
                &&& after.expected() == Some(seq)
                &&& after.packets().len() == 1
                &&& after.packets()[0] == packet
            }
        }),
{
    if after.packets().len() == before.packets().len() + 1 {
        assert(before.packets().push(packet).drop_last() =~= before.packets());
    }
}

/// Nothing that is not stale is passed over.
proof fn lemma_kept(packets: Seq<RtpPacket>, expected: u16, i: int)
    requires
        0 <= i < packets.len(),
        ahead(packets[i].header.sequence_number, expected) >= 0,
    ensures
        fresh(packets, expected).contains(packets[i]),
{
    broadcast use vstd::seq_lib::group_filter_ensures;

    let due = |p: RtpPacket| ahead(p.header.sequence_number, expected) >= 0;
    assert(due(packets[i]));
}

/// The packet that is due is handed out as soon as it is there. While it is not, nothing is, unless
/// more than fifteen packets wait for it; then the earliest of them is, and those before it are given
/// up. What is handed out is gone, and of what is left nothing was added or lost but what is stale.
pub proof fn due_packets_are_handed_out(
    packets: Seq<RtpPacket>,
    expected: u16,
    out: Option<RtpPacket>,
    left: Seq<RtpPacket>,
    due: Option<u16>,
    i: int,
)
    requires
        hands_out(packets, Some(expected), out, left, due),
        0 <= i < packets.len(),
    ensures
        packets[i].header.sequence_number == expected ==> out is Some
            && out->0.header.sequence_number == expected,
        out is Some && out->0.header.sequence_number != expected ==> left.len() >= 15,
        out is None ==> left.len() <= 15,
        out is None && ahead(packets[i].header.sequence_number, expected) >= 0 ==> left.contains(
            packets[i],
        ),
        out is Some && ahead(packets[i].header.sequence_number, expected) >= 0 ==> out
            == Some(packets[i]) || left.contains(packets[i]),
        out is Some && ahead(packets[i].header.sequence_number, expected) >= 0 ==> ahead(
            out->0.header.sequence_number,
            expected,
        ) <= ahead(packets[i].header.sequence_number, expected),
        out is Some ==> due == Some(((out->0.header.sequence_number + 1) % 0x1_0000) as u16),
        out is None ==> due == Some(expected),
{
    let waiting = fresh(packets, expected);
    lemma_fresh(packets, expected);
    if ahead(packets[i].header.sequence_number, expected) >= 0 {
        lemma_kept(packets, expected, i);
        let k = waiting.index_of(packets[i]);
        assert(waiting[k] == packets[i]);
        if out is Some {
            let at = choose|at: int|
                {
                    &&& #[trigger] earliest(waiting, at, expected)
                    &&& waiting[at] == out->0
                    &&& left == waiting.remove(at)
                };
            assert(ahead(waiting[at].header.sequence_number, expected) <= ahead(
                waiting[k].header.sequence_number,
                expected,
            ));
            if k < at {
                assert(left[k] == waiting[k]);
            }
            if k > at {
                assert(left[k - 1] == waiting[k]);
            }
        }
    }
}

/// A packet that waits alone and is due is handed out, and nothing is left.
pub proof fn lemma_one_drains(
    packet: RtpPacket,
    out: Seq<RtpPacket>,
    left: Seq<RtpPacket>,
    due: Option<u16>,
)
    requires
        drains(seq![packet], Some(packet.header.sequence_number), out, left, due),
    ensures
        out == seq![packet],
        left.len() == 0,
        due == Some(following(packet.header.sequence_number)),
{
    let seq = packet.header.sequence_number;
    let all = seq![packet];
    lemma_fresh(all, seq);
    lemma_kept(all, seq, 0);
    let waiting = fresh(all, seq);
    assert(waiting.len() == 1 && waiting[0] == packet) by {
        let k = waiting.index_of(packet);
        assert(waiting[k] == packet);
    }
    if out.len() > 0 {
        let (between, next) = choose|between: Seq<RtpPacket>, next: Option<u16>|
            {
                &&& #[trigger] hands_out(all, Some(seq), Some(out.first()), between, next)
                &&& drains(between, next, out.drop_first(), left, due)
            };
        let rest = out.drop_first();
        assert(between.len() == 0);
        assert(between =~= Seq::<RtpPacket>::empty());
        lemma_fresh(between, next->0);
        if rest.len() > 0 {
            let (later, then_due) = choose|later: Seq<RtpPacket>, then_due: Option<u16>|
                {
                    &&& #[trigger] hands_out(between, next, Some(rest.first()), later, then_due)
                    &&& drains(later, then_due, rest.drop_first(), left, due)
                };
            let none = fresh(between, next->0);
            let i = choose|i: int|
                {
                    &&& #[trigger] earliest(none, i, next->0)
                    &&& none[i] == rest.first()
                    &&& later == none.remove(i)
                };
            assert(0 <= i < none.len());
        }
        assert(out =~= seq![packet]);
    } else {
        assert(ahead(waiting[0].header.sequence_number, seq) == 0);
    }
}

} // verus!
