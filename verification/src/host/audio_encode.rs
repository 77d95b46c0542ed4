//! Around the Opus encoder of the host: what it refuses, and packets that wait their turn.
use crate::client::audio_player::OpusChannels;
use crate::text::{decimal, push_decimal};
use vstd::prelude::*;

verus! {

/// The channels to set the encoder up with.
pub fn encoder_channels(channels: u16) -> (r: Result<OpusChannels, String>)
    ensures
        match r {
            Ok(OpusChannels::Mono) => channels == 1,
            Ok(OpusChannels::Stereo) => channels == 2,
            Err(e) => channels != 1 && channels != 2 && e@ == "unsupported Opus channel count "@
                + decimal(channels as nat) + "; expected mono or stereo"@,
        },
{
    match channels {
        1 => Ok(OpusChannels::Mono),
        2 => Ok(OpusChannels::Stereo),
        other => {
            let mut message = "unsupported Opus channel count ".to_owned();
            push_decimal(&mut message, other as u64);
            message.append("; expected mono or stereo");
            Err(message)
        },
    }
}

/// Refuses samples that are laid out otherwise than the encoder was set up for.
pub fn check_frame_channels(expected: u16, actual: u16) -> (r: Result<(), String>)
    ensures
        match r {
            Ok(()) => expected == actual,
            Err(e) => expected != actual && e@ == "audio channel count changed from "@ + decimal(
                expected as nat,
            ) + " to "@ + decimal(actual as nat),
        },
{
    if actual != expected {
        let mut message = "audio channel count changed from ".to_owned();
        push_decimal(&mut message, expected as u64);
        message.append(" to ");
        push_decimal(&mut message, actual as u64);
        return Err(message);
    }
    Ok(())
}

/// The packets that hold something, in their order.
pub open spec fn filled(packets: Seq<Vec<u8>>) -> Seq<Vec<u8>> {
    packets.filter(|p: Vec<u8>| p@.len() > 0)
}

/// Packets of one frame that wait to be asked for.
#[derive(Debug)]
pub struct PacketQueue {
    pending: Vec<Vec<u8>>,
}

impl PacketQueue {
    pub closed spec fn pending(&self) -> Seq<Vec<u8>> {
        self.pending@
    }

    pub fn new() -> (r: Self)
        ensures
            r.pending() == Seq::<Vec<u8>>::empty(),
    {
        PacketQueue { pending: Vec::new() }
    }

    /// The packet that waits longest, if any does. It goes out before a new frame is encoded.
    pub fn next(&mut self) -> (r: Option<Vec<u8>>)
        ensures
            match r {
                Some(packet) => old(self).pending().len() > 0 && packet == old(self).pending()[0]
                    && final(self).pending() == old(self).pending().drop_first(),
                None => old(self).pending().len() == 0 && final(self).pending() == old(
                    self,
                ).pending(),
            },
    {
        if self.pending.len() == 0 {
            return None;
        }
        let packet = self.pending.remove(0);
        proof {
            assert(self.pending@ =~= old(self).pending@.drop_first());
        }
        Some(packet)
    }

    /// Takes what the encoder made of a frame: the first packet goes out, the others wait. Without
    /// any, an empty packet goes out.
    pub fn offer(&mut self, packets: Vec<Vec<u8>>) -> (r: Vec<u8>)
        ensures
            if packets@.len() == 0 {
                r@.len() == 0 && final(self).pending() == old(self).pending()
            } else {
                r == packets@[0] && final(self).pending() == old(self).pending()
                    + packets@.drop_first()
            },
    {
        let mut packets = packets;
        if packets.len() == 0 {
            return Vec::new();
        }
        let ghost all = packets@;
        let first = packets.remove(0);
        proof {
            assert(packets@ =~= all.drop_first());
        }
        self.pending.append(&mut packets);
        first
    }
}

/// Drops packets that hold nothing.
pub fn keep_filled(packets: Vec<Vec<u8>>) -> (r: Vec<Vec<u8>>)
    ensures
        r@ == filled(packets@),
{
    let ghost all = packets@;
    let ghost full = |p: Vec<u8>| p@.len() > 0;
    let mut left = packets;
    let mut kept: Vec<Vec<u8>> = Vec::new();
    while left.len() > 0
        invariant
            kept@ + filled(left@) == filled(all),
        decreases left.len(),
    {
        let ghost before = left@;
        let first = left.remove(0);
        proof {
            reveal(Seq::filter);
            lemma_filled_first(before);
            assert(left@ =~= before.drop_first());
        }
        if first.len() > 0 {
            let ghost kept_before = kept@;
            kept.push(first);
            proof {
                assert(kept@ + filled(left@) =~= kept_before + (seq![first] + filled(left@)));
            }
        }
    }
    proof {
        reveal(Seq::filter);
        assert(kept@ + filled(left@) =~= kept@);
    }
    kept
}

proof fn lemma_filled_first(packets: Seq<Vec<u8>>)
    requires
        packets.len() > 0,
    ensures
        filled(packets) == (if packets[0]@.len() > 0 {
            seq![packets[0]]
        } else {
            Seq::<Vec<u8>>::empty()
        }) + filled(packets.drop_first()),
{
    let full = |p: Vec<u8>| p@.len() > 0;
    assert(packets =~= seq![packets[0]] + packets.drop_first());
    Seq::filter_distributes_over_add(seq![packets[0]], packets.drop_first(), full);
    reveal_with_fuel(Seq::filter, 2);
    assert(seq![packets[0]].drop_last() =~= Seq::<Vec<u8>>::empty());
    assert(seq![packets[0]].filter(full) =~= (if packets[0]@.len() > 0 {
        seq![packets[0]]
    } else {
        Seq::<Vec<u8>>::empty()
    }));
}

/// Empty packets are passed over, and all others are kept in their order.
pub proof fn only_empty_packets_are_passed_over(packets: Seq<Vec<u8>>, packet: Vec<u8>)
    ensures
        filled(Seq::empty()).len() == 0,
        packet@.len() == 0 ==> filled(packets.push(packet)) == filled(packets),
        packet@.len() > 0 ==> filled(packets.push(packet)) == filled(packets).push(packet),
{
    reveal(Seq::filter);
    assert(packets.push(packet).drop_last() =~= packets);
}

} // verus!
