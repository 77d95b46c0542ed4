//! The hosts that the viewer was told of.
use crate::host::service::PeerAddr;
use crate::text::{pieces, split, trim, trimmed};
use vstd::prelude::*;

verus! {

/// The port on which a host listens.
pub const DEFAULT_CONTROL_PORT: u16 = 39271;

/// The texts in a list of hosts: what stands between commas, without white space around it.
pub fn host_candidates(value: &str) -> (r: Vec<String>)
    ensures
        r@.len() == pieces(value@, ',', 0).len(),
        forall|i: int|
            0 <= i < r@.len() ==> (#[trigger] r@[i])@ == trimmed(pieces(value@, ',', 0)[i]),
{
    let parts = split(value, ',');
    let ghost texts = parts@.map_values(|p: String| p@);
    let mut out: Vec<String> = Vec::new();
    let mut i: usize = 0;
    while i < parts.len()
        invariant
            i <= parts@.len(),
            out@.len() == i,
            texts == parts@.map_values(|p: String| p@),
            texts == pieces(value@, ',', 0),
            forall|j: int| 0 <= j < i ==> (#[trigger] out@[j])@ == trimmed(texts[j]),
        decreases parts.len() - i,
    {
        proof {
            assert(texts[i as int] == parts@[i as int]@);
        }
        out.push(trim(parts[i].as_str()));
        i += 1;
    }
    out
}

/// The addresses among the candidates, each where it came first.
pub open spec fn distinct_hosts(parsed: Seq<Option<PeerAddr>>) -> Seq<PeerAddr>
    decreases parsed.len(),
{
    if parsed.len() == 0 {
        Seq::empty()
    } else {
        let before = distinct_hosts(parsed.drop_last());
        match parsed.last() {
            Some(addr) => if before.contains(addr) {
                before
            } else {
                before.push(addr)
            },
            None => before,
        }
    }
}

fn contains(hosts: &Vec<PeerAddr>, addr: PeerAddr) -> (r: bool)
    ensures
        r == hosts@.contains(addr),
{
    let mut i: usize = 0;
    while i < hosts.len()
        invariant
            i <= hosts@.len(),
            forall|j: int| 0 <= j < i ==> hosts@[j] != addr,
        decreases hosts.len() - i,
    {
        if hosts[i] == addr {
            return true;
        }
        i += 1;
    }
    false
}

/// The addresses of a list, without those that could not be read and those that came before.
pub fn parse_configured_hosts(parsed: &Vec<Option<PeerAddr>>) -> (r: Vec<PeerAddr>)
    ensures
        r@ == distinct_hosts(parsed@),
{
    let mut hosts: Vec<PeerAddr> = Vec::new();
    let mut i: usize = 0;
    while i < parsed.len()
        invariant
            i <= parsed@.len(),
            hosts@ == distinct_hosts(parsed@.take(i as int)),
        decreases parsed.len() - i,
    {
        proof {
            assert(parsed@.take(i + 1).drop_last() =~= parsed@.take(i as int));
            assert(parsed@.take(i + 1).last() == parsed@[i as int]);
        }
        if let Some(addr) = parsed[i] {
            if !contains(&hosts, addr) {
                hosts.push(addr);
            }
        }
        i += 1;
    }
    proof {
        assert(parsed@.take(parsed@.len() as int) =~= parsed@);
    }
    hosts
}

/// This machine, on the usual port.
pub open spec fn local_host() -> PeerAddr {
    PeerAddr {
        is_v6: false,
        ip: 0x7f00_0001,
        port: DEFAULT_CONTROL_PORT,
        flow_info: 0,
        scope_id: 0,
    }
}

/// The hosts to show: those of the list, or this machine if there is none.
pub fn configured_hosts(parsed: &Vec<Option<PeerAddr>>) -> (r: Vec<PeerAddr>)
    ensures
        r@ == (if distinct_hosts(parsed@).len() == 0 {
            seq![local_host()]
        } else {
            distinct_hosts(parsed@)
        }),
{
    let mut hosts = parse_configured_hosts(parsed);
    if hosts.len() == 0 {
        hosts.push(
            PeerAddr {
                is_v6: false,
                ip: 0x7f00_0001,
                port: DEFAULT_CONTROL_PORT,
                flow_info: 0,
                scope_id: 0,
            },
        );
        proof {
            assert(hosts@ =~= seq![local_host()]);
        }
    }
    hosts
}

/// No host is shown twice, and every address that was read is shown.
pub proof fn shown_hosts_are_distinct(parsed: Seq<Option<PeerAddr>>)
    ensures
        distinct_hosts(parsed).no_duplicates(),
        forall|i: int|
            0 <= i < parsed.len() && (#[trigger] parsed[i]) is Some ==> distinct_hosts(
                parsed,
            ).contains(parsed[i]->0),
    decreases parsed.len(),
{
    if parsed.len() > 0 {
        let init = parsed.drop_last();
        shown_hosts_are_distinct(init);
        let before = distinct_hosts(init);
        let after = distinct_hosts(parsed);
        assert forall|i: int| 0 <= i < parsed.len() && (#[trigger] parsed[i]) is Some implies
            after.contains(parsed[i]->0) by {
            let addr = parsed[i]->0;
            if i < init.len() {
                assert(init[i] == parsed[i]);
                let k = before.index_of(addr);
                assert(after[k] == addr);
            } else if !before.contains(addr) {
                assert(after[before.len() as int] == addr);
            }
        }
    }
}

/// Addresses are shown in the order in which they came, what could not be read is passed over, and
/// without any this machine is shown on the usual port.
pub proof fn hosts_are_shown_in_order(parsed: Seq<Option<PeerAddr>>, addr: PeerAddr)
    ensures
        distinct_hosts(parsed.push(None)) == distinct_hosts(parsed),
        distinct_hosts(parsed).contains(addr) ==> distinct_hosts(parsed.push(Some(addr)))
            == distinct_hosts(parsed),
        !distinct_hosts(parsed).contains(addr) ==> distinct_hosts(parsed.push(Some(addr)))
            == distinct_hosts(parsed).push(addr),
        local_host().ip == 0x7f00_0001 && local_host().port == 39271 && !local_host().is_v6,
{
    assert(parsed.push(None).drop_last() =~= parsed);
    assert(parsed.push(Some(addr)).drop_last() =~= parsed);
}

} // verus!
