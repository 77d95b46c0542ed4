//! What the viewer's window shows: rows, texts and colours.
use crate::client::mesh_pairing::MeshPairingMessageKind;
use crate::client::runtime::DiscoveryScope;
use crate::client::transfer_center::{
    TransferCancelTarget, TransferDirection, TransferEntrySnapshot, TransferStatus,
};
use crate::host::service::PeerAddr;
use crate::text::{decimal, decimal_text, join, push_decimal};
use vstd::prelude::*;
use vstd::string::StringSliceAdditionalSpecFns;
use vstd::utf8::{decode_utf8, encode_utf8_decode_utf8, is_char_boundary};

verus! {

/// A device with this address is this machine.
pub open spec fn is_loopback(addr: PeerAddr) -> bool {
    if addr.is_v6 {
        addr.ip == 1
    } else {
        addr.ip / 0x100_0000 == 127
    }
}

pub open spec fn badge_of(addr: PeerAddr) -> Seq<char> {
    if is_loopback(addr) {
        "Local endpoint"@
    } else {
        "Configured endpoint"@
    }
}

/// What is said of a host that the viewer was told of.
pub fn host_badge(addr: PeerAddr) -> (r: &'static str)
    ensures
        r@ == badge_of(addr),
{
    let local = if addr.is_v6 {
        addr.ip == 1
    } else {
        addr.ip / 0x100_0000 == 127
    };
    if local {
        "Local endpoint"
    } else {
        "Configured endpoint"
    }
}

/// A device that was discovered.
#[derive(Debug)]
pub struct DiscoveredPeer {
    pub endpoint: PeerAddr,
    /// The endpoint, written out.
    pub endpoint_text: String,
    pub display_name: String,
    pub can_stream: bool,
    pub control_port: u16,
    pub scope: DiscoveryScope,
}

/// A host that the viewer was told of.
#[derive(Debug)]
pub struct ConfiguredHost {
    pub addr: PeerAddr,
    /// The address, written out.
    pub text: String,
}

/// A device to connect to.
#[derive(Debug, PartialEq, Eq)]
pub struct DeviceRow {
    pub addr: PeerAddr,
    pub title: String,
    pub badge: String,
}

/// A row, with its texts as sequences of characters.
pub ghost struct Device {
    pub addr: PeerAddr,
    pub title: Seq<char>,
    pub badge: Seq<char>,
}

impl View for DeviceRow {
    type V = Device;

    open spec fn view(&self) -> Device {
        Device { addr: self.addr, title: self.title@, badge: self.badge@ }
    }
}

pub open spec fn scope_text(scope: DiscoveryScope) -> Seq<char> {
    match scope {
        DiscoveryScope::Lan => "LAN discovery"@,
        DiscoveryScope::Mesh => "Mesh discovery"@,
        DiscoveryScope::Relay => "Relay discovery"@,
    }
}

/// The rows for the devices that were discovered and can stream.
pub open spec fn peer_rows(peers: Seq<DiscoveredPeer>) -> Seq<Device>
    decreases peers.len(),
{
    if peers.len() == 0 {
        Seq::empty()
    } else {
        let before = peer_rows(peers.drop_last());
        let peer = peers.last();
        if peer.can_stream && peer.control_port != 0 {
            before.push(
                Device {
                    addr: peer.endpoint,
                    title: peer.display_name@,
                    badge: scope_text(peer.scope) + " · "@ + peer.endpoint_text@,
                },
            )
        } else {
            before
        }
    }
}

/// Some row is for that address.
pub open spec fn has_row(rows: Seq<Device>, addr: PeerAddr) -> bool {
    exists|i: int| 0 <= i < rows.len() && (#[trigger] rows[i]).addr == addr
}

/// The rows, and then one for each host that has none yet.
pub open spec fn with_hosts(rows: Seq<Device>, hosts: Seq<ConfiguredHost>) -> Seq<Device>
    decreases hosts.len(),
{
    if hosts.len() == 0 {
        rows
    } else {
        let before = with_hosts(rows, hosts.drop_last());
        let host = hosts.last();
        if has_row(before, host.addr) {
            before
        } else {
            before.push(Device { addr: host.addr, title: host.text@, badge: badge_of(host.addr) })
        }
    }
}

pub open spec fn shown(rows: Seq<DeviceRow>) -> Seq<Device> {
    rows.map_values(|r: DeviceRow| r@)
}

fn row_exists(rows: &Vec<DeviceRow>, addr: PeerAddr) -> (r: bool)
    ensures
        r == has_row(shown(rows@), addr),
{
    let mut i: usize = 0;
    while i < rows.len()
        invariant
            i <= rows@.len(),
            forall|j: int| 0 <= j < i ==> (#[trigger] shown(rows@)[j]).addr != addr,
        decreases rows.len() - i,
    {
        if rows[i].addr == addr {
            proof {
                assert(shown(rows@)[i as int].addr == addr);
            }
            return true;
        }
        i += 1;
    }
    false
}

/// The devices to connect to: those that were discovered, and then the hosts that the viewer was
/// told of, unless they were discovered too.
pub fn device_rows(peers: &Vec<DiscoveredPeer>, hosts: &Vec<ConfiguredHost>) -> (r: Vec<DeviceRow>)
    ensures
        shown(r@) == with_hosts(peer_rows(peers@), hosts@),
{
    let mut rows: Vec<DeviceRow> = Vec::new();
    let mut i: usize = 0;
    while i < peers.len()
        invariant
            i <= peers@.len(),
            shown(rows@) == peer_rows(peers@.take(i as int)),
        decreases peers.len() - i,
    {
        let peer = &peers[i];
        proof {
            assert(peers@.take(i + 1).drop_last() =~= peers@.take(i as int));
        }
        if peer.can_stream && peer.control_port != 0 {
            let scope = match peer.scope {
                DiscoveryScope::Lan => "LAN discovery",
                DiscoveryScope::Mesh => "Mesh discovery",
                DiscoveryScope::Relay => "Relay discovery",
            };
            let mut badge = join(scope, " · ");
            badge.append(peer.endpoint_text.as_str());
            let ghost before = rows@;
            rows.push(
                DeviceRow {
                    addr: peer.endpoint,
                    title: peer.display_name.as_str().to_owned(),
                    badge,
                },
            );
            proof {
                assert(shown(rows@) =~= shown(before).push(rows@.last()@));
            }
        }
        i += 1;
    }
    proof {
        assert(peers@.take(peers@.len() as int) =~= peers@);
        assert(hosts@.take(0) =~= Seq::<ConfiguredHost>::empty());
    }
    let mut k: usize = 0;
    while k < hosts.len()
        invariant
            k <= hosts@.len(),
            shown(rows@) == with_hosts(peer_rows(peers@), hosts@.take(k as int)),
        decreases hosts.len() - k,
    {
        proof {
            assert(hosts@.take(k + 1).drop_last() =~= hosts@.take(k as int));
        }
        let host = &hosts[k];
        if !row_exists(&rows, host.addr) {
            let ghost before = rows@;
            rows.push(
                DeviceRow {
                    addr: host.addr,
                    title: host.text.as_str().to_owned(),
                    badge: host_badge(host.addr).to_owned(),
                },
            );
            proof {
                assert(shown(rows@) =~= shown(before).push(rows@.last()@));
            }
        }
        k += 1;
    }
    proof {
        assert(hosts@.take(hosts@.len() as int) =~= hosts@);
    }
    rows
}

/// Every host that the viewer was told of has a row, and no two rows that were made for hosts are for
/// one address.
pub proof fn hosts_are_shown_once(rows: Seq<Device>, hosts: Seq<ConfiguredHost>)
    ensures
        forall|i: int| 0 <= i < hosts.len() ==> has_row(
            with_hosts(rows, hosts),
            (#[trigger] hosts[i]).addr,
        ),
        rows.len() <= with_hosts(rows, hosts).len() <= rows.len() + hosts.len(),
        forall|i: int| 0 <= i < rows.len() ==> #[trigger] with_hosts(rows, hosts)[i] == rows[i],
        forall|i: int, j: int|
            rows.len() <= j < with_hosts(rows, hosts).len() && 0 <= i < j ==> (
            #[trigger] with_hosts(rows, hosts)[i]).addr != (#[trigger] with_hosts(
                rows,
                hosts,
            )[j]).addr,
    decreases hosts.len(),
{
    if hosts.len() > 0 {
        let before = with_hosts(rows, hosts.drop_last());
        let after = with_hosts(rows, hosts);
        hosts_are_shown_once(rows, hosts.drop_last());
        assert forall|i: int| 0 <= i < hosts.len() implies has_row(
            after,
            (#[trigger] hosts[i]).addr,
        ) by {
            if i < hosts.len() - 1 {
                assert(hosts.drop_last()[i] == hosts[i]);
                let k = choose|k: int|
                    0 <= k < before.len() && (#[trigger] before[k]).addr == hosts[i].addr;
                assert(after[k] == before[k]);
            } else if !has_row(before, hosts.last().addr) {
                assert(after[before.len() as int].addr == hosts[i].addr);
            }
        }
        if !has_row(before, hosts.last().addr) {
            assert forall|i: int, j: int|
                rows.len() <= j < after.len() && 0 <= i < j implies (#[trigger] after[i]).addr != (
            #[trigger] after[j]).addr by {
                assert(after[i] == before[i]);
                if j < before.len() {
                    assert(after[j] == before[j]);
                }
            }
        }
    }
}

/// How the mesh is doing.
#[derive(Debug, Clone, Copy, PartialEq, Eq, Structural)]
pub enum MeshHealthState {
    Ready,
    Starting,
    Degraded,
    Stopped,
}

/// The health of the mesh, with its address written out if it has one.
#[derive(Debug)]
pub struct MeshHealth {
    pub state: MeshHealthState,
    pub needs_admin: bool,
    pub virtual_ip: Option<String>,
}

/// The line for the health of the mesh.
pub fn mesh_status_text(health: &MeshHealth) -> (r: String)
    ensures
        r@ == (if health.needs_admin {
            "Mesh needs admin setup"@
        } else {
            match health.state {
                MeshHealthState::Ready => "Mesh ready · "@ + (match health.virtual_ip {
                    Some(ip) => ip@,
                    None => "virtual IP pending"@,
                }),
                MeshHealthState::Starting => "Mesh starting"@,
                MeshHealthState::Degraded => "Mesh degraded"@,
                MeshHealthState::Stopped => "Mesh stopped"@,
            }
        }),
{
    if health.needs_admin {
        return "Mesh needs admin setup".to_owned();
    }
    match health.state {
        MeshHealthState::Ready => match &health.virtual_ip {
            Some(ip) => join("Mesh ready · ", ip.as_str()),
            None => join("Mesh ready · ", "virtual IP pending"),
        },
        MeshHealthState::Starting => "Mesh starting".to_owned(),
        MeshHealthState::Degraded => "Mesh degraded".to_owned(),
        MeshHealthState::Stopped => "Mesh stopped".to_owned(),
    }
}

/// The colour for the health of the mesh.
pub fn mesh_status_color(state: MeshHealthState) -> (r: u32)
    ensures
        r == (match state {
            MeshHealthState::Ready => 0x39a275u32,
            MeshHealthState::Starting => 0xd49a3au32,
            MeshHealthState::Degraded => 0xd65f5fu32,
            MeshHealthState::Stopped => 0x6f7a86u32,
        }),
{
    match state {
        MeshHealthState::Ready => 0x39a275,
        MeshHealthState::Starting => 0xd49a3a,
        MeshHealthState::Degraded => 0xd65f5f,
        MeshHealthState::Stopped => 0x6f7a86,
    }
}

/// The colour for a message about pairing.
pub fn pairing_message_color(kind: MeshPairingMessageKind) -> (r: u32)
    ensures
        r == (match kind {
            MeshPairingMessageKind::Neutral => 0x8d98a7u32,
            MeshPairingMessageKind::Success => 0x39a275u32,
            MeshPairingMessageKind::Warning => 0xd49a3au32,
            MeshPairingMessageKind::Error => 0xd65f5fu32,
        }),
{
    match kind {
        MeshPairingMessageKind::Neutral => 0x8d98a7,
        MeshPairingMessageKind::Success => 0x39a275,
        MeshPairingMessageKind::Warning => 0xd49a3a,
        MeshPairingMessageKind::Error => 0xd65f5f,
    }
}

/// The fill of a choice, lit up where it is the one that was made.
pub fn control_fill(active: bool) -> (r: u32)
    ensures
        r == (if active {
            0x2563ebu32
        } else {
            0x242a33u32
        }),
{
    if active {
        0x2563eb
    } else {
        0x242a33
    }
}

/// The fill of a switch.
pub fn toggle_fill(is_on: bool) -> (r: u32)
    ensures
        r == (if is_on {
            0x2f7d68u32
        } else {
            0x57343du32
        }),
{
    if is_on {
        0x2f7d68
    } else {
        0x57343d
    }
}

/// Eight bytes of an identifier are shown.
pub const SHOWN_ID_BYTES: usize = 8;

/// An identifier, shortened to its first bytes where it has more.
pub fn compact_device_id(device_id: &str) -> (r: String)
    requires
        device_id.spec_bytes().len() > SHOWN_ID_BYTES ==> is_char_boundary(
            device_id.spec_bytes(),
            SHOWN_ID_BYTES as int,
        ),
    ensures
        r@ == (if device_id.spec_bytes().len() <= SHOWN_ID_BYTES {
            device_id@
        } else {
            decode_utf8(device_id.spec_bytes().subrange(0, SHOWN_ID_BYTES as int)) + "..."@
        }),
{
    if device_id.as_bytes().len() <= SHOWN_ID_BYTES {
        device_id.to_owned()
    } else {
        let (head, _tail) = device_id.split_at(SHOWN_ID_BYTES);
        proof {
            encode_utf8_decode_utf8(head@);
        }
        join(head, "...")
    }
}

pub fn transfer_status_text(status: TransferStatus) -> (r: &'static str)
    ensures
        r@ == (match status {
            TransferStatus::Running => "Running"@,
            TransferStatus::Completed => "Done"@,
            TransferStatus::Cancelled => "Cancelled"@,
            TransferStatus::Error => "Error"@,
        }),
{
    match status {
        TransferStatus::Running => "Running",
        TransferStatus::Completed => "Done",
        TransferStatus::Cancelled => "Cancelled",
        TransferStatus::Error => "Error",
    }
}

pub fn transfer_status_color(status: TransferStatus) -> (r: u32)
    ensures
        r == (match status {
            TransferStatus::Running => 0x89b4fau32,
            TransferStatus::Completed => 0xa6e3a1u32,
            TransferStatus::Cancelled => 0xf9e2afu32,
            TransferStatus::Error => 0xf38ba8u32,
        }),
{
    match status {
        TransferStatus::Running => 0x89b4fa,
        TransferStatus::Completed => 0xa6e3a1,
        TransferStatus::Cancelled => 0xf9e2af,
        TransferStatus::Error => 0xf38ba8,
    }
}

/// A quotient to the nearest whole number, and halfway between two of them to the even one.
pub open spec fn half_even(dividend: int, divisor: int) -> int {
    let quotient = dividend / divisor;
    let twice_rest = 2 * (dividend % divisor);
    if twice_rest > divisor || (twice_rest == divisor && quotient % 2 == 1) {
        quotient + 1
    } else {
        quotient
    }
}

fn round_half_even(dividend: u128, divisor: u128) -> (r: u128)
    requires
        0 < divisor <= u64::MAX,
        dividend < u128::MAX,
    ensures
        r == half_even(dividend as int, divisor as int),
{
    let quotient: u128 = dividend / divisor;
    let rest: u128 = dividend % divisor;
    assert(quotient <= dividend) by (nonlinear_arith)
        requires
            quotient == dividend / divisor,
            divisor > 0,
    ;
    if 2 * rest > divisor || (2 * rest == divisor && quotient % 2 == 1) {
        quotient + 1
    } else {
        quotient
    }
}

/// Whole numbers from here on have gaps between them where they are held with 53 binary digits.
pub const EXACT_LIMIT: u64 = 0x20_0000_0000_0000;

/// The gap between the numbers near this one that 53 binary digits can hold.
pub open spec fn gap(n: nat) -> nat
    decreases n,
{
    if n < EXACT_LIMIT {
        1
    } else {
        2 * gap(n / 2)
    }
}

/// The nearest number that 53 binary digits can hold.
pub open spec fn in_53_digits(n: nat) -> int {
    half_even(n as int, gap(n) as int) * gap(n)
}

fn to_53_digits(n: u64) -> (r: u128)
    ensures
        r == in_53_digits(n as nat),
        r <= 2 * n,
        n < EXACT_LIMIT ==> r == n,
{
    let mut step: u128 = 1;
    let mut rest: u64 = n;
    while rest >= EXACT_LIMIT
        invariant
            gap(n as nat) == step * gap(rest as nat),
            1 <= step,
            step * rest <= n,
            rest < EXACT_LIMIT ==> rest == n || 2 * step <= n,
        decreases rest,
    {
        proof {
            let half = rest / 2;
            let g = gap(half as nat);
            assert(step * (2 * g) == (2 * step) * g) by (nonlinear_arith);
            assert((2 * step) * half <= step * rest) by (nonlinear_arith)
                requires
                    2 * half <= rest,
                    step >= 1,
            ;
            assert(2 * step <= step * rest) by (nonlinear_arith)
                requires
                    rest >= 2,
                    step >= 1,
            ;
            assert(2 * (2 * step) <= n) by (nonlinear_arith)
                requires
                    (2 * step) * half <= n,
                    half >= 2,
                    step >= 1,
            ;
        }
        rest = rest / 2;
        step = step * 2;
    }
    proof {
        let last = gap(rest as nat);
        assert(step * last == step) by (nonlinear_arith)
            requires
                last == 1,
        ;
        assert(step <= u64::MAX);
    }
    let count: u128 = round_half_even(n as u128, step);
    proof {
        let quotient = n as int / step as int;
        assert(quotient * step <= n) by (nonlinear_arith)
            requires
                quotient == n as int / step as int,
                step >= 1,
        ;
        assert(count * step <= (quotient + 1) * step) by (nonlinear_arith)
            requires
                count <= quotient + 1,
                step >= 1,
        ;
        assert((quotient + 1) * step == quotient * step + step) by (nonlinear_arith);
        if n < EXACT_LIMIT {
            assert(step == 1);
        }
    }
    count * step
}

/// An amount in units of so many bytes, to one decimal place.
pub open spec fn in_units(bytes: u64, unit: int, name: Seq<char>) -> Seq<char> {
    let tenths = half_even(10 * in_53_digits(bytes as nat), unit);
    decimal((tenths / 10) as nat) + "."@ + decimal((tenths % 10) as nat) + name
}

/// An amount of bytes as it is written out.
pub open spec fn byte_text(bytes: u64) -> Seq<char> {
    if bytes >= 0x4000_0000 {
        in_units(bytes, 0x4000_0000, " GiB"@)
    } else if bytes >= 0x10_0000 {
        in_units(bytes, 0x10_0000, " MiB"@)
    } else if bytes >= 0x400 {
        in_units(bytes, 0x400, " KiB"@)
    } else {
        decimal(bytes as nat) + " B"@
    }
}

fn text_in_units(bytes: u64, unit: u64, name: &str) -> (r: String)
    requires
        0x400 <= unit,
    ensures
        r@ == in_units(bytes, unit as int, name@),
{
    let held: u128 = to_53_digits(bytes);
    let tenths: u128 = round_half_even(10 * held, unit as u128);
    proof {
        let quotient = 10 * held / unit as int;
        assert(quotient <= 10 * held / 0x400) by (nonlinear_arith)
            requires
                quotient == 10 * held / unit as int,
                unit >= 0x400,
                held >= 0,
        ;
    }
    let mut text = decimal_text((tenths / 10) as u64);
    text.append(".");
    push_decimal(&mut text, (tenths % 10) as u64);
    text.append(name);
    text
}

/// Writes out an amount of bytes.
pub fn format_bytes(bytes: u64) -> (r: String)
    ensures
        r@ == byte_text(bytes),
{
    if bytes >= 0x4000_0000 {
        text_in_units(bytes, 0x4000_0000, " GiB")
    } else if bytes >= 0x10_0000 {
        text_in_units(bytes, 0x10_0000, " MiB")
    } else if bytes >= 0x400 {
        text_in_units(bytes, 0x400, " KiB")
    } else {
        let mut text = decimal_text(bytes);
        text.append(" B");
        text
    }
}

/// How many transfers the panel shows.
pub const SHOWN_TRANSFERS: usize = 4;

/// A transfer as the panel shows it.
#[derive(Debug, PartialEq, Eq)]
pub struct TransferRow {
    pub id: String,
    pub title: String,
    pub status: &'static str,
    pub status_color: u32,
    pub detail: String,
    /// What the button that ends it ends, where it has one.
    pub cancel: Option<TransferCancelTarget>,
}

/// How far a transfer has come.
pub open spec fn amounts(entry: TransferEntrySnapshot) -> Seq<char> {
    byte_text(entry.transferred_bytes) + " / "@ + byte_text(entry.total_bytes)
}

/// The row shows the transfer, as the one with that number. Only what runs can be ended.
pub open spec fn shows_transfer(row: TransferRow, entry: TransferEntrySnapshot, index: int) -> bool {
    &&& row.id@ == "transfer-entry-"@ + decimal(index as nat)
    &&& row.title@ == (match entry.direction {
        TransferDirection::Outgoing => "Send "@,
        TransferDirection::Incoming => "Receive "@,
    }) + entry.label@
    &&& row.status@ == (match entry.status {
        TransferStatus::Running => "Running"@,
        TransferStatus::Completed => "Done"@,
        TransferStatus::Cancelled => "Cancelled"@,
        TransferStatus::Error => "Error"@,
    })
    &&& row.status_color == (match entry.status {
        TransferStatus::Running => 0x89b4fau32,
        TransferStatus::Completed => 0xa6e3a1u32,
        TransferStatus::Cancelled => 0xf9e2afu32,
        TransferStatus::Error => 0xf38ba8u32,
    })
    &&& row.detail@ == (if entry.detail@.len() == 0 {
        amounts(entry)
    } else {
        entry.detail@ + " | "@ + amounts(entry)
    })
    &&& row.cancel == (if entry.status is Running {
        entry.cancel_target
    } else {
        None
    })
}

/// The row of a transfer.
pub fn transfer_row(entry: &TransferEntrySnapshot, index: usize) -> (r: TransferRow)
    ensures
        shows_transfer(r, *entry, index as int),
{
    let mut id = "transfer-entry-".to_owned();
    push_decimal(&mut id, index as u64);
    let title = match entry.direction {
        TransferDirection::Outgoing => join("Send ", entry.label.as_str()),
        TransferDirection::Incoming => join("Receive ", entry.label.as_str()),
    };
    let mut bytes = format_bytes(entry.transferred_bytes);
    bytes.append(" / ");
    bytes.append(format_bytes(entry.total_bytes).as_str());
    let detail = if entry.detail.as_str().unicode_len() == 0 {
        bytes
    } else {
        let mut detail = join(entry.detail.as_str(), " | ");
        detail.append(bytes.as_str());
        detail
    };
    let cancel = if entry.is_running() {
        entry.cancel_target
    } else {
        None
    };
    TransferRow {
        id,
        title,
        status: transfer_status_text(entry.status),
        status_color: transfer_status_color(entry.status),
        detail,
        cancel,
    }
}

/// A path, shortened to its end where it is too long. Limits of three characters or less are none.
pub open spec fn shortened(path: Seq<char>, max_chars: int) -> Seq<char> {
    if path.len() <= max_chars || max_chars <= 3 {
        path
    } else {
        "..."@ + path.subrange(path.len() - (max_chars - 3), path.len() as int)
    }
}

/// Shortens a path.
pub fn compact_path(path: &str, max_chars: usize) -> (r: String)
    ensures
        r@ == shortened(path@, max_chars as int),
        max_chars > 3 ==> r@.len() <= max_chars,
{
    let count: usize = path.unicode_len();
    if count <= max_chars || max_chars <= 3 {
        return path.to_owned();
    }
    proof {
        reveal_strlit("...");
    }
    join("...", path.substring_char(count - (max_chars - 3), count))
}

/// What is sent of the files that were picked.
pub enum PickedFiles {
    Nothing,
    One(String),
    Group(Vec<String>),
}

/// One file is sent by itself, several as a group.
pub fn picked_files(paths: Vec<String>) -> (r: PickedFiles)
    ensures
        r == (if paths@.len() == 0 {
            PickedFiles::Nothing
        } else if paths@.len() == 1 {
            PickedFiles::One(paths@[0])
        } else {
            PickedFiles::Group(paths)
        }),
{
    let mut paths = paths;
    if paths.len() == 0 {
        PickedFiles::Nothing
    } else if paths.len() == 1 {
        PickedFiles::One(paths.remove(0))
    } else {
        PickedFiles::Group(paths)
    }
}

/// Rounding goes to a nearest whole number, and of two that are as near to the even one.
pub proof fn rounding_goes_to_the_nearest(dividend: int, divisor: int)
    requires
        dividend >= 0,
        divisor > 0,
    ensures
        ({
            let r = half_even(dividend, divisor);
            &&& -divisor <= 2 * (r * divisor) - 2 * dividend <= divisor
            &&& 2 * (r * divisor) - 2 * dividend == divisor || 2 * (r * divisor) - 2 * dividend
                == -divisor ==> r % 2 == 0
        }),
{
    let q = dividend / divisor;
    let rest = dividend % divisor;
    assert(dividend == q * divisor + rest && 0 <= rest < divisor) by (nonlinear_arith)
        requires
            divisor > 0,
            q == dividend / divisor,
            rest == dividend % divisor,
    ;
    assert((q + 1) * divisor == q * divisor + divisor) by (nonlinear_arith);
}

proof fn lemma_gap(n: nat)
    ensures
        gap(n) >= 1,
        n < 0x20_0000_0000_0000 ==> gap(n) == 1,
        n < 0x20_0000_0000_0000 * gap(n),
        gap(n) == 1 || n >= 0x10_0000_0000_0000 * gap(n),
    decreases n,
{
    if n >= EXACT_LIMIT {
        lemma_gap(n / 2);
        let g = gap(n / 2);
        if g == 1 {
            assert(n >= 0x20_0000_0000_0000);
        }
    }
}

/// A number that is held with 53 binary digits is a nearest one to what it stands for, and the same
/// one as long as that has no more digits.
pub proof fn amounts_are_held_closely(n: u64)
    ensures
        n < 0x20_0000_0000_0000 ==> in_53_digits(n as nat) == n,
        -gap(n as nat) <= 2 * in_53_digits(n as nat) - 2 * n <= gap(n as nat),
        gap(n as nat) == 1 || n >= 0x10_0000_0000_0000 * gap(n as nat),
{
    lemma_gap(n as nat);
    rounding_goes_to_the_nearest(n as int, gap(n as nat) as int);
    if n < 0x20_0000_0000_0000 {
        assert(half_even(n as int, 1) == n);
        assert((n as int) * 1 == n);
    }
}

/// An amount is written in the largest unit that it reaches, to the nearest tenth; below the smallest
/// unit it is written in whole bytes.
pub proof fn amounts_are_written_to_a_tenth(bytes: u64) -> (tenths: int)
    requires
        bytes < 0x20_0000_0000_0000,
    ensures
        ({
            let text = |name: Seq<char>|
                decimal((tenths / 10) as nat) + "."@ + decimal((tenths % 10) as nat) + name;
            let close = |unit: int| -unit <= 2 * (tenths * unit) - 20 * bytes <= unit;
            &&& bytes < 1_024 ==> byte_text(bytes) == decimal(bytes as nat) + " B"@
            &&& 1_024 <= bytes < 1_048_576 ==> close(1_024) && byte_text(bytes) == text(" KiB"@)
            &&& 1_048_576 <= bytes < 1_073_741_824 ==> close(1_048_576) && byte_text(bytes) == text(
                " MiB"@,
            )
            &&& 1_073_741_824 <= bytes ==> close(1_073_741_824) && byte_text(bytes) == text(
                " GiB"@,
            )
        }),
{
    amounts_are_held_closely(bytes);
    let unit: int = if bytes >= 1_073_741_824 {
        1_073_741_824
    } else if bytes >= 1_048_576 {
        1_048_576
    } else {
        1_024
    };
    rounding_goes_to_the_nearest(10 * bytes as int, unit);
    half_even(10 * bytes as int, unit)
}

/// A path that is too long is cut at its front: dots stand for what is missing, and what is left is
/// its end.
pub proof fn shortened_paths_keep_their_end(path: Seq<char>, max_chars: int)
    requires
        max_chars > 3,
    ensures
        path.len() <= max_chars ==> shortened(path, max_chars) == path,
        path.len() > max_chars ==> {
            let r = shortened(path, max_chars);
            &&& r.len() == max_chars
            &&& r[0] == '.' && r[1] == '.' && r[2] == '.'
            &&& forall|i: int|
                3 <= i < max_chars ==> #[trigger] r[i] == path[path.len() - max_chars + i]
        },
{
    reveal_strlit("...");
}

/// A machine is this one exactly if its address is one of those that lead back to it.
pub proof fn loopback_leads_back(addr: PeerAddr)
    ensures
        !addr.is_v6 && addr.ip <= 0xffff_ffff ==> is_loopback(addr) == (0x7f00_0000 <= addr.ip
            <= 0x7fff_ffff),
        addr.is_v6 ==> is_loopback(addr) == (addr.ip == 1),
        is_loopback(addr) ==> badge_of(addr) == "Local endpoint"@,
        !is_loopback(addr) ==> badge_of(addr) == "Configured endpoint"@,
{
}

/// A device that was discovered is shown exactly if it can stream and can be asked to, by its own
/// address and name, and with where it was found.
pub proof fn streaming_devices_are_shown(peers: Seq<DiscoveredPeer>, peer: DiscoveredPeer)
    ensures
        ({
            let before = peer_rows(peers);
            let after = peer_rows(peers.push(peer));
            &&& !peer.can_stream || peer.control_port == 0 ==> after == before
            &&& peer.can_stream && peer.control_port != 0 ==> {
                &&& after.len() == before.len() + 1
                &&& after.drop_last() == before
                &&& after.last().addr == peer.endpoint
                &&& after.last().title == peer.display_name@
                &&& peer.scope == DiscoveryScope::Lan ==> after.last().badge == "LAN discovery"@
                    + " · "@ + peer.endpoint_text@
                &&& peer.scope == DiscoveryScope::Mesh ==> after.last().badge == "Mesh discovery"@
                    + " · "@ + peer.endpoint_text@
                &&& peer.scope == DiscoveryScope::Relay ==> after.last().badge == "Relay discovery"@
                    + " · "@ + peer.endpoint_text@
            }
            &&& peer_rows(Seq::empty()).len() == 0
        }),
{
    assert(peers.push(peer).drop_last() =~= peers);
    let before = peer_rows(peers);
    if peer.can_stream && peer.control_port != 0 {
        assert(peer_rows(peers.push(peer)).drop_last() =~= before);
    }
}

/// A host that the viewer was told of is shown under its address as it was written.
pub proof fn told_hosts_are_shown(rows: Seq<Device>, hosts: Seq<ConfiguredHost>, host: ConfiguredHost)
    ensures
        ({
            let before = with_hosts(rows, hosts);
            let after = with_hosts(rows, hosts.push(host));
            &&& has_row(before, host.addr) ==> after == before
            &&& !has_row(before, host.addr) ==> {
                &&& after.len() == before.len() + 1
                &&& after.drop_last() == before
                &&& after.last().addr == host.addr
                &&& after.last().title == host.text@
            }
        }),
{
    assert(hosts.push(host).drop_last() =~= hosts);
    let before = with_hosts(rows, hosts);
    if !has_row(before, host.addr) {
        assert(with_hosts(rows, hosts.push(host)).drop_last() =~= before);
    }
}

/// The row of a transfer says whether it goes out or comes in, what becomes of it and how far it has
/// come, and only one that runs has a button that ends it.
pub proof fn transfer_rows_say_what_happens(
    row: TransferRow,
    entry: TransferEntrySnapshot,
    index: int,
)
    requires
        shows_transfer(row, entry, index),
    ensures
        entry.direction == TransferDirection::Outgoing ==> row.title@ == "Send "@ + entry.label@,
        entry.direction == TransferDirection::Incoming ==> row.title@ == "Receive "@ + entry.label@,
        entry.status == TransferStatus::Running ==> row.status@ == "Running"@ && row.status_color
            == 0x89b4fa && row.cancel == entry.cancel_target,
        entry.status == TransferStatus::Completed ==> row.status@ == "Done"@ && row.status_color
            == 0xa6e3a1,
        entry.status == TransferStatus::Cancelled ==> row.status@ == "Cancelled"@
            && row.status_color == 0xf9e2af,
        entry.status == TransferStatus::Error ==> row.status@ == "Error"@ && row.status_color
            == 0xf38ba8,
        entry.status != TransferStatus::Running ==> row.cancel is None,
        entry.detail@.len() == 0 ==> row.detail@ == byte_text(entry.transferred_bytes) + " / "@
            + byte_text(entry.total_bytes),
        entry.detail@.len() > 0 ==> row.detail@ == entry.detail@ + " | "@ + (byte_text(
            entry.transferred_bytes,
        ) + " / "@ + byte_text(entry.total_bytes)),
{
}

} // verus!
