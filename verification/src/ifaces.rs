//! The interface enumerator: which local network interfaces a discovery
//! probe goes out on, and to which addresses.
//!
//! Only wireless and hotspot interfaces with a non-loopback IPv4 address
//! count. If none does, there is no target at all: the probe is not sent
//! to a catch-all address. The broadcast address of an interface is its
//! own address with the last octet set to 255, whatever its subnet mask.

use crate::text::{begins_with, chars_of, contains, has_substring, lowercase, same_text, starts_with};
use vstd::prelude::*;

verus! {

/// An IPv4 address, `a.b.c.d`.
#[derive(Clone, Copy, Debug, PartialEq, Eq, Structural)]
pub struct Ipv4 {
    pub a: u8,
    pub b: u8,
    pub c: u8,
    pub d: u8,
}

impl Ipv4 {
    /// The address as one number, first octet most significant: addresses
    /// are ordered by it.
    pub open spec fn value(self) -> int {
        ((self.a * 256 + self.b) * 256 + self.c) * 256 + self.d
    }

    /// The address is in 127.0.0.0/8.
    pub open spec fn is_loopback_address(self) -> bool {
        self.a == 127
    }

    /// The address `a.b.c.d`.
    pub fn new(a: u8, b: u8, c: u8, d: u8) -> (r: Ipv4)
        ensures
            r == (Ipv4 { a, b, c, d }),
    {
        Ipv4 { a, b, c, d }
    }

    /// The four octets, first to last.
    pub fn octets(&self) -> (r: [u8; 4])
        ensures
            r@ == seq![self.a, self.b, self.c, self.d],
    {
        let r = [self.a, self.b, self.c, self.d];
        assert(r@ =~= seq![self.a, self.b, self.c, self.d]);
        r
    }

    /// The address as one number.
    pub fn to_u32(&self) -> (r: u32)
        ensures
            r == self.value(),
    {
        ((self.a as u32 * 256 + self.b as u32) * 256 + self.c as u32) * 256 + self.d as u32
    }

    /// Tests whether the address is a loopback address.
    pub fn is_loopback(&self) -> (r: bool)
        ensures
            r == self.is_loopback_address(),
    {
        self.a == 127
    }
}

/// Addresses with the same number are the same address.
pub proof fn lemma_value_injective(x: Ipv4, y: Ipv4)
    requires
        x.value() == y.value(),
    ensures
        x == y,
{
}

/// The broadcast address of the /24 network that `ip` is in.
pub open spec fn broadcast_of(ip: Ipv4) -> Ipv4 {
    Ipv4 { d: 255, ..ip }
}

/// Computes the broadcast address of the /24 network that `ip` is in.
pub fn calculate_broadcast_address(ip: Ipv4) -> (r: Ipv4)
    ensures
        r == broadcast_of(ip),
{
    Ipv4 { a: ip.a, b: ip.b, c: ip.c, d: 255 }
}

/// A lower-case interface name that marks a hotspot or access point.
pub open spec fn hotspot_pattern(lower: Seq<char>) -> bool {
    ||| has_substring(lower, "ap"@)
    ||| lower == "wlan1"@
    ||| has_substring(lower, "softap"@)
    ||| has_substring(lower, "swlan"@)
    ||| lower == "ap0"@
}

/// A lower-case interface name that marks a wireless interface.
pub open spec fn wlan_pattern(lower: Seq<char>) -> bool {
    ||| begins_with(lower, "wlan"@)
    ||| begins_with(lower, "wi-fi"@)
    ||| begins_with(lower, "wifi"@)
    ||| has_substring(lower, "wireless"@)
}

/// Tests a name that is already in lower case against the hotspot
/// patterns.
pub fn matches_hotspot(lower: &str) -> (r: bool)
    ensures
        r == hotspot_pattern(lower@),
{
    let name = chars_of(lower);
    contains(&name, &chars_of("ap")) || same_text(&name, &chars_of("wlan1")) || contains(
        &name,
        &chars_of("softap"),
    ) || contains(&name, &chars_of("swlan")) || same_text(&name, &chars_of("ap0"))
}

/// Tests a name that is already in lower case against the wireless
/// patterns.
pub fn matches_wlan(lower: &str) -> (r: bool)
    ensures
        r == wlan_pattern(lower@),
{
    let name = chars_of(lower);
    starts_with(&name, &chars_of("wlan")) || starts_with(&name, &chars_of("wi-fi")) || starts_with(
        &name,
        &chars_of("wifi"),
    ) || contains(&name, &chars_of("wireless"))
}

/// Tests whether an interface of this name is a hotspot or access point,
/// whatever the case of its letters.
pub fn is_hotspot_interface(name: &str) -> (r: bool)
    ensures
        r == hotspot_pattern(lowercase(name@)),
{
    let lower = name.to_lowercase();
    matches_hotspot(lower.as_str())
}

/// Tests whether an interface of this name is a wireless interface,
/// whatever the case of its letters.
pub fn is_wlan_interface(name: &str) -> (r: bool)
    ensures
        r == wlan_pattern(lowercase(name@)),
{
    let lower = name.to_lowercase();
    matches_wlan(lower.as_str())
}

/// The address of an interface as the system reports it.
#[derive(Clone, Copy, Debug, PartialEq, Eq, Structural)]
pub enum InterfaceAddr {
    V4(Ipv4),
    V6,
}

/// One entry of the system's list of interfaces.
#[derive(Clone, Debug, PartialEq, Eq)]
pub struct FoundInterface {
    pub name: String,
    pub addr: InterfaceAddr,
}

/// An interface that discovery probes go out on.
#[derive(Clone, Debug, PartialEq, Eq)]
pub struct NetworkInterface {
    pub name: String,
    pub ip: Ipv4,
    pub broadcast_address: Ipv4,
    pub is_hotspot: bool,
}

/// What a [`NetworkInterface`] says.
pub struct InterfaceView {
    pub name: Seq<char>,
    pub ip: Ipv4,
    pub broadcast_address: Ipv4,
    pub is_hotspot: bool,
}

impl View for NetworkInterface {
    type V = InterfaceView;

    open spec fn view(&self) -> InterfaceView {
        InterfaceView {
            name: self.name@,
            ip: self.ip,
            broadcast_address: self.broadcast_address,
            is_hotspot: self.is_hotspot,
        }
    }
}

/// Probes go out on this interface: it has an IPv4 address that is not a
/// loopback address, and a wireless or hotspot name.
pub open spec fn qualifies(entry: FoundInterface) -> bool {
    &&& entry.addr matches InterfaceAddr::V4(ip)
    &&& !ip.is_loopback_address()
    &&& (wlan_pattern(lowercase(entry.name@)) || hotspot_pattern(lowercase(entry.name@)))
}

/// The interface that a qualifying entry describes.
pub open spec fn described(entry: FoundInterface) -> InterfaceView {
    InterfaceView {
        name: entry.name@,
        ip: entry.addr->V4_0,
        broadcast_address: broadcast_of(entry.addr->V4_0),
        is_hotspot: hotspot_pattern(lowercase(entry.name@)),
    }
}

/// The interfaces that probes go out on, in the order of the system's
/// list.
pub open spec fn selected(found: Seq<FoundInterface>) -> Seq<InterfaceView>
    decreases found.len(),
{
    if found.len() == 0 {
        Seq::empty()
    } else if qualifies(found.last()) {
        selected(found.drop_last()).push(described(found.last()))
    } else {
        selected(found.drop_last())
    }
}

/// What a list of interfaces says.
pub open spec fn interface_views(interfaces: Seq<NetworkInterface>) -> Seq<InterfaceView> {
    interfaces.map_values(|interface: NetworkInterface| interface@)
}

/// `target` is the broadcast address of an interface that qualifies.
pub open spec fn is_target(found: Seq<FoundInterface>, target: Ipv4) -> bool {
    exists|i: int|
        0 <= i < found.len() && qualifies(#[trigger] found[i]) && target == broadcast_of(
            found[i].addr->V4_0,
        )
}

/// The addresses come in strictly rising order, so none comes twice.
pub open spec fn strictly_rising(addresses: Seq<Ipv4>) -> bool {
    forall|i: int, j: int|
        0 <= i < j < addresses.len() ==> (#[trigger] addresses[i]).value() < (
        #[trigger] addresses[j]).value()
}

/// `interface` describes an entry of the list that qualifies.
pub open spec fn describes_entry(found: Seq<FoundInterface>, interface: InterfaceView) -> bool {
    exists|i: int|
        0 <= i < found.len() && qualifies(#[trigger] found[i]) && interface == described(found[i])
}

/// Every selected interface describes an entry that qualifies.
pub proof fn lemma_selected_qualify(found: Seq<FoundInterface>)
    ensures
        forall|k: int|
            0 <= k < selected(found).len() ==> describes_entry(found, #[trigger] selected(found)[k]),
    decreases found.len(),
{
    if found.len() > 0 {
        let shorter = found.drop_last();
        lemma_selected_qualify(shorter);
        assert forall|k: int| 0 <= k < selected(found).len() implies describes_entry(
            found,
            #[trigger] selected(found)[k],
        ) by {
            if k < selected(shorter).len() {
                assert(describes_entry(shorter, selected(shorter)[k]));
                let i = choose|i: int|
                    0 <= i < shorter.len() && qualifies(#[trigger] shorter[i]) && selected(
                        shorter,
                    )[k] == described(shorter[i]);
                assert(found[i] == shorter[i]);
            } else {
                assert(qualifies(found[found.len() - 1]));
            }
        }
    }
}

/// Every entry that qualifies is among the selected interfaces.
pub proof fn lemma_qualifying_selected(found: Seq<FoundInterface>, i: int)
    requires
        0 <= i < found.len(),
        qualifies(found[i]),
    ensures
        selected(found).contains(described(found[i])),
    decreases found.len(),
{
    let shorter = found.drop_last();
    if i < shorter.len() {
        assert(shorter[i] == found[i]);
        lemma_qualifying_selected(shorter, i);
        let k = choose|k: int|
            0 <= k < selected(shorter).len() && selected(shorter)[k] == described(found[i]);
        assert(selected(found)[k] == described(found[i]));
    } else {
        assert(selected(found)[selected(found).len() - 1] == described(found[i]));
    }
}

/// Picks the interfaces that probes go out on from the system's list.
pub fn get_network_interfaces(found: &Vec<FoundInterface>) -> (r: Vec<NetworkInterface>)
    ensures
        interface_views(r@) == selected(found@),
{
    let mut r: Vec<NetworkInterface> = Vec::new();
    let mut i: usize = 0;
    assert(found@.take(0) =~= Seq::<FoundInterface>::empty());
    while i < found.len()
        invariant
            i <= found.len(),
            r@.len() == selected(found@.take(i as int)).len(),
            forall|k: int| 0 <= k < r@.len() ==> (#[trigger] r@[k])@ == selected(found@.take(i as int))[k],
        decreases found.len() - i,
    {
        assert(found@.take(i + 1).drop_last() =~= found@.take(i as int));
        assert(found@.take(i + 1).last() == found@[i as int]);
        let entry = &found[i];
        match entry.addr {
            InterfaceAddr::V4(ip) => {
                if !ip.is_loopback() {
                    let is_hotspot = is_hotspot_interface(entry.name.as_str());
                    let is_wlan = is_wlan_interface(entry.name.as_str());
                    if is_wlan || is_hotspot {
                        r.push(
                            NetworkInterface {
                                name: entry.name.clone(),
                                ip,
                                broadcast_address: calculate_broadcast_address(ip),
                                is_hotspot,
                            },
                        );
                    }
                }
            },
            InterfaceAddr::V6 => {},
        }
        i += 1;
    }
    assert(found@.take(found.len() as int) =~= found@);
    assert(interface_views(r@) =~= selected(found@));
    r
}

fn insert_address(sorted: &mut Vec<Ipv4>, ip: Ipv4)
    requires
        strictly_rising(old(sorted)@),
    ensures
        strictly_rising(final(sorted)@),
        forall|t: Ipv4| final(sorted)@.contains(t) <==> (old(sorted)@.contains(t) || t == ip),
{
    let key = ip.to_u32();
    let mut at: usize = 0;
    while at < sorted.len() && sorted[at].to_u32() < key
        invariant
            at <= sorted.len(),
            sorted@ == old(sorted)@,
            key == ip.value(),
            forall|j: int| 0 <= j < at ==> (#[trigger] sorted@[j]).value() < key,
        decreases sorted.len() - at,
    {
        at += 1;
    }
    if at < sorted.len() && sorted[at].to_u32() == key {
        proof {
            lemma_value_injective(sorted@[at as int], ip);
            assert(sorted@.contains(ip));
        }
        return ;
    }
    sorted.insert(at, ip);
    proof {
        let before = old(sorted)@;
        let after = sorted@;
        assert(after[at as int] == ip);
        assert forall|t: Ipv4| after.contains(t) <==> (before.contains(t) || t == ip) by {
            if after.contains(t) {
                let j = choose|j: int| 0 <= j < after.len() && after[j] == t;
                if j < at {
                    assert(before[j] == t);
                } else if j > at {
                    assert(before[j - 1] == t);
                }
            }
            if before.contains(t) {
                let j = choose|j: int| 0 <= j < before.len() && before[j] == t;
                if j < at {
                    assert(after[j] == t);
                } else {
                    assert(after[j + 1] == t);
                }
            }
        }
        assert forall|i: int, j: int| 0 <= i < j < after.len() implies (#[trigger] after[i]).value() < (
        #[trigger] after[j]).value() by {
            if j < at {
                assert(after[i] == before[i] && after[j] == before[j]);
            } else if j == at {
                assert(after[i] == before[i]);
            } else if i < at {
                assert(after[i] == before[i] && after[j] == before[j - 1]);
                if j - 1 > at {
                    assert(before[at as int].value() < before[j - 1].value());
                }
            } else if i == at {
                assert(after[j] == before[j - 1]);
                if j - 1 > at {
                    assert(before[at as int].value() < before[j - 1].value());
                }
            } else {
                assert(after[i] == before[i - 1] && after[j] == before[j - 1]);
            }
        }
    }
}

/// Lists the broadcast addresses of the given interfaces in rising order,
/// each one once.
pub fn get_broadcast_addresses(interfaces: &Vec<NetworkInterface>) -> (r: Vec<Ipv4>)
    ensures
        strictly_rising(r@),
        forall|t: Ipv4|
            r@.contains(t) <==> exists|i: int|
                0 <= i < interfaces@.len() && (#[trigger] interfaces@[i]).broadcast_address == t,
{
    let mut r: Vec<Ipv4> = Vec::new();
    let mut i: usize = 0;
    while i < interfaces.len()
        invariant
            i <= interfaces.len(),
            strictly_rising(r@),
            forall|t: Ipv4|
                r@.contains(t) <==> exists|k: int|
                    0 <= k < i && (#[trigger] interfaces@[k]).broadcast_address == t,
        decreases interfaces.len() - i,
    {
        let ghost before = r@;
        insert_address(&mut r, interfaces[i].broadcast_address);
        proof {
            assert forall|t: Ipv4| r@.contains(t) <==> exists|k: int|
                0 <= k < i + 1 && (#[trigger] interfaces@[k]).broadcast_address == t by {
                if before.contains(t) {
                    let k = choose|k: int| 0 <= k < i && (#[trigger] interfaces@[k]).broadcast_address == t;
                    assert(0 <= k < i + 1 && interfaces@[k].broadcast_address == t);
                }
                if t == interfaces@[i as int].broadcast_address {
                    assert(0 <= i < i + 1 && interfaces@[i as int].broadcast_address == t);
                }
                if exists|k: int| 0 <= k < i + 1 && (#[trigger] interfaces@[k]).broadcast_address == t {
                    let k = choose|k: int|
                        0 <= k < i + 1 && (#[trigger] interfaces@[k]).broadcast_address == t;
                    if k < i {
                        assert(before.contains(t));
                    }
                }
            }
        }
        i += 1;
    }
    r
}

/// Lists the addresses that a discovery probe is sent to, given the
/// system's list of interfaces: the broadcast address of every interface
/// that qualifies, in rising order, each one once, and never a loopback
/// address. The list is empty if no interface qualifies.
pub fn list_broadcast_targets(found: &Vec<FoundInterface>) -> (r: Vec<Ipv4>)
    ensures
        strictly_rising(r@),
        r@.no_duplicates(),
        forall|t: Ipv4| r@.contains(t) <==> is_target(found@, t),
        forall|i: int| 0 <= i < r@.len() ==> !(#[trigger] r@[i]).is_loopback_address(),
        (forall|i: int| 0 <= i < found@.len() ==> !qualifies(#[trigger] found@[i])) ==> r@.len() == 0,
{
    let interfaces = get_network_interfaces(found);
    let r = get_broadcast_addresses(&interfaces);
    proof {
        lemma_selected_qualify(found@);
        let chosen = selected(found@);
        assert forall|t: Ipv4| r@.contains(t) <==> is_target(found@, t) by {
            if r@.contains(t) {
                let k = choose|k: int|
                    0 <= k < interfaces@.len() && (#[trigger] interfaces@[k]).broadcast_address == t;
                assert(interface_views(interfaces@)[k] == chosen[k]);
                assert(describes_entry(found@, chosen[k]));
                let i = choose|i: int|
                    0 <= i < found@.len() && qualifies(#[trigger] found@[i]) && chosen[k]
                        == described(found@[i]);
                assert(is_target(found@, t));
            }
            if is_target(found@, t) {
                let i = choose|i: int|
                    0 <= i < found@.len() && qualifies(#[trigger] found@[i]) && t == broadcast_of(
                        found@[i].addr->V4_0,
                    );
                lemma_qualifying_selected(found@, i);
                let k = choose|k: int| 0 <= k < chosen.len() && chosen[k] == described(found@[i]);
                assert(interface_views(interfaces@)[k] == chosen[k]);
                assert(interfaces@[k].broadcast_address == t);
            }
        }
        assert forall|i: int| 0 <= i < r@.len() implies !(#[trigger] r@[i]).is_loopback_address() by {
            assert(r@.contains(r@[i]));
            assert(is_target(found@, r@[i]));
        }
        if r@.len() > 0 {
            assert(r@.contains(r@[0]));
        }
        assert forall|i: int, j: int| 0 <= i < r@.len() && 0 <= j < r@.len() && i != j implies r@[i]
            != r@[j] by {
            if i < j {
                assert(r@[i].value() < r@[j].value());
            } else {
                assert(r@[j].value() < r@[i].value());
            }
        }
    }
    r
}

} // verus!
