//! Choosing the interface that identifies the device.
//!
//! The hardware enumeration is walked in its own order. An interface whose
//! hardware address is all zero is passed over. Every other interface is a
//! candidate, and each candidate reached replaces the one before it. The
//! walk ends at the first candidate for which the address enumeration holds
//! an address that is not a loopback address; if there is none, it ends with
//! the last candidate.
//!
//! `select_interface` walks against one address enumeration.
//! `select_interface_with` asks a source for the address enumeration at
//! each candidate it reaches, so that each candidate sees the addresses of
//! its own moment.

use crate::interfaces::{
    AddressRecord,
    HardwareRecord,
    InterfaceAddressEntry,
    InterfaceHardwareEntry,
    IpAddress,
};
use crate::mac::{all_zero, is_all_zero};
use vstd::prelude::*;

verus! {

/// The interface a walk ended with.
#[derive(Clone, Copy, Debug, PartialEq, Eq)]
pub struct Selection {
    /// Its position in the hardware enumeration.
    pub index: usize,
    /// Its hardware address.
    pub hardware_address: [u8; 6],
    /// The IP address found for it, if any.
    pub ip_address: Option<IpAddress>,
}

/// Entry `j` of the address enumeration belongs to the interface `name` and
/// is not a loopback address.
pub open spec fn is_match(addresses: Seq<AddressRecord>, name: Seq<char>, j: int) -> bool {
    0 <= j < addresses.len() && addresses[j].name == name && !addresses[j].is_loopback
}

/// Entry `j` is a match that holds an IPv4 address.
pub open spec fn is_v4_match(addresses: Seq<AddressRecord>, name: Seq<char>, j: int) -> bool {
    is_match(addresses, name, j) && addresses[j].ip is V4
}

/// Entry `j` is a match, and no entry before it is.
pub open spec fn is_first_match(addresses: Seq<AddressRecord>, name: Seq<char>, j: int) -> bool {
    is_match(addresses, name, j) && forall|k: int|
        0 <= k < j ==> !is_match(addresses, name, k)
}

/// Entry `j` is an IPv4 match, and no entry before it is.
pub open spec fn is_first_v4_match(
    addresses: Seq<AddressRecord>,
    name: Seq<char>,
    j: int,
) -> bool {
    is_v4_match(addresses, name, j) && forall|k: int|
        0 <= k < j ==> !is_v4_match(addresses, name, k)
}

/// The IP address that goes with the interface `name`: that of its first
/// IPv4 match; without an IPv4 match, that of its first match; without any
/// match, none.
pub open spec fn correlated_ip(addresses: Seq<AddressRecord>, name: Seq<char>) -> Option<
    IpAddress,
> {
    if exists|j: int| is_v4_match(addresses, name, j) {
        Some(addresses[choose|j: int| is_first_v4_match(addresses, name, j)].ip)
    } else if exists|j: int| is_match(addresses, name, j) {
        Some(addresses[choose|j: int| is_first_match(addresses, name, j)].ip)
    } else {
        None
    }
}

/// Interface `i` of the hardware enumeration has a hardware address.
pub open spec fn is_candidate(hardware: Seq<HardwareRecord>, i: int) -> bool {
    0 <= i < hardware.len() && !all_zero(hardware[i].address)
}

/// Interface `i` is a candidate with an IP address: a walk that reaches it
/// ends there.
pub open spec fn is_stop(
    hardware: Seq<HardwareRecord>,
    addresses: Seq<AddressRecord>,
    i: int,
) -> bool {
    is_candidate(hardware, i) && correlated_ip(addresses, hardware[i].name) is Some
}

/// Interface `i` is a stop, and no interface before it is.
pub open spec fn is_first_stop(
    hardware: Seq<HardwareRecord>,
    addresses: Seq<AddressRecord>,
    i: int,
) -> bool {
    is_stop(hardware, addresses, i) && forall|k: int|
        0 <= k < i ==> !is_stop(hardware, addresses, k)
}

/// Interface `i` is a candidate, and no interface after it is.
pub open spec fn is_last_candidate(hardware: Seq<HardwareRecord>, i: int) -> bool {
    is_candidate(hardware, i) && forall|k: int| i < k ==> !is_candidate(hardware, k)
}

/// The position of the selected interface: the first stop; without a stop,
/// the last candidate; without a candidate, none.
pub open spec fn selected_index(
    hardware: Seq<HardwareRecord>,
    addresses: Seq<AddressRecord>,
) -> Option<int> {
    if exists|i: int| is_stop(hardware, addresses, i) {
        Some(choose|i: int| is_first_stop(hardware, addresses, i))
    } else if exists|i: int| is_candidate(hardware, i) {
        Some(choose|i: int| is_last_candidate(hardware, i))
    } else {
        None
    }
}

/// The selected interface with its hardware address and its IP address.
pub open spec fn selection(
    hardware: Seq<HardwareRecord>,
    addresses: Seq<AddressRecord>,
) -> Option<Selection> {
    match selected_index(hardware, addresses) {
        Some(i) => Some(
            Selection {
                index: i as usize,
                hardware_address: hardware[i].address,
                ip_address: correlated_ip(addresses, hardware[i].name),
            },
        ),
        None => None,
    }
}

/// `chosen` is where a walk over `hardware` ends if `found(k, ip)` says
/// what a candidate may be given when the walk reaches it: the IP address
/// `ip`, or none. The walk ends at a candidate that was given an IP
/// address after every candidate before it was given none; or at the last
/// candidate after every candidate was given none; or with nothing where
/// there is no candidate.
pub open spec fn is_walk_end(
    hardware: Seq<HardwareRecord>,
    found: spec_fn(int, Option<IpAddress>) -> bool,
    chosen: Option<Selection>,
) -> bool {
    match chosen {
        Some(s) => {
            &&& is_candidate(hardware, s.index as int)
            &&& s.hardware_address == hardware[s.index as int].address
            &&& found(s.index as int, s.ip_address)
            &&& s.ip_address is None ==> is_last_candidate(hardware, s.index as int)
            &&& forall|k: int|
                #![trigger is_candidate(hardware, k)]
                is_candidate(hardware, k) && k < s.index ==> found(k, None)
        },
        None => forall|i: int| !is_candidate(hardware, i),
    }
}

/// Looks up the IP address of the interface `name` in the address
/// enumeration. An IPv4 address ends the search; an IPv6 address is kept
/// while the search goes on for an IPv4 one.
pub fn correlate(addresses: &Vec<InterfaceAddressEntry>, name: &String) -> (found: Option<
    IpAddress,
>)
    ensures
        found == correlated_ip(addresses.deep_view(), name@),
{
    let ghost listed = addresses.deep_view();
    let mut found: Option<IpAddress> = None;
    let mut j: usize = 0;
    while j < addresses.len()
        invariant
            j <= addresses.len(),
            listed == addresses.deep_view(),
            forall|k: int| 0 <= k < j ==> !is_v4_match(listed, name@, k),
            match found {
                Some(ip) => exists|m: int|
                    m < j && is_first_match(listed, name@, m) && ip == listed[m].ip,
                None => forall|k: int| 0 <= k < j ==> !is_match(listed, name@, k),
            },
        decreases addresses.len() - j,
    {
        let entry = &addresses[j];
        assert(listed[j as int] == entry@);
        if entry.name == *name && !entry.is_loopback {
            assert(is_match(listed, name@, j as int));
            match entry.ip_address {
                IpAddress::V4(_) => {
                    assert(is_first_v4_match(listed, name@, j as int));
                    return Some(entry.ip_address);
                },
                IpAddress::V6(_) => {
                    if found.is_none() {
                        assert(is_first_match(listed, name@, j as int));
                        found = Some(entry.ip_address);
                    }
                },
            }
        }
        j += 1;
    }
    found
}

/// Walks the hardware enumeration against one address enumeration and
/// returns the interface the walk ends with.
pub fn select_interface(
    hardware: &Vec<InterfaceHardwareEntry>,
    addresses: &Vec<InterfaceAddressEntry>,
) -> (chosen: Option<Selection>)
    ensures
        chosen == selection(hardware.deep_view(), addresses.deep_view()),
{
    let ghost a = hardware.deep_view();
    let ghost b = addresses.deep_view();
    let mut chosen: Option<Selection> = None;
    let mut i: usize = 0;
    while i < hardware.len()
        invariant
            i <= hardware.len(),
            a == hardware.deep_view(),
            b == addresses.deep_view(),
            forall|k: int| 0 <= k < i ==> !is_stop(a, b, k),
            match chosen {
                Some(s) => {
                    &&& s.index < i
                    &&& is_candidate(a, s.index as int)
                    &&& forall|k: int| s.index < k < i ==> !is_candidate(a, k)
                    &&& s.hardware_address == a[s.index as int].address
                    &&& s.ip_address is None
                },
                None => forall|k: int| 0 <= k < i ==> !is_candidate(a, k),
            },
        decreases hardware.len() - i,
    {
        let entry = &hardware[i];
        assert(a[i as int] == entry@);
        if !is_all_zero(&entry.hardware_address) {
            let ip_address = correlate(addresses, &entry.name);
            let reached = Selection {
                index: i,
                hardware_address: entry.hardware_address,
                ip_address,
            };
            if ip_address.is_some() {
                assert(is_first_stop(a, b, i as int));
                return Some(reached);
            }
            chosen = Some(reached);
        }
        i += 1;
    }
    proof {
        if let Some(s) = chosen {
            assert(is_last_candidate(a, s.index as int));
            assert(!is_stop(a, b, s.index as int));
        }
    }
    chosen
}

/// One of the answers that `list` can give holds `ip` for the interface
/// `name`, or holds nothing for it where `ip` is none.
pub open spec fn can_answer<F: Fn() -> Vec<InterfaceAddressEntry>>(
    list: F,
    name: Seq<char>,
    ip: Option<IpAddress>,
) -> bool {
    exists|answer: Vec<InterfaceAddressEntry>|
        call_ensures(list, (), answer) && correlated_ip(answer.deep_view(), name) == ip
}

/// Walks the hardware enumeration and asks `list` for the address
/// enumeration anew at each candidate, and only then: once for each
/// candidate that the walk reaches. The result is stated for whatever
/// `list` answers: what a candidate is given is what `correlated_ip` finds
/// for it in one of the answers.
pub fn select_interface_with<F>(hardware: &Vec<InterfaceHardwareEntry>, list: F) -> (chosen:
    Option<Selection>) where F: Fn() -> Vec<InterfaceAddressEntry>
    requires
        call_requires(list, ()),
    ensures
        is_walk_end(
            hardware.deep_view(),
            |k: int, ip: Option<IpAddress>| can_answer(list, hardware.deep_view()[k].name, ip),
            chosen,
        ),
{
    let ghost a = hardware.deep_view();
    let mut chosen: Option<Selection> = None;
    let mut i: usize = 0;
    while i < hardware.len()
        invariant
            i <= hardware.len(),
            a == hardware.deep_view(),
            call_requires(list, ()),
            forall|k: int|
                #![trigger is_candidate(a, k)]
                is_candidate(a, k) && k < i ==> can_answer(list, a[k].name, None),
            match chosen {
                Some(s) => {
                    &&& s.index < i
                    &&& is_candidate(a, s.index as int)
                    &&& forall|k: int| s.index < k < i ==> !is_candidate(a, k)
                    &&& s.hardware_address == a[s.index as int].address
                    &&& s.ip_address is None
                },
                None => forall|k: int| 0 <= k < i ==> !is_candidate(a, k),
            },
        decreases hardware.len() - i,
    {
        let entry = &hardware[i];
        assert(a[i as int] == entry@);
        if !is_all_zero(&entry.hardware_address) {
            let answer = list();
            let ip_address = correlate(&answer, &entry.name);
            assert(can_answer(list, a[i as int].name, ip_address));
            let reached = Selection {
                index: i,
                hardware_address: entry.hardware_address,
                ip_address,
            };
            if ip_address.is_some() {
                return Some(reached);
            }
            chosen = Some(reached);
        }
        i += 1;
    }
    proof {
        if let Some(s) = chosen {
            assert(can_answer(list, a[s.index as int].name, None));
        }
    }
    chosen
}

/// Among the matches up to entry `j` there is a first one.
proof fn lemma_first_match(addresses: Seq<AddressRecord>, name: Seq<char>, j: int)
    requires
        is_match(addresses, name, j),
    ensures
        exists|m: int| m <= j && is_first_match(addresses, name, m),
    decreases j,
{
    if exists|k: int| 0 <= k < j && is_match(addresses, name, k) {
        let k: int = choose|k: int| 0 <= k < j && is_match(addresses, name, k);
        lemma_first_match(addresses, name, k);
    } else {
        assert(is_first_match(addresses, name, j));
    }
}

/// Among the IPv4 matches up to entry `j` there is a first one.
proof fn lemma_first_v4_match(addresses: Seq<AddressRecord>, name: Seq<char>, j: int)
    requires
        is_v4_match(addresses, name, j),
    ensures
        exists|m: int| m <= j && is_first_v4_match(addresses, name, m),
    decreases j,
{
    if exists|k: int| 0 <= k < j && is_v4_match(addresses, name, k) {
        let k: int = choose|k: int| 0 <= k < j && is_v4_match(addresses, name, k);
        lemma_first_v4_match(addresses, name, k);
    } else {
        assert(is_first_v4_match(addresses, name, j));
    }
}

/// Among the stops up to interface `i` there is a first one.
proof fn lemma_first_stop(hardware: Seq<HardwareRecord>, addresses: Seq<AddressRecord>, i: int)
    requires
        is_stop(hardware, addresses, i),
    ensures
        exists|m: int| m <= i && is_first_stop(hardware, addresses, m),
    decreases i,
{
    if exists|k: int| 0 <= k < i && is_stop(hardware, addresses, k) {
        let k: int = choose|k: int| 0 <= k < i && is_stop(hardware, addresses, k);
        lemma_first_stop(hardware, addresses, k);
    } else {
        assert(is_first_stop(hardware, addresses, i));
    }
}

/// Among the candidates from interface `i` on there is a last one.
proof fn lemma_last_candidate(hardware: Seq<HardwareRecord>, i: int)
    requires
        is_candidate(hardware, i),
    ensures
        exists|m: int| i <= m && is_last_candidate(hardware, m),
    decreases hardware.len() - i,
{
    if exists|k: int| i < k && is_candidate(hardware, k) {
        let k: int = choose|k: int| i < k && is_candidate(hardware, k);
        lemma_last_candidate(hardware, k);
    } else {
        assert(is_last_candidate(hardware, i));
    }
}

/// The IP address that goes with an interface is that of entry `j` where
/// `j` is the first IPv4 match, or the first match while no match holds an
/// IPv4 address. With any IPv4 match it is an IPv4 address. It is always
/// that of some match, and there is none exactly when nothing matches.
pub proof fn law_correlated_ip(addresses: Seq<AddressRecord>, name: Seq<char>, j: int)
    ensures
        correlated_ip(addresses, name) matches Some(ip) ==> exists|m: int|
            is_match(addresses, name, m) && addresses[m].ip == ip,
        is_first_v4_match(addresses, name, j) ==> correlated_ip(addresses, name) == Some(
            addresses[j].ip,
        ),
        is_first_match(addresses, name, j) && (forall|k: int| !is_v4_match(addresses, name, k))
            ==> correlated_ip(addresses, name) == Some(addresses[j].ip),
        correlated_ip(addresses, name) is None <==> forall|k: int| !is_match(addresses, name, k),
        is_v4_match(addresses, name, j) ==> (correlated_ip(addresses, name) matches Some(ip)
            && ip is V4),
{
    if exists|k: int| is_v4_match(addresses, name, k) {
        let k: int = choose|k: int| is_v4_match(addresses, name, k);
        lemma_first_v4_match(addresses, name, k);
        let m: int = choose|m: int| is_first_v4_match(addresses, name, m);
        assert(is_match(addresses, name, m));
    } else if exists|k: int| is_match(addresses, name, k) {
        let k: int = choose|k: int| is_match(addresses, name, k);
        lemma_first_match(addresses, name, k);
        let m: int = choose|m: int| is_first_match(addresses, name, m);
        assert(is_match(addresses, name, m));
    }
}

/// The selected interface is `i` exactly when `i` is the first stop, or the
/// last candidate where there is no stop.
pub proof fn law_selected_index(
    hardware: Seq<HardwareRecord>,
    addresses: Seq<AddressRecord>,
    i: int,
)
    ensures
        selected_index(hardware, addresses) == Some(i) <==> is_first_stop(hardware, addresses, i)
            || (is_last_candidate(hardware, i) && forall|k: int|
            !is_stop(hardware, addresses, k)),
{
    if exists|k: int| is_stop(hardware, addresses, k) {
        let k: int = choose|k: int| is_stop(hardware, addresses, k);
        lemma_first_stop(hardware, addresses, k);
    } else if exists|k: int| is_candidate(hardware, k) {
        let k: int = choose|k: int| is_candidate(hardware, k);
        lemma_last_candidate(hardware, k);
    }
}

/// A walk in which every candidate is given what one address enumeration
/// holds for it ends where `select_interface` ends on that enumeration.
pub proof fn law_steady_answers(
    hardware: Seq<HardwareRecord>,
    addresses: Seq<AddressRecord>,
    chosen: Option<Selection>,
)
    requires
        is_walk_end(
            hardware,
            |k: int, ip: Option<IpAddress>| correlated_ip(addresses, hardware[k].name) == ip,
            chosen,
        ),
    ensures
        chosen == selection(hardware, addresses),
{
    match chosen {
        Some(s) => {
            let i: int = s.index as int;
            assert forall|k: int| 0 <= k < i implies !is_stop(hardware, addresses, k) by {
                if is_candidate(hardware, k) {
                    assert(correlated_ip(addresses, hardware[k].name) == None::<IpAddress>);
                }
            }
            law_selected_index(hardware, addresses, i);
        },
        None => {},
    }
}

} // verus!
