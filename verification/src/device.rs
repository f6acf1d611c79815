//! The identity record of the host, and how it is put together.

use crate::interfaces::{
    AddressRecord,
    HardwareRecord,
    InterfaceAddressEntry,
    InterfaceHardwareEntry,
    IpAddress,
};
use crate::mac::{all_zero, format_mac, mac_text};
use crate::selection::{
    correlated_ip,
    is_candidate,
    is_last_candidate,
    is_stop,
    is_v4_match,
    is_walk_end,
    law_correlated_ip,
    law_selected_index,
    select_interface,
    select_interface_with,
    selected_index,
    selection,
    Selection,
};
use crate::system::{list_addresses, list_hardware};
use sysinfo::System;
use vstd::prelude::*;

verus! {

/// What the operating system says of itself. A field the system does not
/// report holds a fixed placeholder.
#[derive(Clone, Debug, PartialEq, Eq)]
pub struct HostMetadata {
    pub os_name: String,
    pub os_version: String,
    pub host_name: String,
}

/// Model of a `HostMetadata`.
pub struct HostMetadataView {
    pub os_name: Seq<char>,
    pub os_version: Seq<char>,
    pub host_name: Seq<char>,
}

impl View for HostMetadata {
    type V = HostMetadataView;

    open spec fn view(&self) -> HostMetadataView {
        HostMetadataView {
            os_name: self.os_name@,
            os_version: self.os_version@,
            host_name: self.host_name@,
        }
    }
}

/// The identity of the device: the host's metadata and the hardware address
/// of the selected interface as text.
#[derive(Clone, Debug, PartialEq, Eq)]
pub struct DeviceInfo {
    pub os_name: String,
    pub os_version: String,
    pub host_name: String,
    pub mac_address: Option<String>,
}

/// Model of a `DeviceInfo`.
pub struct DeviceInfoView {
    pub os_name: Seq<char>,
    pub os_version: Seq<char>,
    pub host_name: Seq<char>,
    pub mac_address: Option<Seq<char>>,
}

impl View for DeviceInfo {
    type V = DeviceInfoView;

    open spec fn view(&self) -> DeviceInfoView {
        DeviceInfoView {
            os_name: self.os_name@,
            os_version: self.os_version@,
            host_name: self.host_name@,
            mac_address: match self.mac_address {
                Some(text) => Some(text@),
                None => None,
            },
        }
    }
}

/// The text of a reported field, or the placeholder where nothing was
/// reported.
pub open spec fn or_placeholder(reported: Option<String>, placeholder: Seq<char>) -> Seq<char> {
    match reported {
        Some(text) => text@,
        None => placeholder,
    }
}

/// The identity made of a host's metadata and a selection.
pub open spec fn identity(host: HostMetadataView, chosen: Option<Selection>) -> DeviceInfoView {
    DeviceInfoView {
        os_name: host.os_name,
        os_version: host.os_version,
        host_name: host.host_name,
        mac_address: match chosen {
            Some(s) => Some(mac_text(s.hardware_address)),
            None => None,
        },
    }
}

/// The identity that the two enumerations give a host.
pub open spec fn resolved(
    host: HostMetadataView,
    hardware: Seq<HardwareRecord>,
    addresses: Seq<AddressRecord>,
) -> DeviceInfoView {
    identity(host, selection(hardware, addresses))
}

/// The text is that of a hardware address which is not all zero.
pub open spec fn is_assigned_mac_text(text: Seq<char>) -> bool {
    exists|address: [u8; 6]| !all_zero(address) && text == #[trigger] mac_text(address)
}

impl HostMetadata {
    /// Takes what the system reported and fills in `Unknown OS`,
    /// `Unknown Version` and `Unknown Device` for what it did not.
    pub fn from_reported(
        os_name: Option<String>,
        os_version: Option<String>,
        host_name: Option<String>,
    ) -> (host: HostMetadata)
        ensures
            host@ == (HostMetadataView {
                os_name: or_placeholder(os_name, "Unknown OS"@),
                os_version: or_placeholder(os_version, "Unknown Version"@),
                host_name: or_placeholder(host_name, "Unknown Device"@),
            }),
    {
        HostMetadata {
            os_name: match os_name {
                Some(text) => text,
                None => "Unknown OS".to_owned(),
            },
            os_version: match os_version {
                Some(text) => text,
                None => "Unknown Version".to_owned(),
            },
            host_name: match host_name {
                Some(text) => text,
                None => "Unknown Device".to_owned(),
            },
        }
    }
}

impl DeviceInfo {
    /// The identity of a host of which `chosen` is the selected interface.
    pub fn new(host: HostMetadata, chosen: Option<Selection>) -> (info: DeviceInfo)
        ensures
            info@ == identity(host@, chosen),
    {
        let mac_address = match chosen {
            Some(s) => Some(format_mac(&s.hardware_address)),
            None => None,
        };
        DeviceInfo {
            os_name: host.os_name,
            os_version: host.os_version,
            host_name: host.host_name,
            mac_address,
        }
    }
}

/// The identity of a host, from its metadata and one snapshot of each
/// enumeration.
pub fn resolve(
    host: HostMetadata,
    hardware: &Vec<InterfaceHardwareEntry>,
    addresses: &Vec<InterfaceAddressEntry>,
) -> (info: DeviceInfo)
    ensures
        info@ == resolved(host@, hardware.deep_view(), addresses.deep_view()),
{
    DeviceInfo::new(host, select_interface(hardware, addresses))
}

/// The addresses that the system lists now; none where it cannot tell.
fn current_addresses() -> Vec<InterfaceAddressEntry> {
    addresses_or_none(list_addresses())
}

/// Walks the hardware enumeration with the addresses that the system lists
/// at the moment each candidate is reached. What the system answers is not
/// known beforehand, so the result is stated for every answer: a candidate
/// is selected if there is one, and one that was given no IP address is the
/// last candidate.
pub fn select_interface_live(hardware: &Vec<InterfaceHardwareEntry>) -> (chosen: Option<
    Selection,
>)
    ensures
        is_walk_end(hardware.deep_view(), |k: int, ip: Option<IpAddress>| true, chosen),
{
    select_interface_with(hardware, current_addresses)
}

/// The identity of a host from its metadata and its hardware enumeration,
/// with the addresses asked of the system as `select_interface_live` asks
/// them. Whatever the system answers, the hardware address is that of a
/// candidate, and there is none only where there is no candidate.
pub fn resolve_live(host: HostMetadata, hardware: &Vec<InterfaceHardwareEntry>) -> (info:
    DeviceInfo)
    ensures
        info@.os_name == host@.os_name,
        info@.os_version == host@.os_version,
        info@.host_name == host@.host_name,
        match info@.mac_address {
            Some(text) => exists|i: int|
                #![trigger is_candidate(hardware.deep_view(), i)]
                is_candidate(hardware.deep_view(), i) && text == mac_text(
                    hardware.deep_view()[i].address,
                ),
            None => forall|i: int| !is_candidate(hardware.deep_view(), i),
        },
{
    let chosen = select_interface_live(hardware);
    proof {
        if let Some(s) = chosen {
            assert(is_candidate(hardware.deep_view(), s.index as int));
        }
    }
    DeviceInfo::new(host, chosen)
}

/// Collects the identity of this machine: asks the system for its
/// metadata and its interfaces, and resolves them as `resolve_live` does.
/// It never fails.
pub fn get_device_info() -> (result: Result<DeviceInfo, String>)
    ensures
        result matches Ok(info) && (info@.mac_address matches Some(text)
            ==> is_assigned_mac_text(text)),
{
    let host = HostMetadata::from_reported(
        System::name(),
        System::os_version(),
        System::host_name(),
    );
    let hardware = list_hardware();
    Ok(resolve_live(host, &hardware))
}

/// What a walk is to see of one answer of the system: the addresses that
/// were listed, as they came; and no address at all where listing them
/// failed, so that a failure gives no candidate an IP address and ends
/// nothing.
pub fn addresses_or_none(listed: Result<Vec<InterfaceAddressEntry>, std::io::Error>) -> (addresses:
    Vec<InterfaceAddressEntry>)
    ensures
        match listed {
            Ok(given) => addresses == given,
            Err(_) => addresses@ == Seq::<InterfaceAddressEntry>::empty(),
        },
{
    match listed {
        Ok(given) => given,
        Err(_) => Vec::new(),
    }
}

/// Where every hardware address is all zero, the identity has no hardware
/// address; and only there.
pub proof fn law_all_zero_gives_no_mac(
    host: HostMetadataView,
    hardware: Seq<HardwareRecord>,
    addresses: Seq<AddressRecord>,
)
    ensures
        resolved(host, hardware, addresses).mac_address is None <==> forall|i: int|
            0 <= i < hardware.len() ==> all_zero(#[trigger] hardware[i].address),
{
    if selected_index(hardware, addresses) is None {
        assert forall|i: int| 0 <= i < hardware.len() implies all_zero(
            #[trigger] hardware[i].address,
        ) by {
            assert(!is_candidate(hardware, i));
        }
    } else {
        let s: int = selected_index(hardware, addresses)->Some_0;
        law_selected_index(hardware, addresses, s);
        assert(is_candidate(hardware, s));
    }
}

/// Where some hardware address is not all zero, the identity's hardware
/// address is the text of one of the addresses in the enumeration that are
/// not all zero: that of the selected interface.
pub proof fn law_mac_is_of_a_candidate(
    host: HostMetadataView,
    hardware: Seq<HardwareRecord>,
    addresses: Seq<AddressRecord>,
    i: int,
)
    requires
        is_candidate(hardware, i),
    ensures
        selected_index(hardware, addresses) matches Some(s) && is_candidate(hardware, s)
            && resolved(host, hardware, addresses).mac_address == Some(
            mac_text(hardware[s].address),
        ),
{
    law_all_zero_gives_no_mac(host, hardware, addresses);
    let s: int = selected_index(hardware, addresses)->Some_0;
    law_selected_index(hardware, addresses, s);
}

/// A candidate for which the address enumeration holds an IPv4 address
/// that is not a loopback address ends the walk. No interface after it is
/// selected, whatever the address enumeration holds for those; and where no
/// interface before it is a stop, the identity's hardware address is its
/// own.
pub proof fn law_ipv4_match_ends_walk(
    host: HostMetadataView,
    hardware: Seq<HardwareRecord>,
    addresses: Seq<AddressRecord>,
    i: int,
    j: int,
)
    requires
        is_candidate(hardware, i),
        is_v4_match(addresses, hardware[i].name, j),
    ensures
        selected_index(hardware, addresses) matches Some(s) && s <= i,
        correlated_ip(addresses, hardware[i].name) matches Some(ip) && ip is V4,
        (forall|k: int| 0 <= k < i ==> !is_stop(hardware, addresses, k)) ==> {
            &&& selected_index(hardware, addresses) == Some(i)
            &&& resolved(host, hardware, addresses).mac_address == Some(
                mac_text(hardware[i].address),
            )
        },
{
    law_correlated_ip(addresses, hardware[i].name, j);
    assert(is_stop(hardware, addresses, i));
    let s: int = selected_index(hardware, addresses)->Some_0;
    law_selected_index(hardware, addresses, s);
    law_selected_index(hardware, addresses, i);
}

/// Where no candidate has an IP address, the identity's hardware address
/// is that of the last candidate, not of the first.
pub proof fn law_without_ip_last_wins(
    host: HostMetadataView,
    hardware: Seq<HardwareRecord>,
    addresses: Seq<AddressRecord>,
    last: int,
)
    requires
        is_last_candidate(hardware, last),
        forall|i: int| !is_stop(hardware, addresses, i),
    ensures
        selected_index(hardware, addresses) == Some(last),
        resolved(host, hardware, addresses).mac_address == Some(
            mac_text(hardware[last].address),
        ),
{
    law_selected_index(hardware, addresses, last);
}

} // verus!
