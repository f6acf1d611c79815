//! What the operating system reports. Nothing here is proved: each item is
//! a call into `sysinfo` or `get_if_addrs`, taken on trust. None of them
//! claims anything about the answer, which is the machine's and may differ
//! from one call to the next.

use crate::interfaces::{InterfaceAddressEntry, InterfaceHardwareEntry, IpAddress};
use vstd::prelude::*;

verus! {

/// `sysinfo::System::name`: the name of the operating system, where the
/// platform tells it. Nothing is claimed of the answer.
pub assume_specification[ sysinfo::System::name ]() -> (name: Option<String>)
;

/// `sysinfo::System::os_version`: the version of the operating system,
/// where the platform tells it. Nothing is claimed of the answer.
pub assume_specification[ sysinfo::System::os_version ]() -> (version: Option<String>)
;

/// `sysinfo::System::host_name`: the host name, where the platform tells
/// it. Nothing is claimed of the answer.
pub assume_specification[ sysinfo::System::host_name ]() -> (name: Option<String>)
;

/// `std::io::Error`, the error of `get_if_addrs::get_if_addrs`. It is
/// carried through and never looked into.
#[verifier::external_type_specification]
#[verifier::external_body]
pub struct ExIoError(std::io::Error);

/// `sysinfo::Networks::new_with_refreshed_list`, read out entry by entry:
/// every interface the system lists now, with the bytes of
/// `NetworkData::mac_address`. The interfaces come in the order in which
/// `sysinfo` walks its map, which is not fixed. Nothing is claimed of the
/// list.
#[verifier::external_body]
pub(crate) fn list_hardware() -> (listed: Vec<InterfaceHardwareEntry>) {
    let networks = sysinfo::Networks::new_with_refreshed_list();
    networks.iter().map(
        |(name, data)| InterfaceHardwareEntry {
            name: name.clone(),
            hardware_address: data.mac_address().0,
        },
    ).collect()
}

/// `get_if_addrs::get_if_addrs`, read out entry by entry: every address the
/// system lists now, with the interface's name and what
/// `Interface::is_loopback` says of it; or the error of the system call.
/// Nothing is claimed of either.
#[verifier::external_body]
pub(crate) fn list_addresses() -> (listed: Result<Vec<InterfaceAddressEntry>, std::io::Error>) {
    let interfaces = get_if_addrs::get_if_addrs()?;
    Ok(
        interfaces.into_iter().map(
            |interface| InterfaceAddressEntry {
                is_loopback: interface.is_loopback(),
                ip_address: match interface.addr {
                    get_if_addrs::IfAddr::V4(v4) => IpAddress::V4(v4.ip.octets()),
                    get_if_addrs::IfAddr::V6(v6) => IpAddress::V6(v6.ip.octets()),
                },
                name: interface.name,
            },
        ).collect(),
    )
}

} // verus!
