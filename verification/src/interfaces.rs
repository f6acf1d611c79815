//! The two interface enumerations and their mathematical models.
//!
//! The hardware enumeration lists each interface with its hardware address.
//! The address enumeration comes from another provider and lists interfaces
//! with an IP address each; the two agree on nothing but interface names.

use vstd::prelude::*;

verus! {

/// One interface of the hardware enumeration.
#[derive(Clone, Debug, PartialEq, Eq)]
pub struct InterfaceHardwareEntry {
    pub name: String,
    pub hardware_address: [u8; 6],
}

/// An IP address, by its bytes in network order.
#[derive(Clone, Copy, Debug, PartialEq, Eq)]
pub enum IpAddress {
    V4([u8; 4]),
    V6([u8; 16]),
}

/// One address of the address enumeration. An interface with several
/// addresses appears once for each.
#[derive(Clone, Debug, PartialEq, Eq)]
pub struct InterfaceAddressEntry {
    pub name: String,
    pub ip_address: IpAddress,
    pub is_loopback: bool,
}

/// Model of an `InterfaceHardwareEntry`.
pub struct HardwareRecord {
    pub name: Seq<char>,
    pub address: [u8; 6],
}

/// Model of an `InterfaceAddressEntry`.
pub struct AddressRecord {
    pub name: Seq<char>,
    pub ip: IpAddress,
    pub is_loopback: bool,
}

impl View for InterfaceHardwareEntry {
    type V = HardwareRecord;

    open spec fn view(&self) -> HardwareRecord {
        HardwareRecord { name: self.name@, address: self.hardware_address }
    }
}

impl DeepView for InterfaceHardwareEntry {
    type V = HardwareRecord;

    open spec fn deep_view(&self) -> HardwareRecord {
        self@
    }
}

impl View for InterfaceAddressEntry {
    type V = AddressRecord;

    open spec fn view(&self) -> AddressRecord {
        AddressRecord { name: self.name@, ip: self.ip_address, is_loopback: self.is_loopback }
    }
}

impl DeepView for InterfaceAddressEntry {
    type V = AddressRecord;

    open spec fn deep_view(&self) -> AddressRecord {
        self@
    }
}

} // verus!
