//! Identity snapshot of the host machine: operating-system metadata and the
//! hardware address of the network interface that identifies the device.
//!
//! - [`mac`]: hardware addresses and their text.
//! - [`interfaces`]: the entries of the two interface enumerations.
//! - [`selection`]: which interface is selected, and the IP address found
//!   for it.
//! - [`device`]: the identity record; [`get_device_info`] collects it from
//!   this machine.
//! - [`system`]: the calls into the operating system, which are taken on
//!   trust.

pub mod device;
pub mod interfaces;
pub mod mac;
pub mod selection;
pub mod system;

pub use device::{get_device_info, DeviceInfo};
