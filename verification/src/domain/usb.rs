//! Removable devices that images are written to.
use vstd::prelude::*;

verus! {

/// The health of a device's medium.
#[derive(Clone, Copy, Debug, PartialEq, Eq, Structural)]
pub enum DiskHealth {
    Good,
    Warning,
    Critical,
    Unknown,
}

/// A removable block device.
///
/// Identifiers are the 128-bit values of UUIDs, and instants are
/// microseconds since the Unix epoch (UTC).
pub struct UsbDevice {
    pub id: u128,
    pub device_path: String,
    pub vendor: Option<String>,
    pub model: Option<String>,
    pub serial: Option<String>,
    pub capacity_bytes: u64,
    pub filesystem: Option<String>,
    pub mount_point: Option<String>,
    pub is_mounted: bool,
    pub is_readonly: bool,
    pub is_system_disk: bool,
    pub health: DiskHealth,
    pub inserted_at: i64,
    pub updated_at: i64,
}

/// A change in the set of attached devices.
pub enum UsbEvent {
    Inserted(UsbDevice),
    Removed(u128),
    Changed(UsbDevice),
    Error(String),
}

/// What the kernel reports about one block device.
pub struct UsbDeviceInfo {
    pub device_path: String,
    pub vendor: Option<String>,
    pub model: Option<String>,
    pub serial: Option<String>,
    pub size_sectors: u64,
    pub sector_size: u64,
    pub is_removable: bool,
    pub is_readonly: bool,
}

} // verus!
