//! Disk images available for flashing.
use vstd::prelude::*;

verus! {

/// How an image boots.
#[derive(Clone, Copy, Debug, PartialEq, Eq, Structural)]
pub enum BootMode {
    Bios,
    Uefi,
    Both,
    Unknown,
}

/// A disk image on the station's storage.
///
/// Identifiers are the 128-bit values of UUIDs, and instants are
/// microseconds since the Unix epoch (UTC).
pub struct IsoImage {
    pub id: u128,
    pub filename: String,
    pub file_path: String,
    pub file_size_bytes: u64,
    pub sha256: Option<String>,
    pub md5: Option<String>,
    pub detected_os: Option<String>,
    pub detected_version: Option<String>,
    pub boot_mode: Option<BootMode>,
    pub category: Option<String>,
    pub tags: Vec<String>,
    pub description: Option<String>,
    pub is_favorite: bool,
    pub scanned_at: Option<i64>,
    pub created_at: i64,
    pub updated_at: i64,
}

/// Whether an image of `size` bytes fits on a device of `capacity` bytes:
/// the device must be strictly larger.
pub open spec fn fits(size: u64, capacity: u64) -> bool {
    size < capacity
}

impl IsoImage {
    /// Whether the image fits on a device of `capacity_bytes`.
    pub fn fits_on(&self, capacity_bytes: u64) -> (r: bool)
        ensures
            r == fits(self.file_size_bytes, capacity_bytes),
    {
        self.file_size_bytes < capacity_bytes
    }
}

} // verus!
