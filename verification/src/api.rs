//! The bodies of the listing answers of the HTTP interface.
use vstd::prelude::*;
use crate::domain::iso::IsoImage;
use crate::domain::usb::UsbDevice;

verus! {

/// The images on the station.
pub struct IsoListResponse {
    pub images: Vec<IsoImage>,
}

/// The removable devices attached to the station.
pub struct UsbListResponse {
    pub devices: Vec<UsbDevice>,
}

} // verus!
