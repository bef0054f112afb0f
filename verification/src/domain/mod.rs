//! The data of the flashing station: jobs, batches, images and devices.
pub mod batch;
pub mod flash;
pub mod iso;
pub mod usb;
