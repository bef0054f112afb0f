//! The station's services: flash jobs, batches, images and devices.
pub mod assign;
pub mod batch;
pub mod checksum;
pub mod flash;
pub mod iso;
pub mod usb;
