//! The verified core of a USB flashing station: the job and batch state
//! machines, the pairing of images with devices, and the parsers for what
//! the kernel, `dd` and the environment report.
use vstd::prelude::*;

pub mod api;
pub mod config;
pub mod domain;
pub mod infra;
pub mod service;
pub mod text;

verus! {

} // verus!
