//! The state of a Proxmox VE node, from what its host reports to the sensor values on the display.

pub mod collector;
pub mod error;
pub mod fields;
pub mod guests;
pub mod laws;
pub mod network;
pub mod snapshot;
pub mod storage;
