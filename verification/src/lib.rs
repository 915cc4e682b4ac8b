//! Metadata consistency and device partitioning for a mirrored block device.
//!
//! A nexus presents one logical volume backed by several child devices. Every
//! child reserves a small region that holds a snapshot of the nexus state.
//! This crate computes where that region lies on a device, frames and checks
//! the bytes stored in it, and reconciles the copies found on the children
//! when the nexus is reopened.
//!
//! * [`partition`]: the layout of a device in blocks.
//! * [`checksum`]: the integrity value of a payload.
//! * [`metadata`]: the record of nexus and child state, and its payload.
//! * [`envelope`]: the header, the envelope and its checks.
//! * [`store`]: what to read and write on a child device.
//! * [`nexus`]: the nexus in memory, and how it settles on the copies.
//! * [`array`]: arrays of devices that use the data partition.
//! * [`fio`]: jobs for `fio`, to put a volume under load.
//!
//! The crate makes no transfer itself: it says what to transfer and takes the
//! bytes that came back.

pub mod array;
pub mod checksum;
pub mod envelope;
pub mod fio;
pub mod metadata;
pub mod nexus;
pub mod partition;
pub mod store;
