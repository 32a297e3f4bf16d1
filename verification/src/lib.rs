//! Stable, prefix-based names for network interfaces.
//!
//! The first time a device is seen it is given the lowest free name of the
//! form `<prefix><number>`, keyed by its hardware address.  This crate holds
//! the rules of that scheme: the textual form of a hardware address, the
//! shape of a prefix and of a link name, the set of links that are already
//! taken, and the order in which a run of the tool may touch the outside
//! world.  Reading and writing files, the host-wide lock and the device
//! database are left to the caller.

pub mod cmdline;
pub mod config;
pub mod error;
pub mod flow;
pub mod linkfile;
pub mod name;
pub mod text;
pub mod util;
