//! iso: the decisions behind running isolated microVMs on a Linux host, and
//! across a fleet of them.
//!
//! Everything here computes: it parses, allocates, plans and decides. What
//! touches the world (the VMM, the network, the disk, SQLite, HTTP) is done by
//! the program around this library, which performs the actions that these
//! functions ask for and hands back what came of them.

pub mod cli;
pub mod client;
pub mod codec;
pub mod common;
pub mod control_plane;
pub mod controld;
pub mod dns;
pub mod firecracker;
pub mod fleet;
pub mod guest_agent;
pub mod guest_proto;
pub mod oci;
pub mod paths;
pub mod pki;
pub mod text;
