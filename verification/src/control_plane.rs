//! The VM lifecycle on one host: allocation, the durable record of each VM, and
//! the state machines that bring VMs up, change them and take them down.

pub mod clock;
pub mod config;
pub mod edit;
pub mod error;
pub mod laws;
pub mod lifecycle;
pub mod place;
pub mod policy;
pub mod port;
pub mod slot;
pub mod stats;
pub mod types;
