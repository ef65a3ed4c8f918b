//! The host daemon: its admin API, its settings, template builds, and what it
//! tells a VM and the egress proxy.

pub mod api;
pub mod builds;
pub mod dns_memory;
pub mod identify;
pub mod metadata;
pub mod settings;
