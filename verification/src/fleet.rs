//! One API over many hosts: which host takes a VM, what the record says of it,
//! and how that record is kept honest.

pub mod api;
pub mod config;
pub mod create;
pub mod hosts;
pub mod placement;
pub mod signing;
pub mod store;
pub mod sync;
