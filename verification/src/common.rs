//! Contracts shared by every component: identifiers, network and storage
//! types, the runtime's view of an instance, and the shared error.
//!
//! Two deliberately separate keys flow across component boundaries:
//!
//! - [`ids::VmId`]: durable, global **identity**.
//! - [`ids::SlotId`]: per-host, recyclable **placement**. Every network fixture
//!   derives from it.

pub mod api;
pub mod error;
pub mod identify;
pub mod ids;
pub mod network;
pub mod runtime;
pub mod storage;
