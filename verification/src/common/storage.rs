//! Storage types. Storage is keyed on identity, not placement: a VM's volumes
//! are durable and can outlive any single per-host placement.

use crate::common::error::Error;
use crate::common::ids::VmId;
use vstd::prelude::*;

verus! {

/// What to provision for a VM.
#[derive(Debug)]
pub struct VolumeSpec {
    /// Name of the storage template to instantiate this VM's volume from.
    pub template: String,
}

/// A provisioned volume ready to be attached to a block device.
#[derive(Debug)]
pub struct StorageHandle {
    /// Identity this storage belongs to.
    pub vm: VmId,
    /// Host path of the block device / image to hand to the VMM.
    pub device_path: String,
    /// The template device the volume was made from, if it was made from one.
    pub backing_device: Option<String>,
}

/// Manages durable per-VM storage on a single host.
///
/// Keyed on [`VmId`] so volumes survive re-placement onto a different slot.
/// Methods are expected to be **idempotent**.
pub trait StorageManager {
    /// Provision storage for `vm` per `spec`. Re-provisioning an existing VM
    /// returns its existing handle.
    fn provision(&self, vm: VmId, spec: &VolumeSpec) -> Result<StorageHandle, Error>;

    /// Tear down all storage for `vm`. Tearing down absent storage succeeds.
    fn teardown(&self, vm: VmId) -> Result<(), Error>;
}

/// How full the backing pool is: whether each gauge is at the watermark, and
/// how it reads with one decimal. The gauges are measured in fractions of a
/// percent, so they are compared and rendered where they are read.
#[derive(Debug)]
pub struct PoolStats {
    pub data_full: bool,
    pub metadata_full: bool,
    pub data_percent: String,
    pub metadata_percent: String,
}

} // verus!
