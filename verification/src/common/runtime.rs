//! What the control plane and the VMM say to each other about an instance.

use crate::common::ids::VmId;
use crate::common::network::MacAddr;
use vstd::prelude::*;

verus! {

/// A resume point: a VMM memory snapshot plus saved device/vCPU state.
#[derive(Debug)]
pub struct SnapshotRef {
    /// Guest memory file (mapped copy-on-write per clone).
    pub mem_file: String,
    /// Saved microVM (device + vCPU) state.
    pub vmstate: String,
}

impl Clone for SnapshotRef {
    fn clone(&self) -> (r: Self)
        ensures
            r == *self,
    {
        SnapshotRef { mem_file: self.mem_file.clone(), vmstate: self.vmstate.clone() }
    }
}

/// VMM-neutral definition of an instance.
#[derive(Debug)]
pub struct InstanceSpec {
    pub vm: VmId,
    /// Network namespace to run the VMM in.
    pub netns: String,
    /// TAP device (inside the netns) backing the guest NIC.
    pub tap: String,
    /// Guest MAC.
    pub mac: MacAddr,
    /// Host path of the writable rootfs block device.
    pub rootfs_device: String,
    pub vcpus: u32,
    pub mem_mib: u32,
    /// Guest kernel (used for a fresh boot).
    pub kernel: String,
    /// Kernel boot args (fresh boot).
    pub boot_args: String,
    /// If set, resume from this snapshot instead of a fresh boot.
    pub resume_from: Option<SnapshotRef>,
    /// On resume, the rootfs path baked into the snapshot (the template's base
    /// device), over which the runtime puts this VM's own volume. `None` for a
    /// fresh boot.
    pub rootfs_backing: Option<String>,
    /// Attach a vsock device with this guest CID. Only consulted on a fresh
    /// boot: a snapshot carries (or lacks) the device it was taken with.
    pub vsock_cid: Option<u32>,
}

/// Observed instance state from the VMM's perspective.
#[derive(Clone, Copy, Debug, PartialEq, Eq, Structural)]
pub enum VmStatus {
    /// No instance exists for this id.
    Absent,
    /// Defined / snapshot loaded, but not executing.
    Created,
    /// Executing.
    Running,
    /// Paused (and possibly snapshotted).
    Suspended,
    /// Exited.
    Stopped,
}

} // verus!
