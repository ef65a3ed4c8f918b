//! Control-plane errors.

use crate::common::error::Error as ComponentError;
use crate::common::ids::VmId;
use crate::common::network::Protocol;
use crate::text::{concat2, concat3, decimal, push_decimal};
use vstd::prelude::*;
use vstd::string::*;

verus! {

#[derive(Debug)]
pub enum Error {
    /// No free placement slots remain.
    SlotsExhausted,
    /// No free host ports remain for ingress forwards.
    PortsExhausted,
    /// No VM with this id is known.
    UnknownVm(VmId),
    /// A VM with this id is already there.
    VmExists(VmId),
    /// No template registered under this name.
    UnknownTemplate(String),
    /// The VM has no such ingress forward.
    UnknownForward { host_port: u16, proto: Protocol },
    /// An egress rule does not compile.
    InvalidRule(String),
    /// A signed policy does not describe the policy it was filed under.
    SignedMismatch(String),
    /// The backing pool is too full to provision into.
    PoolFull { data_percent: String, metadata_percent: String },
    /// The operation isn't valid in the VM's current state.
    InvalidState { vm: VmId, state: &'static str, op: &'static str },
    /// Persistence-layer failure.
    Store(String),
    /// A subsystem (network / storage / runtime) failed.
    Component(ComponentError),
}

impl Error {
    /// The message of this error.
    pub open spec fn said(self) -> Seq<char> {
        match self {
            Error::SlotsExhausted => "no free slots remain"@,
            Error::PortsExhausted => "no free forward ports remain"@,
            Error::UnknownVm(id) => "unknown vm "@ + id.text(),
            Error::VmExists(id) => "vm "@ + id.text() + " already exists"@,
            Error::UnknownTemplate(n) => "unknown template '"@ + n@ + "'"@,
            Error::UnknownForward { host_port, proto } => "unknown forward "@ + proto.name() + "/"@
                + decimal(host_port as nat),
            Error::InvalidRule(m) => "invalid rule: "@ + m@,
            Error::SignedMismatch(m) => "signed policy does not match: "@ + m@,
            Error::PoolFull { data_percent, metadata_percent } => "backing pool too full (data "@
                + data_percent@ + "%, metadata "@ + metadata_percent@ + "%)"@,
            Error::InvalidState { vm, state, op } => "cannot "@ + op@ + " vm "@ + vm.text()
                + " in state "@ + state@,
            Error::Store(m) => "store error: "@ + m@,
            Error::Component(e) => e.said(),
        }
    }

    /// Renders the message of this error.
    pub fn to_string(&self) -> (s: String)
        ensures
            s@ == self.said(),
    {
        match self {
            Error::SlotsExhausted => "no free slots remain".to_string(),
            Error::PortsExhausted => "no free forward ports remain".to_string(),
            Error::UnknownVm(id) => concat2("unknown vm ", id.to_string().as_str()),
            Error::VmExists(id) => concat3("vm ", id.to_string().as_str(), " already exists"),
            Error::UnknownTemplate(n) => concat3("unknown template '", n.as_str(), "'"),
            Error::UnknownForward { host_port, proto } => {
                let mut s = concat3("unknown forward ", proto.to_string().as_str(), "/");
                push_decimal(&mut s, *host_port as u64);
                s
            },
            Error::InvalidRule(m) => concat2("invalid rule: ", m.as_str()),
            Error::SignedMismatch(m) => concat2("signed policy does not match: ", m.as_str()),
            Error::PoolFull { data_percent, metadata_percent } => {
                let mut s = concat3(
                    "backing pool too full (data ",
                    data_percent.as_str(),
                    "%, metadata ",
                );
                s.append(metadata_percent.as_str());
                s.append("%)");
                s
            },
            Error::InvalidState { vm, state, op } => {
                let mut s = concat3("cannot ", op, " vm ");
                s.append(vm.to_string().as_str());
                s.append(" in state ");
                s.append(state);
                s
            },
            Error::Store(m) => concat2("store error: ", m.as_str()),
            Error::Component(e) => e.to_string(),
        }
    }
}

} // verus!
