//! The error shared by the component contracts.

use crate::common::ids::SLOT_MAX;
use crate::common::network::Protocol;
use crate::text::{concat2, decimal, push_decimal};
use vstd::prelude::*;
use vstd::string::*;

verus! {

/// Errors that can surface across a component boundary.
#[derive(Debug)]
pub enum Error {
    /// A slot outside the valid range was supplied.
    SlotOutOfRange(u16),
    /// The resource for this key was expected to be absent but already exists.
    AlreadyProvisioned,
    /// The resource for this key was expected to exist but does not.
    NotProvisioned,
    /// A network policy listed the same `(host_port, proto)` more than once.
    DuplicatePortForward { host_port: u16, proto: Protocol },
    /// Backend-specific failure with a human-readable description.
    Backend(String),
}

impl Error {
    /// The message of this error.
    pub open spec fn said(self) -> Seq<char> {
        match self {
            Error::SlotOutOfRange(v) => "slot "@ + decimal(v as nat) + " is out of range (max "@
                + decimal(SLOT_MAX as nat) + ")"@,
            Error::AlreadyProvisioned => "resource already provisioned"@,
            Error::NotProvisioned => "resource not provisioned"@,
            Error::DuplicatePortForward { host_port, proto } => "duplicate port forward for "@
                + proto.name() + "/"@ + decimal(host_port as nat),
            Error::Backend(msg) => "backend error: "@ + msg@,
        }
    }

    /// Renders the message of this error.
    pub fn to_string(&self) -> (s: String)
        ensures
            s@ == self.said(),
    {
        match self {
            Error::SlotOutOfRange(v) => {
                let mut s = "slot ".to_string();
                push_decimal(&mut s, *v as u64);
                s.append(" is out of range (max ");
                push_decimal(&mut s, SLOT_MAX as u64);
                s.append(")");
                s
            },
            Error::AlreadyProvisioned => "resource already provisioned".to_string(),
            Error::NotProvisioned => "resource not provisioned".to_string(),
            Error::DuplicatePortForward { host_port, proto } => {
                let mut s = "duplicate port forward for ".to_string();
                s.append(proto.to_string().as_str());
                s.append("/");
                push_decimal(&mut s, *host_port as u64);
                s
            },
            Error::Backend(msg) => concat2("backend error: ", msg.as_str()),
        }
    }
}

} // verus!
