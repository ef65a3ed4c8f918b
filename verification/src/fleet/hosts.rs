//! Calls to a host's admin API: where they go and how they can fail.

use crate::fleet::config::HostConfig;
use crate::text::{concat2, concat3, trim_end_char, without_trailing};
use vstd::prelude::*;
use vstd::string::*;

verus! {

/// Why a call to a host brought no answer.
#[derive(Debug)]
pub enum CallError {
    /// The host could not be reached at all: nothing was sent, so a retry
    /// elsewhere is safe.
    Unreachable(String),
    /// Something was sent and the reply was lost or malformed: the host may have
    /// acted. Only the sync loop can say.
    Ambiguous(String),
}

/// A call that failed with this message, while connecting or later.
pub open spec fn classified(connecting: bool, message: String) -> CallError {
    if connecting {
        CallError::Unreachable(message)
    } else {
        CallError::Ambiguous(message)
    }
}

/// **Law.** A host counts as not having been asked only where nothing was sent: a
/// call that failed once it was connected may have been acted on.
pub proof fn law_only_an_unsent_call_may_be_repeated(connecting: bool, message: String)
    ensures
        classified(connecting, message) is Unreachable <==> connecting,
        classified(connecting, message) is Ambiguous <==> !connecting,
        connecting ==> classified(connecting, message)->Unreachable_0 == message,
        !connecting ==> classified(connecting, message)->Ambiguous_0 == message,
{
}

impl CallError {
    /// The message of this error.
    pub open spec fn said(self) -> Seq<char> {
        match self {
            CallError::Unreachable(m) => "unreachable: "@ + m@,
            CallError::Ambiguous(m) => "no reply: "@ + m@,
        }
    }

    /// The message of this error.
    pub fn to_string(&self) -> (r: String)
        ensures
            r@ == self.said(),
    {
        match self {
            CallError::Unreachable(m) => concat2("unreachable: ", m.as_str()),
            CallError::Ambiguous(m) => concat2("no reply: ", m.as_str()),
        }
    }

    /// A call that failed with this message, while connecting or later.
    pub fn classify(connecting: bool, message: String) -> (r: CallError)
        ensures
            r == classified(connecting, message),
    {
        if connecting {
            CallError::Unreachable(message)
        } else {
            CallError::Ambiguous(message)
        }
    }
}

/// Whether an HTTP status is a success.
pub open spec fn success(status: u16) -> bool {
    200 <= status <= 299
}

/// A status that a read of `path` came with, spelled out, accepted or not.
pub fn accept(path: &str, status: u16, spelled: &str) -> (r: Result<(), CallError>)
    ensures
        match r {
            Ok(_) => success(status),
            Err(CallError::Ambiguous(m)) => !success(status) && m@ == path@ + ": http "@ + spelled@,
            Err(_) => false,
        },
{
    if 200 <= status && status <= 299 {
        Ok(())
    } else {
        Err(CallError::Ambiguous(concat3(path, ": http ", spelled)))
    }
}

/// A host's name and address.
#[derive(Debug)]
pub struct HostAddress {
    pub name: String,
    pub base: String,
}

impl HostAddress {
    /// The address, without a slash at its end.
    pub open spec fn base_text(self) -> Seq<char> {
        self.base@
    }

    /// The address of a configured host.
    pub fn new(cfg: &HostConfig) -> (r: HostAddress)
        ensures
            r.name == cfg.name,
            r.base_text() == without_trailing(cfg.url@, '/'),
    {
        HostAddress { name: cfg.name.clone(), base: trim_end_char(cfg.url.as_str(), '/') }
    }

    pub fn base(&self) -> (r: &str)
        ensures
            r@ == self.base_text(),
    {
        self.base.as_str()
    }

    /// The address of a path with its query.
    pub fn url(&self, path_and_query: &str) -> (r: String)
        ensures
            r@ == self.base_text() + path_and_query@,
    {
        concat2(self.base.as_str(), path_and_query)
    }

    /// The address of one VM's record.
    pub fn vm_url(&self, id: &str) -> (r: String)
        ensures
            r@ == self.base_text() + "/vms/"@ + id@,
    {
        concat3(self.base.as_str(), "/vms/", id)
    }
}

} // verus!
