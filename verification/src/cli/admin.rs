//! Issuing client certificates: which files are written, and what is said.

use crate::paths::{joined, join};
use crate::text::{concat2, concat3};
use vstd::prelude::*;
use vstd::string::*;

verus! {

/// The files of an issued identity.
#[derive(Debug)]
pub struct IssuedFiles {
    pub crt: String,
    pub key: String,
    pub ca: String,
}

/// Whether `r` is where an identity is written.
pub open spec fn issued(out: Seq<char>, name: Seq<char>, r: IssuedFiles) -> bool {
    &&& r.crt@ == joined(out, name + ".crt"@)
    &&& r.key@ == joined(out, name + ".key"@)
    &&& r.ca@ == joined(out, "ca.crt"@)
}

/// Where an identity is written: `<name>.crt`, `<name>.key` and `ca.crt`.
pub fn issued_files(out: &str, name: &str) -> (r: IssuedFiles)
    ensures
        issued(out@, name@, r),
{
    IssuedFiles {
        crt: join(out, concat2(name, ".crt").as_str()),
        key: join(out, concat2(name, ".key").as_str()),
        ca: join(out, "ca.crt"),
    }
}

/// What is said of an issued identity.
pub fn issued_note(name: &str, f: &IssuedFiles) -> (r: String)
    ensures
        r@ == "issued "@ + name@ + ": "@ + f.crt@ + " "@ + f.key@ + " (CA: "@ + f.ca@
            + ")\n  curl --cert "@ + f.crt@ + " --key "@ + f.key@ + " --cacert "@ + f.ca@
            + " https://<host>:7070/vms"@,
{
    let mut s = concat3("issued ", name, ": ");
    s.append(f.crt.as_str());
    s.append(" ");
    s.append(f.key.as_str());
    s.append(" (CA: ");
    s.append(f.ca.as_str());
    s.append(")\n  curl --cert ");
    s.append(f.crt.as_str());
    s.append(" --key ");
    s.append(f.key.as_str());
    s.append(" --cacert ");
    s.append(f.ca.as_str());
    s.append(" https://<host>:7070/vms");
    s
}

} // verus!
