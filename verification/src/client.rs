//! How a client of the admin API authenticates: the CA to trust, the identity to
//! present, and the address to call.

use crate::cli::admin::{issued, IssuedFiles};
use crate::paths::{joined, join};
use crate::text::{concat2, concat3, trim_end_char, without_trailing};
use vstd::prelude::*;
use vstd::string::*;

verus! {

/// The CA to trust and the identity to present, as PEM.
#[derive(Clone, Debug)]
pub struct Credentials {
    pub ca_pem: String,
    pub cert_pem: String,
    pub key_pem: String,
}

/// A configuration problem, as opposed to an API error.
#[derive(Debug)]
pub enum SetupError {
    /// A file and why it could not be read.
    Io(String, String),
    /// A variable that is not set.
    Env(String),
    Tls(String),
}

impl SetupError {
    /// The message of this error.
    pub open spec fn said(self) -> Seq<char> {
        match self {
            SetupError::Io(p, e) => p@ + ": "@ + e@,
            SetupError::Env(v) => v@ + " is not set"@,
            SetupError::Tls(m) => "tls: "@ + m@,
        }
    }

    /// The message of this error.
    pub fn to_string(&self) -> (r: String)
        ensures
            r@ == self.said(),
    {
        match self {
            SetupError::Io(p, e) => concat3(p.as_str(), ": ", e.as_str()),
            SetupError::Env(v) => concat2(v.as_str(), " is not set"),
            SetupError::Tls(m) => concat2("tls: ", m.as_str()),
        }
    }
}

/// A file, and its content or why that could not be read.
#[derive(Debug)]
pub struct FileRead {
    pub path: String,
    pub content: Result<String, String>,
}

/// Whether `e` says that a file could not be read.
pub open spec fn unreadable(f: FileRead, e: SetupError) -> bool {
    f.content is Err && (e matches SetupError::Io(p, m) && p == f.path && m == f.content->Err_0)
}

/// Whether `r` is what three files come to: their contents, or the first that
/// could not be read.
pub open spec fn loaded(
    ca: FileRead,
    cert: FileRead,
    key: FileRead,
    r: Result<Credentials, SetupError>,
) -> bool {
    match r {
        Ok(c) => {
            &&& ca.content == Ok::<String, String>(c.ca_pem)
            &&& cert.content == Ok::<String, String>(c.cert_pem)
            &&& key.content == Ok::<String, String>(c.key_pem)
        },
        Err(e) => {
            ||| unreadable(ca, e)
            ||| ca.content is Ok && unreadable(cert, e)
            ||| ca.content is Ok && cert.content is Ok && unreadable(key, e)
        },
    }
}

/// Whether `r` is what three variables come to: the paths that they give, or the
/// first of them that is not set.
pub open spec fn set_in(
    ca: Option<String>,
    cert: Option<String>,
    key: Option<String>,
    r: Result<(String, String, String), SetupError>,
) -> bool {
    match r {
        Ok(p) => ca == Some(p.0) && cert == Some(p.1) && key == Some(p.2),
        Err(SetupError::Env(v)) => {
            ||| ca is None && v@ == "ISO_CA"@
            ||| ca is Some && cert is None && v@ == "ISO_CLIENT_CERT"@
            ||| ca is Some && cert is Some && key is None && v@ == "ISO_CLIENT_KEY"@
        },
        Err(_) => false,
    }
}

/// Whether the three paths, of the CA, the certificate and the key, are those of
/// an identity in `dir`.
pub open spec fn stands_in(dir: Seq<char>, name: Seq<char>, r: (String, String, String)) -> bool {
    &&& r.0@ == joined(dir, "ca.crt"@)
    &&& r.1@ == joined(dir, name + ".crt"@)
    &&& r.2@ == joined(dir, name + ".key"@)
}

impl Credentials {
    /// The paths of `ca.crt`, `<name>.crt` and `<name>.key` in `dir`, as
    /// `isoctl admin issue-client --out dir` writes them.
    pub fn from_dir(dir: &str, name: &str) -> (r: (String, String, String))
        ensures
            stands_in(dir@, name@, r),
    {
        (
            join(dir, "ca.crt"),
            join(dir, concat2(name, ".crt").as_str()),
            join(dir, concat2(name, ".key").as_str()),
        )
    }

    /// Three files, read in this order.
    pub fn from_files(ca: FileRead, cert: FileRead, key: FileRead) -> (r: Result<Self, SetupError>)
        ensures
            loaded(ca, cert, key, r),
    {
        let ca_pem = match ca.content {
            Ok(s) => s,
            Err(e) => return Err(SetupError::Io(ca.path, e)),
        };
        let cert_pem = match cert.content {
            Ok(s) => s,
            Err(e) => return Err(SetupError::Io(cert.path, e)),
        };
        let key_pem = match key.content {
            Ok(s) => s,
            Err(e) => return Err(SetupError::Io(key.path, e)),
        };
        Ok(Credentials { ca_pem, cert_pem, key_pem })
    }

    /// The paths that `ISO_CA`, `ISO_CLIENT_CERT` and `ISO_CLIENT_KEY` give, or
    /// the first of them that is not set.
    pub fn from_env(ca: Option<String>, cert: Option<String>, key: Option<String>) -> (r: Result<
        (String, String, String),
        SetupError,
    >)
        ensures
            set_in(ca, cert, key, r),
    {
        match (ca, cert, key) {
            (None, _, _) => Err(SetupError::Env("ISO_CA".to_string())),
            (_, None, _) => Err(SetupError::Env("ISO_CLIENT_CERT".to_string())),
            (_, _, None) => Err(SetupError::Env("ISO_CLIENT_KEY".to_string())),
            (Some(a), Some(b), Some(c)) => Ok((a, b, c)),
        }
    }

    /// The certificate and key in one text.
    pub fn identity_pem(&self) -> (r: String)
        ensures
            r@ == self.cert_pem@ + self.key_pem@,
    {
        concat2(self.cert_pem.as_str(), self.key_pem.as_str())
    }
}

/// Where the admin API is.
#[derive(Clone, Debug)]
pub struct Client {
    pub base: String,
}

impl Client {
    /// A client for `base_url`, slashes at its end left out.
    pub fn insecure(base_url: &str) -> (r: Self)
        ensures
            r.base@ == without_trailing(base_url@, '/'),
    {
        Client { base: trim_end_char(base_url, '/') }
    }

    /// The address of a path of the API.
    pub fn url(&self, path: &str) -> (r: String)
        ensures
            r@ == self.base@ + path@,
    {
        concat2(self.base.as_str(), path)
    }
}

/// **Law.** An identity that was issued to a directory is found in it: the files
/// that are read are those that were written, each as what it is.
pub proof fn law_an_issued_identity_is_found(
    dir: Seq<char>,
    name: Seq<char>,
    f: IssuedFiles,
    r: (String, String, String),
)
    requires
        issued(dir, name, f),
        stands_in(dir, name, r),
    ensures
        r.0@ == f.ca@,
        r.1@ == f.crt@,
        r.2@ == f.key@,
{
}

/// **Law.** Credentials are there only where all three files could be read, each
/// as what it is; otherwise the first that could not be is named.
pub proof fn law_credentials_are_all_three_files(
    ca: FileRead,
    cert: FileRead,
    key: FileRead,
    r: Result<Credentials, SetupError>,
)
    requires
        loaded(ca, cert, key, r),
    ensures
        r is Ok <==> ca.content is Ok && cert.content is Ok && key.content is Ok,
        r matches Ok(c) ==> c.ca_pem == ca.content->Ok_0 && c.cert_pem == cert.content->Ok_0
            && c.key_pem == key.content->Ok_0,
        r is Err ==> (r->Err_0 matches SetupError::Io(p, _) && p == (if ca.content is Err {
            ca.path
        } else if cert.content is Err {
            cert.path
        } else {
            key.path
        })),
{
}

/// **Law.** All three variables are needed, and each gives its own path.
pub proof fn law_all_three_variables_are_needed(
    ca: Option<String>,
    cert: Option<String>,
    key: Option<String>,
    r: Result<(String, String, String), SetupError>,
)
    requires
        set_in(ca, cert, key, r),
    ensures
        r is Ok <==> ca is Some && cert is Some && key is Some,
        r matches Ok(p) ==> p.0 == ca->0 && p.1 == cert->0 && p.2 == key->0,
        r matches Err(e) ==> e is Env,
{
}

} // verus!
