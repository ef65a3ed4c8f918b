//! What a service presents to the others, and from where it reads that.

use crate::cli::admin::{issued, IssuedFiles};
use crate::paths::{joined, join};
use crate::pki::pem::{pem_body, pem_to_der, PkiError};
use crate::codec::{b64_refusal, base64_text, is_base64};
use crate::text::{concat2, given, if_given};
use vstd::prelude::*;
use vstd::string::*;

verus! {

/// A PEM certificate and private key pair.
#[derive(Clone, Debug)]
pub struct Identity {
    pub cert_pem: String,
    pub key_pem: String,
}

/// Whether `r` is what decoding `pem` comes to.
pub open spec fn decodes(pem: Seq<char>, r: Result<Vec<u8>, PkiError>) -> bool {
    match r {
        Ok(v) => pem_body(pem) == base64_text(v@) && v@.len() > 0,
        Err(PkiError::Pem(m)) => if pem_body(pem).len() == 0 {
            m@ == "no PEM block found"@
        } else {
            !is_base64(pem_body(pem)) && m@ == b64_refusal(pem_body(pem))
        },
        Err(_) => false,
    }
}

impl Identity {
    /// The certificate in DER.
    pub fn cert_der(&self) -> (r: Result<Vec<u8>, PkiError>)
        ensures
            decodes(self.cert_pem@, r),
    {
        pem_to_der(self.cert_pem.as_str())
    }

    /// The key in DER (PKCS#8).
    pub fn key_der(&self) -> (r: Result<Vec<u8>, PkiError>)
        ensures
            decodes(self.key_pem@, r),
    {
        pem_to_der(self.key_pem.as_str())
    }
}

/// The CA to trust plus the identity to present: what a service loads from disk
/// to talk mutual TLS with the others.
#[derive(Clone, Debug)]
pub struct Creds {
    pub ca_pem: String,
    pub identity: Identity,
}

/// The three files that hold a service's credentials.
#[derive(Debug)]
pub struct CredsFiles {
    pub ca: String,
    pub cert: String,
    pub key: String,
}

/// Whether `r` is what three variables come to: all of them, none, or an error.
pub open spec fn set_to(
    ca: Option<Seq<char>>,
    cert: Option<Seq<char>>,
    key: Option<Seq<char>>,
    r: Result<Option<CredsFiles>, PkiError>,
) -> bool {
    match r {
        Ok(None) => ca is None && cert is None && key is None,
        Ok(Some(f)) => {
            &&& ca == Some(f.ca@)
            &&& cert == Some(f.cert@)
            &&& key == Some(f.key@)
        },
        Err(PkiError::Pem(m)) => {
            &&& ca is Some || cert is Some || key is Some
            &&& ca is None || cert is None || key is None
            &&& m@ == "set all of ISO_TLS_CA, ISO_TLS_CERT and ISO_TLS_KEY, or none"@
        },
        Err(_) => false,
    }
}

impl CredsFiles {
    /// Whether these are the files of an identity in `dir`.
    pub open spec fn stand_in(self, dir: Seq<char>, name: Seq<char>) -> bool {
        &&& self.ca@ == joined(dir, "ca.crt"@)
        &&& self.cert@ == joined(dir, name + ".crt"@)
        &&& self.key@ == joined(dir, name + ".key"@)
    }

    /// `ca.crt`, `<name>.crt` and `<name>.key` in a directory.
    pub fn from_dir(dir: &str, name: &str) -> (r: CredsFiles)
        ensures
            r.stand_in(dir@, name@),
    {
        CredsFiles {
            ca: join(dir, "ca.crt"),
            cert: join(dir, concat2(name, ".crt").as_str()),
            key: join(dir, concat2(name, ".key").as_str()),
        }
    }

    /// The files that the three variables name, where all are set. An empty
    /// variable counts as not set.
    pub fn from_env(
        ca: Option<String>,
        cert: Option<String>,
        key: Option<String>,
    ) -> (r: Result<Option<CredsFiles>, PkiError>)
        ensures
            set_to(given(ca), given(cert), given(key), r),
    {
        match (if_given(ca), if_given(cert), if_given(key)) {
            (None, None, None) => Ok(None),
            (Some(ca), Some(cert), Some(key)) => Ok(Some(CredsFiles { ca, cert, key })),
            _ => Err(
                PkiError::Pem(
                    "set all of ISO_TLS_CA, ISO_TLS_CERT and ISO_TLS_KEY, or none".to_string(),
                ),
            ),
        }
    }
}

/// **Law.** The three variables are set together or not at all: with some of them
/// missing nothing is loaded, and each gives its own file.
pub proof fn law_credentials_are_set_together(
    ca: Option<Seq<char>>,
    cert: Option<Seq<char>>,
    key: Option<Seq<char>>,
    r: Result<Option<CredsFiles>, PkiError>,
)
    requires
        set_to(ca, cert, key, r),
    ensures
        r is Err <==> !(ca is Some && cert is Some && key is Some) && !(ca is None && cert is None
            && key is None),
        (r matches Ok(o) && o is Some) <==> ca is Some && cert is Some && key is Some,
        r matches Ok(Some(f)) ==> f.ca@ == ca->0 && f.cert@ == cert->0 && f.key@ == key->0,
{
}

/// **Law.** A service reads the identity that was issued to it: the files that it
/// looks for in a directory are those that issuing writes there.
pub proof fn law_an_issued_service_identity_is_read(
    dir: Seq<char>,
    name: Seq<char>,
    w: IssuedFiles,
    r: CredsFiles,
)
    requires
        issued(dir, name, w),
        r.stand_in(dir, name),
    ensures
        r.ca@ == w.ca@,
        r.cert@ == w.crt@,
        r.key@ == w.key@,
{
}

} // verus!
