//! The admin authority: who it lets in, what it issues, and when a stored server
//! certificate has to be issued anew.

use crate::codec::{base64_text, is_base64, law_base64_is_unambiguous};
use crate::paths::{joined, join};
use crate::pki::creds::Identity;
use crate::pki::pem::{pem_body, pem_to_der, PkiError};
use crate::pki::creds::decodes;
use crate::pki::x509::{
    ascii_text, authority_for, authority_says, cert_parts, cert_refusal, cert_sans, common_name,
    common_name_of, datable, ia5, issuer, issuer_of, key_from_pem, key_refusal, key_to_pem,
    leaf_says, name_is_writable, name_parts, new_key, pem_public_key, pem_subject, read_cert,
    san_texts, self_signed_ca, sign_leaf, subject_of, writable_name, CaUsage, KeyUsage, Profile,
    Purpose,
};
use crate::text::{concat2, concat3, list_has, quote, quoted, texts_of};
use rcgen::{Certificate, KeyPair};
use vstd::prelude::*;
use vstd::string::*;

verus! {

/// How long the CA is good for. Long, on purpose: rotation is "delete the
/// directory and re-issue", and a host's admin API is not a public endpoint.
pub const CA_DAYS: i64 = 3650;

/// How long the certificates that it issues are good for.
pub const LEAF_DAYS: i64 = 730;

/// How far before the present a certificate is valid from.
pub const BACKDATE_SECS: i64 = 3600;

/// Seconds in a day.
pub const DAY: i64 = 86_400;

/// Whether a character may stand in the name of an identity.
pub open spec fn name_char(c: char) -> bool {
    ||| 'a' <= c <= 'z'
    ||| 'A' <= c <= 'Z'
    ||| '0' <= c <= '9'
    ||| c == '-' || c == '_' || c == '.' || c == '@'
}

/// Whether an identity can be issued under a name.
pub open spec fn valid_name(s: Seq<char>) -> bool {
    &&& s.len() > 0
    &&& forall|i: int| 0 <= i < s.len() ==> name_char(#[trigger] s[i])
}

fn check_name(name: &str) -> (r: Result<(), PkiError>)
    ensures
        match r {
            Ok(_) => valid_name(name@),
            Err(e) => !valid_name(name@) && bad_name(e, name@, "use letters, digits, '-', '_', '.', '@'"@),
        },
{
    let n: usize = name.unicode_len();
    let mut ok = n > 0;
    let mut i: usize = 0;
    while i < n
        invariant
            n == name@.len(),
            i <= n,
            ok == (n > 0 && forall|k: int| 0 <= k < i ==> name_char(#[trigger] name@[k])),
        decreases n - i,
    {
        let c = name.get_char(i);
        if !(('a' <= c && c <= 'z') || ('A' <= c && c <= 'Z') || ('0' <= c && c <= '9') || c == '-'
            || c == '_' || c == '.' || c == '@') {
            ok = false;
        }
        i += 1;
    }
    if ok {
        Ok(())
    } else {
        Err(
            PkiError::Name(
                name.to_string(),
                "use letters, digits, '-', '_', '.', '@'".to_string(),
            ),
        )
    }
}

/// Whether an error refuses a name for a reason.
pub open spec fn bad_name(e: PkiError, name: Seq<char>, why: Seq<char>) -> bool {
    e matches PkiError::Name(n, w) && n@ == name && w@ == why
}

// ---- names in a certificate ----

/// The common name of the first certificate of a chain.
pub open spec fn peer_name(chain: Seq<Vec<u8>>) -> Option<Seq<char>> {
    if chain.len() == 0 {
        None
    } else {
        common_name_of(chain[0]@)
    }
}

/// The common name of the first certificate a TLS peer presented: the name an
/// identity was issued under. `None` when there is no certificate or it carries
/// no common name.
pub fn peer_common_name(chain: &Vec<Vec<u8>>) -> (r: Option<String>)
    ensures
        match r {
            Some(s) => peer_name(chain@) == Some(s@),
            None => peer_name(chain@) is None,
        },
{
    if chain.len() == 0 {
        None
    } else {
        common_name(chain[0].as_slice())
    }
}

/// Whether the names that a certificate has hold every name wanted. Of a
/// certificate that cannot be read nothing is held.
pub open spec fn covered(have: Option<Seq<Seq<char>>>, wanted: Seq<Seq<char>>) -> bool {
    &&& have is Some
    &&& forall|i: int| 0 <= i < wanted.len() ==> have->0.contains(#[trigger] wanted[i])
}

/// The names found in a certificate, as sequences.
pub open spec fn names_of(have: Option<Vec<String>>) -> Option<Seq<Seq<char>>> {
    match have {
        Some(v) => Some(texts_of(v@)),
        None => None,
    }
}

/// Whether every name wanted is among those found.
pub fn covers(have: &Option<Vec<String>>, wanted: &Vec<String>) -> (r: bool)
    ensures
        r == covered(names_of(*have), texts_of(wanted@)),
{
    match have {
        None => false,
        Some(h) => {
            let mut i: usize = 0;
            while i < wanted.len()
                invariant
                    i <= wanted.len(),
                    names_of(*have) == Some(texts_of(h@)),
                    forall|k: int| 0 <= k < i ==> texts_of(h@).contains(#[trigger] texts_of(wanted@)[k]),
                decreases wanted.len() - i,
            {
                if !list_has(h, wanted[i].as_str()) {
                    proof {
                        assert(texts_of(wanted@)[i as int] == wanted@[i as int]@);
                    }
                    return false;
                }
                i += 1;
            }
            true
        },
    }
}

fn sans_of(cert_pem: &str) -> (r: Option<Vec<String>>)
    ensures
        names_of(r) == san_texts(cert_pem@),
{
    match read_cert(cert_pem) {
        Ok(p) => Some(cert_sans(&p)),
        Err(_) => None,
    }
}

/// Whether a stored certificate already names every name wanted.
pub fn sans_covered(cert_pem: &str, wanted: &Vec<String>) -> (r: bool)
    ensures
        r == covered(san_texts(cert_pem@), texts_of(wanted@)),
{
    let have = sans_of(cert_pem);
    covers(&have, wanted)
}

/// The names wanted that are not among those found, in order.
pub open spec fn left_out(have: Option<Seq<Seq<char>>>, wanted: Seq<Seq<char>>) -> Seq<Seq<char>>
    decreases wanted.len(),
{
    if wanted.len() == 0 {
        Seq::empty()
    } else {
        let before = left_out(have, wanted.drop_last());
        if covered(have, seq![wanted.last()]) {
            before
        } else {
            before.push(wanted.last())
        }
    }
}

/// The names wanted that are not among those found.
pub fn uncovered(have: &Option<Vec<String>>, wanted: &Vec<String>) -> (r: Vec<String>)
    ensures
        texts_of(r@) == left_out(names_of(*have), texts_of(wanted@)),
{
    let mut out: Vec<String> = Vec::new();
    let mut i: usize = 0;
    proof {
        assert(texts_of(wanted@).take(0) =~= Seq::empty());
        assert(texts_of(out@) =~= Seq::empty());
    }
    while i < wanted.len()
        invariant
            i <= wanted.len(),
            texts_of(out@) == left_out(names_of(*have), texts_of(wanted@).take(i as int)),
        decreases wanted.len() - i,
    {
        let mut one: Vec<String> = Vec::new();
        one.push(wanted[i].clone());
        let ghost t = texts_of(wanted@).take(i + 1);
        let ghost out0 = out@;
        proof {
            assert(t.drop_last() =~= texts_of(wanted@).take(i as int));
            assert(t.last() == wanted@[i as int]@);
            assert(texts_of(one@) =~= seq![t.last()]);
        }
        if !covers(have, &one) {
            out.push(wanted[i].clone());
            proof {
                assert(texts_of(out@) =~= texts_of(out0).push(t.last()));
            }
        }
        i += 1;
    }
    proof {
        assert(texts_of(wanted@).take(i as int) =~= texts_of(wanted@));
    }
    out
}

/// The names in `wanted` that the stored server certificate does not carry:
/// all of them where there is none. Empty after a load that could reissue; for
/// an identity issued elsewhere, what the issuer left out, which clients cannot
/// dial by.
pub fn uncovered_server_sans(server_crt: &Option<String>, wanted: &Vec<String>) -> (r: Vec<String>)
    ensures
        match server_crt {
            None => texts_of(r@) == texts_of(wanted@),
            Some(pem) => texts_of(r@) == left_out(san_texts(pem@), texts_of(wanted@)),
        },
{
    match server_crt {
        None => {
            let none: Option<Vec<String>> = None;
            let r = uncovered(&none, wanted);
            proof {
                lemma_nothing_held(texts_of(wanted@));
            }
            r
        },
        Some(pem) => {
            let have = sans_of(pem.as_str());
            uncovered(&have, wanted)
        },
    }
}

proof fn lemma_nothing_held(wanted: Seq<Seq<char>>)
    ensures
        left_out(None, wanted) == wanted,
    decreases wanted.len(),
{
    if wanted.len() > 0 {
        lemma_nothing_held(wanted.drop_last());
        assert(wanted.drop_last().push(wanted.last()) =~= wanted);
    } else {
        assert(left_out(None, wanted) =~= wanted);
    }
}

// ---- loading ----

/// What a directory holds, and so what loading from it does.
#[derive(Clone, Copy, Debug, PartialEq, Eq, Structural)]
pub enum Stored {
    /// A certificate without its key: the identity was issued elsewhere.
    Elsewhere,
    /// No certificate: an authority is to be made.
    Nothing,
    /// Both.
    Authority,
}

/// What to do with a directory, by which of `ca.crt` and `ca.key` it holds.
pub open spec fn held(ca_crt: bool, ca_key: bool) -> Stored {
    if !ca_crt {
        Stored::Nothing
    } else if !ca_key {
        Stored::Elsewhere
    } else {
        Stored::Authority
    }
}

/// What to do with a directory, by which of `ca.crt` and `ca.key` it holds.
pub fn stored(ca_crt: bool, ca_key: bool) -> (r: Stored)
    ensures
        r == held(ca_crt, ca_key),
{
    if !ca_crt {
        Stored::Nothing
    } else if !ca_key {
        Stored::Elsewhere
    } else {
        Stored::Authority
    }
}

/// Whether the server certificate has to be issued: it or its key is missing, or
/// it does not name something it should.
pub open spec fn stale(
    server_crt: Option<String>,
    server_key: bool,
    server_sans: Seq<Seq<char>>,
) -> bool {
    !(server_key && (server_crt matches Some(pem) && covered(san_texts(pem@), server_sans)))
}

/// Whether the server certificate has to be issued.
pub fn server_is_stale(
    server_crt: &Option<String>,
    server_key: bool,
    server_sans: &Vec<String>,
) -> (r: bool)
    ensures
        r == stale(*server_crt, server_key, texts_of(server_sans@)),
{
    let stale = match server_crt {
        Some(pem) => !sans_covered(pem.as_str(), server_sans),
        None => true,
    };
    stale || !server_key
}

pub open spec fn how_to_issue() -> Seq<char> {
    "issue one on the control host with `isoctl admin issue-server --name <host> --san <ip>` and install it as server.crt and server.key, or add ca.key to let this host issue its own"@
}

/// The admin CA. With the certificate but without its key, it can verify and
/// present but not issue.
pub struct AdminPki {
    pub dir: String,
    /// The issuer, when the key is here.
    pub signer: Option<(Certificate, KeyPair)>,
    pub ca_cert_pem: String,
}

/// Whether `r` is what an identity that was issued elsewhere comes to.
pub open spec fn loads_elsewhere(
    dir: Seq<char>,
    ca_cert_pem: Seq<char>,
    server_crt: Result<String, String>,
    server_key: bool,
    r: Result<AdminPki, PkiError>,
) -> bool {
    match r {
        Ok(p) => {
            &&& server_crt is Ok && server_key
            &&& p.dir@ == dir
            &&& p.ca_cert_pem@ == ca_cert_pem
            &&& p.signer is None
        },
        Err(PkiError::NoCaKey(m)) => match server_crt {
            Err(e) => m@ == joined(dir, "server.crt"@) + ": "@ + e@
                + "; this host has no ca.key, so "@ + how_to_issue(),
            Ok(_) => !server_key && m@ == joined(dir, "server.key"@) + " is missing; "@
                + how_to_issue(),
        },
        Err(_) => false,
    }
}

/// Whether `id` is a certificate for a name and alternative names.
pub open spec fn issued(id: Identity, cn: Seq<char>, sans: Seq<Seq<char>>) -> bool {
    exists|der: Seq<u8>| #[trigger] issued_as(id, cn, sans, der)
}

/// Whether an identity has a key, which can be decoded.
pub open spec fn has_key(id: Identity) -> bool {
    key_refusal(id.key_pem@) is None && is_base64(pem_body(id.key_pem@)) && pem_body(id.key_pem@).len() > 0
}

/// The same, of a certificate that is `der` in DER.
pub open spec fn issued_as(id: Identity, cn: Seq<char>, sans: Seq<Seq<char>>, der: Seq<u8>) -> bool {
    &&& der.len() > 0
    &&& pem_body(id.cert_pem@) == base64_text(der)
    &&& common_name_of(der) == Some(cn)
    &&& has_key(id)
    &&& plain(sans) ==> san_texts(id.cert_pem@) == Some(sans)
}

/// Whether no name is an IPv6 address, which can be spelled in several ways.
pub open spec fn plain(sans: Seq<Seq<char>>) -> bool {
    forall|i: int| 0 <= i < sans.len() ==> !(#[trigger] sans[i]).contains(':')
}

/// Whether `i` is the first name that is not ASCII.
pub open spec fn first_not_ascii(sans: Seq<Seq<char>>, i: int) -> bool {
    &&& 0 <= i < sans.len()
    &&& !ascii_text(sans[i])
    &&& forall|k: int| 0 <= k < i ==> ascii_text(#[trigger] sans[k])
}

/// Whether `id` is certified by an authority: its certificate is for its own key,
/// signed by that authority, for signatures and key exchange, and valid from an
/// hour before a time for two years.
pub open spec fn certified(
    pki: AdminPki,
    id: Identity,
    cn: Seq<char>,
    sans: Seq<Seq<char>>,
    purposes: Seq<Purpose>,
    now: int,
) -> bool {
    exists|der: Seq<u8>| #[trigger] certified_as(pki, id, cn, sans, purposes, now, der)
}

/// The same, of a certificate that is `der` in DER.
pub open spec fn certified_as(
    pki: AdminPki,
    id: Identity,
    cn: Seq<char>,
    sans: Seq<Seq<char>>,
    purposes: Seq<Purpose>,
    now: int,
    der: Seq<u8>,
) -> bool {
    &&& pem_body(id.cert_pem@) == base64_text(der)
    &&& pki.signer matches Some(ca) && leaf_says(
        der,
        pem_public_key(id.key_pem@),
        issuer_of(ca.0, ca.1),
        (cn, sans),
        seq![KeyUsage::DigitalSignature, KeyUsage::KeyEncipherment],
        purposes,
        (now - BACKDATE_SECS, now + LEAF_DAYS * DAY),
    )
}

/// Whether `r` is what issuing can come to.
pub open spec fn issues(
    pki: AdminPki,
    cn: Seq<char>,
    sans: Seq<Seq<char>>,
    purposes: Seq<Purpose>,
    now: int,
    r: Result<Identity, PkiError>,
) -> bool {
    match r {
        Ok(id) => {
            &&& pki.signer is Some
            &&& forall|i: int| 0 <= i < sans.len() ==> ascii_text(#[trigger] sans[i])
            &&& issued(id, cn, sans)
            &&& certified(pki, id, cn, sans, purposes, now)
        },
        Err(PkiError::NoCaKey(m)) => pki.signer is None && m@ == "cannot issue "@ + quoted(cn)
            + ": "@ + pki.dir@ + " holds no ca.key (this identity was issued elsewhere)"@,
        Err(PkiError::Name(n, why)) => {
            &&& pki.signer is Some
            &&& exists|i: int| #[trigger] first_not_ascii(sans, i) && n@ == sans[i]
            &&& why@ == "Invalid IA5String: '"@ + n@ + "'"@
        },
        Err(PkiError::Rcgen(_)) => {
            &&& pki.signer is Some
            &&& forall|i: int| 0 <= i < sans.len() ==> ascii_text(#[trigger] sans[i])
        },
        Err(_) => false,
    }
}

/// Whether `r` is what minting a client certificate can come to.
pub open spec fn issues_client(
    pki: AdminPki,
    name: Seq<char>,
    now: int,
    r: Result<Identity, PkiError>,
) -> bool {
    if valid_name(name) {
        issues(pki, name, Seq::empty(), seq![Purpose::Client], now, r)
    } else {
        r matches Err(e) && bad_name(e, name, "use letters, digits, '-', '_', '.', '@'"@)
    }
}

/// Whether `r` is what minting a service identity can come to.
pub open spec fn issues_server(
    pki: AdminPki,
    name: Seq<char>,
    sans: Seq<Seq<char>>,
    now: int,
    r: Result<Identity, PkiError>,
) -> bool {
    if valid_name(name) {
        issues(pki, name, sans, seq![Purpose::Server, Purpose::Client], now, r)
    } else {
        r matches Err(e) && bad_name(e, name, "use letters, digits, '-', '_', '.', '@'"@)
    }
}

/// Whether a certificate can hold when one that is issued at a time is valid.
pub open spec fn issuable(now: int) -> bool {
    datable(now - BACKDATE_SECS) && datable(now + LEAF_DAYS * DAY)
}

/// What is asked of a certificate for `cn`, at a time.
pub open spec fn profile_for(
    p: Profile,
    cn: Seq<char>,
    sans: Seq<Seq<char>>,
    purposes: Seq<Purpose>,
    now: int,
) -> bool {
    &&& p.common_name@ == cn
    &&& texts_of(p.sans@) == sans
    &&& p.key_usages@ == seq![KeyUsage::DigitalSignature, KeyUsage::KeyEncipherment]
    &&& p.purposes@ == purposes
    &&& p.not_before == now - BACKDATE_SECS
    &&& p.not_after == now + LEAF_DAYS * DAY
}

/// The certificate to ask for: for signatures and key exchange, valid from an
/// hour ago for two years.
pub fn profile(cn: &str, sans: &Vec<String>, purposes: Vec<Purpose>, now: i64) -> (r: Profile)
    requires
        issuable(now as int),
    ensures
        profile_for(r, cn@, texts_of(sans@), purposes@, now as int),
{
    let mut names: Vec<String> = Vec::new();
    let mut i: usize = 0;
    while i < sans.len()
        invariant
            i <= sans.len(),
            names.len() == i,
            forall|k: int| 0 <= k < i ==> (#[trigger] names@[k])@ == sans@[k]@,
        decreases sans.len() - i,
    {
        names.push(sans[i].clone());
        i += 1;
    }
    proof {
        assert(texts_of(names@) =~= texts_of(sans@));
    }
    Profile {
        common_name: cn.to_string(),
        sans: names,
        key_usages: vec![KeyUsage::DigitalSignature, KeyUsage::KeyEncipherment],
        purposes,
        not_before: now - BACKDATE_SECS,
        not_after: now + LEAF_DAYS * DAY,
    }
}

/// Whether `r` is what making a fresh authority at a time can come to.
pub open spec fn fresh(now: int, r: Result<Identity, PkiError>) -> bool {
    match r {
        Ok(id) => {
            &&& authority_for(id.cert_pem@, "iso admin CA"@)
            &&& authority_says(
                id.cert_pem@,
                pem_public_key(id.key_pem@),
                "iso admin CA"@,
                seq![CaUsage::CertSign, CaUsage::CrlSign, CaUsage::DigitalSignature],
                Some((now - BACKDATE_SECS, now + CA_DAYS * DAY)),
            )
            &&& has_key(id)
        },
        Err(e) => e is Rcgen,
    }
}

impl AdminPki {
    /// A fresh authority at a time: its certificate and key.
    pub fn generate(now: i64) -> (r: Result<Identity, PkiError>)
        requires
            datable(now - BACKDATE_SECS),
            datable(now + CA_DAYS * DAY),
        ensures
            fresh(now as int, r),
    {
        let key = match new_key() {
            Ok(k) => k,
            Err(e) => return Err(PkiError::Rcgen(e)),
        };
        let usages = vec![CaUsage::CertSign, CaUsage::CrlSign, CaUsage::DigitalSignature];
        let validity = Some((now - BACKDATE_SECS, now + CA_DAYS * DAY));
        match self_signed_ca("iso admin CA", &usages, validity, &key) {
            Ok(cert_pem) => Ok(Identity { cert_pem, key_pem: key_to_pem(&key) }),
            Err(e) => Err(PkiError::Rcgen(e)),
        }
    }

    /// The authority that a directory holds, read from its files. Only the
    /// issuer's names and key are used in signing; the served chain is the
    /// stored PEM.
    pub fn from_pem(dir: &str, ca_cert_pem: &str, ca_key_pem: &str) -> (r: Result<AdminPki, PkiError>)
        ensures
            match r {
                Ok(p) => {
                    &&& p.dir@ == dir@
                    &&& p.ca_cert_pem@ == ca_cert_pem@
                    &&& p.signer matches Some(ca) && issuer_of(ca.0, ca.1) == (
                        pem_subject(ca_cert_pem@),
                        pem_public_key(ca_key_pem@),
                    )
                    &&& key_refusal(ca_key_pem@) is None
                    &&& cert_refusal(ca_cert_pem@) is None
                    &&& writable_name(cert_parts(ca_cert_pem@))
                },
                Err(PkiError::Rcgen(m)) => key_refusal(ca_key_pem@) is Some ==> key_refusal(
                    ca_key_pem@,
                ) == Some(m@),
                Err(PkiError::Unwritable) => {
                    &&& key_refusal(ca_key_pem@) is None
                    &&& cert_refusal(ca_cert_pem@) is None
                    &&& !writable_name(cert_parts(ca_cert_pem@))
                },
                Err(_) => false,
            },
    {
        AdminPki::with_key(dir, ca_cert_pem, key_from_pem(ca_key_pem))
    }

    /// The authority that a directory holds, from its certificate and what reading
    /// its key came to.
    pub fn with_key(dir: &str, ca_cert_pem: &str, key: Result<KeyPair, String>) -> (r: Result<
        AdminPki,
        PkiError,
    >)
        ensures
            match key {
                Err(e) => r == Err::<AdminPki, PkiError>(PkiError::Rcgen(e)),
                Ok(k) => match cert_refusal(ca_cert_pem@) {
                    Some(why) => r matches Err(PkiError::Rcgen(m)) && m@ == why,
                    None => if writable_name(cert_parts(ca_cert_pem@)) {
                        match r {
                            Ok(p) => {
                                &&& p.dir@ == dir@
                                &&& p.ca_cert_pem@ == ca_cert_pem@
                                &&& p.signer matches Some(ca) && ca.1 == k && subject_of(ca.0)
                                    == pem_subject(ca_cert_pem@)
                            },
                            Err(PkiError::Rcgen(_)) => true,
                            Err(_) => false,
                        }
                    } else {
                        r matches Err(PkiError::Unwritable)
                    },
                },
            },
    {
        let key = match key {
            Ok(k) => k,
            Err(e) => return Err(PkiError::Rcgen(e)),
        };
        let params = match read_cert(ca_cert_pem) {
            Ok(p) => p,
            Err(e) => return Err(PkiError::Rcgen(e)),
        };
        if !name_is_writable(&name_parts(&params)) {
            return Err(PkiError::Unwritable);
        }
        let cert = issuer(&params, &key);
        AdminPki::rebuilt(dir, ca_cert_pem, key, cert)
    }

    /// The authority that a directory holds, from its certificate, its key, and
    /// what rebuilding the issuer from them came to.
    pub fn rebuilt(
        dir: &str,
        ca_cert_pem: &str,
        key: KeyPair,
        cert: Result<Certificate, String>,
    ) -> (r: Result<AdminPki, PkiError>)
        ensures
            match cert {
                Err(e) => r == Err::<AdminPki, PkiError>(PkiError::Rcgen(e)),
                Ok(c) => {
                    &&& r matches Ok(p)
                    &&& p.dir@ == dir@
                    &&& p.ca_cert_pem@ == ca_cert_pem@
                    &&& p.signer == Some((c, key))
                },
            },
    {
        match cert {
            Ok(c) => Ok(
                AdminPki {
                    dir: dir.to_string(),
                    signer: Some((c, key)),
                    ca_cert_pem: ca_cert_pem.to_string(),
                },
            ),
            Err(e) => Err(PkiError::Rcgen(e)),
        }
    }

    /// The identity that was issued elsewhere: `server_crt` is how reading
    /// `server.crt` ended, and its certificate and key must be there.
    pub fn load_issued_elsewhere(
        dir: &str,
        ca_cert_pem: &str,
        server_crt: &Result<String, String>,
        server_key: bool,
    ) -> (r: Result<AdminPki, PkiError>)
        ensures
            loads_elsewhere(dir@, ca_cert_pem@, *server_crt, server_key, r),
    {
        let how = "issue one on the control host with `isoctl admin issue-server --name <host> --san <ip>` and install it as server.crt and server.key, or add ca.key to let this host issue its own";
        if let Err(e) = server_crt {
            let mut m = concat3(join(dir, "server.crt").as_str(), ": ", e.as_str());
            m.append("; this host has no ca.key, so ");
            m.append(how);
            return Err(PkiError::NoCaKey(m));
        }
        if !server_key {
            let m = concat3(join(dir, "server.key").as_str(), " is missing; ", how);
            return Err(PkiError::NoCaKey(m));
        }
        Ok(AdminPki { dir: dir.to_string(), signer: None, ca_cert_pem: ca_cert_pem.to_string() })
    }

    pub fn dir(&self) -> (r: &String)
        ensures
            *r == self.dir,
    {
        &self.dir
    }

    /// Whether the CA key is here, so certificates can be issued.
    pub fn can_issue(&self) -> (r: bool)
        ensures
            r == (self.signer is Some),
    {
        self.signer.is_some()
    }

    /// The CA certificate, PEM. Clients pin this.
    pub fn ca_cert_pem(&self) -> (r: &String)
        ensures
            *r == self.ca_cert_pem,
    {
        &self.ca_cert_pem
    }

    /// The CA certificate, DER.
    pub fn ca_cert_der(&self) -> (r: Result<Vec<u8>, PkiError>)
        ensures
            decodes(self.ca_cert_pem@, r),
    {
        pem_to_der(self.ca_cert_pem.as_str())
    }

    /// This host's server certificate, for the names it is dialled by.
    pub fn issue_host(&self, server_sans: &Vec<String>, now: i64) -> (r: Result<Identity, PkiError>)
        requires
            issuable(now as int),
        ensures
            issues(
                *self,
                "iso-controld"@,
                texts_of(server_sans@),
                seq![Purpose::Server],
                now as int,
                r,
            ),
    {
        let purposes = vec![Purpose::Server];
        assert(purposes@ =~= seq![Purpose::Server]);
        self.issue("iso-controld", server_sans, purposes, now)
    }

    /// Mints a client certificate whose common name is `name`.
    pub fn issue_client(&self, name: &str, now: i64) -> (r: Result<Identity, PkiError>)
        requires
            issuable(now as int),
        ensures
            issues_client(*self, name@, now as int, r),
    {
        if let Err(e) = check_name(name) {
            return Err(e);
        }
        let none: Vec<String> = Vec::new();
        proof {
            assert(texts_of(none@) =~= Seq::empty());
        }
        let purposes = vec![Purpose::Client];
        assert(purposes@ =~= seq![Purpose::Client]);
        self.issue(name, &none, purposes, now)
    }

    /// Mints a service identity: a certificate good as a TLS server for `sans`
    /// and as a TLS client to the other services.
    pub fn issue_server(&self, name: &str, sans: &Vec<String>, now: i64) -> (r: Result<
        Identity,
        PkiError,
    >)
        requires
            issuable(now as int),
        ensures
            issues_server(*self, name@, texts_of(sans@), now as int, r),
    {
        if let Err(e) = check_name(name) {
            return Err(e);
        }
        let purposes = vec![Purpose::Server, Purpose::Client];
        assert(purposes@ =~= seq![Purpose::Server, Purpose::Client]);
        self.issue(name, sans, purposes, now)
    }

    fn issue(&self, cn: &str, sans: &Vec<String>, purposes: Vec<Purpose>, now: i64) -> (r: Result<
        Identity,
        PkiError,
    >)
        requires
            issuable(now as int),
            purposes@.len() > 0,
        ensures
            issues(*self, cn@, texts_of(sans@), purposes@, now as int, r),
    {
        let (ca_cert, ca_key) = match &self.signer {
            Some((c, k)) => (c, k),
            None => {
                let mut m = concat2("cannot issue ", quote(cn).as_str());
                m.append(": ");
                m.append(self.dir.as_str());
                m.append(" holds no ca.key (this identity was issued elsewhere)");
                return Err(PkiError::NoCaKey(m));
            },
        };
        let mut i: usize = 0;
        while i < sans.len()
            invariant
                i <= sans.len(),
                self.signer is Some,
                forall|k: int| 0 <= k < i ==> ascii_text(#[trigger] texts_of(sans@)[k]),
            decreases sans.len() - i,
        {
            if let Err(e) = ia5(sans[i].as_str()) {
                proof {
                    assert(first_not_ascii(texts_of(sans@), i as int));
                }
                return Err(PkiError::Name(sans[i].clone(), e));
            }
            i += 1;
        }
        let key = match new_key() {
            Ok(k) => k,
            Err(e) => return Err(PkiError::Rcgen(e)),
        };
        let p = profile(cn, sans, purposes, now);
        match sign_leaf(&p, &key, ca_cert, ca_key) {
            Ok((der, cert_pem)) => {
                let id = Identity { cert_pem, key_pem: key_to_pem(&key) };
                proof {
                    if plain(texts_of(sans@)) {
                        assert forall|i: int| 0 <= i < p.sans@.len() implies !(#[trigger] p.sans@[i])@.contains(':') by {
                            assert(texts_of(p.sans@)[i] == p.sans@[i]@);
                        }
                    }
                    assert(issued_as(id, cn@, texts_of(sans@), der@));
                    assert(certified_as(
                        *self,
                        id,
                        cn@,
                        texts_of(sans@),
                        p.purposes@,
                        now as int,
                        der@,
                    ));
                }
                Ok(id)
            },
            Err(e) => Err(PkiError::Rcgen(e)),
        }
    }
}

/// **Law.** An authority whose key is elsewhere can issue nothing: whatever is
/// asked of it is refused, and the refusal says why.
pub proof fn law_without_its_key_nothing_is_issued(
    pki: AdminPki,
    cn: Seq<char>,
    sans: Seq<Seq<char>>,
    purposes: Seq<Purpose>,
    now: int,
    r: Result<Identity, PkiError>,
)
    requires
        pki.signer is None,
        issues(pki, cn, sans, purposes, now, r),
    ensures
        r matches Err(PkiError::NoCaKey(_)),
{
}

/// **Law.** A peer that presents an identity is known by the name it was issued
/// under: its certificate decodes, and what it decodes to carries that name.
pub proof fn law_a_peer_is_known_by_its_name(
    id: Identity,
    cn: Seq<char>,
    sans: Seq<Seq<char>>,
    chain: Seq<Vec<u8>>,
)
    requires
        issued(id, cn, sans),
        chain.len() > 0,
        decodes(id.cert_pem@, Ok(chain[0])),
    ensures
        peer_name(chain) == Some(cn),
{
    let der = choose|der: Seq<u8>| #[trigger] issued_as(id, cn, sans, der);
    law_base64_is_unambiguous(der, chain[0]@);
}

/// **Law.** What was issued decodes, the certificate and its key: the only result
/// of decoding them is bytes.
pub proof fn law_an_issued_identity_decodes(
    id: Identity,
    cn: Seq<char>,
    sans: Seq<Seq<char>>,
    cert: Result<Vec<u8>, PkiError>,
    key: Result<Vec<u8>, PkiError>,
)
    requires
        issued(id, cn, sans),
        decodes(id.cert_pem@, cert),
        decodes(id.key_pem@, key),
    ensures
        cert is Ok,
        key is Ok,
{
    let der = choose|der: Seq<u8>| #[trigger] issued_as(id, cn, sans, der);
    assert(is_base64(pem_body(id.cert_pem@)));
    if pem_body(id.cert_pem@).len() == 0 {
        assert(base64_text(Seq::<u8>::empty()) =~= pem_body(id.cert_pem@));
        law_base64_is_unambiguous(der, Seq::empty());
    }
}

/// **Law.** A server certificate that was issued for its names leaves none of
/// them out, so it is kept at the next load: a new one is issued only for a new
/// name.
pub proof fn law_an_issued_server_is_kept(id: Identity, cn: Seq<char>, sans: Seq<Seq<char>>)
    requires
        issued(id, cn, sans),
        plain(sans),
    ensures
        covered(san_texts(id.cert_pem@), sans),
        left_out(san_texts(id.cert_pem@), sans) == Seq::<Seq<char>>::empty(),
{
    lemma_all_held(sans, sans);
}

proof fn lemma_all_held(have: Seq<Seq<char>>, wanted: Seq<Seq<char>>)
    requires
        forall|i: int| 0 <= i < wanted.len() ==> have.contains(#[trigger] wanted[i]),
    ensures
        left_out(Some(have), wanted) == Seq::<Seq<char>>::empty(),
    decreases wanted.len(),
{
    if wanted.len() > 0 {
        let w = wanted.drop_last();
        assert forall|i: int| 0 <= i < w.len() implies have.contains(#[trigger] w[i]) by {
            assert(w[i] == wanted[i]);
        }
        lemma_all_held(have, w);
        assert(wanted[wanted.len() - 1] == wanted.last());
        assert(covered(Some(have), seq![wanted.last()]));
    }
}

/// **Law.** An authority is made only where there is none: a directory with a
/// certificate is never given another, and one without its key issues nothing.
pub proof fn law_an_authority_is_never_replaced(ca_crt: bool, ca_key: bool)
    ensures
        held(ca_crt, ca_key) is Nothing <==> !ca_crt,
        held(ca_crt, ca_key) is Elsewhere <==> ca_crt && !ca_key,
        held(ca_crt, ca_key) is Authority <==> ca_crt && ca_key,
{
}

/// **Law.** A server certificate is issued anew exactly where it is missing, its
/// key is, it cannot be read, or a name that is wanted is not in it.
pub proof fn law_a_server_certificate_is_kept_while_it_serves(
    crt: Option<String>,
    key: bool,
    wanted: Seq<Seq<char>>,
)
    ensures
        crt is None ==> stale(crt, key, wanted),
        !key ==> stale(crt, key, wanted),
        crt matches Some(pem) ==> (san_texts(pem@) is None ==> stale(crt, key, wanted)),
        crt is Some && san_texts(crt->0@) is Some ==> forall|i: int|
            0 <= i < wanted.len() && !san_texts(crt->0@)->0.contains(#[trigger] wanted[i]) ==> stale(
                crt,
                key,
                wanted,
            ),
        crt is Some && key && san_texts(crt->0@) is Some && (forall|i: int|
            0 <= i < wanted.len() ==> san_texts(crt->0@)->0.contains(#[trigger] wanted[i]))
            ==> !stale(crt, key, wanted),
{
}

/// **Law.** What a certificate leaves out is what is wanted and not in it, all of
/// it; of one that cannot be read that is everything.
pub proof fn law_what_is_left_out_is_not_held(
    have: Option<Seq<Seq<char>>>,
    wanted: Seq<Seq<char>>,
    n: Seq<char>,
)
    ensures
        left_out(have, wanted).contains(n) <==> wanted.contains(n) && !(have is Some
            && have->0.contains(n)),
    decreases wanted.len(),
{
    let f = left_out(have, wanted);
    if wanted.len() > 0 {
        let w = wanted.drop_last();
        law_what_is_left_out_is_not_held(have, w, n);
        let g = left_out(have, w);
        let one = seq![wanted.last()];
        assert(one[0] == wanted.last());
        assert(covered(have, one) <==> have is Some && have->0.contains(wanted.last()));
        if wanted.contains(n) && !w.contains(n) {
            let k = choose|k: int| 0 <= k < wanted.len() && wanted[k] == n;
            if k < w.len() {
                assert(w[k] == n);
            }
        }
        if w.contains(n) {
            let k = choose|k: int| 0 <= k < w.len() && w[k] == n;
            assert(wanted[k] == n);
        }
        assert(wanted[wanted.len() - 1] == wanted.last());
        if !covered(have, one) {
            assert(f =~= g.push(wanted.last()));
            assert(f[f.len() - 1] == wanted.last());
            if g.contains(n) {
                let k = choose|k: int| 0 <= k < g.len() && g[k] == n;
                assert(f[k] == n);
            }
        }
    }
}

/// **Law.** A certificate is valid when it is issued, from an hour before, and for
/// two years from then; it signs and exchanges keys, and is asked for under its
/// own name, for its own names and purposes.
pub proof fn law_a_certificate_is_valid_when_issued(
    p: Profile,
    cn: Seq<char>,
    sans: Seq<Seq<char>>,
    purposes: Seq<Purpose>,
    now: int,
)
    requires
        profile_for(p, cn, sans, purposes, now),
    ensures
        p.not_before < now < p.not_after,
        now - p.not_before == 3600,
        p.not_after - now == 730 * 86_400,
        p.common_name@ == cn,
        texts_of(p.sans@) == sans,
        p.purposes@ == purposes,
        p.key_usages@.contains(KeyUsage::DigitalSignature),
        p.key_usages@.contains(KeyUsage::KeyEncipherment),
        p.key_usages@.len() == 2,
{
    assert(p.key_usages@[0] == KeyUsage::DigitalSignature);
    assert(p.key_usages@[1] == KeyUsage::KeyEncipherment);
}

/// **Law.** A client's identity is good as a client and under no name to be
/// dialled by; a service's is good as both, for the names it was asked for. No
/// identity is issued under a name with anything but letters, digits and a few
/// marks in it.
pub proof fn law_identities_are_good_for_what_they_are(
    pki: AdminPki,
    name: Seq<char>,
    sans: Seq<Seq<char>>,
    now: int,
    c: Result<Identity, PkiError>,
    s: Result<Identity, PkiError>,
)
    requires
        issues_client(pki, name, now, c),
        issues_server(pki, name, sans, now, s),
    ensures
        c matches Ok(id) ==> certified(pki, id, name, Seq::empty(), seq![Purpose::Client], now)
            && issued(id, name, Seq::empty()),
        s matches Ok(id) ==> certified(
            pki,
            id,
            name,
            sans,
            seq![Purpose::Server, Purpose::Client],
            now,
        ) && issued(id, name, sans),
        !valid_name(name) ==> c is Err && s is Err,
        name.len() == 0 || name.contains('/') || name.contains(' ') || name.contains('=')
            ==> c is Err && s is Err,
        pki.signer is None ==> c is Err && s is Err,
{
    if name.contains('/') {
        let i = choose|i: int| 0 <= i < name.len() && name[i] == '/';
        assert(!name_char(name[i]));
    }
    if name.contains(' ') {
        let i = choose|i: int| 0 <= i < name.len() && name[i] == ' ';
        assert(!name_char(name[i]));
    }
    if name.contains('=') {
        let i = choose|i: int| 0 <= i < name.len() && name[i] == '=';
        assert(!name_char(name[i]));
    }
}

/// **Law.** An identity that was issued elsewhere is loaded exactly where both its
/// certificate and its key are there, and it cannot issue.
pub proof fn law_an_identity_from_elsewhere_is_whole(
    dir: Seq<char>,
    ca: Seq<char>,
    crt: Result<String, String>,
    key: bool,
    r: Result<AdminPki, PkiError>,
)
    requires
        loads_elsewhere(dir, ca, crt, key, r),
    ensures
        r is Ok <==> crt is Ok && key,
        r matches Ok(p) ==> p.signer is None && p.ca_cert_pem@ == ca && p.dir@ == dir,
{
}

/// **Law.** A fresh authority is good for ten years, from an hour before it was
/// made, and signs certificates under its own key; it outlives all that it
/// issues at once.
pub proof fn law_an_authority_outlives_what_it_issues(
    now: int,
    r: Result<Identity, PkiError>,
    p: Profile,
    cn: Seq<char>,
    sans: Seq<Seq<char>>,
    purposes: Seq<Purpose>,
)
    requires
        fresh(now, r),
        profile_for(p, cn, sans, purposes, now),
    ensures
        r matches Ok(id) ==> authority_says(
            id.cert_pem@,
            pem_public_key(id.key_pem@),
            "iso admin CA"@,
            seq![CaUsage::CertSign, CaUsage::CrlSign, CaUsage::DigitalSignature],
            Some((now - 3600, now + 3650 * 86_400)),
        ) && has_key(id),
        p.not_before >= now - 3600,
        p.not_after < now + 3650 * 86_400,
{
    assert(3650 * 86_400 == CA_DAYS * DAY);
}

/// **Law.** A certificate is signed by this authority, for the key that it comes
/// with and the name and purposes that were asked for, from an hour ago for two
/// years.
pub proof fn law_a_certificate_is_for_its_own_key(
    pki: AdminPki,
    id: Identity,
    cn: Seq<char>,
    sans: Seq<Seq<char>>,
    purposes: Seq<Purpose>,
    now: int,
)
    requires
        certified(pki, id, cn, sans, purposes, now),
    ensures
        pki.signer is Some,
        pki.signer matches Some(ca) ==> exists|der: Seq<u8>|
            pem_body(id.cert_pem@) == #[trigger] base64_text(der) && leaf_says(
                der,
                pem_public_key(id.key_pem@),
                issuer_of(ca.0, ca.1),
                (cn, sans),
                seq![KeyUsage::DigitalSignature, KeyUsage::KeyEncipherment],
                purposes,
                (now - 3600, now + 730 * 86_400),
            ),
{
    let der = choose|der: Seq<u8>| #[trigger]
        certified_as(pki, id, cn, sans, purposes, now, der);
    assert(730 * 86_400 == LEAF_DAYS * DAY);
    assert(pem_body(id.cert_pem@) == base64_text(der));
}

} // verus!
