//! The egress proxy's certificate authority. It only ever signs requests: the
//! proxy keeps the leaf's key, and the authority's own key never leaves it.

use crate::codec::{b64_encode, b64_refusal, base64_text, is_base64};
use crate::pki::admin::has_key;
use crate::pki::pem::{single_pem_to_der, unbounded, PkiError};
use crate::pki::creds::Identity;
use crate::pki::x509::{
    authority_for, authority_says, cert_parts, cert_refusal, csr_refusal, datable, issuer,
    issuer_of, key_from_pem, key_refusal, key_to_pem, name_is_writable, name_parts, new_key,
    oids_are_writable, other_names, pem_public_key, pem_request, pem_subject, read_cert, read_csr,
    request_granted, self_signed_ca, sign_csr, subject_of, writable_name, writable_request, CaUsage,
};
use crate::text::{lines_of, same, trimmed};
use rcgen::{Certificate, KeyPair};
use vstd::prelude::*;
use vstd::string::*;

verus! {

/// How long a signed leaf is good for, in seconds. Short: a leaf key that leaks
/// is worth at most this long.
pub const LEAF_TTL: i64 = 86_400;

/// How far into the past a leaf is valid from, in seconds: a guest resumed from
/// a snapshot keeps the clock it was baked with until something sets the time.
pub const LEAF_BACKDATE: i64 = 2_592_000;

/// The RPC method name, over both transports.
pub const METHOD: &'static str = "sign";

/// Request to sign a leaf CSR (PEM).
#[derive(Debug)]
pub struct SignRequest {
    pub domain: String,
    pub csr_pem: String,
}

/// Signed chain (leaf first, then CA), each entry base64 (DER). An empty chain
/// means the CA refused; the proxy fails closed on it.
#[derive(Debug)]
pub struct SignResponse {
    pub chain_der_b64: Vec<String>,
    /// When the leaf expires, seconds since the Unix epoch.
    pub not_after: Option<u64>,
}

impl SignResponse {
    /// Whether this is the refusal.
    pub open spec fn refuses(self) -> bool {
        self.chain_der_b64@.len() == 0 && self.not_after is None
    }
}

impl Default for SignResponse {
    fn default() -> (r: Self)
        ensures
            r.refuses(),
    {
        SignResponse { chain_der_b64: Vec::new(), not_after: None }
    }
}

/// A signed leaf, in memory.
#[derive(Debug)]
pub struct Signed {
    /// Leaf DER first, then the CA DER.
    pub chain_der: Vec<Vec<u8>>,
    pub not_after: u64,
}

/// When a leaf signed at `now` expires, where that is after the epoch.
pub open spec fn expiry(now: int) -> int {
    if now + LEAF_TTL > 0 {
        now + LEAF_TTL
    } else {
        0
    }
}

/// Whether an answer carries a signed chain, entry by entry.
pub open spec fn carries(r: SignResponse, s: Signed) -> bool {
    &&& r.not_after == Some(s.not_after)
    &&& r.chain_der_b64@.len() == s.chain_der@.len()
    &&& forall|i: int|
        0 <= i < s.chain_der@.len() ==> (#[trigger] r.chain_der_b64@[i])@ == base64_text(
            s.chain_der@[i]@,
        )
}

/// Whether `r` is the answer to a request that came to `signed`.
pub open spec fn answers(signed: Option<Signed>, r: SignResponse) -> bool {
    match signed {
        Some(s) => carries(r, s),
        None => r.refuses(),
    }
}

/// The answer to a request that came to `signed`. Any failure answers with an
/// empty chain, which the proxy treats as a refusal.
pub fn answer(signed: Option<Signed>) -> (r: SignResponse)
    ensures
        answers(signed, r),
{
    match signed {
        None => SignResponse::default(),
        Some(s) => {
            let mut chain: Vec<String> = Vec::new();
            let mut i: usize = 0;
            while i < s.chain_der.len()
                invariant
                    i <= s.chain_der.len(),
                    chain.len() == i,
                    forall|k: int|
                        0 <= k < i ==> (#[trigger] chain@[k])@ == base64_text(s.chain_der@[k]@),
                decreases s.chain_der.len() - i,
            {
                chain.push(b64_encode(s.chain_der[i].as_slice()));
                i += 1;
            }
            SignResponse { chain_der_b64: chain, not_after: Some(s.not_after) }
        },
    }
}

/// Whether a directory lacks an authority: either file is absent.
pub open spec fn lacking(ca_crt: bool, ca_key: bool) -> bool {
    !(ca_crt && ca_key)
}

/// Whether a directory lacks an authority.
pub fn absent(ca_crt: bool, ca_key: bool) -> (r: bool)
    ensures
        r == lacking(ca_crt, ca_key),
{
    !ca_crt || !ca_key
}

/// The base64 body of a stored certificate: all its lines but the bounds.
pub open spec fn stored_body(cert_pem: Seq<char>) -> Seq<char> {
    trimmed(unbounded(lines_of(cert_pem)))
}

/// Whether `r` is what making a fresh authority can come to.
pub open spec fn fresh(r: Result<Identity, PkiError>) -> bool {
    match r {
        Ok(id) => {
            &&& authority_for(id.cert_pem@, "iso egress proxy CA"@)
            &&& authority_says(
                id.cert_pem@,
                pem_public_key(id.key_pem@),
                "iso egress proxy CA"@,
                seq![CaUsage::CertSign, CaUsage::CrlSign, CaUsage::DigitalSignature],
                None,
            )
            &&& has_key(id)
        },
        Err(e) => e is Rcgen,
    }
}

/// A loaded certificate authority.
pub struct Ca {
    // Only its names and key ids are read in signing; the chain that is served
    // ends in the stored certificate, which the VMs trust.
    pub ca_cert: Certificate,
    pub ca_key: KeyPair,
    pub ca_cert_der: Vec<u8>,
}

/// Whether `leaf` is the certificate that is made of a request, by an authority at
/// a time.
pub open spec fn grants(ca: Ca, csr_pem: Seq<char>, now: int, leaf: Seq<u8>) -> bool {
    request_granted(
        leaf,
        pem_request(csr_pem),
        issuer_of(ca.ca_cert, ca.ca_key),
        (now - LEAF_BACKDATE, now + LEAF_TTL),
    )
}

/// Whether a text is a request that can be granted.
pub open spec fn signable(csr_pem: Seq<char>) -> bool {
    csr_refusal(csr_pem) is None && writable_request(csr_pem)
}

/// Whether `s` is a leaf signed at a time with an authority behind it.
pub open spec fn chained(ca: Ca, leaf: Seq<u8>, now: int, s: Signed) -> bool {
    &&& s.chain_der@.len() == 2
    &&& s.chain_der@[0]@ == leaf
    &&& s.chain_der@[1]@ == ca.ca_cert_der@
    &&& s.not_after == expiry(now)
}

/// Whether `s` is what signing a request with an authority gives at a time.
pub open spec fn signed_at(ca: Ca, csr_pem: Seq<char>, now: int, s: Signed) -> bool {
    &&& chained(ca, s.chain_der@[0]@, now, s)
    &&& grants(ca, csr_pem, now, s.chain_der@[0]@)
}

/// Whether `r` is what signing a request with an authority can come to.
pub open spec fn signs(
    ca: Ca,
    csr_pem: Seq<char>,
    now: int,
    r: Result<Signed, PkiError>,
) -> bool {
    match r {
        Ok(s) => signable(csr_pem) && signed_at(ca, csr_pem, now, s),
        Err(PkiError::Rcgen(m)) => match csr_refusal(csr_pem) {
            Some(why) => m@ == why,
            None => signable(csr_pem),
        },
        Err(PkiError::Unwritable) => csr_refusal(csr_pem) is None && !writable_request(csr_pem),
        Err(_) => false,
    }
}

/// Whether a call asks for a signature: it is of [`METHOD`], and its body could be
/// read.
pub open spec fn asks_to_sign(method: Seq<char>, req: Option<SignRequest>) -> bool {
    method == METHOD@ && req is Some
}

/// The request to sign in a call, where it asks for a signature.
pub fn to_sign(method: &str, req: Option<SignRequest>) -> (r: Option<String>)
    ensures
        r is Some == asks_to_sign(method@, req),
        r matches Some(csr) ==> csr == req->0.csr_pem,
{
    if !same(method, METHOD) {
        return None;
    }
    match req {
        Some(q) => Some(q.csr_pem),
        None => None,
    }
}

impl Ca {
    /// A fresh authority: its certificate and key.
    pub fn generate() -> (r: Result<Identity, PkiError>)
        ensures
            fresh(r),
    {
        let key = match new_key() {
            Ok(k) => k,
            Err(e) => return Err(PkiError::Rcgen(e)),
        };
        let usages = vec![CaUsage::CertSign, CaUsage::CrlSign, CaUsage::DigitalSignature];
        match self_signed_ca("iso egress proxy CA", &usages, None, &key) {
            Ok(cert_pem) => Ok(Identity { cert_pem, key_pem: key_to_pem(&key) }),
            Err(e) => Err(PkiError::Rcgen(e)),
        }
    }

    /// Builds an authority from its certificate and key in PEM.
    pub fn from_pem(cert_pem: &str, key_pem: &str) -> (r: Result<Ca, PkiError>)
        ensures
            match r {
                Ok(ca) => {
                    &&& stored_body(cert_pem@) == base64_text(ca.ca_cert_der@)
                    &&& issuer_of(ca.ca_cert, ca.ca_key) == (
                        pem_subject(cert_pem@),
                        pem_public_key(key_pem@),
                    )
                    &&& key_refusal(key_pem@) is None
                    &&& cert_refusal(cert_pem@) is None
                    &&& writable_name(cert_parts(cert_pem@))
                },
                Err(PkiError::Rcgen(m)) => key_refusal(key_pem@) is Some ==> key_refusal(key_pem@)
                    == Some(m@),
                Err(PkiError::Unwritable) => {
                    &&& key_refusal(key_pem@) is None
                    &&& cert_refusal(cert_pem@) is None
                    &&& !writable_name(cert_parts(cert_pem@))
                },
                Err(PkiError::Pem(m)) => {
                    &&& key_refusal(key_pem@) is None
                    &&& cert_refusal(cert_pem@) is None
                    &&& writable_name(cert_parts(cert_pem@))
                    &&& !is_base64(stored_body(cert_pem@))
                    &&& m@ == b64_refusal(stored_body(cert_pem@))
                },
                Err(_) => false,
            },
    {
        Ca::with_key(cert_pem, key_from_pem(key_pem))
    }

    /// Builds an authority from its certificate in PEM and what reading its key
    /// came to.
    pub fn with_key(cert_pem: &str, key: Result<KeyPair, String>) -> (r: Result<Ca, PkiError>)
        ensures
            match key {
                Err(e) => r == Err::<Ca, PkiError>(PkiError::Rcgen(e)),
                Ok(k) => match cert_refusal(cert_pem@) {
                    Some(why) => r matches Err(PkiError::Rcgen(m)) && m@ == why,
                    None => if writable_name(cert_parts(cert_pem@)) {
                        match r {
                            Ok(ca) => {
                                &&& ca.ca_key == k
                                &&& subject_of(ca.ca_cert) == pem_subject(cert_pem@)
                                &&& stored_body(cert_pem@) == base64_text(ca.ca_cert_der@)
                            },
                            Err(PkiError::Rcgen(_)) => true,
                            Err(PkiError::Pem(m)) => {
                                &&& !is_base64(stored_body(cert_pem@))
                                &&& m@ == b64_refusal(stored_body(cert_pem@))
                            },
                            Err(_) => false,
                        }
                    } else {
                        r matches Err(PkiError::Unwritable)
                    },
                },
            },
    {
        let ca_key = match key {
            Ok(k) => k,
            Err(e) => return Err(PkiError::Rcgen(e)),
        };
        let params = match read_cert(cert_pem) {
            Ok(p) => p,
            Err(e) => return Err(PkiError::Rcgen(e)),
        };
        if !name_is_writable(&name_parts(&params)) {
            return Err(PkiError::Unwritable);
        }
        let ca_cert = issuer(&params, &ca_key);
        Ca::rebuilt(cert_pem, ca_key, ca_cert)
    }

    /// Builds an authority from its certificate in PEM, its key, and what
    /// rebuilding the issuer from them came to.
    pub fn rebuilt(
        cert_pem: &str,
        ca_key: KeyPair,
        ca_cert: Result<Certificate, String>,
    ) -> (r: Result<Ca, PkiError>)
        ensures
            match ca_cert {
                Err(e) => r == Err::<Ca, PkiError>(PkiError::Rcgen(e)),
                Ok(cert) => match r {
                    Ok(ca) => {
                        &&& ca.ca_cert == cert
                        &&& ca.ca_key == ca_key
                        &&& stored_body(cert_pem@) == base64_text(ca.ca_cert_der@)
                    },
                    Err(PkiError::Pem(m)) => {
                        &&& !is_base64(stored_body(cert_pem@))
                        &&& m@ == b64_refusal(stored_body(cert_pem@))
                    },
                    Err(_) => false,
                },
            },
    {
        let ca_cert = match ca_cert {
            Ok(c) => c,
            Err(e) => return Err(PkiError::Rcgen(e)),
        };
        match single_pem_to_der(cert_pem) {
            Ok(ca_cert_der) => Ok(Ca { ca_cert, ca_key, ca_cert_der }),
            Err(e) => Err(e),
        }
    }

    /// The CA certificate in DER.
    pub fn ca_cert_der(&self) -> (r: &Vec<u8>)
        ensures
            *r == self.ca_cert_der,
    {
        &self.ca_cert_der
    }

    /// What signing a leaf at a time came to: the leaf with this authority behind
    /// it and its expiry, or why there is none.
    pub fn chain(&self, leaf: Result<Vec<u8>, String>, now: i64) -> (r: Result<Signed, PkiError>)
        requires
            datable(now + LEAF_TTL),
        ensures
            match leaf {
                Ok(der) => r matches Ok(s) && chained(*self, der@, now as int, s),
                Err(e) => r == Err::<Signed, PkiError>(PkiError::Rcgen(e)),
            },
    {
        let not_after: i64 = now + LEAF_TTL;
        match leaf {
            Ok(der) => {
                let end: u64 = if not_after > 0 {
                    not_after as u64
                } else {
                    0
                };
                Ok(Signed { chain_der: vec![der, self.ca_cert_der.clone()], not_after: end })
            },
            Err(e) => Err(PkiError::Rcgen(e)),
        }
    }

    /// Signs a leaf request (PEM) for [`LEAF_TTL`]: the chain and the leaf's
    /// expiry. A text that is no request is refused as such, and so is a request
    /// with a name in it that cannot be written.
    pub fn sign(&self, csr_pem: &str, now: i64) -> (r: Result<Signed, PkiError>)
        requires
            datable(now - LEAF_BACKDATE),
            datable(now + LEAF_TTL),
        ensures
            signs(*self, csr_pem@, now as int, r),
    {
        let (params, public_key) = match read_csr(csr_pem) {
            Ok(q) => q,
            Err(e) => return Err(PkiError::Rcgen(e)),
        };
        if !name_is_writable(&name_parts(&params)) || !oids_are_writable(&other_names(&params)) {
            return Err(PkiError::Unwritable);
        }
        let from: i64 = now - LEAF_BACKDATE;
        let to: i64 = now + LEAF_TTL;
        self.chain(sign_csr(params, public_key, from, to, &self.ca_cert, &self.ca_key), now)
    }

    /// The answer to a call of `method` whose body read as `req`, or could not be
    /// read. It is a refusal or a chain: the leaf, then this authority, good for
    /// [`LEAF_TTL`]. Only [`METHOD`] with a readable body and a request in it gets
    /// a chain. Making the signature takes randomness, which may fail, so that one
    /// is made is not stated here: [`to_sign`], [`Ca::chain`] and [`answer`] say
    /// what follows when it is and when it is not.
    pub fn handle(&self, method: &str, req: Option<SignRequest>, now: i64) -> (r: SignResponse)
        requires
            datable(now - LEAF_BACKDATE),
            datable(now + LEAF_TTL),
        ensures
            r.refuses() || {
                &&& asks_to_sign(method@, req)
                &&& signable(req->0.csr_pem@)
                &&& exists|leaf: Seq<u8>|
                    r.chain_der_b64@[0]@ == #[trigger] base64_text(leaf) && grants(
                        *self,
                        req->0.csr_pem@,
                        now as int,
                        leaf,
                    )
                &&& r.chain_der_b64@.len() == 2
                &&& r.chain_der_b64@[1]@ == base64_text(self.ca_cert_der@)
                &&& r.not_after == Some(expiry(now as int) as u64)
            },
    {
        match to_sign(method, req) {
            None => answer(None),
            Some(csr_pem) => match self.sign(csr_pem.as_str(), now) {
                Ok(s) => {
                    let ghost leaf = s.chain_der@[0]@;
                    let r = answer(Some(s));
                    assert(r.chain_der_b64@[0]@ == base64_text(leaf));
                    r
                },
                Err(_) => answer(None),
            },
        }
    }
}

/// **Law.** The proxy is sent the whole chain, the leaf before the authority that
/// the VMs trust, each as it is, and when the leaf expires; a refusal carries
/// nothing at all.
pub proof fn law_the_chain_is_sent_whole(
    ca: Ca,
    leaf: Seq<u8>,
    now: int,
    signed: Option<Signed>,
    r: SignResponse,
)
    requires
        answers(signed, r),
        signed matches Some(s) ==> chained(ca, leaf, now, s),
    ensures
        signed is Some ==> {
            &&& r.chain_der_b64@.len() == 2
            &&& r.chain_der_b64@[0]@ == base64_text(leaf)
            &&& r.chain_der_b64@[1]@ == base64_text(ca.ca_cert_der@)
            &&& r.not_after is Some
            &&& now >= 0 ==> r.not_after->0 == now + LEAF_TTL
        },
        signed is None ==> r.chain_der_b64@.len() == 0 && r.not_after is None,
{
}

/// **Law.** A leaf outlives the moment it is signed at.
pub proof fn law_a_leaf_expires_after_it_is_signed(now: int)
    ensures
        now >= 0 ==> expiry(now) > now,
        now >= 0 ==> expiry(now) - now == LEAF_TTL,
        expiry(now) >= 0,
{
}

/// **Law.** Only a call of the one method, with a body that can be read, is signed.
pub proof fn law_only_sign_calls_are_signed(method: Seq<char>, req: Option<SignRequest>)
    ensures
        asks_to_sign(method, req) ==> method == METHOD@ && req is Some,
        req is None ==> !asks_to_sign(method, req),
        method != METHOD@ ==> !asks_to_sign(method, req),
        method == METHOD@ && req is Some ==> asks_to_sign(method, req),
{
}

/// **Law.** An authority is one only with both of its files.
pub proof fn law_an_authority_is_both_of_its_files(ca_crt: bool, ca_key: bool)
    ensures
        lacking(ca_crt, ca_key) <==> !ca_crt || !ca_key,
{
}

/// **Law.** What is signed is the request that was made, by this authority, good
/// from thirty days before until a day after; the chain is the leaf and this
/// authority. A text that is no request, or one that cannot be written, is never
/// signed.
pub proof fn law_a_request_is_signed_as_made(
    ca: Ca,
    csr: Seq<char>,
    now: int,
    r: Result<Signed, PkiError>,
)
    requires
        signs(ca, csr, now, r),
    ensures
        r matches Ok(s) ==> {
            &&& s.chain_der@.len() == 2
            &&& request_granted(
                s.chain_der@[0]@,
                pem_request(csr),
                issuer_of(ca.ca_cert, ca.ca_key),
                (now - 30 * 86_400, now + 86_400),
            )
            &&& s.chain_der@[1]@ == ca.ca_cert_der@
            &&& now >= 0 ==> s.not_after == now + 86_400
        },
        csr_refusal(csr) is Some ==> r is Err,
        !writable_request(csr) ==> r is Err,
{
}

/// **Law.** An authority that was made signs certificates, under its own key and
/// name.
pub proof fn law_a_fresh_authority_signs_under_its_own_key(r: Result<Identity, PkiError>)
    requires
        fresh(r),
    ensures
        r matches Ok(id) ==> authority_says(
            id.cert_pem@,
            pem_public_key(id.key_pem@),
            "iso egress proxy CA"@,
            seq![CaUsage::CertSign, CaUsage::CrlSign, CaUsage::DigitalSignature],
            None,
        ) && has_key(id) && authority_for(id.cert_pem@, "iso egress proxy CA"@),
{
}

} // verus!
