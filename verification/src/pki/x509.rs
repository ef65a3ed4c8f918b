//! What the certificate crates do: key pairs and signatures by `rcgen`, the
//! names in a certificate by `rcgen` and `x509-parser`.

use crate::codec::{base64_text, is_base64};
use crate::pki::pem::pem_body;
use crate::text::{chars_of, find_char, lemma_first_index, text_of, texts_of};
use rcgen::DnType::CommonName;
use rcgen::ExtendedKeyUsagePurpose::{ClientAuth, ServerAuth};
use rcgen::KeyUsagePurpose::{DigitalSignature, KeyEncipherment};
use rcgen::{
    BasicConstraints, Certificate, CertificateParams, CertificateSigningRequestParams, DnType,
    DnValue, Ia5String, IsCa, KeyPair, KeyUsagePurpose, PublicKey, SanType,
};
use time::ext::NumericalDuration;
use time::OffsetDateTime;
use vstd::prelude::*;
use vstd::string::*;

verus! {

/// A certificate that `rcgen` built.
#[verifier::external_type_specification]
#[verifier::external_body]
pub struct ExCertificate(rcgen::Certificate);

/// A key pair of `rcgen`.
#[verifier::external_type_specification]
#[verifier::external_body]
pub struct ExKeyPair(rcgen::KeyPair);

/// What a certificate is to say, in the terms of `rcgen`.
#[verifier::external_type_specification]
#[verifier::external_body]
pub struct ExCertificateParams(rcgen::CertificateParams);

/// The public key in a signing request, in the terms of `rcgen`.
#[verifier::external_type_specification]
#[verifier::external_body]
pub struct ExPublicKey(rcgen::PublicKey);

/// What a key may be used for.
#[derive(Clone, Copy, Debug, PartialEq, Eq, Structural)]
pub enum KeyUsage {
    DigitalSignature,
    KeyEncipherment,
}

/// In which part of a TLS handshake a certificate may stand.
#[derive(Clone, Copy, Debug, PartialEq, Eq, Structural)]
pub enum Purpose {
    Server,
    Client,
}

/// What an authority's key may be used for.
#[derive(Clone, Copy, Debug, PartialEq, Eq, Structural)]
pub enum CaUsage {
    CertSign,
    CrlSign,
    DigitalSignature,
}

/// Everything that an issued certificate says. Times are seconds since the Unix
/// epoch.
#[derive(Debug)]
pub struct Profile {
    pub common_name: String,
    pub sans: Vec<String>,
    pub key_usages: Vec<KeyUsage>,
    pub purposes: Vec<Purpose>,
    pub not_before: i64,
    pub not_after: i64,
}

/// The last second of the year 9999, the last that a certificate can hold.
pub const LAST_SECOND: i64 = 253_402_300_799;

/// The first second of the year 0.
pub const FIRST_SECOND: i64 = -62_167_219_200;

/// Whether a certificate can hold a time.
pub open spec fn datable(t: int) -> bool {
    FIRST_SECOND <= t <= LAST_SECOND
}

/// Whether a certificate can hold a time.
pub fn is_datable(t: i64) -> (r: bool)
    ensures
        r == datable(t as int),
{
    FIRST_SECOND <= t && t <= LAST_SECOND
}

// ---- names that can be written ----

/// An attribute of a distinguished name, as far as writing it can go wrong: the
/// object identifier of its type where that is not one of the usual, and its text
/// where that is a printable string.
#[derive(Debug)]
pub struct NamePart {
    pub oid: Option<Vec<u64>>,
    pub printable: Option<String>,
}

/// An object identifier that may be there, as a sequence.
pub open spec fn oid_of(o: Option<Vec<u64>>) -> Option<Seq<u64>> {
    match o {
        Some(v) => Some(v@),
        None => None,
    }
}

/// Object identifiers that may be there, as sequences.
pub open spec fn oids_of(v: Seq<Option<Vec<u64>>>) -> Seq<Option<Seq<u64>>> {
    v.map_values(|o: Option<Vec<u64>>| oid_of(o))
}

/// The attributes of a name, as plain values.
pub open spec fn parts_of(v: Seq<NamePart>) -> Seq<(Option<Seq<u64>>, Option<Seq<char>>)> {
    v.map_values(|p: NamePart| (oid_of(p.oid), text_of(p.printable)))
}

/// Whether an object identifier has a form in DER: two arcs at least, the first
/// below three, the second below forty unless the first is two, and small enough
/// for the two to make one number.
pub open spec fn writable_oid(o: Seq<u64>) -> bool {
    &&& o.len() >= 2
    &&& o[0] < 3
    &&& o[0] == 2 || o[1] < 40
    &&& o[1] < 18446744073709551535
}

/// Whether an attribute can be written: its type has a form, and its text is
/// without the one character that is read in a printable string but never
/// written in one.
pub open spec fn writable_part(p: (Option<Seq<u64>>, Option<Seq<char>>)) -> bool {
    &&& p.0 matches Some(o) ==> writable_oid(o)
    &&& p.1 matches Some(t) ==> !t.contains('?')
}

/// Whether a distinguished name can be written.
pub open spec fn writable_name(parts: Seq<(Option<Seq<u64>>, Option<Seq<char>>)>) -> bool {
    forall|i: int| 0 <= i < parts.len() ==> writable_part(#[trigger] parts[i])
}

/// Whether the object identifiers that are there can be written.
pub open spec fn writable_oids(v: Seq<Option<Seq<u64>>>) -> bool {
    forall|i: int| 0 <= i < v.len() ==> ((#[trigger] v[i]) matches Some(o) ==> writable_oid(o))
}

fn oid_is_writable(o: &Vec<u64>) -> (r: bool)
    ensures
        r == writable_oid(o@),
{
    o.len() >= 2 && o[0] < 3 && (o[0] == 2 || o[1] < 40) && o[1] < 18446744073709551535
}

fn part_is_writable(p: &NamePart) -> (r: bool)
    ensures
        r == writable_part((oid_of(p.oid), text_of(p.printable))),
{
    if let Some(o) = &p.oid {
        if !oid_is_writable(o) {
            return false;
        }
    }
    match &p.printable {
        Some(t) => {
            let v = chars_of(t.as_str());
            proof {
                lemma_first_index(v@, '?');
            }
            find_char(&v, '?').is_none()
        },
        None => true,
    }
}

/// Whether a distinguished name can be written.
pub fn name_is_writable(parts: &Vec<NamePart>) -> (r: bool)
    ensures
        r == writable_name(parts_of(parts@)),
{
    let mut i: usize = 0;
    while i < parts.len()
        invariant
            i <= parts.len(),
            forall|k: int| 0 <= k < i ==> writable_part(#[trigger] parts_of(parts@)[k]),
        decreases parts.len() - i,
    {
        if !part_is_writable(&parts[i]) {
            assert(!writable_part(parts_of(parts@)[i as int]));
            return false;
        }
        i += 1;
    }
    true
}

/// Whether the object identifiers that are there can be written.
pub fn oids_are_writable(v: &Vec<Option<Vec<u64>>>) -> (r: bool)
    ensures
        r == writable_oids(oids_of(v@)),
{
    let mut i: usize = 0;
    while i < v.len()
        invariant
            i <= v.len(),
            forall|k: int|
                0 <= k < i ==> ((#[trigger] oids_of(v@)[k]) matches Some(o) ==> writable_oid(o)),
        decreases v.len() - i,
    {
        if let Some(o) = &v[i] {
            if !oid_is_writable(o) {
                assert(oids_of(v@)[i as int] == Some(o@));
                return false;
            }
        }
        i += 1;
    }
    true
}

// ---- what the crates do ----

/// Whether every character is ASCII.
pub open spec fn ascii_text(s: Seq<char>) -> bool {
    forall|i: int| 0 <= i < s.len() ==> (#[trigger] s[i] as u32) < 128
}

/// The first common name in the subject of the certificate that some bytes
/// begin with, where they are one and it is a text.
pub uninterp spec fn common_name_of(der: Seq<u8>) -> Option<Seq<char>>;

/// The alternative names of the certificate in a PEM text, where it is one.
pub uninterp spec fn san_texts(pem: Seq<char>) -> Option<Seq<Seq<char>>>;

/// The public key of a key pair, as `KeyPair::public_key_raw` gives it.
pub uninterp spec fn public_key(key: rcgen::KeyPair) -> Seq<u8>;

/// Whether a key pair holds its private key itself.
pub uninterp spec fn held_here(key: rcgen::KeyPair) -> bool;

/// The public key of the key pair in a PEM text.
pub uninterp spec fn pem_public_key(pem: Seq<char>) -> Seq<u8>;

/// The distinguished name that a certificate is for.
pub uninterp spec fn subject_of(cert: rcgen::Certificate) -> Seq<u8>;

/// The distinguished name that the certificate in a PEM text is for.
pub uninterp spec fn pem_subject(pem: Seq<char>) -> Seq<u8>;

/// The attributes of that name.
pub uninterp spec fn cert_parts(pem: Seq<char>) -> Seq<(Option<Seq<u64>>, Option<Seq<char>>)>;

/// The distinguished name in what a certificate is to say.
pub uninterp spec fn subject_in(p: rcgen::CertificateParams) -> Seq<u8>;

/// The attributes of that name.
pub uninterp spec fn parts_in(p: rcgen::CertificateParams) -> Seq<
    (Option<Seq<u64>>, Option<Seq<char>>),
>;

/// The alternative names in it, as they read.
pub uninterp spec fn sans_in(p: rcgen::CertificateParams) -> Seq<Seq<char>>;

/// The object identifiers of its alternative names, where they are of a kind that
/// has one.
pub uninterp spec fn others_in(p: rcgen::CertificateParams) -> Seq<Option<Seq<u64>>>;

/// What is asked for with a public key: subject, alternative names and uses.
pub uninterp spec fn request_of(p: rcgen::CertificateParams, key: rcgen::PublicKey) -> Seq<u8>;

/// What the request in a PEM text asks for.
pub uninterp spec fn pem_request(pem: Seq<char>) -> Seq<u8>;

/// The attributes of the name that the request in a PEM text is for.
pub uninterp spec fn csr_parts(pem: Seq<char>) -> Seq<(Option<Seq<u64>>, Option<Seq<char>>)>;

/// The object identifiers of the alternative names that it asks for.
pub uninterp spec fn csr_others(pem: Seq<char>) -> Seq<Option<Seq<u64>>>;

/// Whether the names that a request asks for can be written.
pub open spec fn writable_request(pem: Seq<char>) -> bool {
    writable_name(csr_parts(pem)) && writable_oids(csr_others(pem))
}

/// Whether some bytes are a certificate that says this: for a public key, signed
/// by an issuer (its name and its public key), for a common name and alternative
/// names, for these uses, between two times.
pub uninterp spec fn leaf_says(
    der: Seq<u8>,
    key: Seq<u8>,
    issuer: (Seq<u8>, Seq<u8>),
    names: (Seq<char>, Seq<Seq<char>>),
    key_usages: Seq<KeyUsage>,
    purposes: Seq<Purpose>,
    validity: (int, int),
) -> bool;

/// Whether a PEM text is an authority's certificate that says this: for a public
/// key, signed by it, for a common name, for these uses, between two times or as
/// long as the crate gives it.
pub uninterp spec fn authority_says(
    pem: Seq<char>,
    key: Seq<u8>,
    name: Seq<char>,
    key_usages: Seq<CaUsage>,
    validity: Option<(int, int)>,
) -> bool;

/// Whether some bytes are the certificate that `signed_by` makes of what is asked
/// for: for that public key, with that subject, those alternative names and those
/// extended uses, and with those key usages where an alternative name or an
/// extended use is asked for too; signed by an issuer (its name and its public
/// key), valid between two times.
pub uninterp spec fn request_granted(
    der: Seq<u8>,
    request: Seq<u8>,
    issuer: (Seq<u8>, Seq<u8>),
    validity: (int, int),
) -> bool;

/// The name and the public key of an issuer.
pub open spec fn issuer_of(cert: Certificate, key: KeyPair) -> (Seq<u8>, Seq<u8>) {
    (subject_of(cert), public_key(key))
}

/// Whether a PEM text is a certificate for a name and no other.
pub open spec fn authority_for(pem: Seq<char>, name: Seq<char>) -> bool {
    &&& writable_name(cert_parts(pem))
    &&& san_texts(pem) == Some(Seq::<Seq<char>>::empty())
    &&& exists|der: Seq<u8>|
        der.len() > 0 && pem_body(pem) == #[trigger] base64_text(der) && common_name_of(der) == Some(
            name,
        )
}

/// `parse_x509_certificate` of `x509-parser`, and the first entry that
/// `iter_common_name` of its subject gives, as a text. The result rests on the
/// bytes alone.
#[verifier::external_body]
pub(crate) fn common_name(der: &[u8]) -> (r: Option<String>)
    ensures
        match r {
            Some(s) => common_name_of(der@) == Some(s@),
            None => common_name_of(der@) is None,
        },
{
    let (_, cert) = x509_parser::parse_x509_certificate(der).ok()?;
    let first = cert.subject().iter_common_name().next()?;
    first.as_str().ok().map(str::to_string)
}

/// Why a PEM text is no certificate, where it is none.
pub uninterp spec fn cert_refusal(pem: Seq<char>) -> Option<Seq<char>>;

/// `CertificateParams::from_ca_cert_pem` of `rcgen`. Whether it succeeds, how it
/// words a refusal, and what it reads, rests on the text alone.
#[verifier::external_body]
pub(crate) fn read_cert(pem: &str) -> (r: Result<CertificateParams, String>)
    ensures
        match r {
            Ok(p) => {
                &&& cert_refusal(pem@) is None
                &&& san_texts(pem@) == Some(sans_in(p))
                &&& pem_subject(pem@) == subject_in(p)
                &&& cert_parts(pem@) == parts_in(p)
            },
            Err(m) => cert_refusal(pem@) == Some(m@) && san_texts(pem@) is None,
        },
{
    CertificateParams::from_ca_cert_pem(pem).map_err(|e| e.to_string())
}

/// The `subject_alt_names` of `rcgen`'s `CertificateParams`, as they read: DNS
/// names and addresses as such, others as they debug-print.
#[verifier::external_body]
pub(crate) fn cert_sans(p: &CertificateParams) -> (r: Vec<String>)
    ensures
        texts_of(r@) == sans_in(*p),
{
    p.subject_alt_names.iter().map(
        |s|
            match s {
                SanType::DnsName(d) => d.as_str().to_string(),
                SanType::IpAddress(ip) => ip.to_string(),
                other => format!("{other:?}"),
            },
    ).collect()
}

/// The `distinguished_name` of `rcgen`'s `CertificateParams`, attribute by
/// attribute.
#[verifier::external_body]
pub(crate) fn name_parts(p: &CertificateParams) -> (r: Vec<NamePart>)
    ensures
        parts_of(r@) == parts_in(*p),
{
    p.distinguished_name.iter().map(|(t, v)| NamePart {
        oid: match t {
            DnType::CustomDnType(o) => Some(o.clone()),
            _ => None,
        },
        printable: match v {
            DnValue::PrintableString(s) => Some(s.as_str().to_string()),
            _ => None,
        },
    }).collect()
}

/// The `subject_alt_names` of `rcgen`'s `CertificateParams`, name by name: the
/// object identifier of an `OtherName`.
#[verifier::external_body]
pub(crate) fn other_names(p: &CertificateParams) -> (r: Vec<Option<Vec<u64>>>)
    ensures
        oids_of(r@) == others_in(*p),
{
    p.subject_alt_names.iter().map(|s| match s {
        SanType::OtherName((o, _)) => Some(o.clone()),
        _ => None,
    }).collect()
}

/// `Ia5String::try_from` of `rcgen`: takes ASCII texts and no others, and words
/// its refusal as stated.
#[verifier::external_body]
pub(crate) fn ia5(s: &str) -> (r: Result<(), String>)
    ensures
        match r {
            Ok(_) => ascii_text(s@),
            Err(m) => !ascii_text(s@) && m@ == "Invalid IA5String: '"@ + s@ + "'"@,
        },
{
    Ia5String::try_from(s).map(|_| ()).map_err(|e| e.to_string())
}

/// `KeyPair::generate` of `rcgen`: a pair that holds its private key. Which one
/// is random.
#[verifier::external_body]
pub(crate) fn new_key() -> (r: Result<KeyPair, String>)
    ensures
        r matches Ok(k) ==> held_here(k),
{
    KeyPair::generate().map_err(|e| e.to_string())
}

/// Why a PEM text is no key, where it is none.
pub uninterp spec fn key_refusal(pem: Seq<char>) -> Option<Seq<char>>;

/// `KeyPair::from_pem` of `rcgen`. That a text is no key, and how it is then
/// refused, rests on the text alone; so does which key a text holds. Reading an
/// elliptic-curve key draws random bytes, so that a text with a key in it is read
/// is not claimed.
#[verifier::external_body]
pub(crate) fn key_from_pem(pem: &str) -> (r: Result<KeyPair, String>)
    ensures
        match key_refusal(pem@) {
            Some(m) => r matches Err(e) && e@ == m,
            None => r matches Ok(k) ==> held_here(k) && public_key(k) == pem_public_key(pem@),
        },
{
    KeyPair::from_pem(pem).map_err(|e| e.to_string())
}

/// `KeyPair::serialize_pem` of `rcgen`: the key in one PEM block, which holds
/// something and is a text of that key. It panics for a key that is held
/// elsewhere.
#[verifier::external_body]
pub(crate) fn key_to_pem(key: &KeyPair) -> (s: String)
    requires
        held_here(*key),
    ensures
        key_refusal(s@) is None,
        pem_public_key(s@) == public_key(*key),
        is_base64(pem_body(s@)),
        pem_body(s@).len() > 0,
{
    key.serialize_pem()
}

/// `CertificateParams::self_signed` of `rcgen`, for an issuer with the name, the
/// key identifier and the key usages in `p`, which are all that is read of an
/// issuer in signing. It panics where the name cannot be written. Its own signature
/// is random, and nothing is claimed of it.
#[verifier::external_body]
pub(crate) fn issuer(p: &CertificateParams, key: &KeyPair) -> (r: Result<Certificate, String>)
    requires
        writable_name(parts_in(*p)),
    ensures
        r matches Ok(c) ==> subject_of(c) == subject_in(*p),
{
    let mut c = CertificateParams::default();
    c.distinguished_name = p.distinguished_name.clone();
    c.key_identifier_method = p.key_identifier_method.clone();
    c.key_usages = p.key_usages.clone();
    c.self_signed(key).map_err(|e| e.to_string())
}

/// `CertificateParams::self_signed` of `rcgen`, for an authority without a path
/// limit: its PEM text. Without a validity the certificate gets the crate's own.
/// Its common name reads back, and it has no alternative names. The signature is
/// random, and nothing is claimed of it.
#[verifier::external_body]
pub(crate) fn self_signed_ca(
    name: &str,
    usages: &Vec<CaUsage>,
    validity: Option<(i64, i64)>,
    key: &KeyPair,
) -> (r: Result<String, String>)
    requires
        validity matches Some(v) ==> datable(v.0 as int) && datable(v.1 as int),
    ensures
        r matches Ok(pem) ==> {
            &&& authority_for(pem@, name@)
            &&& authority_says(
                pem@,
                public_key(*key),
                name@,
                usages@,
                match validity {
                    Some(v) => Some((v.0 as int, v.1 as int)),
                    None => None,
                },
            )
        },
{
    let mut c = CertificateParams::default();
    c.distinguished_name.push(CommonName, name);
    c.is_ca = IsCa::Ca(BasicConstraints::Unconstrained);
    c.key_usages = usages.iter().map(|u| match u {
        CaUsage::CertSign => KeyUsagePurpose::KeyCertSign,
        CaUsage::CrlSign => KeyUsagePurpose::CrlSign,
        CaUsage::DigitalSignature => KeyUsagePurpose::DigitalSignature,
    }).collect();
    if let Some((from, to)) = validity {
        c.not_before = OffsetDateTime::UNIX_EPOCH + from.seconds();
        c.not_after = OffsetDateTime::UNIX_EPOCH + to.seconds();
    }
    c.self_signed(key).map(|cert| cert.pem()).map_err(|e| e.to_string())
}

/// `CertificateParams::signed_by` of `rcgen`: a certificate that says what `p`
/// says, in DER and in PEM. Both forms hold the same bytes; its common name
/// reads back, and so do its alternative names where none is an IPv6 address
/// (which has several spellings). Key usages are written only beside an alternative
/// name or a purpose. The signature is random, and nothing is claimed of it.
#[verifier::external_body]
pub(crate) fn sign_leaf(
    p: &Profile,
    key: &KeyPair,
    ca_cert: &Certificate,
    ca_key: &KeyPair,
) -> (r: Result<(Vec<u8>, String), String>)
    requires
        datable(p.not_before as int),
        datable(p.not_after as int),
        p.sans@.len() > 0 || p.purposes@.len() > 0 || p.key_usages@.len() == 0,
    ensures
        r matches Ok(c) ==> {
            &&& pem_body(c.1@) == base64_text(c.0@)
            &&& c.0@.len() > 0
            &&& common_name_of(c.0@) == Some(p.common_name@)
            &&& (forall|i: int| 0 <= i < p.sans@.len() ==> !(#[trigger] p.sans@[i])@.contains(':'))
                ==> san_texts(c.1@) == Some(texts_of(p.sans@))
            &&& leaf_says(
                c.0@,
                public_key(*key),
                issuer_of(*ca_cert, *ca_key),
                (p.common_name@, texts_of(p.sans@)),
                p.key_usages@,
                p.purposes@,
                (p.not_before as int, p.not_after as int),
            )
        },
{
    let mut c = CertificateParams::new(p.sans.clone()).map_err(|e| e.to_string())?;
    c.distinguished_name.push(CommonName, &*p.common_name);
    c.key_usages = p.key_usages.iter().map(|u| match u {
        KeyUsage::DigitalSignature => DigitalSignature,
        KeyUsage::KeyEncipherment => KeyEncipherment
    }).collect();
    c.extended_key_usages = p.purposes.iter().map(|u| match u {
        Purpose::Server => ServerAuth,
        Purpose::Client => ClientAuth
    }).collect();
    c.not_before = OffsetDateTime::UNIX_EPOCH + p.not_before.seconds();
    c.not_after = OffsetDateTime::UNIX_EPOCH + p.not_after.seconds();
    c.signed_by(key, ca_cert, ca_key).map(|s| (s.der().to_vec(), s.pem())).map_err(|e| e.to_string())
}

/// Why a PEM text is no signing request, where it is none.
pub uninterp spec fn csr_refusal(pem: Seq<char>) -> Option<Seq<char>>;

/// `CertificateSigningRequestParams::from_pem` of `rcgen`: what is asked for, and
/// the public key it is asked for with. Whether it succeeds, how it words a
/// refusal, and what it reads, rests on the text alone.
#[verifier::external_body]
pub(crate) fn read_csr(pem: &str) -> (r: Result<(CertificateParams, PublicKey), String>)
    ensures
        match r {
            Ok(q) => {
                &&& csr_refusal(pem@) is None
                &&& request_of(q.0, q.1) == pem_request(pem@)
                &&& parts_in(q.0) == csr_parts(pem@)
                &&& others_in(q.0) == csr_others(pem@)
            },
            Err(m) => csr_refusal(pem@) == Some(m@),
        },
{
    CertificateSigningRequestParams::from_pem(pem).map(|q| (q.params, q.public_key)).map_err(
        |e| e.to_string(),
    )
}

/// `CertificateSigningRequestParams::signed_by` of `rcgen`: the certificate that
/// it makes of what is asked for, by the issuer, between two times, in DER. Key
/// usages that are asked for alone are left out of it. It panics where a name that is
/// asked for cannot be written; the issuer's was written when the issuer was made.
/// The signature is random, and nothing is claimed of it, nor that there is
/// randomness enough to make one.
#[verifier::external_body]
pub(crate) fn sign_csr(
    params: CertificateParams,
    public_key: PublicKey,
    not_before: i64,
    not_after: i64,
    ca_cert: &Certificate,
    ca_key: &KeyPair,
) -> (r: Result<Vec<u8>, String>)
    requires
        datable(not_before as int),
        datable(not_after as int),
        writable_name(parts_in(params)),
        writable_oids(others_in(params)),
    ensures
        r matches Ok(der) ==> request_granted(
            der@,
            request_of(params, public_key),
            issuer_of(*ca_cert, *ca_key),
            (not_before as int, not_after as int),
        ),
{
    let mut csr = CertificateSigningRequestParams { params, public_key };
    csr.params.not_before = OffsetDateTime::UNIX_EPOCH + not_before.seconds();
    csr.params.not_after = OffsetDateTime::UNIX_EPOCH + not_after.seconds();
    csr.signed_by(ca_cert, ca_key).map(|s| s.der().to_vec()).map_err(|e| e.to_string())
}

/// **Law.** A certificate can hold the times of ten thousand years, from the year 0
/// to the end of 9999, the present epoch among them.
pub proof fn law_four_digit_years_can_be_held(t: int)
    ensures
        datable(0),
        datable(t) <==> FIRST_SECOND <= t < FIRST_SECOND + 3_652_425 * 86_400,
        FIRST_SECOND == -719_528 * 86_400,
{
}

} // verus!
