//! Talking to a registry: credentials, the token it asks for, and the digests
//! that its blobs are checked against.

use crate::codec::{b64_encode, base64_text};
use crate::oci::reference::Reference;
use crate::text::{
    concat2, concat3, cut, hex, law_hex_tells_bytes_apart, hex_text, pieces, quote, quoted, same, split, split_once,
    strip_prefix, text_of, texts_of, trim, trim_matches_char, trimmed, without_leading,
    without_prefix, without_trailing,
};
use vstd::prelude::*;
use vstd::string::*;

verus! {

// ---- credentials ----

/// The `Authorization` header for `user:password`; none for an empty one.
pub fn basic_header(up: &str) -> (r: Option<String>)
    ensures
        match r {
            Some(h) => up@.len() > 0 && h@ == "Basic "@ + base64_text(up.spec_bytes()),
            None => up@.len() == 0,
        },
{
    if up.is_empty() {
        return None;
    }
    Some(concat2("Basic ", b64_encode(up.as_bytes()).as_str()))
}

/// The `Authorization` header to send: a token wins over basic credentials.
pub open spec fn authorized(
    token: Option<String>,
    basic: Option<String>,
) -> Option<Seq<char>> {
    match token {
        Some(t) => Some("Bearer "@ + t@),
        None => text_of(basic),
    }
}

/// The `Authorization` header to send.
pub fn authorization(token: &Option<String>, basic: &Option<String>) -> (r: Option<String>)
    ensures
        text_of(r) == authorized(*token, *basic),
{
    match token {
        Some(t) => Some(concat2("Bearer ", t.as_str())),
        None => basic.clone(),
    }
}

/// Whether a status is a success.
pub open spec fn is_success(status: u16) -> bool {
    200 <= status <= 299
}

/// What to do with a registry's answer.
#[derive(Clone, Copy, Debug, PartialEq, Eq, Structural)]
pub enum Answer {
    Use,
    /// Get the token that the registry asks for, and try once more.
    GetToken,
}

/// What to do with the answer to a GET of `url`: the first refusal asks for a
/// token, anything else but a success is an error. `shown` is how the status
/// reads.
pub open spec fn answered(
    url: Seq<char>,
    status: u16,
    shown: Seq<char>,
    first: bool,
    r: Result<Answer, String>,
) -> bool {
    match r {
        Ok(Answer::GetToken) => status == 401 && first,
        Ok(Answer::Use) => is_success(status),
        Err(m) => !is_success(status) && !(status == 401 && first) && m@ == url + ": http "@ + shown,
    }
}

/// What to do with the answer to a GET of `url`.
pub fn after_get(url: &str, status: u16, shown: &str, first: bool) -> (r: Result<Answer, String>)
    ensures
        answered(url@, status, shown@, first, r),
{
    if status == 401 && first {
        return Ok(Answer::GetToken);
    }
    if !(200 <= status && status <= 299) {
        return Err(concat3(url, ": http ", shown));
    }
    Ok(Answer::Use)
}

// ---- tokens ----

/// What a token is to be asked for with.
#[derive(Debug)]
pub struct TokenRequest {
    pub realm: String,
    pub service: String,
    pub scope: String,
}

/// A key and its value, out of one part of a challenge.
pub open spec fn param_of(part: Seq<char>) -> Option<(Seq<char>, Seq<char>)> {
    match cut(trimmed(part), '=') {
        Some(p) => Some(
            (trimmed(p.0), without_trailing(without_leading(trimmed(p.1), '"'), '"')),
        ),
        None => None,
    }
}

/// The value that the last part with this key gives it.
pub open spec fn param(parts: Seq<Seq<char>>, key: Seq<char>) -> Option<Seq<char>>
    decreases parts.len(),
{
    if parts.len() == 0 {
        None
    } else {
        match param_of(parts.last()) {
            Some(p) => if p.0 == key {
                Some(p.1)
            } else {
                param(parts.drop_last(), key)
            },
            None => param(parts.drop_last(), key),
        }
    }
}

/// The scope of a pull.
pub open spec fn pull_scope(repository: Seq<char>) -> Seq<char> {
    "repository:"@ + repository + ":pull"@
}

/// Whether `t` is what a challenge, in these parts, asks for.
pub open spec fn asks_for(parts: Seq<Seq<char>>, repository: Seq<char>, t: TokenRequest) -> bool {
    &&& param(parts, "realm"@) == Some(t.realm@)
    &&& t.service@ == (match param(parts, "service"@) {
        Some(v) => v,
        None => Seq::empty(),
    })
    &&& t.scope@ == (match param(parts, "scope"@) {
        Some(v) => v,
        None => pull_scope(repository),
    })
}

/// Reads a challenge of the form `Bearer realm="…",service="…",scope="…"`.
pub fn token_request(challenge: &str, repository: &str) -> (r: Result<TokenRequest, String>)
    ensures
        match without_prefix(challenge@, "Bearer "@) {
            None => r matches Err(m) && m@ == "unsupported auth challenge: "@ + quoted(challenge@),
            Some(rest) => match r {
                Ok(t) => asks_for(pieces(rest, ','), repository@, t),
                Err(m) => param(pieces(rest, ','), "realm"@) is None && m@
                    == "auth challenge without a realm"@,
            },
        },
{
    let rest = match strip_prefix(challenge, "Bearer ") {
        Some(rest) => rest,
        None => {
            return Err(concat2("unsupported auth challenge: ", quote(challenge).as_str()));
        },
    };
    let parts = split(rest.as_str(), ',');
    let ghost all = texts_of(parts@);
    let mut realm: Option<String> = None;
    let mut service: Option<String> = None;
    let mut scope: Option<String> = None;
    let mut i: usize = 0;
    assert(all.subrange(0, 0) =~= Seq::<Seq<char>>::empty());
    while i < parts.len()
        invariant
            i <= parts.len(),
            all == texts_of(parts@),
            text_of(realm) == param(all.subrange(0, i as int), "realm"@),
            text_of(service) == param(all.subrange(0, i as int), "service"@),
            text_of(scope) == param(all.subrange(0, i as int), "scope"@),
        decreases parts.len() - i,
    {
        proof {
            let next = all.subrange(0, i + 1);
            assert(next.drop_last() =~= all.subrange(0, i as int));
            assert(next.last() == parts@[i as int]@);
            lemma_keys_differ();
        }
        if let Some(p) = split_once(trim(parts[i].as_str()).as_str(), '=') {
            let key = trim(p.0.as_str());
            let value = trim_matches_char(trim(p.1.as_str()).as_str(), '"');
            if same(key.as_str(), "realm") {
                realm = Some(value);
            } else if same(key.as_str(), "service") {
                service = Some(value);
            } else if same(key.as_str(), "scope") {
                scope = Some(value);
            }
        }
        i += 1;
    }
    assert(all.subrange(0, all.len() as int) =~= all);
    match realm {
        None => Err("auth challenge without a realm".to_string()),
        Some(realm) => Ok(
            TokenRequest {
                realm,
                service: match service {
                    Some(v) => v,
                    None => String::new(),
                },
                scope: match scope {
                    Some(v) => v,
                    None => concat3("repository:", repository, ":pull"),
                },
            },
        ),
    }
}

proof fn lemma_keys_differ()
    ensures
        "realm"@ != "service"@,
        "realm"@ != "scope"@,
        "service"@ != "scope"@,
{
    reveal_strlit("realm");
    reveal_strlit("service");
    reveal_strlit("scope");
    assert("realm"@[0] == 'r' && "service"@[0] == 's' && "scope"@[0] == 's');
    assert("service"@.len() == 7 && "scope"@.len() == 5);
}

/// The error for a token request that did not succeed.
pub fn token_refused(realm: &str, shown: &str) -> (s: String)
    ensures
        s@ == "token from "@ + realm@ + ": http "@ + shown@,
{
    let mut s = concat3("token from ", realm, ": http ");
    s.append(shown);
    s
}

/// The token out of a response that may carry it under either of two names.
pub open spec fn is_token(
    token: Option<String>,
    access_token: Option<String>,
    r: Result<String, String>,
) -> bool {
    match token {
        Some(t) => r == Ok::<String, String>(t),
        None => match access_token {
            Some(t) => r == Ok::<String, String>(t),
            None => r matches Err(m) && m@ == "token response without a token"@,
        },
    }
}

/// The token out of a response.
pub fn token_of(token: Option<String>, access_token: Option<String>) -> (r: Result<String, String>)
    ensures
        is_token(token, access_token, r),
{
    match token {
        Some(t) => Ok(t),
        None => match access_token {
            Some(t) => Ok(t),
            None => Err("token response without a token".to_string()),
        },
    }
}

// ---- addresses ----

impl Reference {
    /// Where the manifest for a tag or a digest is.
    pub open spec fn manifest_at(self, reference: Seq<char>) -> Seq<char> {
        self.url_of("manifests/"@ + reference)
    }

    /// Where a blob is.
    pub open spec fn blob_at(self, digest: Seq<char>) -> Seq<char> {
        self.url_of("blobs/"@ + digest)
    }

    /// Where the manifest for a tag or a digest is.
    pub fn manifest_url(&self, reference: &str) -> (s: String)
        ensures
            s@ == self.manifest_at(reference@),
    {
        self.url(concat2("manifests/", reference).as_str())
    }

    /// Where a blob is.
    pub fn blob_url(&self, digest: &str) -> (s: String)
        ensures
            s@ == self.blob_at(digest@),
    {
        self.url(concat2("blobs/", digest).as_str())
    }
}

// ---- digests ----

/// A digest calculation under way.
#[verifier::external_type_specification]
#[verifier::external_body]
pub struct ExDigestContext(ring::digest::Context);

/// The bytes that a digest calculation has been given so far.
pub uninterp spec fn hashed(c: ring::digest::Context) -> Seq<u8>;

/// Whether a digest calculation is one of SHA-256.
pub uninterp spec fn hashes_sha256(c: ring::digest::Context) -> bool;

/// The SHA-256 digest of bytes.
pub uninterp spec fn sha256_of(b: Seq<u8>) -> Seq<u8>;

/// How many bytes SHA-256 is defined on at most.
pub const SHA256_MAX: u64 = 0x1fff_ffff_ffff_ffff;

/// `ring::digest::Context::new` for SHA-256: nothing has been given to it.
#[verifier::external_body]
fn sha256_start() -> (c: ring::digest::Context)
    ensures
        hashed(c) == Seq::<u8>::empty(),
        hashes_sha256(c),
{
    ring::digest::Context::new(&ring::digest::SHA256)
}

/// `ring::digest::Context::update`: the bytes are added to those given before.
#[verifier::external_body]
fn sha256_add(c: &mut ring::digest::Context, data: &[u8])
    ensures
        hashed(*final(c)) == hashed(*old(c)) + data@,
        hashes_sha256(*final(c)) == hashes_sha256(*old(c)),
{
    c.update(data)
}

/// `ring::digest::Context::finish`: the digest of all the bytes given to it. It
/// panics where their number of bits does not fit 64 bits, hence the bound.
#[verifier::external_body]
fn sha256_finish(c: ring::digest::Context) -> (r: Vec<u8>)
    requires
        hashes_sha256(c),
        hashed(c).len() <= SHA256_MAX,
    ensures
        r@ == sha256_of(hashed(c)),
        r@.len() == 32,
{
    c.finish().as_ref().to_vec()
}

/// A blob that is being downloaded, and its digest so far.
pub struct BlobCheck {
    context: ring::digest::Context,
    size: u64,
}

/// How the digest of `b` is written.
pub open spec fn digest_text(b: Seq<u8>) -> Seq<char> {
    "sha256:"@ + hex_text(sha256_of(b))
}

/// Whether `r` compares the digest that was asked for with the one that came out.
pub open spec fn matches_digest(
    digest: Seq<char>,
    got: Seq<char>,
    r: Result<(), String>,
) -> bool {
    match r {
        Ok(_) => digest == got,
        Err(m) => digest != got && m@ == "blob "@ + digest + ": digest mismatch ("@ + got + ")"@,
    }
}

impl BlobCheck {
    /// The bytes received so far.
    pub closed spec fn received(self) -> Seq<u8> {
        hashed(self.context)
    }

    /// The digest so far is that of the bytes so far.
    pub closed spec fn wf(self) -> bool {
        hashes_sha256(self.context) && self.size == hashed(self.context).len() && self.size
            <= SHA256_MAX
    }

    /// Before the first byte.
    pub fn new() -> (c: Self)
        ensures
            c.wf(),
            c.received() == Seq::<u8>::empty(),
    {
        BlobCheck { context: sha256_start(), size: 0 }
    }

    /// Whether `n` more bytes can be received.
    pub fn has_room(&self, n: usize) -> (r: bool)
        requires
            self.wf(),
        ensures
            r == (self.received().len() + n <= SHA256_MAX),
    {
        n as u64 <= SHA256_MAX - self.size
    }

    /// Takes the next bytes in.
    pub fn receive(&mut self, chunk: &[u8])
        requires
            old(self).wf(),
            old(self).received().len() + chunk@.len() <= SHA256_MAX,
        ensures
            final(self).wf(),
            final(self).received() == old(self).received() + chunk@,
    {
        self.size = self.size + chunk.len() as u64;
        sha256_add(&mut self.context, chunk);
    }

    /// Checks all that was received against the digest that was asked for.
    pub fn finish(self, digest: &str) -> (r: Result<(), String>)
        requires
            self.wf(),
        ensures
            matches_digest(digest@, digest_text(self.received()), r),
    {
        let sum = sha256_finish(self.context);
        digest_matches(digest, &sum)
    }
}

/// Compares a digest that was asked for with the SHA-256 sum that came out.
pub fn digest_matches(digest: &str, sum: &Vec<u8>) -> (r: Result<(), String>)
    ensures
        matches_digest(digest@, "sha256:"@ + hex_text(sum@), r),
{
    let got = concat2("sha256:", hex(sum.as_slice()).as_str());
    if same(got.as_str(), digest) {
        return Ok(());
    }
    let mut m = concat3("blob ", digest, ": digest mismatch (");
    m.append(got.as_str());
    m.append(")");
    Err(m)
}

// ---- laws ----

/// **Law.** A registry is asked for a token at most once per request, and only
/// where it refused the first try for want of one; a blob or a manifest is used
/// only where the registry answered with success.
pub proof fn law_a_token_is_asked_for_once(
    url: Seq<char>,
    status: u16,
    shown: Seq<char>,
    first: bool,
    r: Result<Answer, String>,
)
    requires
        answered(url, status, shown, first, r),
    ensures
        r == Ok::<Answer, String>(Answer::GetToken) <==> status == 401 && first,
        r == Ok::<Answer, String>(Answer::Use) <==> 200 <= status < 300,
        !first ==> (r is Ok <==> 200 <= status < 300),
{
}

/// **Law.** A token wins over credentials, credentials are sent as they are, and
/// without either nothing is sent.
pub proof fn law_a_token_wins(token: Option<String>, basic: Option<String>)
    ensures
        token matches Some(t) ==> authorized(token, basic) == Some("Bearer "@ + t@),
        token is None && basic is Some ==> authorized(token, basic) == Some(basic->0@),
        token is None && basic is None ==> authorized(token, basic) is None,
{
}

/// **Law.** Either name carries the token, the first before the second; and there
/// is an error only where neither does.
pub proof fn law_either_name_carries_the_token(
    token: Option<String>,
    access_token: Option<String>,
    r: Result<String, String>,
)
    requires
        is_token(token, access_token, r),
    ensures
        r is Err <==> token is None && access_token is None,
        r matches Ok(t) ==> token == Some(t) || (token is None && access_token == Some(t)),
{
}

/// The key of one part of a challenge.
pub open spec fn key_of(part: Seq<char>) -> Option<Seq<char>> {
    match param_of(part) {
        Some(p) => Some(p.0),
        None => None,
    }
}

/// The value that one part of a challenge gives.
pub open spec fn value_of(part: Seq<char>) -> Option<Seq<char>> {
    match param_of(part) {
        Some(p) => Some(p.1),
        None => None,
    }
}

proof fn lemma_param(parts: Seq<Seq<char>>, key: Seq<char>, i: int)
    requires
        0 <= i < parts.len(),
        key_of(parts[i]) == Some(key),
        forall|k: int| i < k < parts.len() ==> key_of(#[trigger] parts[k]) != Some(key),
    ensures
        param(parts, key) == value_of(parts[i]),
    decreases parts.len(),
{
    let rest = parts.drop_last();
    if i < parts.len() - 1 {
        assert(parts[parts.len() - 1] == parts.last());
        assert forall|k: int| i < k < rest.len() implies key_of(#[trigger] rest[k]) != Some(key) by {
            assert(rest[k] == parts[k]);
        }
        assert(rest[i] == parts[i]);
        lemma_param(rest, key, i);
    }
}

/// **Law.** A token is asked for as the challenge says: what the last part with a
/// key gives it counts, and each of the three values is the one under its own
/// key.
pub proof fn law_a_challenge_is_followed(
    parts: Seq<Seq<char>>,
    repository: Seq<char>,
    t: TokenRequest,
    i: int,
)
    requires
        asks_for(parts, repository, t),
        0 <= i < parts.len(),
        forall|k: int| i < k < parts.len() ==> key_of(#[trigger] parts[k]) != key_of(parts[i]),
    ensures
        key_of(parts[i]) == Some("realm"@) ==> value_of(parts[i]) == Some(t.realm@),
        key_of(parts[i]) == Some("service"@) ==> value_of(parts[i]) == Some(t.service@),
        key_of(parts[i]) == Some("scope"@) ==> value_of(parts[i]) == Some(t.scope@),
{
    if key_of(parts[i]) is Some {
        lemma_param(parts, key_of(parts[i])->0, i);
    }
}

proof fn lemma_no_param(parts: Seq<Seq<char>>, key: Seq<char>)
    requires
        forall|k: int|
            0 <= k < parts.len() ==> key_of(#[trigger] parts[k]) != Some(key),
    ensures
        param(parts, key) is None,
    decreases parts.len(),
{
    if parts.len() > 0 {
        let rest = parts.drop_last();
        assert(parts[parts.len() - 1] == parts.last());
        assert forall|k: int| 0 <= k < rest.len() implies key_of(#[trigger] rest[k]) != Some(key) by {
            assert(rest[k] == parts[k]);
        }
        lemma_no_param(rest, key);
    }
}

/// **Law.** A challenge that names no scope is answered for a pull of the
/// repository, and one that names no service for none.
pub proof fn law_the_scope_is_a_pull_by_default(
    parts: Seq<Seq<char>>,
    repository: Seq<char>,
    t: TokenRequest,
)
    requires
        asks_for(parts, repository, t),
    ensures
        (forall|k: int|
            0 <= k < parts.len() ==> key_of(#[trigger] parts[k]) != Some("scope"@)) ==> t.scope@ == "repository:"@ + repository + ":pull"@,
        (forall|k: int|
            0 <= k < parts.len() ==> key_of(#[trigger] parts[k]) != Some("service"@)) ==> t.service@.len() == 0,
{
    if forall|k: int|
        0 <= k < parts.len() ==> key_of(#[trigger] parts[k]) != Some("scope"@) {
        lemma_no_param(parts, "scope"@);
    }
    if forall|k: int|
        0 <= k < parts.len() ==> key_of(#[trigger] parts[k]) != Some("service"@) {
        lemma_no_param(parts, "service"@);
    }
}

/// **Law.** A blob is taken only where its bytes have the digest that was asked
/// for, and then it is: no two sums pass for one digest.
pub proof fn law_a_blob_has_its_digest(
    digest: Seq<char>,
    a: Seq<u8>,
    b: Seq<u8>,
    ra: Result<(), String>,
    rb: Result<(), String>,
)
    requires
        matches_digest(digest, "sha256:"@ + hex_text(a), ra),
        matches_digest(digest, "sha256:"@ + hex_text(b), rb),
    ensures
        ra is Ok <==> digest == "sha256:"@ + hex_text(a),
        ra is Ok && rb is Ok ==> a == b,
{
    if ra is Ok && rb is Ok {
        let p = "sha256:"@;
        assert((p + hex_text(a)).subrange(p.len() as int, (p + hex_text(a)).len() as int)
            =~= hex_text(a));
        assert((p + hex_text(b)).subrange(p.len() as int, (p + hex_text(b)).len() as int)
            =~= hex_text(b));
        law_hex_tells_bytes_apart(a, b);
    }
}

/// **Law.** A repository's manifests and blobs are below it in its registry's API,
/// and a reference or digest is asked for as it is.
pub proof fn law_a_repository_is_asked_below_itself(r: Reference, x: Seq<char>)
    ensures
        ({
            let base = crate::oci::reference::scheme_of(r.registry@) + "://"@ + r.registry@
                + "/v2/"@ + r.repository@ + "/"@;
            &&& r.manifest_at(x) == base + ("manifests/"@ + x)
            &&& r.blob_at(x) == base + ("blobs/"@ + x)
        }),
{
}

/// **Law.** As much can be received as SHA-256 is defined on: the number of its
/// bits fits 64 bits, and of one byte more it does not.
pub proof fn law_a_blob_fits_its_digest(n: int)
    requires
        0 <= n,
    ensures
        n <= SHA256_MAX <==> 8 * n < 0x1_0000_0000_0000_0000,
{
}

} // verus!
