//! What is put on top of an image: the image config for the guest's init, the
//! resolver, the host name, and the proxy's CA in every bundle the image has and
//! in one of our own that the environment points every runtime at.

use crate::oci::image::ImageConfig;
use crate::text::{
    begins, concat2, concat3, contains, ends_with, finishes, holds, starts_with, texts_of, trim,
    trimmed,
};
use vstd::prelude::*;
use vstd::string::*;

verus! {

/// A file to write, by its path under the root of the image.
#[derive(Debug, PartialEq, Eq)]
pub struct FileWrite {
    pub path: String,
    pub content: String,
}

/// A path and what to write there.
pub type Written = (Seq<char>, Seq<char>);

/// The paths and contents of files to write.
pub open spec fn writes_of(v: Seq<FileWrite>) -> Seq<Written> {
    v.map_values(|w: FileWrite| (w.path@, w.content@))
}

/// The system bundles that an image may have.
pub open spec fn bundle_path(i: int) -> Seq<char> {
    if i == 0 {
        "etc/ssl/certs/ca-certificates.crt"@
    } else if i == 1 {
        "etc/pki/tls/certs/ca-bundle.crt"@
    } else {
        "etc/ssl/cert.pem"@
    }
}

/// The system bundles that an image may have.
pub fn system_bundle(i: usize) -> (s: &'static str)
    requires
        i < 3,
    ensures
        s@ == bundle_path(i as int),
{
    if i == 0 {
        "etc/ssl/certs/ca-certificates.crt"
    } else if i == 1 {
        "etc/pki/tls/certs/ca-bundle.crt"
    } else {
        "etc/ssl/cert.pem"
    }
}

/// `tail` behind `head`, on a line of its own.
pub open spec fn appended(head: Seq<char>, tail: Seq<char>) -> Seq<char> {
    if head.len() > 0 && !finishes(head, "\n"@) {
        head + "\n"@ + tail
    } else {
        head + tail
    }
}

fn append_line(head: &str, tail: &str) -> (s: String)
    ensures
        s@ == appended(head@, tail@),
{
    if !head.is_empty() && !ends_with(head, "\n") {
        concat3(head, "\n", tail)
    } else {
        concat2(head, tail)
    }
}

/// The write that one system bundle needs: none when it is not there, or when it
/// holds the CA already.
pub open spec fn bundle_write(i: int, found: Option<String>, ca: Seq<char>) -> Seq<Written> {
    match found {
        Some(t) => if holds(t@, trimmed(ca)) {
            Seq::empty()
        } else {
            seq![(bundle_path(i), appended(t@, ca))]
        },
        None => Seq::empty(),
    }
}

/// The first system bundle that is there and holds anything.
pub open spec fn first_bundle(found: Seq<Option<String>>, n: int) -> Seq<char>
    decreases n,
{
    if n <= 0 {
        Seq::empty()
    } else {
        let before = first_bundle(found, n - 1);
        if before.len() > 0 {
            before
        } else {
            match found[n - 1] {
                Some(t) => t@,
                None => Seq::empty(),
            }
        }
    }
}

/// The writes that the system bundles need, of the first `n`.
pub open spec fn bundle_writes(found: Seq<Option<String>>, ca: Seq<char>, n: int) -> Seq<Written>
    decreases n,
{
    if n <= 0 {
        Seq::empty()
    } else {
        bundle_writes(found, ca, n - 1) + bundle_write(n - 1, found[n - 1], ca)
    }
}

/// The variables that runtimes with a store of their own read, and where each
/// points.
pub open spec fn ca_variables() -> Seq<Written> {
    seq![
        ("SSL_CERT_FILE"@, "/etc/iso/ca-bundle.crt"@),
        ("SSL_CERT_DIR"@, "/etc/ssl/certs"@),
        ("REQUESTS_CA_BUNDLE"@, "/etc/iso/ca-bundle.crt"@),
        ("CURL_CA_BUNDLE"@, "/etc/iso/ca-bundle.crt"@),
        ("GIT_SSL_CAINFO"@, "/etc/iso/ca-bundle.crt"@),
        ("NODE_EXTRA_CA_CERTS"@, "/etc/iso/ca.crt"@),
        ("PIP_CERT"@, "/etc/iso/ca-bundle.crt"@),
    ]
}

/// Whether an environment sets the variable `k`.
pub open spec fn sets(env: Seq<Seq<char>>, k: Seq<char>) -> bool {
    exists|i: int| 0 <= i < env.len() && begins(#[trigger] env[i], k + "="@)
}

/// An environment with `k` set to `v`, unless it sets `k` already.
pub open spec fn with_variable(env: Seq<Seq<char>>, k: Seq<char>, v: Seq<char>) -> Seq<Seq<char>> {
    if sets(env, k) {
        env
    } else {
        env.push(k + "="@ + v)
    }
}

/// An environment with the first `n` of `vars` set, each unless it is already.
pub open spec fn with_variables(env: Seq<Seq<char>>, vars: Seq<Written>, n: int) -> Seq<Seq<char>>
    decreases n,
{
    if n <= 0 {
        env
    } else {
        with_variable(with_variables(env, vars, n - 1), vars[n - 1].0, vars[n - 1].1)
    }
}

/// The search path that a guest has by default.
pub open spec fn default_path() -> Seq<char> {
    "/usr/local/sbin:/usr/local/bin:/usr/sbin:/usr/bin:/sbin:/bin"@
}

/// The environment that a guest of this image gets.
pub open spec fn guest_env(env: Seq<Seq<char>>, with_ca: bool) -> Seq<Seq<char>> {
    with_variable(
        if with_ca {
            with_variables(env, ca_variables(), 7)
        } else {
            env
        },
        "PATH"@,
        default_path(),
    )
}

/// The `hosts` file, when it has to be written.
pub open spec fn hosts_write(hosts: Seq<char>) -> Seq<Written> {
    if holds(hosts, "iso-guest"@) {
        Seq::empty()
    } else {
        seq![("etc/hosts"@, hosts + "127.0.0.1 localhost\n127.0.1.1 iso-guest\n"@)]
    }
}

/// The files that carry the CA.
pub open spec fn ca_writes(found: Seq<Option<String>>, ca: Seq<char>) -> Seq<Written> {
    seq![("etc/iso/ca.crt"@, ca)] + bundle_writes(found, ca, 3) + seq![
        ("etc/iso/ca-bundle.crt"@, appended(first_bundle(found, 3), ca)),
        ("usr/local/share/ca-certificates/iso-egress-proxy.crt"@, ca),
    ]
}

/// The note for agents that work in the guest.
pub open spec fn notes() -> Seq<char> {
    "# Notes for agents running in this VM\n\nThis VM is the image it was built from, booted under iso with the guest agent as init.\nOutbound network goes through iso's egress proxy on the host: the proxy terminates TLS and\ninjects credentials in flight, so real credentials never exist in here. Use https://; plain\nHTTP and other ports pass only where a tunnel rule allows them. The proxy's CA is in the\nsystem store and in /etc/iso/ca-bundle.crt, which SSL_CERT_FILE and friends point at.\n"@
}

/// All the files to write, in order.
pub open spec fn all_writes(
    hosts: Seq<char>,
    found: Seq<Option<String>>,
    ca: Option<Seq<char>>,
) -> Seq<Written> {
    seq![("etc/resolv.conf"@, "nameserver 172.22.0.1\n"@), ("etc/hostname"@, "iso-guest\n"@)]
        + hosts_write(hosts) + (match ca {
        Some(c) => ca_writes(found, c),
        None => Seq::empty(),
    }) + seq![("etc/iso/AGENTS.md"@, notes())]
}

/// Everyone may read and run the agent, its owner write it: octal 755.
pub const AGENT_MODE: u32 = 493;

/// What is put on top of an image.
#[derive(Debug)]
pub struct Installation {
    /// Where the agent's binary goes.
    pub agent_path: String,
    /// The permission bits it gets there.
    pub agent_mode: u32,
    /// Files to write, in order.
    pub files: Vec<FileWrite>,
    /// What goes to `etc/iso/image.json`.
    pub config: ImageConfig,
}

fn push_write(v: &mut Vec<FileWrite>, path: &str, content: &str)
    ensures
        writes_of(final(v)@) == writes_of(old(v)@) + seq![(path@, content@)],
{
    v.push(FileWrite { path: path.to_string(), content: content.to_string() });
    assert(writes_of(v@) =~= writes_of(old(v)@) + seq![(path@, content@)]);
}

fn set_variable(env: &mut Vec<String>, k: &str, v: &str)
    ensures
        texts_of(final(env)@) == with_variable(texts_of(old(env)@), k@, v@),
{
    let prefix = concat2(k, "=");
    let mut i: usize = 0;
    let ghost all = texts_of(env@);
    while i < env.len()
        invariant
            i <= env.len(),
            *env == *old(env),
            all == texts_of(env@),
            prefix@ == k@ + "="@,
            forall|j: int| 0 <= j < i ==> !begins(#[trigger] all[j], k@ + "="@),
        decreases env.len() - i,
    {
        assert(all[i as int] == env@[i as int]@);
        if starts_with(env[i].as_str(), prefix.as_str()) {
            assert(begins(all[i as int], k@ + "="@));
            return ;
        }
        i += 1;
    }
    let s = concat2(prefix.as_str(), v);
    env.push(s);
    assert(texts_of(env@) =~= all.push(s@));
}

fn set_ca_variables(env: &mut Vec<String>)
    ensures
        texts_of(final(env)@) == with_variables(texts_of(old(env)@), ca_variables(), 7),
{
    let ghost e0 = texts_of(env@);
    proof {
        reveal_with_fuel(with_variables, 8);
    }
    set_variable(env, "SSL_CERT_FILE", "/etc/iso/ca-bundle.crt");
    set_variable(env, "SSL_CERT_DIR", "/etc/ssl/certs");
    set_variable(env, "REQUESTS_CA_BUNDLE", "/etc/iso/ca-bundle.crt");
    set_variable(env, "CURL_CA_BUNDLE", "/etc/iso/ca-bundle.crt");
    set_variable(env, "GIT_SSL_CAINFO", "/etc/iso/ca-bundle.crt");
    set_variable(env, "NODE_EXTRA_CA_CERTS", "/etc/iso/ca.crt");
    set_variable(env, "PIP_CERT", "/etc/iso/ca-bundle.crt");
}

fn push_ca(v: &mut Vec<FileWrite>, found: &[Option<String>; 3], ca: &str)
    ensures
        writes_of(final(v)@) == writes_of(old(v)@) + ca_writes(found@, ca@),
{
    let ghost w0 = writes_of(v@);
    push_write(v, "etc/iso/ca.crt", ca);
    let ghost w1 = writes_of(v@);
    let key = trim(ca);
    let mut bundle = String::new();
    let mut i: usize = 0;
    while i < 3
        invariant
            i <= 3,
            key@ == trimmed(ca@),
            bundle@ == first_bundle(found@, i as int),
            writes_of(v@) == w1 + bundle_writes(found@, ca@, i as int),
        decreases 3 - i,
    {
        let ghost before = writes_of(v@);
        if let Some(t) = &found[i] {
            if bundle.as_str().is_empty() {
                bundle = t.clone();
            }
            if !contains(t.as_str(), key.as_str()) {
                push_write(v, system_bundle(i), append_line(t.as_str(), ca).as_str());
            }
        }
        proof {
            let w = bundle_write(i as int, found@[i as int], ca@);
            assert(writes_of(v@) =~= before + w);
            assert(writes_of(v@) =~= w1 + bundle_writes(found@, ca@, i + 1));
        }
        i += 1;
    }
    push_write(v, "etc/iso/ca-bundle.crt", append_line(bundle.as_str(), ca).as_str());
    push_write(v, "usr/local/share/ca-certificates/iso-egress-proxy.crt", ca);
    assert(writes_of(v@) =~= w0 + ca_writes(found@, ca@));
}

/// Whether `r` is what is put on top of an image.
pub open spec fn installs(
    config: ImageConfig,
    hosts: Seq<char>,
    found: Seq<Option<String>>,
    ca: Option<Seq<char>>,
    r: Installation,
) -> bool {
    &&& r.agent_path@ == "usr/local/bin/iso-guest-agent"@
    &&& r.agent_mode == AGENT_MODE
    &&& writes_of(r.files@) == all_writes(hosts, found, ca)
    &&& texts_of(r.config.env@) == guest_env(texts_of(config.env@), ca is Some)
    &&& r.config.workdir == config.workdir
    &&& r.config.user == config.user
    &&& r.config.source == config.source
}

/// Works out what is put on top of an image. `hosts` is its `etc/hosts`, empty
/// when there is none; `found` are its three system bundles, where they are
/// there; `ca` is the proxy's certificate, PEM.
pub fn install(
    config: ImageConfig,
    hosts: &str,
    found: &[Option<String>; 3],
    ca: Option<&str>,
) -> (r: Installation)
    ensures
        installs(
            config,
            hosts@,
            found@,
            match ca {
                Some(c) => Some(c@),
                None => None,
            },
            r,
        ),
{
    let mut files: Vec<FileWrite> = Vec::new();
    let mut env = config.env;
    proof {
        assert(writes_of(files@) =~= Seq::<Written>::empty());
    }
    push_write(&mut files, "etc/resolv.conf", "nameserver 172.22.0.1\n");
    push_write(&mut files, "etc/hostname", "iso-guest\n");
    let ghost w1 = writes_of(files@);
    if !contains(hosts, "iso-guest") {
        push_write(
            &mut files,
            "etc/hosts",
            concat2(hosts, "127.0.0.1 localhost\n127.0.1.1 iso-guest\n").as_str(),
        );
    }
    assert(writes_of(files@) =~= w1 + hosts_write(hosts@));
    let ghost w2 = writes_of(files@);
    if let Some(c) = ca {
        push_ca(&mut files, found, c);
        set_ca_variables(&mut env);
    }
    set_variable(
        &mut env,
        "PATH",
        "/usr/local/sbin:/usr/local/bin:/usr/sbin:/usr/bin:/sbin:/bin",
    );
    push_write(
        &mut files,
        "etc/iso/AGENTS.md",
        "# Notes for agents running in this VM\n\nThis VM is the image it was built from, booted under iso with the guest agent as init.\nOutbound network goes through iso's egress proxy on the host: the proxy terminates TLS and\ninjects credentials in flight, so real credentials never exist in here. Use https://; plain\nHTTP and other ports pass only where a tunnel rule allows them. The proxy's CA is in the\nsystem store and in /etc/iso/ca-bundle.crt, which SSL_CERT_FILE and friends point at.\n",
    );
    assert(writes_of(files@) =~= all_writes(
        hosts@,
        found@,
        match ca {
            Some(c) => Some(c@),
            None => None,
        },
    ));
    Installation {
        agent_path: "usr/local/bin/iso-guest-agent".to_string(),
        agent_mode: AGENT_MODE,
        files,
        config: ImageConfig {
            env,
            workdir: config.workdir,
            user: config.user,
            source: config.source,
        },
    }
}

// ---- laws ----

proof fn lemma_with_variable_keeps(env: Seq<Seq<char>>, k: Seq<char>, v: Seq<char>)
    ensures
        env.is_prefix_of(with_variable(env, k, v)),
        sets(with_variable(env, k, v), k),
{
    let e = with_variable(env, k, v);
    assert(env.is_prefix_of(e));
    if !sets(env, k) {
        let n = env.len() as int;
        assert(e[n] == k + "="@ + v);
        assert((k + "="@ + v).subrange(0, (k + "="@).len() as int) =~= k + "="@);
        assert(begins(e[n], k + "="@));
    }
}

proof fn lemma_with_variables_keep(env: Seq<Seq<char>>, vars: Seq<Written>, n: int)
    requires
        0 <= n <= vars.len(),
    ensures
        env.is_prefix_of(with_variables(env, vars, n)),
        forall|i: int|
            0 <= i < n ==> sets(with_variables(env, vars, n), (#[trigger] vars[i]).0),
    decreases n,
{
    if n > 0 {
        lemma_with_variables_keep(env, vars, n - 1);
        let e = with_variables(env, vars, n - 1);
        let f = with_variables(env, vars, n);
        lemma_with_variable_keeps(e, vars[n - 1].0, vars[n - 1].1);
        assert(env.is_prefix_of(f)) by {
            assert forall|i: int| 0 <= i < env.len() implies env[i] == f[i] by {
                assert(e[i] == f[i]);
            }
        }
        assert forall|i: int| 0 <= i < n implies sets(f, (#[trigger] vars[i]).0) by {
            if i < n - 1 {
                lemma_sets_stays(e, f, vars[i].0);
            }
        }
    } else {
        assert(env.is_prefix_of(env));
    }
}

proof fn lemma_sets_stays(e: Seq<Seq<char>>, f: Seq<Seq<char>>, k: Seq<char>)
    requires
        e.is_prefix_of(f),
        sets(e, k),
    ensures
        sets(f, k),
{
    let j = choose|j: int| 0 <= j < e.len() && begins(#[trigger] e[j], k + "="@);
    assert(f[j] == e[j]);
}

/// **Law.** What an image sets in its environment stays as it is; the guest
/// always has a search path; and with a CA every runtime is pointed at it.
pub proof fn law_the_image_environment_is_kept(env: Seq<Seq<char>>, with_ca: bool)
    ensures
        env.is_prefix_of(guest_env(env, with_ca)),
        sets(guest_env(env, with_ca), "PATH"@),
        with_ca ==> forall|i: int|
            0 <= i < 7 ==> sets(guest_env(env, with_ca), (#[trigger] ca_variables()[i]).0),
{
    let e = if with_ca {
        with_variables(env, ca_variables(), 7)
    } else {
        env
    };
    let g = guest_env(env, with_ca);
    lemma_with_variable_keeps(e, "PATH"@, default_path());
    assert(g == with_variable(e, "PATH"@, default_path()));
    if with_ca {
        assert(ca_variables().len() == 7);
        lemma_with_variables_keep(env, ca_variables(), 7);
        assert forall|i: int| 0 <= i < 7 implies sets(g, (#[trigger] ca_variables()[i]).0) by {
            lemma_sets_stays(e, g, ca_variables()[i].0);
        }
    } else {
        assert(env.is_prefix_of(e));
    }
    assert(env.is_prefix_of(g)) by {
        assert forall|i: int| 0 <= i < env.len() implies env[i] == g[i] by {
            assert(e[i] == g[i]);
        }
    }
}

proof fn lemma_bundle_writes(found: Seq<Option<String>>, ca: Seq<char>, n: int, i: int)
    requires
        0 <= i < n <= 3,
        found.len() == 3,
        found[i] is Some,
        !holds(found[i]->0@, trimmed(ca)),
    ensures
        bundle_writes(found, ca, n).contains((bundle_path(i), appended(found[i]->0@, ca))),
    decreases n,
{
    let a = bundle_writes(found, ca, n - 1);
    let b = bundle_write(n - 1, found[n - 1], ca);
    let w = (bundle_path(i), appended(found[i]->0@, ca));
    if i == n - 1 {
        assert(b[0] == w);
        assert((a + b)[a.len() as int] == w);
    } else {
        lemma_bundle_writes(found, ca, n - 1, i);
        let k = choose|k: int| 0 <= k < a.len() && a[k] == w;
        assert((a + b)[k] == w);
    }
}

/// **Law.** A guest trusts the proxy by every way that its programs look: with a
/// CA, it is written on its own, put behind what every system bundle of the
/// image holds unless it stands there already, and put into the store that the
/// image's own tools read; without one nothing of it is written.
pub proof fn law_the_guest_trusts_the_proxy(
    config: ImageConfig,
    hosts: Seq<char>,
    found: Seq<Option<String>>,
    ca: Option<Seq<char>>,
    r: Installation,
)
    requires
        found.len() == 3,
        installs(config, hosts, found, ca, r),
    ensures
        ({
            let w = writes_of(r.files@);
            &&& ca is Some ==> w.contains(("etc/iso/ca.crt"@, ca->0))
            &&& ca is Some ==> w.contains(
                ("usr/local/share/ca-certificates/iso-egress-proxy.crt"@, ca->0),
            )
            &&& ca is Some ==> forall|i: int|
                0 <= i < 3 && (#[trigger] found[i]) is Some && !holds(found[i]->0@, trimmed(ca->0))
                    ==> w.contains((bundle_path(i), appended(found[i]->0@, ca->0)))
            &&& ca is None ==> w.len() <= 4
            &&& w.contains(("etc/resolv.conf"@, "nameserver 172.22.0.1\n"@))
            &&& w.contains(("etc/hostname"@, "iso-guest\n"@))
            &&& !holds(hosts, "iso-guest"@) ==> w.contains(
                ("etc/hosts"@, hosts + "127.0.0.1 localhost\n127.0.1.1 iso-guest\n"@),
            )
            &&& w.last().0 == "etc/iso/AGENTS.md"@
        }),
        r.config.workdir == config.workdir,
        r.config.user == config.user,
        r.config.source == config.source,
        r.agent_path@ == "usr/local/bin/iso-guest-agent"@,
        r.agent_mode == 0x1ed,
{
    let w = writes_of(r.files@);
    let h = hosts_write(hosts);
    assert(w[0] == ("etc/resolv.conf"@, "nameserver 172.22.0.1\n"@));
    assert(w[1] == ("etc/hostname"@, "iso-guest\n"@));
    if !holds(hosts, "iso-guest"@) {
        assert(h[0] == ("etc/hosts"@, hosts + "127.0.0.1 localhost\n127.0.1.1 iso-guest\n"@));
        assert(w[2] == h[0]);
    }
    if let Some(c) = ca {
        let at = 2 + h.len() as int;
        let cw = ca_writes(found, c);
        let bw = bundle_writes(found, c, 3);
        assert forall|k: int| 0 <= k < cw.len() implies #[trigger] cw[k] == w[at + k] by {}
        assert(cw[0] == ("etc/iso/ca.crt"@, c));
        assert(w[at] == cw[0]);
        let last = cw.len() - 1;
        assert(cw[last] == ("usr/local/share/ca-certificates/iso-egress-proxy.crt"@, c));
        assert(w[at + last] == cw[last]);
        assert forall|i: int|
            0 <= i < 3 && (#[trigger] found[i]) is Some && !holds(
                found[i]->0@,
                trimmed(c),
            ) implies w.contains((bundle_path(i), appended(found[i]->0@, c))) by {
            lemma_bundle_writes(found, c, 3, i);
            let k = choose|k: int|
                0 <= k < bw.len() && bw[k] == (bundle_path(i), appended(found[i]->0@, c));
            assert(cw[1 + k] == bw[k]);
            assert(w[at + 1 + k] == cw[1 + k]);
        }
    }
}

proof fn lemma_first_bundle(found: Seq<Option<String>>, n: int, i: int)
    requires
        0 <= i < n <= 3,
        found.len() == 3,
        found[i] is Some,
        found[i]->0@.len() > 0,
        forall|k: int| 0 <= k < i ==> (#[trigger] found[k]) is None || found[k]->0@.len() == 0,
    ensures
        first_bundle(found, n) == found[i]->0@,
        first_bundle(found, i).len() == 0,
    decreases n,
{
    lemma_no_bundle(found, i);
    if i < n - 1 {
        lemma_first_bundle(found, n - 1, i);
    }
}

proof fn lemma_no_bundle(found: Seq<Option<String>>, n: int)
    requires
        0 <= n <= 3,
        found.len() == 3,
        forall|k: int| 0 <= k < n ==> (#[trigger] found[k]) is None || found[k]->0@.len() == 0,
    ensures
        first_bundle(found, n).len() == 0,
    decreases n,
{
    if n > 0 {
        lemma_no_bundle(found, n - 1);
    }
}

/// **Law.** The bundle that runtimes are pointed at holds what the image trusted
/// and the CA behind it: the first of the image's own bundles that holds
/// anything, whole.
pub proof fn law_the_bundle_keeps_what_the_image_trusted(
    found: Seq<Option<String>>,
    ca: Seq<char>,
    i: int,
)
    requires
        found.len() == 3,
        0 <= i < 3,
        found[i] is Some,
        found[i]->0@.len() > 0,
        forall|k: int| 0 <= k < i ==> (#[trigger] found[k]) is None || found[k]->0@.len() == 0,
    ensures
        ca_writes(found, ca).contains(("etc/iso/ca-bundle.crt"@, appended(found[i]->0@, ca))),
        begins(appended(found[i]->0@, ca), found[i]->0@),
        finishes(appended(found[i]->0@, ca), ca),
{
    lemma_first_bundle(found, 3, i);
    let t = found[i]->0@;
    let cw = ca_writes(found, ca);
    assert(cw[cw.len() - 2] == ("etc/iso/ca-bundle.crt"@, appended(t, ca)));
    let a = appended(t, ca);
    assert(a.subrange(0, t.len() as int) =~= t);
    assert(a.subrange(a.len() - ca.len(), a.len() as int) =~= ca);
}

} // verus!
