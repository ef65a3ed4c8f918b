//! Daemon settings: everything is derived from a single configurable state
//! directory, so all persistent and runtime state lives in one place.

use crate::common::network::Bind;
use crate::firecracker::jail::{
    comma_list, jailer_from, kept, says_yes, truthy, JailEnv, JailerConfig,
};
use crate::paths::{joined, join};
use crate::text::{
    concat2, first_word, given, if_given, lemma_order, lines, lines_of, no_later, number,
    parse_number, pieces, same, second_word, text_le, text_of, texts_of, trim, trimmed, word_one,
    word_two,
};
use vstd::prelude::*;
use vstd::string::*;

verus! {

/// The environment that the daemon reads. `veth_net` and `admin_tcp` are there
/// only where they are an address.
#[derive(Debug)]
pub struct Env {
    /// `ISO_STATE_DIR`: root for all state.
    pub state_dir: Option<String>,
    /// `ISO_VG`.
    pub vg: Option<String>,
    /// `ISO_UPLINK`.
    pub uplink: Option<String>,
    /// `ISO_IMAGE_SIZE_GIB`.
    pub image_size_gib: Option<String>,
    /// `ISO_FIRECRACKER_BIN`.
    pub firecracker_bin: Option<String>,
    /// `ISO_VETH_NET`: base of the network that per-slot pairs are carved from.
    pub veth_net: Option<[u8; 4]>,
    /// `ISO_ADMIN_TCP`.
    pub admin_tcp: Option<String>,
    /// `ISO_ADMIN_TLS_DIR`.
    pub admin_tls_dir: Option<String>,
    /// `ISO_ADMIN_SANS`, comma-separated.
    pub admin_sans: Option<String>,
    /// `ISO_ADMIN_INSECURE`.
    pub admin_insecure: Option<String>,
    pub jail: JailEnv,
}

/// What was found out about the host.
#[derive(Debug)]
pub struct Detected {
    /// The default-route interface.
    pub uplink: Option<String>,
    /// The primary address.
    pub primary_ip: Option<String>,
}

/// Fully-resolved configuration for every subsystem.
#[derive(Debug)]
pub struct Settings {
    pub db_path: String,
    pub uplink: String,
    pub host_addr: Option<String>,
    /// A jailed VMM can only attach to a TAP it owns.
    pub tap_owner: Option<(u32, u32)>,
    pub veth_net: [u8; 4],
    pub image_path: String,
    pub image_size: u64,
    pub vg: String,
    pub firecracker_bin: String,
    pub socket_dir: String,
    pub state_dir: String,
    pub jailer: Option<JailerConfig>,
    /// Admin API unix socket.
    pub control_sock: String,
    /// Admin API TCP listener.
    pub control_tcp: String,
    /// Where the admin CA and server identity live.
    pub admin_tls_dir: String,
    /// Serve the TCP listener as plain HTTP with no authentication. For a lab
    /// host on a private network only.
    pub admin_insecure: bool,
    /// Extra names for the server certificate.
    pub admin_extra_sans: Vec<String>,
}

/// Bytes in a GiB.
pub const GIB: u64 = 1_073_741_824;

/// What a variable is set to, or something else.
pub open spec fn set_or(v: Option<String>, other: Seq<char>) -> Seq<char> {
    match given(v) {
        Some(s) => s,
        None => other,
    }
}

fn or_else(v: Option<String>, other: &str) -> (r: String)
    ensures
        r@ == set_or(v, other@),
{
    match if_given(v) {
        Some(s) => s,
        None => other.to_string(),
    }
}

/// The size of the backing image in GiB: what is set, where it is a number.
pub open spec fn image_gib(v: Option<String>) -> int {
    match given(v) {
        Some(s) => match number(s, 10, u64::MAX as int) {
            Some(n) => n,
            None => 100,
        },
        None => 100,
    }
}

fn size_in_gib(v: &Option<String>) -> (n: u64)
    ensures
        n == image_gib(*v),
{
    match if_given(v.clone()) {
        Some(s) => match parse_number(s.as_str(), 10, u64::MAX) {
            Some(n) => n,
            None => 100,
        },
        None => 100,
    }
}

/// Whether the backing image has a size in bytes.
pub fn image_fits(env: &Env) -> (r: bool)
    ensures
        r == (image_gib(env.image_size_gib) * GIB <= u64::MAX),
{
    let n = size_in_gib(&env.image_size_gib);
    n <= 17_179_869_183
}

/// The names that a comma-separated variable lists.
pub open spec fn names_in(v: Option<String>) -> Seq<Seq<char>> {
    match given(v) {
        Some(s) => kept(pieces(s, ',')),
        None => Seq::empty(),
    }
}

/// Whether `s` is what an environment and a host come to.
pub open spec fn resolves(env: Env, host: Detected, s: Settings) -> bool {
    let state = set_or(env.state_dir, "/var/lib/iso"@);
    &&& s.db_path@ == joined(state, "control.db"@)
    &&& s.uplink@ == set_or(
        env.uplink,
        match host.uplink {
            Some(u) => u@,
            None => "eth0"@,
        },
    )
    &&& s.host_addr == host.primary_ip
    &&& s.tap_owner == match s.jailer {
        Some(j) => Some((j.uid, j.gid)),
        None => None,
    }
    &&& match env.veth_net {
        Some(n) => s.veth_net == n,
        None => s.veth_net@ == seq![172u8, 21, 0, 0],
    }
    &&& s.image_path@ == joined(state, "storage.img"@)
    &&& s.image_size == image_gib(env.image_size_gib) * GIB
    &&& s.vg@ == set_or(env.vg, "iso"@)
    &&& s.firecracker_bin@ == set_or(env.firecracker_bin, "firecracker"@)
    &&& s.socket_dir@ == joined(state, "fc/sock"@)
    &&& s.state_dir@ == joined(state, "fc/state"@)
    &&& jailer_from(env.jail, state, s.jailer)
    &&& s.control_sock@ == joined(state, "control.sock"@)
    &&& s.control_tcp@ == match env.admin_tcp {
        Some(a) => a@,
        None => match host.primary_ip {
            Some(ip) => ip@ + ":7070"@,
            None => "0.0.0.0:7070"@,
        },
    }
    &&& s.admin_tls_dir@ == set_or(env.admin_tls_dir, joined(state, "admin-pki"@))
    &&& s.admin_insecure == (given(env.admin_insecure) is Some && says_yes(env.admin_insecure))
    &&& texts_of(s.admin_extra_sans@) == names_in(env.admin_sans)
}

/// Builds settings from the environment and what was found out about the host.
pub fn from_env(env: Env, host: Detected) -> (s: Settings)
    requires
        image_gib(env.image_size_gib) * GIB <= u64::MAX,
    ensures
        resolves(env, host, s),
{
    let ghost e = env;
    let ghost h = host;
    let state = or_else(env.state_dir, "/var/lib/iso");
    let jailer = JailerConfig::from_env(&env.jail, state.as_str());
    let detected = match host.uplink {
        Some(u) => u,
        None => "eth0".to_string(),
    };
    let gib = size_in_gib(&env.image_size_gib);
    let control_tcp = match env.admin_tcp {
        Some(a) => a,
        None => match &host.primary_ip {
            Some(ip) => concat2(ip.as_str(), ":7070"),
            None => "0.0.0.0:7070".to_string(),
        },
    };
    let says = truthy(&env.admin_insecure);
    let insecure = match if_given(env.admin_insecure) {
        Some(_) => says,
        None => false,
    };
    let sans: Vec<String> = match if_given(env.admin_sans) {
        Some(s) => comma_list(s.as_str()),
        None => {
            let v: Vec<String> = Vec::new();
            assert(texts_of(v@) =~= Seq::<Seq<char>>::empty());
            v
        },
    };
    let tap_owner = match &jailer {
        Some(j) => Some((j.uid, j.gid)),
        None => None,
    };
    let veth_net: [u8; 4] = match env.veth_net {
        Some(n) => n,
        None => {
            let n: [u8; 4] = [172, 21, 0, 0];
            assert(n@ =~= seq![172u8, 21, 0, 0]);
            n
        },
    };
    Settings {
        db_path: join(state.as_str(), "control.db"),
        uplink: or_else(env.uplink, detected.as_str()),
        host_addr: host.primary_ip,
        tap_owner,
        veth_net,
        image_path: join(state.as_str(), "storage.img"),
        image_size: gib * GIB,
        vg: or_else(env.vg, "iso"),
        firecracker_bin: or_else(env.firecracker_bin, "firecracker"),
        socket_dir: join(state.as_str(), "fc/sock"),
        state_dir: join(state.as_str(), "fc/state"),
        jailer,
        control_sock: join(state.as_str(), "control.sock"),
        control_tcp,
        admin_tls_dir: or_else(env.admin_tls_dir, join(state.as_str(), "admin-pki").as_str()),
        admin_insecure: insecure,
        admin_extra_sans: sans,
    }
}

/// The interface of the first line that goes everywhere; nothing where a line
/// before it has fewer than two words.
pub open spec fn default_route(rows: Seq<Seq<char>>) -> Option<Seq<char>>
    decreases rows.len(),
{
    if rows.len() == 0 {
        None
    } else {
        match second_word(rows[0]) {
            None => None,
            Some(dest) => if dest == "00000000"@ {
                first_word(rows[0])
            } else {
                default_route(rows.skip(1))
            },
        }
    }
}

/// The default-route interface of a routing table, whose first line is a heading.
pub open spec fn uplink_in(rows: Seq<Seq<char>>) -> Option<Seq<char>> {
    if rows.len() == 0 {
        None
    } else {
        default_route(rows.skip(1))
    }
}

proof fn lemma_first_of_two(s: Seq<char>)
    requires
        second_word(s) is Some,
    ensures
        first_word(s) is Some,
{
    let a = crate::text::trim_front(s);
    if a.len() == 0 {
        assert(a.subrange(0, 0) =~= a);
    }
}

/// The default-route interface, from the kernel's routing table, whose first
/// line is a heading.
pub fn default_uplink(table: &str) -> (r: Option<String>)
    ensures
        text_of(r) == uplink_in(lines_of(table@)),
{
    let v = lines(table);
    let ghost all = lines_of(table@);
    assert(all.len() == v.len());
    let mut i: usize = 1;
    while i < v.len()
        invariant
            1 <= i,
            v.len() > 0 ==> i <= v.len(),
            all == lines_of(table@),
            texts_of(v@) == all,
            v.len() > 0 ==> default_route(all.skip(1)) == default_route(all.skip(i as int)),
        decreases v.len() - i,
    {
        let ghost here = all.skip(i as int);
        proof {
            assert(here[0] == v@[i as int]@);
            assert(here.skip(1) =~= all.skip(i + 1));
        }
        match word_two(v[i].as_str()) {
            None => return None,
            Some(dest) => if same(dest.as_str(), "00000000") {
                proof {
                    lemma_first_of_two(v@[i as int]@);
                }
                return word_one(v[i].as_str());
            },
        }
        i += 1;
    }
    proof {
        if v.len() > 0 {
            assert(all.skip(i as int) =~= Seq::empty());
        }
    }
    None
}

// ---- the names of the server certificate ----

/// Whether texts come in order, each once.
pub open spec fn ascending(v: Seq<Seq<char>>) -> bool {
    forall|i: int, j: int|
        0 <= i < j < v.len() ==> no_later(#[trigger] v[i], #[trigger] v[j]) && v[i] != v[j]
}

/// Whether two lists hold the same texts.
pub open spec fn same_texts(a: Seq<Seq<char>>, b: Seq<Seq<char>>) -> bool {
    forall|s: Seq<char>| a.contains(s) <==> b.contains(s)
}

/// Everything that the certificate could name, before it is put in order.
pub open spec fn all_names(
    bind: Bind,
    primary_ip: Option<String>,
    hostname: Option<String>,
    extra: Seq<String>,
) -> Seq<Seq<char>> {
    seq!["localhost"@, "127.0.0.1"@] + one(bind.dialled()) + one(text_of(primary_ip)) + one(
        match hostname {
            Some(h) => if trimmed(h@).len() == 0 {
                None
            } else {
                Some(trimmed(h@))
            },
            None => None,
        },
    ) + texts_of(extra)
}

pub open spec fn one(o: Option<Seq<char>>) -> Seq<Seq<char>> {
    match o {
        Some(s) => seq![s],
        None => Seq::empty(),
    }
}

/// Puts a text into its place, unless it is there.
fn put_in_order(v: &mut Vec<String>, s: String)
    requires
        ascending(texts_of(old(v)@)),
    ensures
        ascending(texts_of(final(v)@)),
        forall|t: Seq<char>|
            texts_of(final(v)@).contains(t) <==> texts_of(old(v)@).contains(t) || t == s@,
{
    let ghost had = texts_of(v@);
    let mut i: usize = 0;
    while i < v.len() && !text_le(s.as_str(), v[i].as_str())
        invariant
            i <= v.len(),
            had == texts_of(v@),
            forall|k: int| 0 <= k < i ==> !no_later(s@, #[trigger] had[k]),
        decreases v.len() - i,
    {
        i += 1;
    }
    if i < v.len() && same(v[i].as_str(), s.as_str()) {
        assert(had[i as int] == s@);
        return ;
    }
    proof {
        let r = had.insert(i as int, s@);
        if i < had.len() {
            assert(had[i as int] == v@[i as int]@);
        }
        assert forall|j: int, k: int| 0 <= j < k < r.len() implies no_later(
            #[trigger] r[j],
            #[trigger] r[k],
        ) && r[j] != r[k] by {
            if k < i {
                assert(r[j] == had[j] && r[k] == had[k]);
            } else if k == i {
                assert(r[j] == had[j]);
                lemma_order(s@, had[j], s@);
            } else if j < i {
                assert(r[j] == had[j] && r[k] == had[k - 1]);
            } else if j == i {
                assert(r[k] == had[k - 1]);
                if k - 1 > i {
                    assert(no_later(had[i as int], had[k - 1]));
                    lemma_order(s@, had[i as int], had[k - 1]);
                    lemma_order(had[i as int], had[k - 1], had[i as int]);
                }
            } else {
                assert(r[j] == had[j - 1] && r[k] == had[k - 1]);
            }
        }
        assert forall|t: Seq<char>| r.contains(t) <==> had.contains(t) || t == s@ by {
            if had.contains(t) {
                let k = choose|k: int| 0 <= k < had.len() && had[k] == t;
                if k < i {
                    assert(r[k] == t);
                } else {
                    assert(r[k + 1] == t);
                }
            }
            assert(r[i as int] == s@);
            if r.contains(t) {
                let k = choose|k: int| 0 <= k < r.len() && r[k] == t;
                if k < i {
                    assert(had[k] == t);
                } else if k > i {
                    assert(had[k - 1] == t);
                }
            }
        }
    }
    v.insert(i, s);
    assert(texts_of(v@) =~= had.insert(i as int, s@));
}

/// The names the server certificate should carry: loopback, the address that is
/// listened on unless that is unspecified, the host's primary address, its
/// hostname, and anything the operator adds; in order, each once.
pub fn server_sans(
    bind: Bind,
    primary_ip: Option<String>,
    hostname: Option<String>,
    extra: &Vec<String>,
) -> (r: Vec<String>)
    ensures
        ascending(texts_of(r@)),
        same_texts(texts_of(r@), all_names(bind, primary_ip, hostname, extra@)),
{
    let ghost whole = all_names(bind, primary_ip, hostname, extra@);
    let mut all: Vec<String> = Vec::new();
    all.push("localhost".to_string());
    all.push("127.0.0.1".to_string());
    if !bind.unspecified {
        all.push(bind.ip);
    }
    if let Some(ip) = primary_ip {
        all.push(ip);
    }
    if let Some(h) = hostname {
        let t = trim(h.as_str());
        if !t.as_str().is_empty() {
            all.push(t);
        }
    }
    let mut i: usize = 0;
    let ghost start = all@;
    while i < extra.len()
        invariant
            i <= extra.len(),
            texts_of(all@) =~= texts_of(start) + texts_of(extra@).take(i as int),
        decreases extra.len() - i,
    {
        let ghost had = all@;
        all.push(extra[i].clone());
        proof {
            assert(texts_of(all@) =~= texts_of(had).push(extra@[i as int]@));
            assert(texts_of(extra@).take(i + 1) =~= texts_of(extra@).take(i as int).push(
                extra@[i as int]@,
            ));
        }
        i += 1;
    }
    proof {
        assert(texts_of(extra@).take(i as int) =~= texts_of(extra@));
        assert(texts_of(all@) =~= whole);
    }
    let mut out: Vec<String> = Vec::new();
    let mut n: usize = 0;
    while n < all.len()
        invariant
            n <= all.len(),
            texts_of(all@) == whole,
            ascending(texts_of(out@)),
            same_texts(texts_of(out@), whole.take(n as int)),
        decreases all.len() - n,
    {
        let ghost had = texts_of(out@);
        let s = all[n].clone();
        put_in_order(&mut out, s);
        proof {
            assert(whole[n as int] == s@);
            let w = whole.take(n + 1);
            let u = whole.take(n as int);
            assert forall|t: Seq<char>| texts_of(out@).contains(t) <==> w.contains(t) by {
                if u.contains(t) {
                    let k = choose|k: int| 0 <= k < u.len() && u[k] == t;
                    assert(w[k] == t);
                }
                assert(w[n as int] == s@);
                if w.contains(t) && t != s@ {
                    let k = choose|k: int| 0 <= k < w.len() && w[k] == t;
                    assert(u[k] == t);
                }
            }
        }
        n += 1;
    }
    assert(whole.take(n as int) =~= whole);
    out
}

/// The identify socket, beside the admin socket.
pub fn identify_sock(control_sock: &str) -> (r: String)
    ensures
        r@ == (match crate::paths::dir_and_name(control_sock@) {
            Some((d, _)) => joined(d, "identify.sock"@),
            None => "identify.sock"@,
        }),
{
    match crate::paths::split_dir(control_sock) {
        Some((d, _)) => join(d.as_str(), "identify.sock"),
        None => "identify.sock".to_string(),
    }
}

/// **Law.** All state lives under the state directory: with no more than it set,
/// every file and socket is in it.
pub proof fn law_all_state_lives_in_one_place(env: Env, host: Detected, s: Settings)
    requires
        resolves(env, host, s),
        given(env.admin_tls_dir) is None,
    ensures
        ({
            let state = set_or(env.state_dir, "/var/lib/iso"@);
            &&& s.db_path@ == joined(state, "control.db"@)
            &&& s.image_path@ == joined(state, "storage.img"@)
            &&& s.socket_dir@ == joined(state, "fc/sock"@)
            &&& s.state_dir@ == joined(state, "fc/state"@)
            &&& s.control_sock@ == joined(state, "control.sock"@)
            &&& s.admin_tls_dir@ == joined(state, "admin-pki"@)
        }),
{
}

/// **Law.** What is set is used, and what was found out about the host comes
/// before a default: the uplink is the one set, else the one found; the admin
/// API listens where it is told, else on the host's own address; and the jailed
/// VMM owns the TAP exactly where there is a jail.
pub proof fn law_what_is_set_is_used(env: Env, host: Detected, s: Settings)
    requires
        resolves(env, host, s),
    ensures
        env.uplink is Some && env.uplink->0@.len() > 0 ==> s.uplink@ == env.uplink->0@,
        env.uplink is None && host.uplink is Some ==> s.uplink@ == host.uplink->0@,
        env.uplink is None && host.uplink is None ==> s.uplink@ == "eth0"@,
        env.vg is Some && env.vg->0@.len() > 0 ==> s.vg@ == env.vg->0@,
        env.vg is None ==> s.vg@ == "iso"@,
        env.firecracker_bin is Some && env.firecracker_bin->0@.len() > 0 ==> s.firecracker_bin@
            == env.firecracker_bin->0@,
        env.firecracker_bin is None ==> s.firecracker_bin@ == "firecracker"@,
        env.admin_tls_dir is Some && env.admin_tls_dir->0@.len() > 0 ==> s.admin_tls_dir@
            == env.admin_tls_dir->0@,
        env.admin_tcp is Some ==> s.control_tcp@ == env.admin_tcp->0@,
        env.admin_tcp is None && host.primary_ip is Some ==> s.control_tcp@ == host.primary_ip->0@
            + ":7070"@,
        env.admin_tcp is None && host.primary_ip is None ==> s.control_tcp@ == "0.0.0.0:7070"@,
        env.veth_net is Some ==> s.veth_net == env.veth_net->0,
        env.veth_net is None ==> s.veth_net@ == seq![172u8, 21, 0, 0],
        env.state_dir is Some && env.state_dir->0@.len() > 0 ==> s.db_path@ == joined(
            env.state_dir->0@,
            "control.db"@,
        ),
        env.state_dir is None ==> s.db_path@ == joined("/var/lib/iso"@, "control.db"@),
        s.host_addr == host.primary_ip,
        s.tap_owner is Some <==> s.jailer is Some,
        s.tap_owner matches Some(o) ==> o.0 == s.jailer->0.uid && o.1 == s.jailer->0.gid,
        env.admin_insecure is None ==> !s.admin_insecure,
        s.admin_insecure ==> says_yes(env.admin_insecure),
        env.admin_insecure is Some && env.admin_insecure->0@ == "1"@ ==> s.admin_insecure,
        env.image_size_gib is None ==> s.image_size == 100 * GIB,
{
    if env.admin_insecure is Some && env.admin_insecure->0@ == "1"@ {
        reveal_strlit("1");
        let one = env.admin_insecure->0@;
        reveal_with_fuel(crate::text::trim_front, 2);
        reveal_with_fuel(crate::text::trim_back, 2);
        assert(trimmed(one) == one);
        assert(crate::text::lowered(one) =~= one);
    }
}

/// **Law.** The uplink is the interface of the first route that goes everywhere,
/// the heading left out.
pub proof fn law_the_uplink_is_the_default_route(rows: Seq<Seq<char>>, i: int)
    requires
        1 <= i < rows.len(),
        second_word(rows[i]) == Some("00000000"@),
        forall|k: int|
            1 <= k < i ==> second_word(#[trigger] rows[k]) is Some && second_word(rows[k]) != Some(
                "00000000"@,
            ),
    ensures
        uplink_in(rows) == first_word(rows[i]),
{
    let rest = rows.skip(1);
    assert forall|k: int| 0 <= k < i - 1 implies second_word(#[trigger] rest[k]) is Some
        && second_word(rest[k]) != Some("00000000"@) by {
        assert(rest[k] == rows[k + 1]);
    }
    assert(rest[i - 1] == rows[i]);
    lemma_default_route(rest, i - 1);
}

proof fn lemma_default_route(rows: Seq<Seq<char>>, i: int)
    requires
        0 <= i < rows.len(),
        second_word(rows[i]) == Some("00000000"@),
        forall|k: int|
            0 <= k < i ==> second_word(#[trigger] rows[k]) is Some && second_word(rows[k]) != Some(
                "00000000"@,
            ),
    ensures
        default_route(rows) == first_word(rows[i]),
    decreases rows.len(),
{
    if i > 0 {
        let rest = rows.skip(1);
        assert(second_word(rows[0]) is Some);
        assert forall|k: int| 0 <= k < i - 1 implies second_word(#[trigger] rest[k]) is Some
            && second_word(rest[k]) != Some("00000000"@) by {
            assert(rest[k] == rows[k + 1]);
        }
        assert(rest[i - 1] == rows[i]);
        lemma_default_route(rest, i - 1);
    }
}

/// **Law.** The server certificate carries every name that the host can be
/// dialled by: this machine's own, the address listened on unless it is
/// unspecified, the primary address, the hostname, and those added.
pub proof fn law_every_dialled_name_is_carried(
    bind: Bind,
    primary_ip: Option<String>,
    hostname: Option<String>,
    extra: Seq<String>,
)
    ensures
        all_names(bind, primary_ip, hostname, extra).contains("localhost"@),
        all_names(bind, primary_ip, hostname, extra).contains("127.0.0.1"@),
        !bind.unspecified ==> all_names(bind, primary_ip, hostname, extra).contains(bind.ip@),
        primary_ip matches Some(ip) ==> all_names(bind, primary_ip, hostname, extra).contains(ip@),
        hostname matches Some(h) ==> (trimmed(h@).len() > 0 ==> all_names(
            bind,
            primary_ip,
            hostname,
            extra,
        ).contains(trimmed(h@))),
        forall|i: int|
            0 <= i < extra.len() ==> all_names(bind, primary_ip, hostname, extra).contains(
                (#[trigger] extra[i])@,
            ),
        bind.unspecified && primary_ip is None && hostname is None ==> all_names(
            bind,
            primary_ip,
            hostname,
            extra,
        ).len() == 2 + extra.len(),
{
    let a = seq!["localhost"@, "127.0.0.1"@];
    let b = one(bind.dialled());
    let c = one(text_of(primary_ip));
    let all = all_names(bind, primary_ip, hostname, extra);
    let e = texts_of(extra);
    let n = all.len() - e.len();
    assert(all[0] == "localhost"@ && all[1] == "127.0.0.1"@);
    if !bind.unspecified {
        assert(all[2] == bind.ip@);
    }
    if let Some(ip) = primary_ip {
        assert(all[2 + b.len() as int] == ip@);
    }
    if let Some(h) = hostname {
        if trimmed(h@).len() > 0 {
            assert(all[2 + b.len() + c.len() as int] == trimmed(h@));
        }
    }
    assert forall|i: int| 0 <= i < extra.len() implies all.contains((#[trigger] extra[i])@) by {
        assert(e[i] == extra[i]@);
        assert(all[n + i] == e[i]);
    }
}

/// **Law.** The size of the backing image is told in GiB: as many bytes as 1024
/// times 1024 times 1024 for each.
pub proof fn law_an_image_is_sized_in_gib(env: Env, host: Detected, s: Settings)
    requires
        resolves(env, host, s),
    ensures
        s.image_size == image_gib(env.image_size_gib) * (1024 * 1024 * 1024),
{
}

} // verus!
