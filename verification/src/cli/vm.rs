//! Driving VMs through the admin API: each command is one call.

use crate::codec::{
    base64_decode, base64_encode, base64_text, bytes_of, first_bad, hex_shown,
    law_base64_is_unambiguous, law_base64_round_trips, sextets,
};
use crate::cli::admin::{issued, IssuedFiles};
use crate::guest_agent::answer::{reported, RunEnd};
use crate::guest_proto::{ExecResult, FileContent};
use crate::paths::{joined, join};
use crate::text::{
    begins, concat2, concat3, cut, decimal, digit, digit_char, digit_of,
    law_a_number_is_in_range, law_a_text_is_cut_at_its_mark, number, parse_i32, parse_number, push_decimal, quote, quoted,
    signed_number, spelled, split_once, starts_with, texts_of, trim_end_char, without_trailing,
};
use vstd::prelude::*;
use vstd::string::*;

verus! {

/// Where the admin API is and how to authenticate to it.
#[derive(Debug)]
pub struct Conn {
    /// Admin API base URL.
    pub server: String,
    /// Directory holding `ca.crt`, `<client>.crt` and `<client>.key`.
    pub creds: Option<String>,
    /// Name of the client certificate in `creds`.
    pub client: String,
    /// Plain HTTP, for a daemon that serves it.
    pub insecure: bool,
}

/// A command on VMs.
#[derive(Debug)]
pub struct Vm {
    pub conn: Conn,
    pub cmd: VmCmd,
}

#[derive(Debug)]
pub enum VmCmd {
    /// List VMs.
    List,
    /// Show one VM.
    Get { id: String },
    /// Create and boot a VM.
    Create(Create),
    /// Destroy a VM, whatever its lifecycle.
    Rm { id: String },
    /// Boot a stopped durable VM, or resume a suspended one.
    Start { id: String },
    /// Shut a VM down gracefully.
    Stop { id: String },
    /// Kill a VM.
    Halt { id: String },
    /// Pause and snapshot a VM in place.
    Suspend { id: String },
    /// Change egress policy on a running VM.
    Policy {
        id: String,
        egress: Option<String>,
        principal: Option<String>,
        /// Replace the proxied-domain list.
        allow: Vec<String>,
        /// Replace the rules.
        rules: Vec<String>,
    },
    /// Ask the guest agent who it is.
    Agent { id: String },
    /// Run a program inside the VM; its output and exit status become ours. The
    /// limit is in seconds.
    Exec {
        id: String,
        cwd: Option<String>,
        timeout: Option<u64>,
        env: Vec<String>,
        stdin: Option<String>,
        command: Vec<String>,
    },
    /// Print a file from inside the VM.
    Cat { id: String, path: String },
    /// Write a file inside the VM from a local file, literal content or stdin.
    Put {
        id: String,
        path: String,
        from: Option<String>,
        content: Option<String>,
        /// Permission bits, octal.
        mode: Option<String>,
        /// Create missing parent directories.
        mkdir: bool,
    },
    /// List a directory inside the VM.
    Ls { id: String, path: String },
    /// Remove a path inside the VM.
    RmPath { id: String, path: String, recursive: bool },
}

#[derive(Debug)]
pub struct Create {
    pub template: String,
    /// Stored as the `name` label and shown to the guest's metadata.
    pub name: Option<String>,
    /// `allow`, `proxy` or `deny`.
    pub egress: String,
    pub principal: Option<String>,
    /// Domains routed through the egress proxy.
    pub allow: Vec<String>,
    /// Egress rules, such as `allow https://*/**`.
    pub rules: Vec<String>,
    /// VM ports to forward: `PORT` or `PORT/udp`. The host port is allocated.
    pub forwards: Vec<String>,
    /// Keep the rootfs across stops.
    pub durable: bool,
    /// `never`, `on_failure` or `always`.
    pub restart: String,
    pub vcpus: Option<u32>,
    pub mem_mib: Option<u32>,
    /// Extra labels, `KEY=VALUE`.
    pub labels: Vec<String>,
    /// Print only the id.
    pub quiet: bool,
}

// ---- connecting ----

/// The API to speak to.
#[derive(Debug)]
pub enum Target {
    Plain { base: String },
    /// With the CA to trust and the identity to present, as files.
    Tls { base: String, ca: String, cert: String, key: String },
}

/// The base URL for plain HTTP: a server without a scheme gets one.
pub open spec fn plain_url(server: Seq<char>) -> Seq<char> {
    if begins(server, "http"@) {
        server
    } else {
        "http://"@ + server
    }
}

/// Whether `r` is which API to speak to, and how.
pub open spec fn connects(c: Conn, r: Result<Target, String>) -> bool {
    if c.insecure {
        r matches Ok(Target::Plain { base }) && base@ == without_trailing(plain_url(c.server@), '/')
    } else {
        match c.creds {
            None => r matches Err(m) && m@
                == "--creds DIR (or ISO_CREDS) is required unless --insecure"@,
            Some(dir) => {
                &&& r matches Ok(Target::Tls { base, ca, cert, key })
                &&& base@ == without_trailing(c.server@, '/')
                &&& ca@ == joined(dir@, "ca.crt"@)
                &&& cert@ == joined(dir@, c.client@ + ".crt"@)
                &&& key@ == joined(dir@, c.client@ + ".key"@)
            },
        }
    }
}

/// Which API to speak to, and how.
pub fn connect(c: &Conn) -> (r: Result<Target, String>)
    ensures
        connects(*c, r),
{
    if c.insecure {
        let url = if starts_with(c.server.as_str(), "http") {
            c.server.clone()
        } else {
            concat2("http://", c.server.as_str())
        };
        return Ok(Target::Plain { base: trim_end_char(url.as_str(), '/') });
    }
    match &c.creds {
        None => Err("--creds DIR (or ISO_CREDS) is required unless --insecure".to_string()),
        Some(dir) => Ok(
            Target::Tls {
                base: trim_end_char(c.server.as_str(), '/'),
                ca: join(dir.as_str(), "ca.crt"),
                cert: join(dir.as_str(), concat2(c.client.as_str(), ".crt").as_str()),
                key: join(dir.as_str(), concat2(c.client.as_str(), ".key").as_str()),
            },
        ),
    }
}

// ---- arguments ----

/// Pairs as sequences.
pub open spec fn pairs_of(v: Seq<(String, String)>) -> Seq<(Seq<char>, Seq<char>)> {
    v.map_values(|p: (String, String)| (p.0@, p.1@))
}

/// The pairs that `KEY=VALUE` arguments give, or what is wrong with the first
/// that is none.
pub open spec fn key_values(v: Seq<Seq<char>>, what: Seq<char>) -> Result<
    Seq<(Seq<char>, Seq<char>)>,
    Seq<char>,
>
    decreases v.len(),
{
    if v.len() == 0 {
        Ok(Seq::empty())
    } else {
        match key_values(v.drop_last(), what) {
            Err(e) => Err(e),
            Ok(before) => match cut(v.last(), '=') {
                Some(p) => Ok(before.push(p)),
                None => Err(what + " must be KEY=VALUE, got "@ + quoted(v.last())),
            },
        }
    }
}

proof fn lemma_key_values_prefix(v: Seq<Seq<char>>, what: Seq<char>, n: int)
    requires
        0 <= n <= v.len(),
        key_values(v.take(n), what) is Err,
    ensures
        key_values(v, what) == key_values(v.take(n), what),
    decreases v.len() - n,
{
    if n == v.len() {
        assert(v.take(n) =~= v);
    } else {
        assert(v.take(n + 1).drop_last() =~= v.take(n));
        lemma_key_values_prefix(v, what, n + 1);
    }
}

/// The pairs that `KEY=VALUE` arguments give.
pub fn kv(pairs: &Vec<String>, what: &str) -> (r: Result<Vec<(String, String)>, String>)
    ensures
        match r {
            Ok(v) => key_values(texts_of(pairs@), what@) == Ok::<_, Seq<char>>(pairs_of(v@)),
            Err(m) => key_values(texts_of(pairs@), what@) == Err::<
                Seq<(Seq<char>, Seq<char>)>,
                _,
            >(m@),
        },
{
    let ghost t = texts_of(pairs@);
    let mut out: Vec<(String, String)> = Vec::new();
    let mut i: usize = 0;
    assert(t.take(0) =~= Seq::<Seq<char>>::empty());
    assert(pairs_of(out@) =~= Seq::<(Seq<char>, Seq<char>)>::empty());
    while i < pairs.len()
        invariant
            i <= pairs.len(),
            t == texts_of(pairs@),
            key_values(t.take(i as int), what@) == Ok::<_, Seq<char>>(pairs_of(out@)),
        decreases pairs.len() - i,
    {
        proof {
            let w = t.take(i + 1);
            assert(w.drop_last() =~= t.take(i as int));
            assert(w.last() == pairs@[i as int]@);
        }
        match split_once(pairs[i].as_str(), '=') {
            Some(p) => {
                let ghost had = out@;
                out.push(p);
                assert(pairs_of(out@) =~= pairs_of(had).push((p.0@, p.1@)));
            },
            None => {
                let q = quote(pairs[i].as_str());
                proof {
                    lemma_key_values_prefix(t, what@, i + 1);
                }
                return Err(concat3(what, " must be KEY=VALUE, got ", q.as_str()));
            },
        }
        i += 1;
    }
    assert(t.take(i as int) =~= t);
    Ok(out)
}

/// A port to forward: its number, and its protocol as it was named.
#[derive(Debug)]
pub struct Forward {
    pub vm_port: u16,
    pub proto: String,
}

/// Forwards as plain values.
pub open spec fn forwards_of(v: Seq<Forward>) -> Seq<(u16, Seq<char>)> {
    v.map_values(|f: Forward| (f.vm_port, f.proto@))
}

/// A port and a protocol: `PORT` or `PORT/proto`.
pub open spec fn port_and_proto(s: Seq<char>) -> (Seq<char>, Seq<char>) {
    match cut(s, '/') {
        Some(p) => p,
        None => (s, "tcp"@),
    }
}

/// The forwards that arguments ask for, or what is wrong with the first that is
/// none.
pub open spec fn forwarded(v: Seq<Seq<char>>) -> Result<Seq<(u16, Seq<char>)>, Seq<char>>
    decreases v.len(),
{
    if v.len() == 0 {
        Ok(Seq::empty())
    } else {
        match forwarded(v.drop_last()) {
            Err(e) => Err(e),
            Ok(before) => {
                let (port, proto) = port_and_proto(v.last());
                match number(port, 10, u16::MAX as int) {
                    Some(n) => Ok(before.push((n as u16, proto))),
                    None => Err("bad --forward "@ + quoted(v.last())),
                }
            },
        }
    }
}

proof fn lemma_forwarded_prefix(v: Seq<Seq<char>>, n: int)
    requires
        0 <= n <= v.len(),
        forwarded(v.take(n)) is Err,
    ensures
        forwarded(v) == forwarded(v.take(n)),
    decreases v.len() - n,
{
    if n == v.len() {
        assert(v.take(n) =~= v);
    } else {
        assert(v.take(n + 1).drop_last() =~= v.take(n));
        lemma_forwarded_prefix(v, n + 1);
    }
}

/// The forwards that arguments ask for.
pub fn parse_forwards(specs: &Vec<String>) -> (r: Result<Vec<Forward>, String>)
    ensures
        match r {
            Ok(v) => forwarded(texts_of(specs@)) == Ok::<_, Seq<char>>(forwards_of(v@)),
            Err(m) => forwarded(texts_of(specs@)) == Err::<Seq<(u16, Seq<char>)>, _>(m@),
        },
{
    let ghost t = texts_of(specs@);
    let mut out: Vec<Forward> = Vec::new();
    let mut i: usize = 0;
    assert(t.take(0) =~= Seq::<Seq<char>>::empty());
    assert(forwards_of(out@) =~= Seq::<(u16, Seq<char>)>::empty());
    while i < specs.len()
        invariant
            i <= specs.len(),
            t == texts_of(specs@),
            forwarded(t.take(i as int)) == Ok::<_, Seq<char>>(forwards_of(out@)),
        decreases specs.len() - i,
    {
        proof {
            let w = t.take(i + 1);
            assert(w.drop_last() =~= t.take(i as int));
            assert(w.last() == specs@[i as int]@);
        }
        let (port, proto) = match split_once(specs[i].as_str(), '/') {
            Some(p) => p,
            None => (specs[i].clone(), "tcp".to_string()),
        };
        match parse_number(port.as_str(), 10, u16::MAX as u64) {
            Some(n) => {
                let f = Forward { vm_port: n as u16, proto };
                let ghost had = out@;
                out.push(f);
                assert(forwards_of(out@) =~= forwards_of(had).push((f.vm_port, f.proto@)));
            },
            None => {
                proof {
                    lemma_forwarded_prefix(t, i + 1);
                }
                return Err(concat2("bad --forward ", quote(specs[i].as_str()).as_str()));
            },
        }
        i += 1;
    }
    assert(t.take(i as int) =~= t);
    Ok(out)
}

// ---- calls ----

/// The body of a create. Of two labels with one key, the later counts.
#[derive(Debug)]
pub struct CreateBody {
    pub template: String,
    pub egress: String,
    pub lifecycle: &'static str,
    pub restart: String,
    pub principal: Option<String>,
    pub allow: Vec<String>,
    pub rules: Vec<String>,
    pub ingress: Vec<Forward>,
    pub labels: Vec<(String, String)>,
    pub vcpus: Option<i32>,
    pub mem_mib: Option<i32>,
}

/// The body of an exec. Of two variables with one name, the later counts.
#[derive(Debug)]
pub struct ExecBody {
    pub cmd: String,
    pub args: Vec<String>,
    pub cwd: Option<String>,
    pub env: Vec<(String, String)>,
    pub stdin: Option<String>,
    pub timeout_ms: Option<i64>,
}

/// Where the content of a file to write comes from.
#[derive(Debug)]
pub enum Source {
    File(String),
    Text(String),
    Stdin,
}

/// One call of the admin API.
#[derive(Debug)]
pub enum Call {
    List,
    GetOne { id: String },
    Create { body: CreateBody, quiet: bool },
    Destroy { id: String },
    Start { id: String },
    Stop { id: String },
    Halt { id: String },
    Suspend { id: String },
    SetPolicy {
        id: String,
        egress: Option<String>,
        principal: Option<String>,
        allow: Option<Vec<String>>,
        rules: Option<Vec<String>>,
    },
    AgentInfo { id: String },
    Exec { id: String, program: ExecBody },
    ReadFile { id: String, path: String },
    /// The content is still to be read.
    WriteFile { id: String, path: String, source: Source, mode: Option<String>, mkdir: bool },
    ListDir { id: String, path: String },
    RemovePath { id: String, path: String, recursive: bool },
}

/// A number in the 32 bits that the API's integers have: past the largest it
/// starts over from the smallest.
pub open spec fn wrap_32(n: Option<u32>) -> Option<i32> {
    match n {
        Some(v) => Some((if v <= i32::MAX {
            v as int
        } else {
            v - 0x1_0000_0000
        }) as i32),
        None => None,
    }
}

fn to_i32(n: Option<u32>) -> (r: Option<i32>)
    ensures
        r == wrap_32(n),
{
    match n {
        Some(v) => Some(
            if v <= i32::MAX as u32 {
                v as i32
            } else {
                let down: u32 = u32::MAX - v;
                -1 - (down as i32)
            },
        ),
        None => None,
    }
}

/// A limit in seconds as the API's milliseconds, in 64 bits: past the largest
/// they start over from the smallest.
pub open spec fn limit_ms(seconds: Option<u64>) -> Option<i64> {
    match seconds {
        Some(s) => Some((if s * 1000 <= i64::MAX {
            s * 1000
        } else {
            s * 1000 - 0x1_0000_0000_0000_0000
        }) as i64),
        None => None,
    }
}

fn to_ms(seconds: Option<u64>) -> (r: Option<i64>)
    requires
        seconds matches Some(s) ==> s * 1000 <= u64::MAX,
    ensures
        r == limit_ms(seconds),
{
    match seconds {
        Some(s) => {
            let ms: u64 = s * 1000;
            Some(
                if ms <= i64::MAX as u64 {
                    ms as i64
                } else {
                    let down: u64 = u64::MAX - ms;
                    -1 - (down as i64)
                },
            )
        },
        None => None,
    }
}

/// The labels that a create gives: those named, then its name.
pub open spec fn labelled(
    labels: Seq<(Seq<char>, Seq<char>)>,
    name: Option<String>,
) -> Seq<(Seq<char>, Seq<char>)> {
    match name {
        Some(n) => labels.push(("name"@, n@)),
        None => labels,
    }
}

/// Whether `r` is the call that a create makes.
pub open spec fn creates(a: Create, r: Result<Call, String>) -> bool {
    match key_values(texts_of(a.labels@), "--label"@) {
        Err(e) => r matches Err(m) && m@ == e,
        Ok(labels) => match forwarded(texts_of(a.forwards@)) {
            Err(e) => r matches Err(m) && m@ == e,
            Ok(ports) => {
                &&& r matches Ok(Call::Create { body, quiet })
                &&& quiet == a.quiet
                &&& body.template == a.template
                &&& body.egress == a.egress
                &&& body.lifecycle@ == (if a.durable {
                    "durable"@
                } else {
                    "ephemeral"@
                })
                &&& body.restart == a.restart
                &&& body.principal == a.principal
                &&& body.allow == a.allow
                &&& body.rules == a.rules
                &&& forwards_of(body.ingress@) == ports
                &&& pairs_of(body.labels@) == labelled(labels, a.name)
                &&& body.vcpus == wrap_32(a.vcpus)
                &&& body.mem_mib == wrap_32(a.mem_mib)
            },
        },
    }
}

fn create_call(a: Create) -> (r: Result<Call, String>)
    ensures
        creates(a, r),
{
    let mut labels = match kv(&a.labels, "--label") {
        Ok(v) => v,
        Err(e) => return Err(e),
    };
    let ghost given = labels@;
    let ghost name = a.name;
    if let Some(n) = a.name {
        let pair = ("name".to_string(), n);
        labels.push(pair);
        assert(pairs_of(labels@) =~= pairs_of(given).push(("name"@, n@)));
    }
    assert(pairs_of(labels@) == labelled(pairs_of(given), name));
    let ingress = match parse_forwards(&a.forwards) {
        Ok(v) => v,
        Err(e) => return Err(e),
    };
    Ok(
        Call::Create {
            body: CreateBody {
                template: a.template,
                egress: a.egress,
                lifecycle: if a.durable {
                    "durable"
                } else {
                    "ephemeral"
                },
                restart: a.restart,
                principal: a.principal,
                allow: a.allow,
                rules: a.rules,
                ingress,
                labels,
                vcpus: to_i32(a.vcpus),
                mem_mib: to_i32(a.mem_mib),
            },
            quiet: a.quiet,
        },
    )
}

/// Whether `r` is the call that an exec makes.
pub open spec fn executes(cmd: VmCmd, r: Result<Call, String>) -> bool {
    match cmd {
        VmCmd::Exec { id, cwd, timeout, env, stdin, command } => match key_values(
            texts_of(env@),
            "--env"@,
        ) {
            Err(e) => r matches Err(m) && m@ == e,
            Ok(pairs) => if command@.len() == 0 {
                r matches Err(m) && m@ == "a command is required"@
            } else {
                &&& r matches Ok(Call::Exec { id: i, program: body })
                &&& i == id
                &&& body.cmd == command@[0]
                &&& body.args@ == command@.skip(1)
                &&& body.cwd == cwd
                &&& pairs_of(body.env@) == pairs
                &&& body.stdin == stdin
                &&& body.timeout_ms == limit_ms(timeout)
            },
        },
        _ => false,
    }
}

/// Whether `r` is where the content of a file to write comes from.
pub open spec fn comes_from(from: Option<String>, content: Option<String>, r: Source) -> bool {
    match (from, content) {
        (Some(p), _) => r == Source::File(p),
        (None, Some(s)) => r == Source::Text(s),
        (None, None) => r is Stdin,
    }
}

/// A list that was given, where anything is in it.
pub open spec fn some_list(v: Vec<String>) -> Option<Vec<String>> {
    if v@.len() == 0 {
        None
    } else {
        Some(v)
    }
}

fn if_any(v: Vec<String>) -> (r: Option<Vec<String>>)
    ensures
        r == some_list(v),
{
    if v.len() == 0 {
        None
    } else {
        Some(v)
    }
}

/// Whether `r` is the call that a command makes, or what is wrong with it.
pub open spec fn calls(cmd: VmCmd, r: Result<Call, String>) -> bool {
    match cmd {
        VmCmd::List => r == Ok::<Call, String>(Call::List),
        VmCmd::Get { id } => r == Ok::<Call, String>(Call::GetOne { id }),
        VmCmd::Create(a) => creates(a, r),
        VmCmd::Rm { id } => r == Ok::<Call, String>(Call::Destroy { id }),
        VmCmd::Start { id } => r == Ok::<Call, String>(Call::Start { id }),
        VmCmd::Stop { id } => r == Ok::<Call, String>(Call::Stop { id }),
        VmCmd::Halt { id } => r == Ok::<Call, String>(Call::Halt { id }),
        VmCmd::Suspend { id } => r == Ok::<Call, String>(Call::Suspend { id }),
        VmCmd::Policy { id, egress, principal, allow, rules } => r == Ok::<Call, String>(
            Call::SetPolicy {
                id,
                egress,
                principal,
                allow: some_list(allow),
                rules: some_list(rules),
            },
        ),
        VmCmd::Agent { id } => r == Ok::<Call, String>(Call::AgentInfo { id }),
        VmCmd::Exec { .. } => executes(cmd, r),
        VmCmd::Cat { id, path } => r == Ok::<Call, String>(Call::ReadFile { id, path }),
        VmCmd::Put { id, path, from, content, mode, mkdir } => {
            &&& r matches Ok(Call::WriteFile { id: i, path: p, source, mode: m, mkdir: k })
            &&& i == id
            &&& p == path
            &&& m == mode
            &&& k == mkdir
            &&& comes_from(from, content, source)
        },
        VmCmd::Ls { id, path } => r == Ok::<Call, String>(Call::ListDir { id, path }),
        VmCmd::RmPath { id, path, recursive } => r == Ok::<Call, String>(
            Call::RemovePath { id, path, recursive },
        ),
    }
}

/// The call that a command makes. A limit in seconds must be one in
/// milliseconds too, and a file to write has one source.
pub fn run(cmd: VmCmd) -> (r: Result<Call, String>)
    requires
        cmd matches VmCmd::Exec { timeout: Some(s), .. } ==> s * 1000 <= u64::MAX,
        cmd matches VmCmd::Put { from, content, .. } ==> from is None || content is None,
    ensures
        calls(cmd, r),
{
    match cmd {
        VmCmd::List => Ok(Call::List),
        VmCmd::Get { id } => Ok(Call::GetOne { id }),
        VmCmd::Create(a) => create_call(a),
        VmCmd::Rm { id } => Ok(Call::Destroy { id }),
        VmCmd::Start { id } => Ok(Call::Start { id }),
        VmCmd::Stop { id } => Ok(Call::Stop { id }),
        VmCmd::Halt { id } => Ok(Call::Halt { id }),
        VmCmd::Suspend { id } => Ok(Call::Suspend { id }),
        VmCmd::Policy { id, egress, principal, allow, rules } => Ok(
            Call::SetPolicy {
                id,
                egress,
                principal,
                allow: if_any(allow),
                rules: if_any(rules),
            },
        ),
        VmCmd::Agent { id } => Ok(Call::AgentInfo { id }),
        VmCmd::Exec { id, cwd, timeout, env, stdin, command } => {
            let env = match kv(&env, "--env") {
                Ok(v) => v,
                Err(e) => return Err(e),
            };
            if command.len() == 0 {
                return Err("a command is required".to_string());
            }
            let mut args = command;
            let cmd = args.remove(0);
            assert(args@ =~= command@.skip(1));
            let timeout_ms = to_ms(timeout);
            Ok(Call::Exec { id, program: ExecBody { cmd, args, cwd, env, stdin, timeout_ms } })
        },
        VmCmd::Cat { id, path } => Ok(Call::ReadFile { id, path }),
        VmCmd::Put { id, path, from, content, mode, mkdir } => {
            let source = match (from, content) {
                (Some(p), _) => Source::File(p),
                (None, Some(s)) => Source::Text(s),
                (None, None) => Source::Stdin,
            };
            Ok(Call::WriteFile { id, path, source, mode, mkdir })
        },
        VmCmd::Ls { id, path } => Ok(Call::ListDir { id, path }),
        VmCmd::RmPath { id, path, recursive } => Ok(Call::RemovePath { id, path, recursive }),
    }
}

/// The method of a call.
#[derive(Clone, Copy, Debug, PartialEq, Eq, Structural)]
pub enum Method {
    Get,
    Post,
    Put,
    Patch,
    Delete,
}

/// The method and path of a call.
pub open spec fn endpoint(c: Call) -> (Method, Seq<char>) {
    match c {
        Call::List => (Method::Get, "/vms"@),
        Call::GetOne { id } => (Method::Get, "/vms/"@ + id@),
        Call::Create { .. } => (Method::Post, "/vms"@),
        Call::Destroy { id } => (Method::Delete, "/vms/"@ + id@),
        Call::Start { id } => (Method::Post, "/vms/"@ + id@ + "/start"@),
        Call::Stop { id } => (Method::Post, "/vms/"@ + id@ + "/stop"@),
        Call::Halt { id } => (Method::Post, "/vms/"@ + id@ + "/halt"@),
        Call::Suspend { id } => (Method::Post, "/vms/"@ + id@ + "/suspend"@),
        Call::SetPolicy { id, .. } => (Method::Patch, "/vms/"@ + id@ + "/policy"@),
        Call::AgentInfo { id } => (Method::Get, "/vms/"@ + id@ + "/agent"@),
        Call::Exec { id, .. } => (Method::Post, "/vms/"@ + id@ + "/exec"@),
        Call::ReadFile { id, .. } => (Method::Get, "/vms/"@ + id@ + "/files"@),
        Call::WriteFile { id, .. } => (Method::Put, "/vms/"@ + id@ + "/files"@),
        Call::ListDir { id, .. } => (Method::Get, "/vms/"@ + id@ + "/dir"@),
        Call::RemovePath { id, .. } => (Method::Delete, "/vms/"@ + id@ + "/files"@),
    }
}

/// The method and path of a call.
pub fn request_line(c: &Call) -> (r: (Method, String))
    ensures
        r.0 == endpoint(*c).0,
        r.1@ == endpoint(*c).1,
{
    match c {
        Call::List => (Method::Get, "/vms".to_string()),
        Call::GetOne { id } => (Method::Get, concat2("/vms/", id.as_str())),
        Call::Create { .. } => (Method::Post, "/vms".to_string()),
        Call::Destroy { id } => (Method::Delete, concat2("/vms/", id.as_str())),
        Call::Start { id } => (Method::Post, concat3("/vms/", id.as_str(), "/start")),
        Call::Stop { id } => (Method::Post, concat3("/vms/", id.as_str(), "/stop")),
        Call::Halt { id } => (Method::Post, concat3("/vms/", id.as_str(), "/halt")),
        Call::Suspend { id } => (Method::Post, concat3("/vms/", id.as_str(), "/suspend")),
        Call::SetPolicy { id, .. } => (Method::Patch, concat3("/vms/", id.as_str(), "/policy")),
        Call::AgentInfo { id } => (Method::Get, concat3("/vms/", id.as_str(), "/agent")),
        Call::Exec { id, .. } => (Method::Post, concat3("/vms/", id.as_str(), "/exec")),
        Call::ReadFile { id, .. } => (Method::Get, concat3("/vms/", id.as_str(), "/files")),
        Call::WriteFile { id, .. } => (Method::Put, concat3("/vms/", id.as_str(), "/files")),
        Call::ListDir { id, .. } => (Method::Get, concat3("/vms/", id.as_str(), "/dir")),
        Call::RemovePath { id, .. } => (Method::Delete, concat3("/vms/", id.as_str(), "/files")),
    }
}

/// Whether `r` is the body of a write.
pub open spec fn is_put(
    bytes: Seq<u8>,
    mode: Option<String>,
    r: Result<(String, Option<i32>), String>,
) -> bool {
    match mode {
        None => r matches Ok(b) && b.0@ == base64_text(bytes) && b.1 is None,
        Some(m) => match signed_number(m@, 8) {
            Some(n) => r matches Ok(b) && b.0@ == base64_text(bytes) && (b.1 matches Some(x) && x
                == n),
            None => r matches Err(e) && e@ == "bad --mode "@ + quoted(m@) + ", expected octal"@,
        },
    }
}

/// The body of a write: the content encoded, and its mode as a number.
pub fn put_body(bytes: &[u8], mode: &Option<String>) -> (r: Result<(String, Option<i32>), String>)
    ensures
        is_put(bytes@, *mode, r),
{
    let mode: Option<i32> = match mode {
        None => None,
        Some(m) => match parse_i32(m.as_str(), 8) {
            Some(n) => Some(n),
            None => {
                let q = quote(m.as_str());
                return Err(concat3("bad --mode ", q.as_str(), ", expected octal"));
            },
        },
    };
    Ok((base64_encode(bytes), mode))
}

// ---- answers ----

/// `n` spaces.
pub open spec fn spaces(n: int) -> Seq<char> {
    Seq::new(
        (if n > 0 {
            n
        } else {
            0
        }) as nat,
        |i: int| ' ',
    )
}

/// A text with spaces after it, to a width.
pub open spec fn padded(s: Seq<char>, width: int) -> Seq<char> {
    s + spaces(width - s.len())
}

/// A text with spaces before it, to a width.
pub open spec fn padded_left(s: Seq<char>, width: int) -> Seq<char> {
    spaces(width - s.len()) + s
}

fn space_text(n: usize) -> (r: String)
    ensures
        r@ == spaces(n as int),
{
    let mut s = String::new();
    let mut i: usize = 0;
    assert(s@ =~= spaces(0));
    while i < n
        invariant
            i <= n,
            s@ == spaces(i as int),
        decreases n - i,
    {
        s.push(' ');
        i += 1;
        assert(s@ =~= spaces(i as int));
    }
    s
}

fn pad(s: &str, width: usize) -> (r: String)
    ensures
        r@ == padded(s@, width as int),
{
    let n: usize = s.unicode_len();
    let more: usize = if n < width {
        width - n
    } else {
        0
    };
    let t = space_text(more);
    assert(spaces(more as int) =~= spaces(width - s@.len()));
    concat2(s, t.as_str())
}

fn pad_left(s: &str, width: usize) -> (r: String)
    ensures
        r@ == padded_left(s@, width as int),
{
    let n: usize = s.unicode_len();
    let more: usize = if n < width {
        width - n
    } else {
        0
    };
    let t = space_text(more);
    assert(spaces(more as int) =~= spaces(width - s@.len()));
    concat2(t.as_str(), s)
}

/// A line of the list of VMs.
pub open spec fn vm_line(
    id: Seq<char>,
    state: Seq<char>,
    template: Seq<char>,
    egress: Seq<char>,
    name: Seq<char>,
) -> Seq<char> {
    padded(id, 36) + "  "@ + padded(state, 9) + "  "@ + padded(template, 12) + "  "@ + padded(
        egress,
        6,
    ) + "  "@ + name
}

/// A line of the list of VMs.
pub fn list_line(id: &str, state: &str, template: &str, egress: &str, name: &str) -> (r: String)
    ensures
        r@ == vm_line(id@, state@, template@, egress@, name@),
{
    let mut s = concat2(pad(id, 36).as_str(), "  ");
    s.append(pad(state, 9).as_str());
    s.append("  ");
    s.append(pad(template, 12).as_str());
    s.append("  ");
    s.append(pad(egress, 6).as_str());
    s.append("  ");
    s.append(name);
    s
}

/// The heading of the list of VMs.
pub fn list_heading() -> (r: String)
    ensures
        r@ == vm_line("ID"@, "STATE"@, "TEMPLATE"@, "EGRESS"@, "NAME"@),
{
    list_line("ID", "STATE", "TEMPLATE", "EGRESS", "NAME")
}

/// What is printed of a VM that was created.
pub fn created_line(id: &str, quiet: bool) -> (r: String)
    ensures
        r@ == if quiet {
            id@
        } else {
            "created "@ + id@
        },
{
    if quiet {
        id.to_string()
    } else {
        concat2("created ", id)
    }
}

/// The octal digits of `n`, without leading zeros.
pub open spec fn octal(n: nat) -> Seq<char>
    decreases n,
{
    if n < 8 {
        seq![digit_char(n as int)]
    } else {
        octal(n / 8).push(digit_char((n % 8) as int))
    }
}

fn push_octal(s: &mut String, n: u32)
    ensures
        final(s)@ == old(s)@ + octal(n as nat),
    decreases n,
{
    if n >= 8 {
        push_octal(s, n / 8);
    }
    let c: char = digit((n % 8) as u8);
    s.push(c);
    proof {
        if n < 8 {
            assert(old(s)@.push(c) =~= old(s)@ + octal(n as nat));
        } else {
            assert((old(s)@ + octal((n / 8) as nat)).push(c) =~= old(s)@ + octal(n as nat));
        }
    }
}

/// A line of a directory listing.
pub fn entry_line(kind: &str, size: u64, mode: u32, name: &str) -> (r: String)
    ensures
        r@ == padded(kind@, 8) + " "@ + padded_left(decimal(size as nat), 10) + "  "@ + octal(
            mode as nat,
        ) + "  "@ + name@,
{
    let mut s = concat2(pad(kind, 8).as_str(), " ");
    let n = crate::text::decimal_text(size);
    s.append(pad_left(n.as_str(), 10).as_str());
    s.append("  ");
    push_octal(&mut s, mode);
    s.append("  ");
    s.append(name);
    s
}

/// What is said of a write.
pub fn wrote_line(bytes: u64) -> (r: String)
    ensures
        r@ == "wrote "@ + decimal(bytes as nat) + " bytes"@,
{
    let mut s = "wrote ".to_string();
    push_decimal(&mut s, bytes);
    s.append(" bytes");
    s
}

/// The exit status that a program's becomes: its own, or 128 and the signal that
/// ended it, or as if killed.
pub open spec fn exit_status(r: ExecResult) -> int {
    match r.exit_code {
        Some(c) => c as int,
        None => match r.signal {
            Some(s) => 128 + s,
            None => 137,
        },
    }
}

/// What is said beside the output of a program, line by line.
pub open spec fn exec_notes(r: ExecResult) -> Seq<Seq<char>> {
    (if r.timed_out {
        seq!["isoctl: timed out after "@ + decimal(r.duration_ms as nat) + " ms"@]
    } else {
        Seq::empty()
    }) + (if r.truncated {
        seq!["isoctl: output was truncated"@]
    } else {
        Seq::empty()
    })
}

/// What follows a program that was run: what is said beside its output, and the
/// status to exit with.
pub fn exec_end(r: &ExecResult) -> (e: (Vec<String>, i32))
    requires
        r.signal matches Some(s) ==> 128 + s <= i32::MAX,
    ensures
        texts_of(e.0@) == exec_notes(*r),
        e.1 == exit_status(*r),
{
    let mut notes: Vec<String> = Vec::new();
    if r.timed_out {
        let mut s = "isoctl: timed out after ".to_string();
        push_decimal(&mut s, r.duration_ms);
        s.append(" ms");
        notes.push(s);
    }
    if r.truncated {
        notes.push("isoctl: output was truncated".to_string());
    }
    assert(texts_of(notes@) =~= exec_notes(*r));
    let status: i32 = match r.exit_code {
        Some(c) => c,
        None => match r.signal {
            Some(s) => 128 + s,
            None => 137,
        },
    };
    (notes, status)
}

/// What is printed of a file: its bytes, and what is said where it is not all of
/// it.
pub fn cat(f: &FileContent) -> (r: Result<(Vec<u8>, Option<String>), String>)
    ensures
        match r {
            Ok(p) => {
                let enc = vstd::utf8::encode_utf8(f.content_b64@);
                &&& first_bad(enc) is None
                &&& p.0@ == bytes_of(sextets(enc))
                &&& match p.1 {
                    Some(m) => f.truncated && m@ == "isoctl: file truncated at "@ + decimal(
                        p.0@.len(),
                    ) + " of "@ + decimal(f.size as nat) + " bytes"@,
                    None => !f.truncated,
                }
            },
            Err(m) => first_bad(vstd::utf8::encode_utf8(f.content_b64@)) matches Some(c) && m@
                == "invalid base64 byte "@ + hex_shown(c),
        },
{
    let bytes = match base64_decode(f.content_b64.as_str()) {
        Ok(b) => b,
        Err(e) => return Err(e),
    };
    let note = if f.truncated {
        let mut s = "isoctl: file truncated at ".to_string();
        push_decimal(&mut s, bytes.len() as u64);
        s.append(" of ");
        push_decimal(&mut s, f.size);
        s.append(" bytes");
        Some(s)
    } else {
        None
    };
    Ok((bytes, note))
}

/// **Law.** What is put into a VM is what is printed out of it: the bytes that
/// are sent are those that the agent writes, and a file with them, read whole,
/// prints as them.
pub proof fn law_what_is_put_is_what_cats(
    bytes: Seq<u8>,
    sent: Seq<char>,
    written: Seq<u8>,
    f: FileContent,
)
    requires
        sent == base64_text(bytes),
        sent == base64_text(written),
        f.content_b64@ == base64_text(written),
    ensures
        written == bytes,
        first_bad(vstd::utf8::encode_utf8(f.content_b64@)) is None,
        bytes_of(sextets(vstd::utf8::encode_utf8(f.content_b64@))) == bytes,
{
    law_base64_is_unambiguous(bytes, written);
    law_base64_round_trips(bytes);
}

// ---- laws ----

/// **Law.** An identity that was issued is the one that is presented: where it
/// was written to a directory under a name, that directory and name find its
/// certificate, its key and its CA, each as what it is. Without an identity only
/// plain HTTP is spoken, and that only where it is asked for.
pub proof fn law_an_issued_identity_is_presented(
    c: Conn,
    r: Result<Target, String>,
    f: IssuedFiles,
)
    requires
        connects(c, r),
        c.creds matches Some(dir) ==> issued(dir@, c.client@, f),
    ensures
        c.insecure <==> (r matches Ok(t) && t is Plain),
        !c.insecure ==> (r is Ok <==> c.creds is Some),
        !c.insecure && c.creds is Some ==> (r matches Ok(Target::Tls { base, ca, cert, key }) && ca@
            == f.ca@ && cert@ == f.crt@ && key@ == f.key@ && base@ == without_trailing(
            c.server@,
            '/',
        )),
{
}

/// The id of the VM that a command is about.
pub open spec fn about(cmd: VmCmd) -> Option<String> {
    match cmd {
        VmCmd::List => None,
        VmCmd::Create(_) => None,
        VmCmd::Get { id } => Some(id),
        VmCmd::Rm { id } => Some(id),
        VmCmd::Start { id } => Some(id),
        VmCmd::Stop { id } => Some(id),
        VmCmd::Halt { id } => Some(id),
        VmCmd::Suspend { id } => Some(id),
        VmCmd::Policy { id, .. } => Some(id),
        VmCmd::Agent { id } => Some(id),
        VmCmd::Exec { id, .. } => Some(id),
        VmCmd::Cat { id, .. } => Some(id),
        VmCmd::Put { id, .. } => Some(id),
        VmCmd::Ls { id, .. } => Some(id),
        VmCmd::RmPath { id, .. } => Some(id),
    }
}

/// What the API calls the thing that a command does to its VM.
pub open spec fn verb(cmd: VmCmd) -> Seq<char> {
    match cmd {
        VmCmd::Start { .. } => "/start"@,
        VmCmd::Stop { .. } => "/stop"@,
        VmCmd::Halt { .. } => "/halt"@,
        VmCmd::Suspend { .. } => "/suspend"@,
        VmCmd::Policy { .. } => "/policy"@,
        VmCmd::Agent { .. } => "/agent"@,
        VmCmd::Exec { .. } => "/exec"@,
        VmCmd::Cat { .. } => "/files"@,
        VmCmd::Put { .. } => "/files"@,
        VmCmd::RmPath { .. } => "/files"@,
        VmCmd::Ls { .. } => "/dir"@,
        _ => Seq::empty(),
    }
}

/// **Law.** A command goes to its own VM under the name of what it does: what
/// only looks is read, what removes is deleted, a policy is patched, a file is
/// put, and everything else that changes something is posted.
pub proof fn law_a_command_goes_to_its_own_vm(cmd: VmCmd, r: Result<Call, String>)
    requires
        calls(cmd, r),
        r is Ok,
    ensures
        about(cmd) matches Some(id) ==> endpoint(r->Ok_0).1 == "/vms/"@ + id@ + verb(cmd),
        about(cmd) is None ==> endpoint(r->Ok_0).1 == "/vms"@,
        endpoint(r->Ok_0).0 == Method::Get <==> cmd is List || cmd is Get || cmd is Agent || cmd
            is Cat || cmd is Ls,
        endpoint(r->Ok_0).0 == Method::Delete <==> cmd is Rm || cmd is RmPath,
        endpoint(r->Ok_0).0 == Method::Patch <==> cmd is Policy,
        endpoint(r->Ok_0).0 == Method::Put <==> cmd is Put,
        endpoint(r->Ok_0).0 == Method::Post <==> cmd is Create || cmd is Start || cmd is Stop || cmd
            is Halt || cmd is Suspend || cmd is Exec,
{
    if let Some(id) = about(cmd) {
        assert("/vms/"@ + id@ + Seq::<char>::empty() =~= "/vms/"@ + id@);
    }
}

/// **Law.** A path inside a VM is passed on as it was given, and a removal takes a
/// tree only where that was asked for. A policy command changes what it names: a
/// list without an entry leaves the VM's own as it is.
pub proof fn law_a_command_says_what_it_was_given(cmd: VmCmd, r: Result<Call, String>)
    requires
        calls(cmd, r),
    ensures
        cmd matches VmCmd::Cat { path, .. } ==> (r matches Ok(Call::ReadFile { path: p, .. }) && p
            == path),
        cmd matches VmCmd::Ls { path, .. } ==> (r matches Ok(Call::ListDir { path: p, .. }) && p
            == path),
        cmd matches VmCmd::RmPath { path, recursive, .. } ==> (r matches Ok(Call::RemovePath {
            path: p,
            recursive: k,
            ..
        }) && p == path && k == recursive),
        cmd matches VmCmd::Put { path, from, content, mode, mkdir, .. } ==> (r matches Ok(
            Call::WriteFile { path: p, source, mode: m, mkdir: k, .. },
        ) && p == path && m == mode && k == mkdir && (from is Some ==> source == Source::File(
            from->0,
        )) && (from is None && content is Some ==> source == Source::Text(content->0)) && (from
            is None && content is None ==> source is Stdin)),
        cmd matches VmCmd::Policy { egress, principal, allow, rules, .. } ==> (r matches Ok(
            Call::SetPolicy { egress: e, principal: q, allow: a, rules: u, .. },
        ) && e == egress && q == principal && (a is Some <==> allow@.len() > 0) && (u is Some
            <==> rules@.len() > 0) && (a is Some ==> a->0 == allow) && (u is Some ==> u->0
            == rules)),
{
}

proof fn lemma_key_values(v: Seq<Seq<char>>, what: Seq<char>, i: int)
    requires
        key_values(v, what) is Ok,
        0 <= i < v.len(),
    ensures
        key_values(v, what)->Ok_0.len() == v.len(),
        v[i] == key_values(v, what)->Ok_0[i].0 + seq!['='] + key_values(v, what)->Ok_0[i].1,
        !key_values(v, what)->Ok_0[i].0.contains('='),
    decreases v.len(),
{
    reveal_with_fuel(key_values, 2);
    let w = v.drop_last();
    law_a_text_is_cut_at_its_mark(v.last(), '=');
    if w.len() > 0 {
        lemma_key_values(w, what, if i < w.len() {
            i
        } else {
            0
        });
    }
    if i < w.len() {
        assert(w[i] == v[i]);
    }
}

/// **Law.** Arguments of the form `KEY=VALUE` are cut at the first `=`, one pair
/// for each, in order: key, `=` and value are the argument again. One without an
/// `=` is refused.
pub proof fn law_pairs_are_cut_at_the_first_mark(v: Seq<Seq<char>>, what: Seq<char>, i: int)
    requires
        0 <= i < v.len(),
    ensures
        !v[i].contains('=') ==> key_values(v, what) is Err,
        key_values(v, what) matches Ok(p) ==> p.len() == v.len() && v[i] == p[i].0 + seq!['=']
            + p[i].1 && !p[i].0.contains('='),
{
    if key_values(v, what) is Ok {
        lemma_key_values(v, what, i);
        let p = key_values(v, what)->Ok_0;
        let n = p[i].0.len() as int;
        assert(v[i][n] == '=');
    }
}

/// **Law.** A program is run as it was given: its name is the first word and its
/// arguments are the rest, in order. A limit in seconds is one in milliseconds.
pub proof fn law_a_program_is_run_as_given(cmd: VmCmd, r: Result<Call, String>)
    requires
        cmd is Exec,
        calls(cmd, r),
        r is Ok,
    ensures
        r->Ok_0 is Exec,
        ({
            let body = r->Ok_0->Exec_program;
            &&& seq![body.cmd] + body.args@ == cmd->Exec_command@
            &&& body.cwd == cmd->Exec_cwd
            &&& body.stdin == cmd->Exec_stdin
            &&& body.timeout_ms is Some <==> cmd->Exec_timeout is Some
            &&& cmd->Exec_timeout is Some && cmd->Exec_timeout->0 <= 9_000_000_000_000
                ==> body.timeout_ms->0 == cmd->Exec_timeout->0 * 1000
            &&& body.env@.len() == cmd->Exec_env@.len()
        }),
{
    let body = r->Ok_0->Exec_program;
    assert(seq![body.cmd] + body.args@ =~= cmd->Exec_command@);
    let t = texts_of(cmd->Exec_env@);
    if t.len() > 0 {
        lemma_key_values(t, "--env"@, 0);
    }
    assert(pairs_of(body.env@).len() == body.env@.len());
}

/// Whether an argument asks for a forward to a port with a protocol.
pub open spec fn names_forward(arg: Seq<char>, port: u16, proto: Seq<char>) -> bool {
    if arg.contains('/') {
        exists|digits: Seq<char>|
            arg == #[trigger] (digits + seq!['/'] + proto) && number(digits, 10, u16::MAX as int)
                == Some(port as int)
    } else {
        proto == "tcp"@ && number(arg, 10, u16::MAX as int) == Some(port as int)
    }
}

proof fn lemma_forwarded(v: Seq<Seq<char>>, i: int)
    requires
        forwarded(v) is Ok,
        0 <= i < v.len(),
    ensures
        forwarded(v)->Ok_0.len() == v.len(),
        names_forward(v[i], forwarded(v)->Ok_0[i].0, forwarded(v)->Ok_0[i].1),
    decreases v.len(),
{
    reveal_with_fuel(forwarded, 2);
    let w = v.drop_last();
    let f = forwarded(v)->Ok_0;
    if w.len() > 0 {
        lemma_forwarded(w, if i < w.len() {
            i
        } else {
            0
        });
    }
    if i < w.len() {
        assert(w[i] == v[i]);
        assert(f[i] == forwarded(w)->Ok_0[i]);
    } else {
        let s = v.last();
        law_a_text_is_cut_at_its_mark(s, '/');
        let (port, proto) = port_and_proto(s);
        assert(f[i].1 == proto);
        law_a_number_is_in_range(port, 10, u16::MAX as int);
        assert(number(port, 10, u16::MAX as int) == Some(f[i].0 as int));
        if s.contains('/') {
            assert(s == port + seq!['/'] + proto);
        }
    }
}

/// **Law.** A forward is asked for by its port inside, and is TCP unless the
/// argument names a protocol behind a slash.
pub proof fn law_a_forward_is_tcp_unless_named(v: Seq<Seq<char>>, i: int)
    requires
        forwarded(v) is Ok,
        0 <= i < v.len(),
    ensures
        forwarded(v)->Ok_0.len() == v.len(),
        names_forward(v[i], forwarded(v)->Ok_0[i].0, forwarded(v)->Ok_0[i].1),
{
    lemma_forwarded(v, i);
}

/// **Law.** A create asks for what it was given: the template, the shape, the
/// principal, the rules of either kind, every forward and every label, and the
/// VM's name as one more. It is durable exactly where that was asked for.
pub proof fn law_a_create_asks_for_what_it_was_given(a: Create, r: Result<Call, String>)
    requires
        calls(VmCmd::Create(a), r),
        r is Ok,
    ensures
        r->Ok_0 is Create,
        ({
            let body = r->Ok_0->Create_body;
            &&& body.template == a.template
            &&& body.egress == a.egress
            &&& body.restart == a.restart
            &&& body.principal == a.principal
            &&& body.allow == a.allow
            &&& body.rules == a.rules
            &&& body.lifecycle@ == "durable"@ <==> a.durable
            &&& body.lifecycle@ == "ephemeral"@ <==> !a.durable
            &&& body.vcpus is Some <==> a.vcpus is Some
            &&& body.mem_mib is Some <==> a.mem_mib is Some
            &&& a.vcpus is Some && a.vcpus->0 <= i32::MAX ==> body.vcpus->0 == a.vcpus->0
            &&& a.mem_mib is Some && a.mem_mib->0 <= i32::MAX ==> body.mem_mib->0 == a.mem_mib->0
            &&& body.ingress@.len() == a.forwards@.len()
            &&& body.labels@.len() == a.labels@.len() + (if a.name is Some {
                1int
            } else {
                0
            })
            &&& a.name matches Some(n) ==> body.labels@.last().0@ == "name"@
                && body.labels@.last().1@ == n@
        }),
        r->Ok_0->Create_quiet == a.quiet,
{
    reveal_strlit("durable");
    reveal_strlit("ephemeral");
    assert("durable"@.len() == 7);
    assert("ephemeral"@.len() == 9);
    let body = r->Ok_0->Create_body;
    let t = texts_of(a.labels@);
    if t.len() > 0 {
        lemma_key_values(t, "--label"@, 0);
    }
    let f = texts_of(a.forwards@);
    if f.len() > 0 {
        lemma_forwarded(f, 0);
    }
    let p = pairs_of(body.labels@);
    assert(p.len() == body.labels@.len());
    assert(forwards_of(body.ingress@).len() == body.ingress@.len());
    if let Some(n) = a.name {
        assert(p.last() == ("name"@, n@));
        assert(p[p.len() - 1] == (body.labels@.last().0@, body.labels@.last().1@));
    }
}

proof fn lemma_octal(n: nat)
    ensures
        octal(n).len() > 0,
        spelled(octal(n), 8) == n,
        forall|i: int| 0 <= i < octal(n).len() ==> 0 <= digit_of(#[trigger] octal(n)[i]) < 8,
        octal(n)[0] != '+',
        octal(n)[0] != '-',
    decreases n,
{
    reveal_with_fuel(spelled, 2);
    let d = octal(n);
    if n < 8 {
        assert(d.drop_last() =~= Seq::<char>::empty());
        assert(digit_of(digit_char(n as int)) == n);
    } else {
        lemma_octal(n / 8);
        assert(d.drop_last() =~= octal(n / 8));
        assert(digit_of(digit_char((n % 8) as int)) == n % 8);
        assert forall|i: int| 0 <= i < d.len() implies 0 <= digit_of(#[trigger] d[i]) < 8 by {
            if i < d.len() - 1 {
                assert(d[i] == octal(n / 8)[i]);
            }
        }
        assert(d[0] == octal(n / 8)[0]);
    }
}

/// **Law.** A mode that a listing shows can be given to a write: it is read in
/// the base it is shown in. A write without a mode leaves it to the guest.
pub proof fn law_a_shown_mode_can_be_given(
    n: nat,
    m: String,
    bytes: Seq<u8>,
    r: Result<(String, Option<i32>), String>,
    plain: Result<(String, Option<i32>), String>,
)
    requires
        n <= 0x7fff_ffff,
        m@ == octal(n),
        is_put(bytes, Some(m), r),
        is_put(bytes, None, plain),
    ensures
        r matches Ok(b) && b.1 is Some && b.1->0 == n && b.0@ == base64_text(bytes),
        plain matches Ok(b) && b.1 is None && b.0@ == base64_text(bytes),
{
    lemma_octal(n);
}

/// **Law.** A program that was run here ends as it ended there: with its own
/// status where it has one, and otherwise as a shell tells of the signal that
/// ended it; one that ran out of time as if killed. What is said beside its
/// output is that, and that some of it is missing, and nothing else.
pub proof fn law_a_program_ends_as_it_ended_there(
    end: RunEnd,
    out: Seq<char>,
    err: Seq<char>,
    cut: bool,
    ms: u64,
    r: ExecResult,
)
    requires
        reported(end, out, err, cut, ms, r),
    ensures
        end is TimedOut ==> exit_status(r) == 137,
        end matches RunEnd::Exited { code, signal } ==> (code is Some ==> exit_status(r) == code->0)
            && (code is None && signal is Some ==> exit_status(r) == 128 + signal->0),
        exec_notes(r).len() == (if end is TimedOut {
            1int
        } else {
            0
        }) + (if cut {
            1int
        } else {
            0
        }),
{
}

} // verus!
