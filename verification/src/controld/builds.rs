//! Template builds: this host turns an OCI image into a template with a child
//! process, one build at a time, and says how that is going.

use crate::common::api::ApiError;
use crate::common::runtime::SnapshotRef;
use crate::control_plane::types::{snapshot_of, TemplateDef};
use crate::firecracker::jail::gives;
use crate::text::{
    concat3, decimal, decimal_text, from_utf8_lossy, lossy_text, quote, quoted, same, texts_of,
    trim, trimmed,
};
use vstd::prelude::*;
use vstd::slice::slice_subrange;
use vstd::string::*;

verus! {

/// Where the bake finds what it needs on this host.
#[derive(Clone, Debug)]
pub struct BakeSettings {
    pub isoctl: String,
    pub kernel: String,
    pub agent_bin: String,
    pub state: String,
    pub vg: String,
    pub uplink: String,
    /// The builder VM's slot; one no VM is ever placed on.
    pub slot: u16,
}

/// Ask for a template from an image.
#[derive(Clone, Debug)]
pub struct BuildRequest {
    /// Template name: `[a-z0-9][a-z0-9-]{0,31}`.
    pub name: String,
    /// The OCI image: `python:3.12-slim`, `ghcr.io/acme/tool:v3`.
    pub image: String,
    pub vcpus: Option<u32>,
    pub mem_mib: Option<u32>,
    /// Rootfs volume size, e.g. `16G`.
    pub size: Option<String>,
    /// Rebuild even when a template of this name is already registered.
    pub force: bool,
}

/// How far a build is.
#[derive(Clone, Copy, Debug, PartialEq, Eq, Structural)]
pub enum BuildState {
    Building,
    Ready,
    Failed,
}

impl BuildState {
    /// The reported name.
    pub open spec fn name(self) -> Seq<char> {
        match self {
            BuildState::Building => "building"@,
            BuildState::Ready => "ready"@,
            BuildState::Failed => "failed"@,
        }
    }

    /// The reported name.
    pub fn as_str(self) -> (r: &'static str)
        ensures
            r@ == self.name(),
    {
        match self {
            BuildState::Building => "building",
            BuildState::Ready => "ready",
            BuildState::Failed => "failed",
        }
    }
}

/// How a build is going.
#[derive(Clone, Debug)]
pub struct BuildStatus {
    pub name: String,
    pub image: String,
    pub state: BuildState,
    pub started_at: u64,
    pub finished_at: Option<u64>,
    pub error: Option<String>,
    /// The last few KiB of the bake's output.
    pub log_tail: String,
}

pub open spec fn lower_or_digit(c: char) -> bool {
    'a' <= c <= 'z' || '0' <= c <= '9'
}

/// Whether a name is safe as a volume and in a URL: `[a-z0-9][a-z0-9-]{0,31}`.
pub open spec fn safe_name(s: Seq<char>) -> bool {
    &&& 1 <= s.len() <= 32
    &&& lower_or_digit(s[0])
    &&& forall|i: int| 0 <= i < s.len() ==> lower_or_digit(#[trigger] s[i]) || s[i] == '-'
}

/// Whether a name is safe as a volume and in a URL.
pub fn valid_name(name: &str) -> (r: bool)
    ensures
        r == safe_name(name@),
{
    let n: usize = name.unicode_len();
    if n == 0 || n > 32 {
        return false;
    }
    let first = name.get_char(0);
    if !(('a' <= first && first <= 'z') || ('0' <= first && first <= '9')) {
        return false;
    }
    let mut i: usize = 0;
    while i < n
        invariant
            n == name@.len(),
            i <= n,
            forall|k: int| 0 <= k < i ==> lower_or_digit(#[trigger] name@[k]) || name@[k] == '-',
        decreases n - i,
    {
        let c = name.get_char(i);
        if !(('a' <= c && c <= 'z') || ('0' <= c && c <= '9') || c == '-') {
            return false;
        }
        i += 1;
    }
    true
}

/// The builds of this host.
#[derive(Debug)]
pub struct Builds {
    pub cfg: Option<BakeSettings>,
    /// The latest build under each name.
    pub jobs: Vec<BuildStatus>,
}

/// The build under a name.
pub open spec fn job(jobs: Seq<BuildStatus>, name: Seq<char>) -> Option<BuildStatus>
    decreases jobs.len(),
{
    if jobs.len() == 0 {
        None
    } else if jobs.last().name@ == name {
        Some(jobs.last())
    } else {
        job(jobs.drop_last(), name)
    }
}

/// Whether no name has two builds.
pub open spec fn one_per_name(jobs: Seq<BuildStatus>) -> bool {
    forall|i: int, j: int|
        0 <= i < j < jobs.len() ==> (#[trigger] jobs[i]).name@ != (#[trigger] jobs[j]).name@
}

/// Whether a request names a build that is going on.
pub open spec fn is_building(jobs: Seq<BuildStatus>, name: Seq<char>) -> bool {
    job(jobs, name) matches Some(b) && b.state == BuildState::Building
}

/// Why a build is not started, where it is not: the status and the message.
pub open spec fn refusal(b: Builds, req: BuildRequest) -> Option<(u16, Seq<char>)> {
    if b.cfg is None {
        Some(
            (
                501,
                "template builds are not configured on this host (ISO_BAKE_KERNEL, ISO_BAKE_AGENT_BIN)"@,
            ),
        )
    } else if !safe_name(req.name@) {
        Some(
            (
                400,
                "template name "@ + quoted(req.name@) + ": use [a-z0-9][a-z0-9-]{0,31}"@,
            ),
        )
    } else if trimmed(req.image@).len() == 0 {
        Some((400, "image is required"@))
    } else if is_building(b.jobs@, req.name@) {
        Some((409, "template "@ + quoted(req.name@) + " is already building"@))
    } else {
        None
    }
}

/// Whether `s` is the status of a build that a request starts, at a time; or, of
/// one that is not needed, that it is there.
pub open spec fn started(s: BuildStatus, req: BuildRequest, needed: bool, now: u64) -> bool {
    &&& s.name@ == req.name@
    &&& s.image@ == req.image@
    &&& s.started_at == now
    &&& s.error is None
    &&& if needed {
        s.state == BuildState::Building && s.finished_at is None && s.log_tail@.len() == 0
    } else {
        s.state == BuildState::Ready && s.finished_at == Some(now) && s.log_tail@
            == "already registered on this host"@
    }
}

/// Whether starting a build turns `a` into `b` and answers `r`.
pub open spec fn starts(
    a: Builds,
    req: BuildRequest,
    registered: bool,
    now: u64,
    b: Builds,
    r: Result<bool, ApiError>,
) -> bool {
    match refusal(a, req) {
        Some((status, message)) => {
            &&& r matches Err(e)
            &&& e.says(status, message)
            &&& b == a
        },
        None => {
            &&& r == Ok::<bool, ApiError>(!registered || req.force)
            &&& job(b.jobs@, req.name@) matches Some(s)
            &&& started(s, req, !registered || req.force, now)
            &&& forall|n: Seq<char>|
                n != req.name@ ==> #[trigger] job(b.jobs@, n) == job(a.jobs@, n)
        },
    }
}

/// Whether recording how a build ended turns the builds `a` into `b`.
pub open spec fn ends(
    a: Seq<BuildStatus>,
    name: Seq<char>,
    outcome: Result<(), String>,
    tail: String,
    now: u64,
    b: Seq<BuildStatus>,
) -> bool {
    match job(a, name) {
        None => b == a,
        Some(was) => {
            &&& job(b, name) matches Some(s)
            &&& s.name@ == was.name@
            &&& s.image@ == was.image@
            &&& s.started_at == was.started_at
            &&& s.finished_at == Some(now)
            &&& s.log_tail == tail
            &&& match outcome {
                Ok(_) => s.state == BuildState::Ready && s.error == was.error,
                Err(e) => s.state == BuildState::Failed && s.error == Some(e),
            }
            &&& forall|n: Seq<char>| n != name ==> #[trigger] job(b, n) == job(a, n)
        },
    }
}

proof fn lemma_job(jobs: Seq<BuildStatus>, name: Seq<char>)
    ensures
        match job(jobs, name) {
            Some(b) => exists|i: int| 0 <= i < jobs.len() && #[trigger] jobs[i] == b && b.name@ == name,
            None => forall|i: int| 0 <= i < jobs.len() ==> (#[trigger] jobs[i]).name@ != name,
        },
    decreases jobs.len(),
{
    if jobs.len() > 0 {
        let w = jobs.drop_last();
        if jobs.last().name@ == name {
            assert(jobs[jobs.len() - 1] == jobs.last());
        } else {
            lemma_job(w, name);
            match job(w, name) {
                Some(b) => {
                    let i = choose|i: int| 0 <= i < w.len() && #[trigger] w[i] == b && b.name@ == name;
                    assert(jobs[i] == b);
                },
                None => {
                    assert forall|i: int| 0 <= i < jobs.len() implies (#[trigger] jobs[i]).name@
                        != name by {
                        if i < w.len() {
                            assert(w[i] == jobs[i]);
                        }
                    }
                },
            }
        }
    }
}

proof fn lemma_job_at(jobs: Seq<BuildStatus>, i: int)
    requires
        one_per_name(jobs),
        0 <= i < jobs.len(),
    ensures
        job(jobs, jobs[i].name@) == Some(jobs[i]),
{
    lemma_job(jobs, jobs[i].name@);
    let b = job(jobs, jobs[i].name@)->0;
    let k = choose|k: int| 0 <= k < jobs.len() && #[trigger] jobs[k] == b && b.name@ == jobs[i].name@;
    if k < i {
        assert(jobs[k].name@ != jobs[i].name@);
    } else if i < k {
        assert(jobs[i].name@ != jobs[k].name@);
    }
}

/// A list in which one build was replaced or added.
proof fn lemma_put(jobs: Seq<BuildStatus>, at: int, s: BuildStatus, r: Seq<BuildStatus>)
    requires
        one_per_name(jobs),
        0 <= at <= jobs.len(),
        at < jobs.len() ==> jobs[at].name@ == s.name@ && r == jobs.update(at, s),
        at == jobs.len() ==> job(jobs, s.name@) is None && r == jobs.push(s),
    ensures
        one_per_name(r),
        job(r, s.name@) == Some(s),
        forall|n: Seq<char>| n != s.name@ ==> #[trigger] job(r, n) == job(jobs, n),
{
    lemma_job(jobs, s.name@);
    assert forall|i: int, j: int| 0 <= i < j < r.len() implies (#[trigger] r[i]).name@ != (
    #[trigger] r[j]).name@ by {
        if j < jobs.len() {
            assert(jobs[i].name@ != jobs[j].name@);
        } else {
            assert(jobs[i].name@ != s.name@);
        }
    }
    assert(r[at] == s);
    lemma_job_at(r, at);
    assert forall|n: Seq<char>| n != s.name@ implies #[trigger] job(r, n) == job(jobs, n) by {
        lemma_job(r, n);
        lemma_job(jobs, n);
        if let Some(b) = job(jobs, n) {
            let k = choose|k: int| 0 <= k < jobs.len() && #[trigger] jobs[k] == b && b.name@ == n;
            assert(r[k] == b);
            lemma_job_at(r, k);
        }
        if let Some(b) = job(r, n) {
            let k = choose|k: int| 0 <= k < r.len() && #[trigger] r[k] == b && b.name@ == n;
            assert(jobs[k] == b);
        }
    }
}

/// Whether `r` holds the places of all builds, the newest first.
pub open spec fn newest_first(jobs: Seq<BuildStatus>, r: Seq<usize>) -> bool {
    &&& r.len() == jobs.len()
    &&& forall|i: int| 0 <= i < jobs.len() ==> #[trigger] r.contains(i as usize)
    &&& forall|k: int| 0 <= k < r.len() ==> (#[trigger] r[k]) < jobs.len()
    &&& forall|j: int, k: int|
        0 <= j <= k < r.len() ==> jobs[(#[trigger] r[j]) as int].started_at >= jobs[(
        #[trigger] r[k]) as int].started_at
}

impl Builds {
    pub open spec fn wf(self) -> bool {
        one_per_name(self.jobs@)
    }

    pub fn new(cfg: Option<BakeSettings>) -> (r: Builds)
        ensures
            r.wf(),
            r.cfg == cfg,
            r.jobs@.len() == 0,
    {
        Builds { cfg, jobs: Vec::new() }
    }

    pub fn configured(&self) -> (r: bool)
        ensures
            r == (self.cfg is Some),
    {
        self.cfg.is_some()
    }

    fn find(&self, name: &str) -> (r: Option<usize>)
        requires
            self.wf(),
        ensures
            match r {
                Some(i) => i < self.jobs.len() && self.jobs@[i as int].name@ == name@ && job(
                    self.jobs@,
                    name@,
                ) == Some(self.jobs@[i as int]),
                None => job(self.jobs@, name@) is None,
            },
    {
        let mut i: usize = 0;
        while i < self.jobs.len()
            invariant
                self.wf(),
                i <= self.jobs.len(),
                forall|k: int| 0 <= k < i ==> (#[trigger] self.jobs@[k]).name@ != name@,
            decreases self.jobs.len() - i,
        {
            if same(self.jobs[i].name.as_str(), name) {
                proof {
                    lemma_job_at(self.jobs@, i as int);
                }
                return Some(i);
            }
            i += 1;
        }
        proof {
            lemma_job(self.jobs@, name@);
        }
        None
    }

    /// The build under a name.
    pub fn get(&self, name: &str) -> (r: Option<&BuildStatus>)
        requires
            self.wf(),
        ensures
            match r {
                Some(b) => job(self.jobs@, name@) == Some(*b),
                None => job(self.jobs@, name@) is None,
            },
    {
        match self.find(name) {
            Some(i) => Some(&self.jobs[i]),
            None => None,
        }
    }

    /// The places of all builds, the newest first.
    pub fn list(&self) -> (r: Vec<usize>)
        ensures
            newest_first(self.jobs@, r@),
    {
        let mut out: Vec<usize> = Vec::new();
        let mut n: usize = 0;
        while n < self.jobs.len()
            invariant
                n <= self.jobs.len(),
                out.len() == n,
                forall|i: int| 0 <= i < n ==> #[trigger] out@.contains(i as usize),
                forall|k: int| 0 <= k < out@.len() ==> (#[trigger] out@[k]) < n,
                forall|j: int, k: int|
                    0 <= j <= k < out@.len() ==> self.jobs@[(#[trigger] out@[j]) as int].started_at
                        >= self.jobs@[(#[trigger] out@[k]) as int].started_at,
            decreases self.jobs.len() - n,
        {
            let mut at: usize = out.len();
            while at > 0 && self.jobs[out[at - 1]].started_at < self.jobs[n].started_at
                invariant
                    at <= out.len(),
                    n < self.jobs.len(),
                    forall|k: int| 0 <= k < out@.len() ==> (#[trigger] out@[k]) < n,
                    forall|k: int|
                        at <= k < out@.len() ==> self.jobs@[(#[trigger] out@[k]) as int].started_at
                            < self.jobs@[n as int].started_at,
                decreases at,
            {
                at -= 1;
            }
            let ghost had = out@;
            out.insert(at, n);
            proof {
                assert forall|i: int| 0 <= i < n + 1 implies #[trigger] out@.contains(i as usize) by {
                    if i == n {
                        assert(out@[at as int] == n);
                    } else {
                        assert(had.contains(i as usize));
                        let k = choose|k: int| 0 <= k < had.len() && had[k] == i as usize;
                        if k < at {
                            assert(out@[k] == i as usize);
                        } else {
                            assert(out@[k + 1] == i as usize);
                        }
                    }
                }
                assert forall|j: int, k: int| 0 <= j <= k < out@.len() implies self.jobs@[(
                #[trigger] out@[j]) as int].started_at >= self.jobs@[(#[trigger] out@[k]) as int].started_at by {
                    if k < at {
                        assert(out@[j] == had[j] && out@[k] == had[k]);
                    } else if j < at {
                        assert(out@[j] == had[j]);
                        assert(self.jobs@[had[j] as int].started_at >= self.jobs@[had[at - 1] as int].started_at);
                        if k > at {
                            assert(out@[k] == had[k - 1]);
                        }
                    } else if j == at {
                        if k > at {
                            assert(out@[k] == had[k - 1]);
                        }
                    } else {
                        assert(out@[j] == had[j - 1] && out@[k] == had[k - 1]);
                    }
                }
                assert forall|k: int| 0 <= k < out@.len() implies (#[trigger] out@[k]) < n + 1 by {
                    if k < at {
                        assert(out@[k] == had[k]);
                    } else if k > at {
                        assert(out@[k] == had[k - 1]);
                    }
                }
            }
            n += 1;
        }
        out
    }

    fn put(&mut self, s: BuildStatus)
        requires
            old(self).wf(),
        ensures
            final(self).wf(),
            final(self).cfg == old(self).cfg,
            job(final(self).jobs@, s.name@) == Some(s),
            forall|n: Seq<char>|
                n != s.name@ ==> #[trigger] job(final(self).jobs@, n) == job(old(self).jobs@, n),
    {
        let ghost had = self.jobs@;
        match self.find(s.name.as_str()) {
            Some(i) => {
                self.jobs.set(i, s);
                proof {
                    lemma_put(had, i as int, s, self.jobs@);
                }
            },
            None => {
                self.jobs.push(s);
                proof {
                    lemma_put(had, had.len() as int, s, self.jobs@);
                }
            },
        }
    }

    /// Starts a build, and says whether a bake is to be run: a template that is
    /// already registered answers `ready` at once unless a rebuild is forced.
    /// `Err` says why not (misconfigured host, bad name, no image, one already
    /// building under that name).
    pub fn start(&mut self, req: &BuildRequest, registered: bool, now: u64) -> (r: Result<bool, ApiError>)
        requires
            old(self).wf(),
        ensures
            final(self).wf(),
            final(self).cfg == old(self).cfg,
            starts(*old(self), *req, registered, now, *final(self), r),
    {
        if self.cfg.is_none() {
            return Err(
                ApiError {
                    status: 501,
                    message:
                        "template builds are not configured on this host (ISO_BAKE_KERNEL, ISO_BAKE_AGENT_BIN)".to_string(),
                },
            );
        }
        if !valid_name(req.name.as_str()) {
            let q = quote(req.name.as_str());
            let m = concat3("template name ", q.as_str(), ": use [a-z0-9][a-z0-9-]{0,31}");
            return Err(ApiError { status: 400, message: m });
        }
        if trim(req.image.as_str()).as_str().is_empty() {
            return Err(ApiError { status: 400, message: "image is required".to_string() });
        }
        let building = match self.get(req.name.as_str()) {
            Some(b) => b.state == BuildState::Building,
            None => false,
        };
        if building {
            let q = quote(req.name.as_str());
            let m = concat3("template ", q.as_str(), " is already building");
            return Err(ApiError { status: 409, message: m });
        }
        let needed = !registered || req.force;
        let status = BuildStatus {
            name: req.name.clone(),
            image: req.image.clone(),
            state: if needed {
                BuildState::Building
            } else {
                BuildState::Ready
            },
            started_at: now,
            finished_at: if needed {
                None
            } else {
                Some(now)
            },
            error: None,
            log_tail: if needed {
                String::new()
            } else {
                "already registered on this host".to_string()
            },
        };
        self.put(status);
        Ok(needed)
    }

    /// Records how a build ended, with the end of its output.
    pub fn finish(&mut self, name: &str, outcome: Result<(), String>, tail: String, now: u64)
        requires
            old(self).wf(),
        ensures
            final(self).wf(),
            final(self).cfg == old(self).cfg,
            ends(old(self).jobs@, name@, outcome, tail, now, final(self).jobs@),
    {
        match self.find(name) {
            None => {},
            Some(i) => {
                let (state, error) = match outcome {
                    Ok(_) => (BuildState::Ready, self.jobs[i].error.clone()),
                    Err(e) => (BuildState::Failed, Some(e)),
                };
                let s = BuildStatus {
                    name: self.jobs[i].name.clone(),
                    image: self.jobs[i].image.clone(),
                    state,
                    started_at: self.jobs[i].started_at,
                    finished_at: Some(now),
                    error,
                    log_tail: tail,
                };
                self.put(s);
            },
        }
    }
}

/// The arguments of the bake.
pub open spec fn bake_words(cfg: BakeSettings, req: BuildRequest) -> Seq<Seq<char>> {
    seq![
        "bake"@,
        "--name"@,
        req.name@,
        "--distro"@,
        "oci"@,
        "--image"@,
        req.image@,
        "--kernel"@,
        cfg.kernel@,
        "--agent-bin"@,
        cfg.agent_bin@,
        "--state"@,
        cfg.state@,
        "--vg"@,
        cfg.vg@,
        "--uplink"@,
        cfg.uplink@,
        "--slot"@,
        decimal(cfg.slot as nat),
        "--vcpus"@,
        decimal(if req.vcpus is Some { req.vcpus->0 as nat } else { 2 }),
        "--mem-mib"@,
        decimal(if req.mem_mib is Some { req.mem_mib->0 as nat } else { 2048 }),
        "--size"@,
        if req.size is Some { req.size->0@ } else { "16G"@ },
    ]
}

/// The arguments of the bake.
pub fn bake_args(cfg: &BakeSettings, req: &BuildRequest) -> (r: Vec<String>)
    ensures
        texts_of(r@) == bake_words(*cfg, *req),
{
    let vcpus: u32 = match req.vcpus {
        Some(n) => n,
        None => 2,
    };
    let mem: u32 = match req.mem_mib {
        Some(n) => n,
        None => 2048,
    };
    let size = match &req.size {
        Some(s) => s.clone(),
        None => "16G".to_string(),
    };
    let mut v: Vec<String> = Vec::new();
    v.push("bake".to_string());
    v.push("--name".to_string());
    v.push(req.name.clone());
    v.push("--distro".to_string());
    v.push("oci".to_string());
    v.push("--image".to_string());
    v.push(req.image.clone());
    v.push("--kernel".to_string());
    v.push(cfg.kernel.clone());
    v.push("--agent-bin".to_string());
    v.push(cfg.agent_bin.clone());
    v.push("--state".to_string());
    v.push(cfg.state.clone());
    v.push("--vg".to_string());
    v.push(cfg.vg.clone());
    v.push("--uplink".to_string());
    v.push(cfg.uplink.clone());
    v.push("--slot".to_string());
    v.push(decimal_text(cfg.slot as u64));
    v.push("--vcpus".to_string());
    v.push(decimal_text(vcpus as u64));
    v.push("--mem-mib".to_string());
    v.push(decimal_text(mem as u64));
    v.push("--size".to_string());
    v.push(size);
    proof {
        assert(texts_of(v@) =~= bake_words(*cfg, *req));
    }
    v
}

/// What a bake left behind to register its template by.
#[derive(Debug)]
pub struct Registration {
    pub name: Option<String>,
    pub rootfs_template: Option<String>,
    pub snapshot_mem: Option<String>,
    pub snapshot_vmstate: Option<String>,
    pub vcpus: Option<u64>,
    pub mem_mib: Option<u64>,
    pub kernel: Option<String>,
    pub boot_args: Option<String>,
}

/// A text where there is one, or another.
pub open spec fn text_or(o: Option<String>, other: Seq<char>) -> Seq<char> {
    match o {
        Some(s) => s@,
        None => other,
    }
}

/// A number where there is one, its low 32 bits, or another.
pub open spec fn low_or(o: Option<u64>, other: int) -> int {
    match o {
        Some(n) => n as int % 0x1_0000_0000,
        None => other,
    }
}

fn take_text(o: Option<String>, other: &str) -> (r: String)
    ensures
        r@ == text_or(o, other@),
{
    match o {
        Some(s) => s,
        None => other.to_string(),
    }
}

fn take_low(o: Option<u64>, other: u32) -> (r: u32)
    ensures
        r == low_or(o, other as int),
{
    match o {
        Some(n) => (n % 0x1_0000_0000) as u32,
        None => other,
    }
}

/// Whether `t` is the template that a bake made.
pub open spec fn made(reg: Registration, req: BuildRequest, t: TemplateDef) -> bool {
    &&& t.name@ == text_or(reg.name, req.name@)
    &&& t.rootfs_template@ == text_or(reg.rootfs_template, req.name@)
    &&& t.snapshot == snapshot_of(reg.snapshot_mem, reg.snapshot_vmstate)
    &&& t.vcpus == low_or(reg.vcpus, 2)
    &&& t.mem_mib == low_or(reg.mem_mib, 2048)
    &&& t.kernel@ == text_or(reg.kernel, Seq::empty())
    &&& t.boot_args@ == text_or(reg.boot_args, Seq::empty())
}

/// The template that a bake made, under the name it was asked for where it left
/// none.
pub fn template_from(reg: Registration, req: &BuildRequest) -> (t: TemplateDef)
    ensures
        made(reg, *req, t),
{
    let snapshot = match (reg.snapshot_mem, reg.snapshot_vmstate) {
        (Some(m), Some(v)) => Some(SnapshotRef { mem_file: m, vmstate: v }),
        _ => None,
    };
    proof {
        reveal_strlit("");
        assert(""@ =~= Seq::<char>::empty());
    }
    TemplateDef {
        name: take_text(reg.name, req.name.as_str()),
        rootfs_template: take_text(reg.rootfs_template, req.name.as_str()),
        snapshot,
        vcpus: take_low(reg.vcpus, 2),
        mem_mib: take_low(reg.mem_mib, 2048),
        kernel: take_text(reg.kernel, ""),
        boot_args: take_text(reg.boot_args, ""),
    }
}

/// How much of a bake's output is kept, in bytes.
pub const LOG_TAIL: usize = 4096;

/// The end of some bytes, as much as is kept.
pub open spec fn tail_of(b: Seq<u8>) -> Seq<u8> {
    if b.len() > LOG_TAIL {
        b.subrange(b.len() - LOG_TAIL, b.len() as int)
    } else {
        b
    }
}

/// The end of a bake's output.
pub fn log_tail(bytes: &[u8]) -> (r: String)
    ensures
        r@ == lossy_text(tail_of(bytes@)),
{
    let n: usize = bytes.len();
    if n > LOG_TAIL {
        from_utf8_lossy(slice_subrange(bytes, n - LOG_TAIL, n))
    } else {
        from_utf8_lossy(bytes)
    }
}

/// **Law.** Two builds never go on under one name: while one does, another is
/// refused and nothing changes.
pub proof fn law_one_build_per_name(b: Builds, req: BuildRequest)
    requires
        b.cfg is Some,
        safe_name(req.name@),
        trimmed(req.image@).len() > 0,
        is_building(b.jobs@, req.name@),
    ensures
        refusal(b, req) matches Some(r) && r.0 == 409,
{
}

/// **Law.** A build is asked about until it has ended, and what is said of it then
/// is how it ended: it is ready exactly where the bake succeeded, it failed with
/// the bake's own error otherwise, and it is still the build of the image that
/// was asked for, begun when it was. Builds under other names are not touched.
pub proof fn law_a_build_ends_as_its_bake_did(
    a: Builds,
    req: BuildRequest,
    registered: bool,
    begun: u64,
    b: Builds,
    outcome: Result<(), String>,
    tail: String,
    now: u64,
    c: Seq<BuildStatus>,
)
    requires
        starts(a, req, registered, begun, b, Ok(true)),
        ends(b.jobs@, req.name@, outcome, tail, now, c),
    ensures
        is_building(b.jobs@, req.name@),
        job(c, req.name@) is Some,
        ({
            let s = job(c, req.name@)->0;
            &&& s.state == BuildState::Ready <==> outcome is Ok
            &&& s.state == BuildState::Failed <==> outcome is Err
            &&& outcome is Ok ==> s.error is None
            &&& outcome matches Err(e) ==> s.error == Some(e)
            &&& s.image@ == req.image@
            &&& s.started_at == begun
            &&& s.finished_at == Some(now)
            &&& s.log_tail == tail
        }),
        !is_building(c, req.name@),
        forall|n: Seq<char>| n != req.name@ ==> #[trigger] job(c, n) == job(a.jobs@, n),
{
    assert forall|n: Seq<char>| n != req.name@ implies #[trigger] job(c, n) == job(a.jobs@, n) by {
        assert(job(c, n) == job(b.jobs@, n));
    }
}

/// **Law.** A template that is there is not built again unless that is forced: a
/// bake runs exactly where there is none or a rebuild was asked for, and a build
/// that is not needed is ready at once.
pub proof fn law_a_template_is_built_when_needed(
    a: Builds,
    req: BuildRequest,
    registered: bool,
    now: u64,
    b: Builds,
    r: Result<bool, ApiError>,
)
    requires
        starts(a, req, registered, now, b, r),
    ensures
        r == Ok::<bool, ApiError>(true) ==> !registered || req.force,
        r == Ok::<bool, ApiError>(false) ==> registered && !req.force,
        r is Ok <==> a.cfg is Some && safe_name(req.name@) && trimmed(req.image@).len() > 0
            && !is_building(a.jobs@, req.name@),
        r is Err ==> b == a,
        r is Ok ==> (is_building(b.jobs@, req.name@) <==> r == Ok::<bool, ApiError>(true)),
        r == Ok::<bool, ApiError>(false) ==> job(b.jobs@, req.name@)->0.state == BuildState::Ready,
{
}

/// **Law.** The bake is told everything that was asked for and everything about
/// this host, each behind its own flag; a shape or a size that was not asked for
/// has its default.
pub proof fn law_a_bake_is_told_everything(cfg: BakeSettings, req: BuildRequest)
    ensures
        bake_words(cfg, req)[0] == "bake"@,
        gives(bake_words(cfg, req), "--name"@, req.name@),
        gives(bake_words(cfg, req), "--distro"@, "oci"@),
        gives(bake_words(cfg, req), "--image"@, req.image@),
        gives(bake_words(cfg, req), "--kernel"@, cfg.kernel@),
        gives(bake_words(cfg, req), "--agent-bin"@, cfg.agent_bin@),
        gives(bake_words(cfg, req), "--state"@, cfg.state@),
        gives(bake_words(cfg, req), "--vg"@, cfg.vg@),
        gives(bake_words(cfg, req), "--uplink"@, cfg.uplink@),
        gives(bake_words(cfg, req), "--slot"@, decimal(cfg.slot as nat)),
        gives(
            bake_words(cfg, req),
            "--vcpus"@,
            decimal(if req.vcpus is Some { req.vcpus->0 as nat } else { 2 }),
        ),
        gives(
            bake_words(cfg, req),
            "--mem-mib"@,
            decimal(if req.mem_mib is Some { req.mem_mib->0 as nat } else { 2048 }),
        ),
        gives(
            bake_words(cfg, req),
            "--size"@,
            if req.size is Some { req.size->0@ } else { "16G"@ },
        ),
        bake_words(cfg, req).len() == 25,
{
    let w = bake_words(cfg, req);
    assert(w[1] == "--name"@ && w[2] == req.name@);
    assert(w[3] == "--distro"@ && w[4] == "oci"@);
    assert(w[5] == "--image"@ && w[6] == req.image@);
    assert(w[7] == "--kernel"@ && w[8] == cfg.kernel@);
    assert(w[9] == "--agent-bin"@ && w[10] == cfg.agent_bin@);
    assert(w[11] == "--state"@ && w[12] == cfg.state@);
    assert(w[13] == "--vg"@ && w[14] == cfg.vg@);
    assert(w[15] == "--uplink"@ && w[16] == cfg.uplink@);
    assert(w[17] == "--slot"@ && w[18] == decimal(cfg.slot as nat));
    assert(w[19] == "--vcpus"@ && w[21] == "--mem-mib"@ && w[23] == "--size"@);
    assert(w[20] == decimal(if req.vcpus is Some { req.vcpus->0 as nat } else { 2 }));
    assert(w[22] == decimal(if req.mem_mib is Some { req.mem_mib->0 as nat } else { 2048 }));
    assert(w[24] == (if req.size is Some { req.size->0@ } else { "16G"@ }));
}

/// **Law.** A template is what its bake left behind: every value that the bake
/// wrote down is taken, as what it is, and only what it left out has a default.
pub proof fn law_a_template_is_what_its_bake_left(
    reg: Registration,
    req: BuildRequest,
    t: TemplateDef,
)
    requires
        made(reg, req, t),
    ensures
        reg.name matches Some(n) ==> t.name@ == n@,
        reg.name is None ==> t.name@ == req.name@,
        reg.rootfs_template matches Some(n) ==> t.rootfs_template@ == n@,
        reg.rootfs_template is None ==> t.rootfs_template@ == req.name@,
        reg.vcpus matches Some(n) ==> (n <= u32::MAX ==> t.vcpus == n),
        reg.mem_mib matches Some(n) ==> (n <= u32::MAX ==> t.mem_mib == n),
        reg.vcpus is None ==> t.vcpus == 2,
        reg.mem_mib is None ==> t.mem_mib == 2048,
        reg.kernel matches Some(k) ==> t.kernel@ == k@,
        reg.boot_args matches Some(k) ==> t.boot_args@ == k@,
        t.snapshot is Some <==> reg.snapshot_mem is Some && reg.snapshot_vmstate is Some,
        t.snapshot matches Some(s) ==> s.mem_file == reg.snapshot_mem->0 && s.vmstate
            == reg.snapshot_vmstate->0,
{
}

/// **Law.** What is kept of a bake's output is its end, all of it where it is
/// short.
pub proof fn law_the_end_of_the_output_is_kept(b: Seq<u8>)
    ensures
        tail_of(b).len() <= 4 * 1024,
        b.len() <= 4 * 1024 ==> tail_of(b) == b,
        b.len() > LOG_TAIL ==> tail_of(b).len() == LOG_TAIL,
        forall|i: int|
            0 <= i < tail_of(b).len() ==> (#[trigger] tail_of(b)[i]) == b[b.len() - tail_of(b).len()
                + i],
{
}

/// **Law.** Every build is listed, and none was begun after the one that is listed
/// first.
pub proof fn law_the_newest_build_is_listed_first(
    jobs: Seq<BuildStatus>,
    r: Seq<usize>,
    i: int,
)
    requires
        newest_first(jobs, r),
        0 <= i < jobs.len() <= usize::MAX,
    ensures
        r.len() == jobs.len(),
        r.contains(i as usize),
        jobs[r[0] as int].started_at >= jobs[i].started_at,
{
    assert(r.contains(i as usize));
    let k = choose|k: int| 0 <= k < r.len() && r[k] == i as usize;
    assert(jobs[r[0] as int].started_at >= jobs[r[k] as int].started_at);
}

} // verus!
