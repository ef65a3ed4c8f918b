//! Baking a warm template, as a machine: build the image, install it into a
//! volume, put in what every clone shall see, boot it once in a builder VM, and
//! snapshot that. The builder is always torn down and a mounted volume is always
//! unmounted, whatever fails.

use crate::common::ids::{SlotId, VmId, SLOT_MAX};
use crate::common::error::Error;
use crate::common::network::{EgressMode, MacAddr};
use crate::common::runtime::InstanceSpec;
use crate::firecracker::api::{suspends, ApiCall};
use crate::firecracker::jail::gives;
use crate::paths::{joined, join};
use crate::text::{
    concat2, concat3, cut, from_utf8_lossy, join as text_join, joined as text_joined, lossy_text,
    split_once, texts_of, trim, trimmed,
};
use vstd::prelude::*;
use vstd::string::*;

verus! {

/// The identity of the builder VM.
pub const BUILDER: u128 = 0xba6e_0000_0000_0000_0000_0000_0000_0001;

/// What is to be baked.
#[derive(Debug)]
pub struct Recipe {
    /// Template name.
    pub name: String,
    /// The image flake, as an absolute path where it has one.
    pub flake: String,
    /// State root.
    pub state: String,
    /// Rootfs volume size.
    pub size: String,
    pub vcpus: u32,
    pub mem_mib: u32,
    /// Transient placement slot used for the builder VM.
    pub slot: u16,
    /// Re-snapshot the rootfs that is there instead of installing one.
    pub skip_install: bool,
    /// Extra closures to copy into the rootfs and expose on the user's path.
    pub inject: Vec<String>,
    /// Repositories to seed into the rootfs, as `src:dest`.
    pub seed_repo: Vec<String>,
    /// Commands to run inside the builder before the snapshot.
    pub provision: Vec<String>,
    /// The key to log into the builder with.
    pub ssh_key: String,
    /// The builder's address, and its gateway's.
    pub inner_vm: String,
    pub gateway: String,
}

/// A recipe with what was built for it and the device that it goes to.
#[derive(Debug)]
pub struct Image {
    pub recipe: Recipe,
    pub kernel: String,
    pub toplevel: String,
    pub installer: String,
    pub dev: String,
}

/// Something done to the mounted rootfs.
#[derive(Debug)]
pub enum Work {
    /// The system is installed.
    Install,
    /// The user's directory of programs is made.
    InjectDir,
    /// Closure `p` is copied.
    InjectCopy { p: usize },
    /// Its programs are listed.
    InjectList { p: usize },
    /// Program `e` of it is linked.
    InjectLink { p: usize, names: Vec<String>, e: usize },
    /// The link is given to the user.
    InjectOwn { p: usize, names: Vec<String>, e: usize },
    /// The remote of repository `p` is asked for.
    SeedOrigin { p: usize },
    /// It is cloned.
    SeedClone { p: usize, origin: String },
    /// The clone is pointed to that remote.
    SeedRemote { p: usize, origin: String },
    /// The clone is to fetch one branch.
    SeedFetch { p: usize },
    /// The clone is given to the user.
    SeedOwn { p: usize },
}

/// What the rootfs is mounted for.
#[derive(Clone, Copy, Debug, PartialEq, Eq, Structural)]
pub enum Mounting {
    Install,
    Inject,
    Seed,
}

/// A bake in progress. Each phase but the last awaits one result.
#[derive(Debug)]
pub enum Baking {
    BuildKernel { recipe: Recipe },
    BuildToplevel { recipe: Recipe, kernel: String },
    BuildTools { recipe: Recipe, kernel: String, toplevel: String },
    /// The pool is brought up; the answer is the template's device.
    Storage { recipe: Recipe, kernel: String, toplevel: String, installer: String },
    CreateVolume { image: Image },
    Format { image: Image },
    MakeDir { image: Image, what: Mounting },
    Mount { image: Image, what: Mounting, mnt: String },
    Working { image: Image, mnt: String, work: Work },
    Flush { image: Image, what: Mounting, mnt: String, outcome: Result<(), String> },
    Unmount { image: Image, what: Mounting, mnt: String, outcome: Result<(), String> },
    Network { image: Image },
    /// The builder's network is made; the answer is its namespace.
    Attach { image: Image, slot: SlotId },
    Create { image: Image, slot: SlotId, netns: String },
    Start { image: Image, slot: SlotId, netns: String },
    Wait { image: Image, slot: SlotId, netns: String },
    Provision { image: Image, slot: SlotId, netns: String, at: usize },
    Sync { image: Image, slot: SlotId, netns: String },
    Suspend { image: Image, slot: SlotId, netns: String },
    Copy { image: Image, slot: SlotId, netns: String },
    Destroy { image: Image, slot: SlotId, outcome: Result<(), String> },
    Detach { image: Image, slot: SlotId, outcome: Result<(), String> },
    Done { result: Result<Image, String> },
}

/// What came of an action.
#[derive(Debug)]
pub enum BakeEvent {
    Done,
    Failed(String),
    /// What a command printed, or what was asked for.
    Text(String),
    Names(Vec<String>),
    /// The builder is not up yet, and there is time left.
    NotYet,
    /// There is no time left.
    Late,
}

// ---- commands ----

/// Where the closure's programs are linked.
pub open spec fn bin_dir(mnt: Seq<char>) -> Seq<char> {
    mnt + "/home/coder/.nix-profile/bin"@
}

/// The source and destination of a repository to seed.
pub open spec fn seed(r: Recipe, p: int) -> Option<(Seq<char>, Seq<char>)> {
    cut(r.seed_repo@[p]@, ':')
}

pub open spec fn seed_src(r: Recipe, p: int) -> Seq<char> {
    match seed(r, p) {
        Some(x) => x.0,
        None => Seq::empty(),
    }
}

pub open spec fn seed_dest(r: Recipe, p: int) -> Seq<char> {
    match seed(r, p) {
        Some(x) => x.1,
        None => Seq::empty(),
    }
}

/// The words of a command that runs over ssh in the builder.
pub open spec fn ssh(netns: Seq<char>, r: Recipe, command: Seq<char>) -> Seq<Seq<char>> {
    seq![
        "ip"@,
        "netns"@,
        "exec"@,
        netns,
        "ssh"@,
        "-i"@,
        r.ssh_key@,
        "-o"@,
        "StrictHostKeyChecking=no"@,
        "-o"@,
        "UserKnownHostsFile=/dev/null"@,
        "-o"@,
        "ConnectTimeout=15"@,
        "-o"@,
        "LogLevel=ERROR"@,
        "coder@"@ + r.inner_vm@,
        command,
    ]
}

/// The words of the command that builds a part of the image.
pub open spec fn nix_build(flake: Seq<char>, attr: Seq<char>) -> Seq<Seq<char>> {
    seq![
        "nix"@,
        "build"@,
        "path:"@ + flake + "#"@ + attr,
        "--no-link"@,
        "--print-out-paths"@,
    ]
}

/// The words of the command that a piece of work is, where it is one.
pub open spec fn work_words(i: Image, mnt: Seq<char>, w: Work) -> Seq<Seq<char>> {
    match w {
        Work::Install => seq![
            i.installer@,
            "--root"@,
            mnt,
            "--system"@,
            i.toplevel@,
            "--no-bootloader"@,
            "--no-root-passwd"@,
            "--no-channel-copy"@,
        ],
        Work::InjectDir => seq!["install"@, "-d"@, "-o"@, "1000"@, "-g"@, "1000"@, bin_dir(mnt)],
        Work::InjectCopy { p } => seq![
            "nix"@,
            "copy"@,
            "--no-check-sigs"@,
            "--to"@,
            "local?root="@ + mnt,
            i.recipe.inject@[p as int]@,
        ],
        Work::InjectList { .. } => Seq::empty(),
        Work::InjectLink { .. } => Seq::empty(),
        Work::InjectOwn { names, e, .. } => seq![
            "chown"@,
            "-h"@,
            "1000:1000"@,
            bin_dir(mnt) + "/"@ + names@[e as int]@,
        ],
        Work::SeedOrigin { p } => seq![
            "git"@,
            "-C"@,
            seed_src(i.recipe, p as int),
            "-c"@,
            "safe.directory=*"@,
            "remote"@,
            "get-url"@,
            "origin"@,
        ],
        Work::SeedClone { p, .. } => seq![
            "git"@,
            "-c"@,
            "safe.directory=*"@,
            "clone"@,
            "--single-branch"@,
            "--branch"@,
            "main"@,
            "--no-tags"@,
            "--no-hardlinks"@,
            "file://"@ + seed_src(i.recipe, p as int),
            mnt + seed_dest(i.recipe, p as int),
        ],
        Work::SeedRemote { p, origin } => seq![
            "git"@,
            "-C"@,
            mnt + seed_dest(i.recipe, p as int),
            "remote"@,
            "set-url"@,
            "origin"@,
            origin@,
        ],
        Work::SeedFetch { p } => seq![
            "git"@,
            "-C"@,
            mnt + seed_dest(i.recipe, p as int),
            "config"@,
            "remote.origin.fetch"@,
            "+refs/heads/main:refs/remotes/origin/main"@,
        ],
        Work::SeedOwn { p } => seq![
            "chown"@,
            "-R"@,
            "1000:1000"@,
            mnt + seed_dest(i.recipe, p as int),
        ],
    }
}

/// What a bake asks its caller to do.
#[derive(Debug)]
pub enum BakeAction<'a> {
    /// Run a command; it must succeed.
    Run(Vec<String>),
    /// Run a command; it must succeed, and what it prints is wanted.
    Ask(Vec<String>),
    /// Run a command; whether it succeeds does not matter.
    Try(Vec<String>),
    /// Bring the pool up, and say which device the template has.
    Storage,
    CreateVolume { name: &'a String, size: &'a String },
    /// The names of what is in a directory.
    ListDir { path: String },
    /// Link to a target, in place of what is there.
    Link { target: String, link: String },
    Network,
    Attach { slot: SlotId, egress: EgressMode },
    /// Create the builder VM on the device.
    Create { netns: &'a String },
    Start,
    /// Run a command to see whether the builder is up, while there is time.
    Probe(Vec<String>),
    Suspend,
    /// Copy the builder's snapshot into a directory.
    Copy { to: String },
    Destroy,
    Detach { slot: SlotId },
    Nothing,
}

/// Whether a piece of work has what it needs.
pub open spec fn workable(r: Recipe, w: Work) -> bool {
    match w {
        Work::Install => true,
        Work::InjectDir => r.inject@.len() > 0,
        Work::InjectCopy { p } => p < r.inject@.len(),
        Work::InjectList { p } => p < r.inject@.len(),
        Work::InjectLink { p, names, e } => p < r.inject@.len() && e < names@.len(),
        Work::InjectOwn { p, names, e } => p < r.inject@.len() && e < names@.len(),
        Work::SeedOrigin { p } => p < r.seed_repo@.len() && seed(r, p as int) is Some,
        Work::SeedClone { p, .. } => p < r.seed_repo@.len() && seed(r, p as int) is Some,
        Work::SeedRemote { p, .. } => p < r.seed_repo@.len() && seed(r, p as int) is Some,
        Work::SeedFetch { p } => p < r.seed_repo@.len() && seed(r, p as int) is Some,
        Work::SeedOwn { p } => p < r.seed_repo@.len() && seed(r, p as int) is Some,
    }
}

/// What the rootfs is mounted for while some work is done.
pub open spec fn mounted_for(w: Work) -> Mounting {
    match w {
        Work::Install => Mounting::Install,
        Work::InjectDir => Mounting::Inject,
        Work::InjectCopy { .. } => Mounting::Inject,
        Work::InjectList { .. } => Mounting::Inject,
        Work::InjectLink { .. } => Mounting::Inject,
        Work::InjectOwn { .. } => Mounting::Inject,
        _ => Mounting::Seed,
    }
}

// ---- the machine ----

/// Whether `r` is the end of a bake with a message.
pub open spec fn ended(r: Baking, message: Seq<char>) -> bool {
    r matches Baking::Done { result: Err(m) } && m@ == message
}

/// Whether `r` unmounts with a message to fail with.
pub open spec fn flushes(r: Baking, i: Image, what: Mounting, mnt: String, message: Seq<char>) -> bool {
    &&& r matches Baking::Flush { image, what: w, mnt: m, outcome }
    &&& image == i
    &&& w == what
    &&& m == mnt
    &&& outcome matches Err(e)
    &&& e@ == message
}

/// What is done after the rootfs was mounted and unmounted for something, or
/// where that is not needed: the next thing that it has to be mounted for, or
/// the network.
pub open spec fn after_mounting(i: Image, what: Mounting) -> Baking {
    match what {
        Mounting::Install => if i.recipe.inject@.len() > 0 {
            Baking::MakeDir { image: i, what: Mounting::Inject }
        } else if i.recipe.seed_repo@.len() > 0 {
            Baking::MakeDir { image: i, what: Mounting::Seed }
        } else {
            Baking::Network { image: i }
        },
        Mounting::Inject => if i.recipe.seed_repo@.len() > 0 {
            Baking::MakeDir { image: i, what: Mounting::Seed }
        } else {
            Baking::Network { image: i }
        },
        Mounting::Seed => Baking::Network { image: i },
    }
}

/// Whether `r` goes on with repository `p`, or ends the work where there is none
/// or it is not well written.
pub open spec fn seeds(i: Image, mnt: String, p: int, r: Baking) -> bool {
    if p >= i.recipe.seed_repo@.len() {
        r == (Baking::Flush { image: i, what: Mounting::Seed, mnt, outcome: Ok(()) })
    } else if seed(i.recipe, p) is None {
        flushes(r, i, Mounting::Seed, mnt, "--seed-repo must be src:dest"@)
    } else {
        r == (Baking::Working { image: i, mnt, work: Work::SeedOrigin { p: p as usize } })
    }
}

/// What follows program `e` of closure `p`: the next one, the next closure, or
/// the end of the work.
pub open spec fn after_program(i: Image, mnt: String, p: int, names: Vec<String>, e: int) -> Baking {
    if e < names@.len() {
        Baking::Working {
            image: i,
            mnt,
            work: Work::InjectLink { p: p as usize, names, e: e as usize },
        }
    } else if p + 1 < i.recipe.inject@.len() {
        Baking::Working { image: i, mnt, work: Work::InjectCopy { p: (p + 1) as usize } }
    } else {
        Baking::Flush { image: i, what: Mounting::Inject, mnt, outcome: Ok(()) }
    }
}

/// Whether `r` follows a piece of work that ended with `ev`.
pub open spec fn worked(i: Image, mnt: String, w: Work, ev: BakeEvent, r: Baking) -> bool {
    match (w, ev) {
        (Work::SeedOrigin { p }, BakeEvent::Text(t)) => r == (Baking::Working {
            image: i,
            mnt,
            work: Work::SeedClone { p, origin: t },
        }),
        // Without a remote the clone keeps the one it has.
        (Work::SeedOrigin { p }, _) => {
            &&& r matches Baking::Working { image, mnt: m, work: Work::SeedClone { p: q, origin } }
            &&& image == i
            &&& m == mnt
            &&& q == p
            &&& origin@.len() == 0
        },
        (_, BakeEvent::Failed(e)) => r == (Baking::Flush {
            image: i,
            what: mounted_for(w),
            mnt,
            outcome: Err(e),
        }),
        (Work::Install, _) => r == (Baking::Flush {
            image: i,
            what: Mounting::Install,
            mnt,
            outcome: Ok(()),
        }),
        (Work::InjectDir, _) => r == (Baking::Working {
            image: i,
            mnt,
            work: Work::InjectCopy { p: 0 },
        }),
        (Work::InjectCopy { p }, _) => r == (Baking::Working {
            image: i,
            mnt,
            work: Work::InjectList { p },
        }),
        (Work::InjectList { p }, BakeEvent::Names(names)) => r == after_program(
            i,
            mnt,
            p as int,
            names,
            0,
        ),
        (Work::InjectLink { p, names, e }, _) => r == (Baking::Working {
            image: i,
            mnt,
            work: Work::InjectOwn { p, names, e },
        }),
        (Work::InjectOwn { p, names, e }, _) => r == after_program(i, mnt, p as int, names, e + 1),
        (Work::SeedClone { p, origin }, _) => r == (Baking::Working {
            image: i,
            mnt,
            work: if origin@.len() > 0 {
                Work::SeedRemote { p, origin }
            } else {
                Work::SeedFetch { p }
            },
        }),
        (Work::SeedRemote { p, .. }, _) => r == (Baking::Working {
            image: i,
            mnt,
            work: Work::SeedFetch { p },
        }),
        (Work::SeedFetch { p }, _) => r == (Baking::Working {
            image: i,
            mnt,
            work: Work::SeedOwn { p },
        }),
        (Work::SeedOwn { p }, _) => seeds(i, mnt, p + 1, r),
        _ => true,
    }
}

/// Whether an event answers a piece of work.
pub open spec fn answers_work(w: Work, ev: BakeEvent) -> bool {
    match w {
        Work::InjectList { .. } => ev is Names || ev is Failed,
        Work::SeedOrigin { .. } => ev is Text || ev is Failed,
        _ => ev is Done || ev is Failed,
    }
}

/// What follows in the builder once it is up, or after a command in it.
pub open spec fn provisioned(i: Image, slot: SlotId, netns: String, at: int) -> Baking {
    if at < i.recipe.provision@.len() {
        Baking::Provision { image: i, slot, netns, at: at as usize }
    } else {
        Baking::Sync { image: i, slot, netns }
    }
}

impl Baking {
    pub open spec fn wf(self) -> bool {
        match self {
            Baking::MakeDir { image, what } => mountable(image.recipe, what),
            Baking::Mount { image, what, .. } => mountable(image.recipe, what),
            Baking::Working { image, work, .. } => workable(image.recipe, work),
            Baking::Provision { image, at, .. } => at < image.recipe.provision@.len(),
            _ => true,
        }
    }

    /// Whether an event answers what this bake asks for.
    pub open spec fn awaits(self, ev: BakeEvent) -> bool {
        match self {
            Baking::BuildKernel { .. } => ev is Text || ev is Failed,
            Baking::BuildToplevel { .. } => ev is Text || ev is Failed,
            Baking::BuildTools { .. } => ev is Text || ev is Failed,
            Baking::Storage { .. } => ev is Text || ev is Failed,
            Baking::MakeDir { .. } => ev is Text || ev is Failed,
            Baking::Attach { .. } => ev is Text || ev is Failed,
            Baking::Working { work, .. } => answers_work(work, ev),
            Baking::Wait { .. } => ev is Done || ev is NotYet || ev is Late,
            Baking::Done { .. } => false,
            _ => ev is Done || ev is Failed,
        }
    }

    /// The whole machine: what `ev` turns this bake into.
    pub open spec fn follows(self, ev: BakeEvent, r: Baking) -> bool {
        match (self, ev) {
            (Baking::Working { image, mnt, work }, _) => worked(image, mnt, work, ev, r),
            // What does not matter.
            (Baking::Flush { image, what, mnt, outcome }, _) => r == (Baking::Unmount {
                image,
                what,
                mnt,
                outcome,
            }),
            (Baking::Unmount { image, what, outcome, .. }, _) => match outcome {
                Err(e) => r == (Baking::Done { result: Err(e) }),
                Ok(_) => r == after_mounting(image, what),
            },
            (Baking::Provision { image, slot, netns, at }, _) => r == provisioned(
                image,
                slot,
                netns,
                at + 1,
            ),
            (Baking::Sync { image, slot, netns }, _) => r == (Baking::Suspend {
                image,
                slot,
                netns,
            }),
            (Baking::Destroy { image, slot, outcome }, _) => r == (Baking::Detach {
                image,
                slot,
                outcome,
            }),
            (Baking::Detach { image, outcome, .. }, _) => match outcome {
                Err(e) => r == (Baking::Done { result: Err(e) }),
                Ok(_) => r == (Baking::Done { result: Ok(image) }),
            },
            // The builder is there: it goes whatever fails.
            (Baking::Create { image, slot, .. }, BakeEvent::Failed(e)) => r == (Baking::Destroy {
                image,
                slot,
                outcome: Err(e),
            }),
            (Baking::Create { image, slot, netns }, _) => r == (Baking::Start {
                image,
                slot,
                netns,
            }),
            (Baking::Start { image, slot, .. }, BakeEvent::Failed(e)) => r == (Baking::Destroy {
                image,
                slot,
                outcome: Err(e),
            }),
            (Baking::Start { image, slot, netns }, _) => r == (Baking::Wait { image, slot, netns }),
            (Baking::Wait { image, slot, netns }, BakeEvent::Done) => r == provisioned(
                image,
                slot,
                netns,
                0,
            ),
            (Baking::Wait { image, slot, netns }, BakeEvent::NotYet) => r == (Baking::Wait {
                image,
                slot,
                netns,
            }),
            (Baking::Wait { image, slot, .. }, _) => {
                &&& r matches Baking::Destroy { image: i, slot: s, outcome: Err(m) }
                &&& i == image
                &&& s == slot
                &&& m@ == "guest never reached sshd within the boot timeout"@
            },
            (Baking::Suspend { image, slot, .. }, BakeEvent::Failed(e)) => r == (Baking::Destroy {
                image,
                slot,
                outcome: Err(e),
            }),
            (Baking::Suspend { image, slot, netns }, _) => r == (Baking::Copy {
                image,
                slot,
                netns,
            }),
            (Baking::Copy { image, slot, .. }, BakeEvent::Failed(e)) => r == (Baking::Destroy {
                image,
                slot,
                outcome: Err(e),
            }),
            (Baking::Copy { image, slot, .. }, _) => r == (Baking::Destroy {
                image,
                slot,
                outcome: Ok(()),
            }),
            // Before there is a builder, a failure ends the bake.
            (_, BakeEvent::Failed(e)) => r == (Baking::Done { result: Err(e) }),
            (Baking::BuildKernel { recipe }, BakeEvent::Text(t)) => {
                &&& r matches Baking::BuildToplevel { recipe: q, kernel }
                &&& q == recipe
                &&& kernel@ == joined(t@, "vmlinux"@)
            },
            (Baking::BuildToplevel { recipe, kernel }, BakeEvent::Text(t)) => r == (
            Baking::BuildTools { recipe, kernel, toplevel: t }),
            (Baking::BuildTools { recipe, kernel, toplevel }, BakeEvent::Text(t)) => {
                &&& r matches Baking::Storage { recipe: q, kernel: k, toplevel: l, installer }
                &&& q == recipe
                &&& k == kernel
                &&& l == toplevel
                &&& installer@ == t@ + "/bin/nixos-install"@
            },
            (Baking::Storage { recipe, kernel, toplevel, installer }, BakeEvent::Text(dev)) => {
                let image = Image { recipe, kernel, toplevel, installer, dev };
                r == if recipe.skip_install {
                    after_mounting(image, Mounting::Install)
                } else {
                    Baking::CreateVolume { image }
                }
            },
            (Baking::CreateVolume { image }, _) => r == (Baking::Format { image }),
            (Baking::Format { image }, _) => r == (Baking::MakeDir {
                image,
                what: Mounting::Install,
            }),
            (Baking::MakeDir { image, what }, BakeEvent::Text(mnt)) => r == (Baking::Mount {
                image,
                what,
                mnt,
            }),
            (Baking::Mount { image, what, mnt }, _) => match what {
                Mounting::Install => r == (Baking::Working { image, mnt, work: Work::Install }),
                Mounting::Inject => r == (Baking::Working { image, mnt, work: Work::InjectDir }),
                Mounting::Seed => seeds(image, mnt, 0, r),
            },
            (Baking::Network { image }, _) => if image.recipe.slot <= SLOT_MAX {
                r matches Baking::Attach { image: i, slot } && i == image && slot.value()
                    == image.recipe.slot
            } else {
                ended(r, Error::SlotOutOfRange(image.recipe.slot).said())
            },
            (Baking::Attach { image, slot }, BakeEvent::Text(netns)) => r == (Baking::Create {
                image,
                slot,
                netns,
            }),
            _ => true,
        }
    }

    /// Whether the rootfs is mounted.
    pub open spec fn mounted(self) -> bool {
        self is Working || self is Flush || self is Unmount
    }

    /// Whether there is, or may be, a builder VM.
    pub open spec fn building(self) -> bool {
        ||| self is Create
        ||| self is Start
        ||| self is Wait
        ||| self is Provision
        ||| self is Sync
        ||| self is Suspend
        ||| self is Copy
    }
}

/// Whether there is something to mount the rootfs for.
pub open spec fn mountable(r: Recipe, what: Mounting) -> bool {
    match what {
        Mounting::Install => true,
        Mounting::Inject => r.inject@.len() > 0,
        Mounting::Seed => r.seed_repo@.len() > 0,
    }
}

fn next_mounting(image: Image, what: Mounting) -> (r: Baking)
    ensures
        r == after_mounting(image, what),
        r.wf(),
{
    let inject = image.recipe.inject.len() > 0;
    let seeding = image.recipe.seed_repo.len() > 0;
    match what {
        Mounting::Install => if inject {
            Baking::MakeDir { image, what: Mounting::Inject }
        } else if seeding {
            Baking::MakeDir { image, what: Mounting::Seed }
        } else {
            Baking::Network { image }
        },
        Mounting::Inject => if seeding {
            Baking::MakeDir { image, what: Mounting::Seed }
        } else {
            Baking::Network { image }
        },
        Mounting::Seed => Baking::Network { image },
    }
}

fn seed_next(image: Image, mnt: String, p: usize) -> (r: Baking)
    ensures
        seeds(image, mnt, p as int, r),
        r.wf(),
{
    if p >= image.recipe.seed_repo.len() {
        return Baking::Flush { image, what: Mounting::Seed, mnt, outcome: Ok(()) };
    }
    match split_once(image.recipe.seed_repo[p].as_str(), ':') {
        None => Baking::Flush {
            image,
            what: Mounting::Seed,
            mnt,
            outcome: Err("--seed-repo must be src:dest".to_string()),
        },
        Some(_) => Baking::Working { image, mnt, work: Work::SeedOrigin { p } },
    }
}

fn next_program(image: Image, mnt: String, p: usize, names: Vec<String>, e: usize) -> (r: Baking)
    requires
        p < image.recipe.inject@.len(),
        e <= names@.len(),
    ensures
        r == after_program(image, mnt, p as int, names, e as int),
        r.wf(),
{
    if e < names.len() {
        Baking::Working { image, mnt, work: Work::InjectLink { p, names, e } }
    } else if p < image.recipe.inject.len() - 1 {
        Baking::Working { image, mnt, work: Work::InjectCopy { p: p + 1 } }
    } else {
        Baking::Flush { image, what: Mounting::Inject, mnt, outcome: Ok(()) }
    }
}

fn purpose(w: &Work) -> (r: Mounting)
    ensures
        r == mounted_for(*w),
{
    match w {
        Work::Install => Mounting::Install,
        Work::InjectDir => Mounting::Inject,
        Work::InjectCopy { .. } => Mounting::Inject,
        Work::InjectList { .. } => Mounting::Inject,
        Work::InjectLink { .. } => Mounting::Inject,
        Work::InjectOwn { .. } => Mounting::Inject,
        _ => Mounting::Seed,
    }
}

fn after_work(image: Image, mnt: String, work: Work, ev: BakeEvent) -> (r: Baking)
    requires
        workable(image.recipe, work),
        answers_work(work, ev),
    ensures
        worked(image, mnt, work, ev, r),
        r.wf(),
{
    let what = purpose(&work);
    match (work, ev) {
        (Work::SeedOrigin { p }, BakeEvent::Text(t)) => Baking::Working {
            image,
            mnt,
            work: Work::SeedClone { p, origin: t },
        },
        (Work::SeedOrigin { p }, _) => Baking::Working {
            image,
            mnt,
            work: Work::SeedClone { p, origin: String::new() },
        },
        (_, BakeEvent::Failed(e)) => Baking::Flush { image, what, mnt, outcome: Err(e) },
        (Work::Install, _) => Baking::Flush {
            image,
            what: Mounting::Install,
            mnt,
            outcome: Ok(()),
        },
        (Work::InjectDir, _) => Baking::Working { image, mnt, work: Work::InjectCopy { p: 0 } },
        (Work::InjectCopy { p }, _) => Baking::Working { image, mnt, work: Work::InjectList { p } },
        (Work::InjectList { p }, BakeEvent::Names(names)) => next_program(image, mnt, p, names, 0),
        (Work::InjectList { p }, _) => Baking::Working { image, mnt, work: Work::InjectList { p } },
        (Work::InjectLink { p, names, e }, _) => Baking::Working {
            image,
            mnt,
            work: Work::InjectOwn { p, names, e },
        },
        (Work::InjectOwn { p, names, e }, _) => {
            assert(e < names.len());
            next_program(image, mnt, p, names, e + 1)
        },
        (Work::SeedClone { p, origin }, _) => {
            let work = if origin.as_str().is_empty() {
                Work::SeedFetch { p }
            } else {
                Work::SeedRemote { p, origin }
            };
            Baking::Working { image, mnt, work }
        },
        (Work::SeedRemote { p, .. }, _) => Baking::Working {
            image,
            mnt,
            work: Work::SeedFetch { p },
        },
        (Work::SeedFetch { p }, _) => Baking::Working { image, mnt, work: Work::SeedOwn { p } },
        (Work::SeedOwn { p }, _) => {
            assert(p < image.recipe.seed_repo.len());
            seed_next(image, mnt, p + 1)
        },
    }
}

fn next_command(image: Image, slot: SlotId, netns: String, at: usize) -> (r: Baking)
    ensures
        r == provisioned(image, slot, netns, at as int),
        r.wf(),
{
    if at < image.recipe.provision.len() {
        Baking::Provision { image, slot, netns, at }
    } else {
        Baking::Sync { image, slot, netns }
    }
}

impl Baking {
    /// The bake of a recipe, by a process with this effective user: only root can.
    pub fn begin(recipe: Recipe, euid: u32) -> (r: Baking)
        ensures
            r.wf(),
            if euid == 0 {
                r == (Baking::BuildKernel { recipe })
            } else {
                ended(r, "bake must run as root (LVM, netns, KVM)"@)
            },
    {
        if euid != 0 {
            return Baking::Done {
                result: Err("bake must run as root (LVM, netns, KVM)".to_string()),
            };
        }
        Baking::BuildKernel { recipe }
    }

    /// What `ev` turns this bake into.
    pub fn step(self, ev: BakeEvent) -> (r: Baking)
        requires
            self.wf(),
            self.awaits(ev),
        ensures
            r.wf(),
            self.follows(ev, r),
    {
        match (self, ev) {
            (Baking::Working { image, mnt, work }, ev) => after_work(image, mnt, work, ev),
            (Baking::Flush { image, what, mnt, outcome }, _) => Baking::Unmount {
                image,
                what,
                mnt,
                outcome,
            },
            (Baking::Unmount { image, what, outcome, .. }, _) => match outcome {
                Err(e) => Baking::Done { result: Err(e) },
                Ok(_) => next_mounting(image, what),
            },
            (Baking::Provision { image, slot, netns, at }, _) => {
                assert(at < image.recipe.provision.len());
                next_command(image, slot, netns, at + 1)
            },
            (Baking::Sync { image, slot, netns }, _) => Baking::Suspend { image, slot, netns },
            (Baking::Destroy { image, slot, outcome }, _) => Baking::Detach {
                image,
                slot,
                outcome,
            },
            (Baking::Detach { image, outcome, .. }, _) => match outcome {
                Err(e) => Baking::Done { result: Err(e) },
                Ok(_) => Baking::Done { result: Ok(image) },
            },
            (Baking::Create { image, slot, .. }, BakeEvent::Failed(e)) => Baking::Destroy {
                image,
                slot,
                outcome: Err(e),
            },
            (Baking::Create { image, slot, netns }, _) => Baking::Start { image, slot, netns },
            (Baking::Start { image, slot, .. }, BakeEvent::Failed(e)) => Baking::Destroy {
                image,
                slot,
                outcome: Err(e),
            },
            (Baking::Start { image, slot, netns }, _) => Baking::Wait { image, slot, netns },
            (Baking::Wait { image, slot, netns }, BakeEvent::Done) => next_command(
                image,
                slot,
                netns,
                0,
            ),
            (Baking::Wait { image, slot, netns }, BakeEvent::NotYet) => Baking::Wait {
                image,
                slot,
                netns,
            },
            (Baking::Wait { image, slot, .. }, _) => Baking::Destroy {
                image,
                slot,
                outcome: Err("guest never reached sshd within the boot timeout".to_string()),
            },
            (Baking::Suspend { image, slot, .. }, BakeEvent::Failed(e)) => Baking::Destroy {
                image,
                slot,
                outcome: Err(e),
            },
            (Baking::Suspend { image, slot, netns }, _) => Baking::Copy { image, slot, netns },
            (Baking::Copy { image, slot, .. }, BakeEvent::Failed(e)) => Baking::Destroy {
                image,
                slot,
                outcome: Err(e),
            },
            (Baking::Copy { image, slot, .. }, _) => Baking::Destroy {
                image,
                slot,
                outcome: Ok(()),
            },
            (_, BakeEvent::Failed(e)) => Baking::Done { result: Err(e) },
            (Baking::BuildKernel { recipe }, BakeEvent::Text(t)) => Baking::BuildToplevel {
                recipe,
                kernel: join(t.as_str(), "vmlinux"),
            },
            (Baking::BuildToplevel { recipe, kernel }, BakeEvent::Text(t)) => Baking::BuildTools {
                recipe,
                kernel,
                toplevel: t,
            },
            (Baking::BuildTools { recipe, kernel, toplevel }, BakeEvent::Text(t)) => {
                let installer = concat2(t.as_str(), "/bin/nixos-install");
                Baking::Storage { recipe, kernel, toplevel, installer }
            },
            (Baking::Storage { recipe, kernel, toplevel, installer }, BakeEvent::Text(dev)) => {
                let skip = recipe.skip_install;
                let image = Image { recipe, kernel, toplevel, installer, dev };
                if skip {
                    next_mounting(image, Mounting::Install)
                } else {
                    Baking::CreateVolume { image }
                }
            },
            (Baking::CreateVolume { image }, _) => Baking::Format { image },
            (Baking::Format { image }, _) => Baking::MakeDir { image, what: Mounting::Install },
            (Baking::MakeDir { image, what }, BakeEvent::Text(mnt)) => Baking::Mount {
                image,
                what,
                mnt,
            },
            (Baking::Mount { image, what, mnt }, _) => match what {
                Mounting::Install => Baking::Working { image, mnt, work: Work::Install },
                Mounting::Inject => Baking::Working { image, mnt, work: Work::InjectDir },
                Mounting::Seed => seed_next(image, mnt, 0),
            },
            (Baking::Network { image }, _) => match SlotId::new(image.recipe.slot) {
                Ok(slot) => Baking::Attach { image, slot },
                Err(e) => Baking::Done { result: Err(e.to_string()) },
            },
            (Baking::Attach { image, slot }, BakeEvent::Text(netns)) => Baking::Create {
                image,
                slot,
                netns,
            },
            (b, _) => b,
        }
    }
}

// ---- actions ----

/// Pushes a word.
fn word(v: &mut Vec<String>, s: &str)
    ensures
        texts_of(final(v)@) == texts_of(old(v)@).push(s@),
{
    let ghost had = v@;
    v.push(s.to_string());
    assert(texts_of(v@) =~= texts_of(had).push(s@));
}

fn no_words() -> (v: Vec<String>)
    ensures
        texts_of(v@) == Seq::<Seq<char>>::empty(),
{
    let v: Vec<String> = Vec::new();
    assert(texts_of(v@) =~= Seq::<Seq<char>>::empty());
    v
}

fn nix_build_words(flake: &str, attr: &str) -> (v: Vec<String>)
    ensures
        texts_of(v@) == nix_build(flake@, attr@),
{
    let mut target = concat3("path:", flake, "#");
    target.append(attr);
    let mut v = no_words();
    word(&mut v, "nix");
    word(&mut v, "build");
    word(&mut v, target.as_str());
    word(&mut v, "--no-link");
    word(&mut v, "--print-out-paths");
    assert(texts_of(v@) =~= nix_build(flake@, attr@));
    v
}

fn ssh_words(netns: &str, r: &Recipe, command: &str) -> (v: Vec<String>)
    ensures
        texts_of(v@) == ssh(netns@, *r, command@),
{
    let login = concat2("coder@", r.inner_vm.as_str());
    let mut v = no_words();
    word(&mut v, "ip");
    word(&mut v, "netns");
    word(&mut v, "exec");
    word(&mut v, netns);
    word(&mut v, "ssh");
    word(&mut v, "-i");
    word(&mut v, r.ssh_key.as_str());
    word(&mut v, "-o");
    word(&mut v, "StrictHostKeyChecking=no");
    word(&mut v, "-o");
    word(&mut v, "UserKnownHostsFile=/dev/null");
    word(&mut v, "-o");
    word(&mut v, "ConnectTimeout=15");
    word(&mut v, "-o");
    word(&mut v, "LogLevel=ERROR");
    word(&mut v, login.as_str());
    word(&mut v, command);
    assert(texts_of(v@) =~= ssh(netns@, *r, command@));
    v
}

fn bin_path(mnt: &str) -> (s: String)
    ensures
        s@ == bin_dir(mnt@),
{
    concat2(mnt, "/home/coder/.nix-profile/bin")
}

fn seed_at(r: &Recipe, p: usize) -> (x: (String, String))
    requires
        p < r.seed_repo@.len(),
        seed(*r, p as int) is Some,
    ensures
        seed(*r, p as int) == Some((x.0@, x.1@)),
{
    match split_once(r.seed_repo[p].as_str(), ':') {
        Some(x) => x,
        None => vstd::pervasive::unreached(),
    }
}

fn words_of_work(i: &Image, mnt: &str, w: &Work) -> (v: Vec<String>)
    requires
        workable(i.recipe, *w),
    ensures
        texts_of(v@) == work_words(*i, mnt@, *w),
{
    let mut v = no_words();
    match w {
        Work::Install => {
            word(&mut v, i.installer.as_str());
            word(&mut v, "--root");
            word(&mut v, mnt);
            word(&mut v, "--system");
            word(&mut v, i.toplevel.as_str());
            word(&mut v, "--no-bootloader");
            word(&mut v, "--no-root-passwd");
            word(&mut v, "--no-channel-copy");
        },
        Work::InjectDir => {
            let dir = bin_path(mnt);
            word(&mut v, "install");
            word(&mut v, "-d");
            word(&mut v, "-o");
            word(&mut v, "1000");
            word(&mut v, "-g");
            word(&mut v, "1000");
            word(&mut v, dir.as_str());
        },
        Work::InjectCopy { p } => {
            let root = concat2("local?root=", mnt);
            word(&mut v, "nix");
            word(&mut v, "copy");
            word(&mut v, "--no-check-sigs");
            word(&mut v, "--to");
            word(&mut v, root.as_str());
            word(&mut v, i.recipe.inject[*p].as_str());
        },
        Work::InjectList { .. } => {},
        Work::InjectLink { .. } => {},
        Work::InjectOwn { names, e, .. } => {
            let link = concat3(bin_path(mnt).as_str(), "/", names[*e].as_str());
            word(&mut v, "chown");
            word(&mut v, "-h");
            word(&mut v, "1000:1000");
            word(&mut v, link.as_str());
        },
        Work::SeedOrigin { p } => {
            let (src, _) = seed_at(&i.recipe, *p);
            word(&mut v, "git");
            word(&mut v, "-C");
            word(&mut v, src.as_str());
            word(&mut v, "-c");
            word(&mut v, "safe.directory=*");
            word(&mut v, "remote");
            word(&mut v, "get-url");
            word(&mut v, "origin");
        },
        Work::SeedClone { p, .. } => {
            let (src, dest) = seed_at(&i.recipe, *p);
            let from = concat2("file://", src.as_str());
            let to = concat2(mnt, dest.as_str());
            word(&mut v, "git");
            word(&mut v, "-c");
            word(&mut v, "safe.directory=*");
            word(&mut v, "clone");
            word(&mut v, "--single-branch");
            word(&mut v, "--branch");
            word(&mut v, "main");
            word(&mut v, "--no-tags");
            word(&mut v, "--no-hardlinks");
            word(&mut v, from.as_str());
            word(&mut v, to.as_str());
        },
        Work::SeedRemote { p, origin } => {
            let (_, dest) = seed_at(&i.recipe, *p);
            let to = concat2(mnt, dest.as_str());
            word(&mut v, "git");
            word(&mut v, "-C");
            word(&mut v, to.as_str());
            word(&mut v, "remote");
            word(&mut v, "set-url");
            word(&mut v, "origin");
            word(&mut v, origin.as_str());
        },
        Work::SeedFetch { p } => {
            let (_, dest) = seed_at(&i.recipe, *p);
            let to = concat2(mnt, dest.as_str());
            word(&mut v, "git");
            word(&mut v, "-C");
            word(&mut v, to.as_str());
            word(&mut v, "config");
            word(&mut v, "remote.origin.fetch");
            word(&mut v, "+refs/heads/main:refs/remotes/origin/main");
        },
        Work::SeedOwn { p } => {
            let (_, dest) = seed_at(&i.recipe, *p);
            let to = concat2(mnt, dest.as_str());
            word(&mut v, "chown");
            word(&mut v, "-R");
            word(&mut v, "1000:1000");
            word(&mut v, to.as_str());
        },
    }
    assert(texts_of(v@) =~= work_words(*i, mnt@, *w));
    v
}

/// Whether `a` is what a piece of work asks for.
pub open spec fn asks_work(i: Image, mnt: Seq<char>, w: Work, a: BakeAction<'_>) -> bool {
    match w {
        Work::InjectList { p } => a matches BakeAction::ListDir { path } && path@
            == i.recipe.inject@[p as int]@ + "/bin"@,
        Work::InjectLink { p, names, e } => {
            &&& a matches BakeAction::Link { target, link }
            &&& target@ == joined(i.recipe.inject@[p as int]@ + "/bin"@, names@[e as int]@)
            &&& link@ == bin_dir(mnt) + "/"@ + names@[e as int]@
        },
        Work::SeedOrigin { .. } => a matches BakeAction::Ask(v) && texts_of(v@) == work_words(
            i,
            mnt,
            w,
        ),
        _ => a matches BakeAction::Run(v) && texts_of(v@) == work_words(i, mnt, w),
    }
}

fn work_action<'a>(i: &'a Image, mnt: &'a String, w: &'a Work) -> (a: BakeAction<'a>)
    requires
        workable(i.recipe, *w),
    ensures
        asks_work(*i, mnt@, *w, a),
{
    match w {
        Work::InjectList { p } => BakeAction::ListDir {
            path: concat2(i.recipe.inject[*p].as_str(), "/bin"),
        },
        Work::InjectLink { p, names, e } => BakeAction::Link {
            target: join(
                concat2(i.recipe.inject[*p].as_str(), "/bin").as_str(),
                names[*e].as_str(),
            ),
            link: concat3(bin_path(mnt.as_str()).as_str(), "/", names[*e].as_str()),
        },
        Work::SeedOrigin { .. } => BakeAction::Ask(words_of_work(i, mnt.as_str(), w)),
        _ => BakeAction::Run(words_of_work(i, mnt.as_str(), w)),
    }
}

/// The egress of the builder: provisioning needs the network, else it needs
/// none.
pub open spec fn builder_egress(r: Recipe) -> EgressMode {
    if r.provision@.len() == 0 {
        EgressMode::Deny
    } else {
        EgressMode::Allow
    }
}

/// Whether `a` is what a bake asks for.
pub open spec fn asks(b: Baking, a: BakeAction<'_>) -> bool {
    match b {
        Baking::BuildKernel { recipe } => a matches BakeAction::Ask(v) && texts_of(v@) == nix_build(
            recipe.flake@,
            "kernel"@,
        ),
        Baking::BuildToplevel { recipe, .. } => a matches BakeAction::Ask(v) && texts_of(v@)
            == nix_build(recipe.flake@, "toplevel"@),
        Baking::BuildTools { recipe, .. } => a matches BakeAction::Ask(v) && texts_of(v@)
            == nix_build(recipe.flake@, "nixos-install-tools"@),
        Baking::Storage { .. } => a is Storage,
        Baking::CreateVolume { image } => a matches BakeAction::CreateVolume { name, size } && *name
            == image.recipe.name && *size == image.recipe.size,
        Baking::Format { image } => a matches BakeAction::Run(v) && texts_of(v@) == seq![
            "mkfs.ext4"@,
            "-F"@,
            "-q"@,
            image.dev@,
        ],
        Baking::MakeDir { .. } => a matches BakeAction::Ask(v) && texts_of(v@) == seq![
            "mktemp"@,
            "-d"@,
        ],
        Baking::Mount { image, mnt, .. } => a matches BakeAction::Run(v) && texts_of(v@) == seq![
            "mount"@,
            image.dev@,
            mnt@,
        ],
        Baking::Working { image, mnt, work } => asks_work(image, mnt@, work, a),
        Baking::Flush { .. } => a matches BakeAction::Try(v) && texts_of(v@) == seq!["sync"@],
        Baking::Unmount { mnt, .. } => a matches BakeAction::Try(v) && texts_of(v@) == seq![
            "umount"@,
            "-R"@,
            mnt@,
        ],
        Baking::Network { .. } => a is Network,
        Baking::Attach { image, slot } => a == (BakeAction::Attach {
            slot,
            egress: builder_egress(image.recipe),
        }),
        Baking::Create { netns, .. } => a matches BakeAction::Create { netns: n } && *n == netns,
        Baking::Start { .. } => a is Start,
        Baking::Wait { image, netns, .. } => a matches BakeAction::Probe(v) && texts_of(v@) == seq![
            "ip"@,
            "netns"@,
            "exec"@,
            netns@,
            "timeout"@,
            "2"@,
            "bash"@,
            "-c"@,
            "cat </dev/null >/dev/tcp/"@ + image.recipe.inner_vm@ + "/22"@,
        ],
        Baking::Provision { image, netns, at, .. } => a matches BakeAction::Try(v) && texts_of(v@)
            == ssh(netns@, image.recipe, image.recipe.provision@[at as int]@),
        Baking::Sync { image, netns, .. } => a matches BakeAction::Try(v) && texts_of(v@) == ssh(
            netns@,
            image.recipe,
            "sync"@,
        ),
        Baking::Suspend { .. } => a is Suspend,
        Baking::Copy { image, .. } => a matches BakeAction::Copy { to } && to@ == template_dir(
            image.recipe,
        ),
        Baking::Destroy { .. } => a is Destroy,
        Baking::Detach { slot, .. } => a == (BakeAction::Detach { slot }),
        Baking::Done { .. } => a is Nothing,
    }
}

/// Where a template's snapshot is kept.
pub open spec fn template_dir(r: Recipe) -> Seq<char> {
    joined(joined(r.state@, "templates"@), r.name@)
}

fn template_path(r: &Recipe) -> (s: String)
    ensures
        s@ == template_dir(*r),
{
    join(join(r.state.as_str(), "templates").as_str(), r.name.as_str())
}

impl Baking {
    /// What is to be done now.
    pub fn action(&self) -> (a: BakeAction<'_>)
        requires
            self.wf(),
        ensures
            asks(*self, a),
    {
        match self {
            Baking::BuildKernel { recipe } => BakeAction::Ask(
                nix_build_words(recipe.flake.as_str(), "kernel"),
            ),
            Baking::BuildToplevel { recipe, .. } => BakeAction::Ask(
                nix_build_words(recipe.flake.as_str(), "toplevel"),
            ),
            Baking::BuildTools { recipe, .. } => BakeAction::Ask(
                nix_build_words(recipe.flake.as_str(), "nixos-install-tools"),
            ),
            Baking::Storage { .. } => BakeAction::Storage,
            Baking::CreateVolume { image } => BakeAction::CreateVolume {
                name: &image.recipe.name,
                size: &image.recipe.size,
            },
            Baking::Format { image } => {
                let mut v = no_words();
                word(&mut v, "mkfs.ext4");
                word(&mut v, "-F");
                word(&mut v, "-q");
                word(&mut v, image.dev.as_str());
                assert(texts_of(v@) =~= seq!["mkfs.ext4"@, "-F"@, "-q"@, image.dev@]);
                BakeAction::Run(v)
            },
            Baking::MakeDir { .. } => {
                let mut v = no_words();
                word(&mut v, "mktemp");
                word(&mut v, "-d");
                assert(texts_of(v@) =~= seq!["mktemp"@, "-d"@]);
                BakeAction::Ask(v)
            },
            Baking::Mount { image, mnt, .. } => {
                let mut v = no_words();
                word(&mut v, "mount");
                word(&mut v, image.dev.as_str());
                word(&mut v, mnt.as_str());
                assert(texts_of(v@) =~= seq!["mount"@, image.dev@, mnt@]);
                BakeAction::Run(v)
            },
            Baking::Working { image, mnt, work } => work_action(image, mnt, work),
            Baking::Flush { .. } => {
                let mut v = no_words();
                word(&mut v, "sync");
                assert(texts_of(v@) =~= seq!["sync"@]);
                BakeAction::Try(v)
            },
            Baking::Unmount { mnt, .. } => {
                let mut v = no_words();
                word(&mut v, "umount");
                word(&mut v, "-R");
                word(&mut v, mnt.as_str());
                assert(texts_of(v@) =~= seq!["umount"@, "-R"@, mnt@]);
                BakeAction::Try(v)
            },
            Baking::Network { .. } => BakeAction::Network,
            Baking::Attach { image, slot } => BakeAction::Attach {
                slot: *slot,
                egress: if image.recipe.provision.len() == 0 {
                    EgressMode::Deny
                } else {
                    EgressMode::Allow
                },
            },
            Baking::Create { netns, .. } => BakeAction::Create { netns },
            Baking::Start { .. } => BakeAction::Start,
            Baking::Wait { image, netns, .. } => {
                let probe = concat3(
                    "cat </dev/null >/dev/tcp/",
                    image.recipe.inner_vm.as_str(),
                    "/22",
                );
                let mut v = no_words();
                word(&mut v, "ip");
                word(&mut v, "netns");
                word(&mut v, "exec");
                word(&mut v, netns.as_str());
                word(&mut v, "timeout");
                word(&mut v, "2");
                word(&mut v, "bash");
                word(&mut v, "-c");
                word(&mut v, probe.as_str());
                assert(texts_of(v@) =~= seq![
                    "ip"@,
                    "netns"@,
                    "exec"@,
                    netns@,
                    "timeout"@,
                    "2"@,
                    "bash"@,
                    "-c"@,
                    "cat </dev/null >/dev/tcp/"@ + image.recipe.inner_vm@ + "/22"@,
                ]);
                BakeAction::Probe(v)
            },
            Baking::Provision { image, netns, at, .. } => BakeAction::Try(
                ssh_words(netns.as_str(), &image.recipe, image.recipe.provision[*at].as_str()),
            ),
            Baking::Sync { image, netns, .. } => BakeAction::Try(
                ssh_words(netns.as_str(), &image.recipe, "sync"),
            ),
            Baking::Suspend { .. } => BakeAction::Suspend,
            Baking::Copy { image, .. } => BakeAction::Copy { to: template_path(&image.recipe) },
            Baking::Destroy { .. } => BakeAction::Destroy,
            Baking::Detach { slot, .. } => BakeAction::Detach { slot: *slot },
            Baking::Done { .. } => BakeAction::Nothing,
        }
    }
}

// ---- what comes out ----

/// The kernel's arguments of a baked template.
pub open spec fn boot_words(r: Recipe) -> Seq<char> {
    "console=ttyS0 reboot=k panic=1 acpi=off quiet loglevel=3 root=/dev/vda rootfstype=ext4 rw ip="@
        + r.inner_vm@ + "::"@ + r.gateway@
        + ":255.255.255.254::eth0:off init=/nix/var/nix/profiles/system/init"@
}

/// The kernel's arguments of a baked template.
pub fn boot_args(r: &Recipe) -> (s: String)
    ensures
        s@ == boot_words(*r),
{
    let mut s = concat3(
        "console=ttyS0 reboot=k panic=1 acpi=off quiet loglevel=3 root=/dev/vda rootfstype=ext4 rw ip=",
        r.inner_vm.as_str(),
        "::",
    );
    s.append(r.gateway.as_str());
    s.append(":255.255.255.254::eth0:off init=/nix/var/nix/profiles/system/init");
    s
}

/// What a template is registered with.
#[derive(Debug)]
pub struct Baked {
    pub name: String,
    pub rootfs_template: String,
    pub snapshot_mem: String,
    pub snapshot_vmstate: String,
    pub vcpus: u32,
    pub mem_mib: u32,
    pub kernel: String,
    pub boot_args: String,
}

/// Whether `r` is what a baked image is registered with.
pub open spec fn registered(i: Image, r: Baked) -> bool {
    &&& r.name@ == i.recipe.name@
    &&& r.rootfs_template@ == i.recipe.name@
    &&& r.snapshot_mem@ == joined(template_dir(i.recipe), "mem"@)
    &&& r.snapshot_vmstate@ == joined(template_dir(i.recipe), "vmstate"@)
    &&& r.vcpus == i.recipe.vcpus
    &&& r.mem_mib == i.recipe.mem_mib
    &&& r.kernel == i.kernel
    &&& r.boot_args@ == boot_words(i.recipe)
}

/// What a baked image is registered with.
pub fn registration(i: Image) -> (r: Baked)
    ensures
        registered(i, r),
{
    let dir = template_path(&i.recipe);
    let boot_args = boot_args(&i.recipe);
    Baked {
        name: i.recipe.name.clone(),
        rootfs_template: i.recipe.name,
        snapshot_mem: join(dir.as_str(), "mem"),
        snapshot_vmstate: join(dir.as_str(), "vmstate"),
        vcpus: i.recipe.vcpus,
        mem_mib: i.recipe.mem_mib,
        kernel: i.kernel,
        boot_args,
    }
}

/// Whether `r` is the builder VM of an image.
pub open spec fn is_builder(
    i: Image,
    netns: String,
    tap: String,
    mac: MacAddr,
    vsock_cid: u32,
    r: InstanceSpec,
) -> bool {
    &&& r.vm.value() == BUILDER
    &&& r.netns == netns
    &&& r.tap == tap
    &&& r.mac == mac
    &&& r.rootfs_device@ == i.dev@
    &&& r.vcpus == i.recipe.vcpus
    &&& r.mem_mib == i.recipe.mem_mib
    &&& r.kernel@ == i.kernel@
    &&& r.boot_args@ == boot_words(i.recipe)
    &&& r.resume_from is None
    &&& r.rootfs_backing is None
    &&& r.vsock_cid == Some(vsock_cid)
}

/// The builder VM: on the device of the template itself, with no more network
/// than `netns` and `tap` give it.
pub fn builder_spec(i: &Image, netns: String, tap: String, mac: MacAddr, vsock_cid: u32) -> (r: InstanceSpec)
    ensures
        is_builder(*i, netns, tap, mac, vsock_cid, r),
{
    InstanceSpec {
        vm: VmId::from_u128(BUILDER),
        netns,
        tap,
        mac,
        rootfs_device: i.dev.clone(),
        vcpus: i.recipe.vcpus,
        mem_mib: i.recipe.mem_mib,
        kernel: i.kernel.clone(),
        boot_args: boot_args(&i.recipe),
        resume_from: None,
        rootfs_backing: None,
        vsock_cid: Some(vsock_cid),
    }
}

/// A command that failed, with how it ended.
pub fn run_failed(words: &Vec<String>, status: &str) -> (r: String)
    ensures
        r@ == "command failed ("@ + status@ + "): "@ + text_joined(texts_of(words@), " "@),
{
    let mut s = concat3("command failed (", status, "): ");
    s.append(text_join(words, " ").as_str());
    s
}

/// A command that failed, with what it said.
pub fn ask_failed(words: &Vec<String>, stderr: &[u8]) -> (r: String)
    ensures
        r@ == "command failed: "@ + text_joined(texts_of(words@), " "@) + "\n"@ + lossy_text(stderr@),
{
    let mut s = concat3("command failed: ", text_join(words, " ").as_str(), "\n");
    s.append(from_utf8_lossy(stderr).as_str());
    s
}

/// What a command printed, without white space around it.
pub fn printed(stdout: &[u8]) -> (r: String)
    ensures
        r@ == trimmed(lossy_text(stdout@)),
{
    trim(from_utf8_lossy(stdout).as_str())
}

// ---- laws ----

/// **Law.** The builder is always torn down: once there may be one, the bake
/// goes on with it or destroys it, then takes its network away, and only then
/// ends; no bake ends with a builder left.
pub proof fn law_the_builder_is_always_torn_down(b: Baking, ev: BakeEvent, r: Baking)
    requires
        b.wf(),
        b.awaits(ev),
        b.follows(ev, r),
    ensures
        b.building() ==> r.building() || r is Destroy,
        b is Destroy ==> r is Detach,
        b is Detach ==> r is Done,
        r is Done ==> !b.building() && !(b is Destroy),
        r is Done && (r matches Baking::Done { result: Ok(_) }) ==> b is Detach,
{
}

/// **Law.** A mounted rootfs is always unmounted, flushed first, whatever the work
/// on it came to; the bake never ends and no builder boots with it mounted.
pub proof fn law_the_rootfs_is_always_unmounted(b: Baking, ev: BakeEvent, r: Baking)
    requires
        b.wf(),
        b.awaits(ev),
        b.follows(ev, r),
    ensures
        b is Working ==> r is Working || r is Flush,
        b is Flush ==> r is Unmount,
        b is Unmount ==> !r.mounted(),
        r.mounted() ==> b.mounted() || b is Mount,
        r is Done || r.building() ==> !(b is Working) && !(b is Flush),
{
}

/// How far a bake is.
pub open spec fn stage(b: Baking) -> int {
    match b {
        Baking::BuildKernel { .. } => 0,
        Baking::BuildToplevel { .. } => 1,
        Baking::BuildTools { .. } => 2,
        Baking::Storage { .. } => 3,
        Baking::CreateVolume { .. } => 4,
        Baking::Format { .. } => 5,
        Baking::MakeDir { what, .. } => 6 + 5 * order(what),
        Baking::Mount { what, .. } => 7 + 5 * order(what),
        Baking::Working { work, .. } => 8 + 5 * order(mounted_for(work)),
        Baking::Flush { what, .. } => 9 + 5 * order(what),
        Baking::Unmount { what, .. } => 10 + 5 * order(what),
        Baking::Network { .. } => 21,
        Baking::Attach { .. } => 22,
        Baking::Create { .. } => 23,
        Baking::Start { .. } => 24,
        Baking::Wait { .. } => 25,
        Baking::Provision { .. } => 26,
        Baking::Sync { .. } => 27,
        Baking::Suspend { .. } => 28,
        Baking::Copy { .. } => 29,
        Baking::Destroy { .. } => 30,
        Baking::Detach { .. } => 31,
        Baking::Done { .. } => 32,
    }
}

pub open spec fn order(what: Mounting) -> int {
    match what {
        Mounting::Install => 0,
        Mounting::Inject => 1,
        Mounting::Seed => 2,
    }
}

/// **Law.** What every clone shall see is put in before the snapshot: a bake only
/// goes forward, so the rootfs is never changed once the builder has booted, and
/// the guest's file system is flushed right before the snapshot.
pub proof fn law_nothing_is_added_after_the_snapshot(b: Baking, ev: BakeEvent, r: Baking)
    requires
        b.wf(),
        b.awaits(ev),
        b.follows(ev, r),
    ensures
        stage(b) <= stage(r),
        r is Suspend ==> b is Sync,
        r is Copy ==> b is Suspend,
        b.building() ==> !r.mounted(),
{
}

/// **Law.** A template is registered where its snapshot was copied to, with the
/// shape that the builder had when it was taken: the files that suspending the
/// builder writes are those that a clone is started from, under the names that
/// they have in the builder's own directory.
pub proof fn law_a_template_is_what_the_builder_was(
    image: Image,
    slot: SlotId,
    netns: String,
    a: BakeAction<'_>,
    own: Seq<char>,
    c: Seq<ApiCall>,
    tap: String,
    mac: MacAddr,
    cid: u32,
    builder: InstanceSpec,
    r: Baked,
    name: Seq<char>,
)
    requires
        asks(Baking::Copy { image, slot, netns }, a),
        registered(image, r),
        is_builder(image, netns, tap, mac, cid, builder),
        suspends(own, c),
        name == "mem"@ || name == "vmstate"@,
    ensures
        a is Copy,
        name == "mem"@ ==> c[1]->CreateSnapshot_mem@ == joined(own, name) && r.snapshot_mem@
            == joined(a->Copy_to@, name),
        name == "vmstate"@ ==> c[1]->CreateSnapshot_vmstate@ == joined(own, name)
            && r.snapshot_vmstate@ == joined(a->Copy_to@, name),
        r.vcpus == builder.vcpus,
        r.mem_mib == builder.mem_mib,
        r.kernel@ == builder.kernel@,
        r.boot_args@ == builder.boot_args@,
        builder.rootfs_device@ == image.dev@,
        builder.netns == netns,
        builder.tap == tap,
        builder.resume_from is None,
        r.name@ == image.recipe.name@,
        r.rootfs_template@ == image.recipe.name@,
{
}

/// **Law.** What was built is what is installed, and where: each part is built
/// once, the kernel, the system and the installer, and is carried on unchanged;
/// the device is the one that the pool has for the template. Unless the rootfs
/// that is there is to be kept, it is made, formatted and installed anew.
pub proof fn law_what_was_built_is_installed(b: Baking, ev: BakeEvent, r: Baking)
    requires
        b.wf(),
        b.awaits(ev),
        b.follows(ev, r),
        !(ev is Failed),
    ensures
        b matches Baking::BuildKernel { recipe } ==> (r matches Baking::BuildToplevel {
            recipe: q,
            kernel,
        } && q == recipe && kernel@ == joined(ev->Text_0@, "vmlinux"@)),
        b matches Baking::BuildToplevel { recipe, kernel } ==> (r matches Baking::BuildTools {
            recipe: q,
            kernel: k,
            toplevel,
        } && q == recipe && k == kernel && toplevel == ev->Text_0),
        b matches Baking::BuildTools { recipe, kernel, toplevel } ==> (r matches Baking::Storage {
            recipe: q,
            kernel: k,
            toplevel: l,
            installer,
        } && q == recipe && k == kernel && l == toplevel && installer@ == ev->Text_0@
            + "/bin/nixos-install"@),
        b matches Baking::Storage { recipe, kernel, toplevel, installer } ==> {
            &&& r is CreateVolume <==> !recipe.skip_install
            &&& r matches Baking::CreateVolume { image } ==> image == (Image {
                recipe,
                kernel,
                toplevel,
                installer,
                dev: ev->Text_0,
            })
        },
        b matches Baking::CreateVolume { image } ==> r == (Baking::Format { image }),
        b matches Baking::Format { image } ==> r == (Baking::MakeDir {
            image,
            what: Mounting::Install,
        }),
        b matches Baking::MakeDir { image, what } ==> r == (Baking::Mount {
            image,
            what,
            mnt: ev->Text_0,
        }),
        b matches Baking::Mount { image, what, mnt } ==> (what == Mounting::Install ==> r == (
        Baking::Working { image, mnt, work: Work::Install })) && (what == Mounting::Inject ==> r == (
        Baking::Working { image, mnt, work: Work::InjectDir })),
{
}

/// **Law.** Everything that every clone shall see is put in: closures are copied
/// in order, and every program of each is linked and given to the user; every
/// repository is seeded; and the work on the rootfs ends well only after the
/// last of them.
pub proof fn law_everything_is_put_in(
    image: Image,
    mnt: String,
    work: Work,
    ev: BakeEvent,
    r: Baking,
)
    requires
        workable(image.recipe, work),
        answers_work(work, ev),
        (Baking::Working { image, mnt, work }).follows(ev, r),
    ensures
        r matches Baking::Flush { outcome: Ok(_), what, mnt: m, image: i } ==> m == mnt && i == image
            && what == mounted_for(work) && {
            ||| work is Install
            ||| (work matches Work::InjectList { p } && p + 1 == image.recipe.inject@.len()
                && ev->Names_0@.len() == 0)
            ||| (work matches Work::InjectOwn { p, names, e } && p + 1 == image.recipe.inject@.len()
                && e + 1 == names@.len())
            ||| (work matches Work::SeedOwn { p } && p + 1 == image.recipe.seed_repo@.len())
        },
        ev is Failed && !(work is SeedOrigin) ==> r == (Baking::Flush {
            image,
            what: mounted_for(work),
            mnt,
            outcome: Err(ev->Failed_0),
        }),
        r matches Baking::Working { image: i, mnt: m, work: next } ==> i == image && m == mnt && {
            &&& next is InjectCopy ==> {
                ||| work is InjectDir && next->InjectCopy_p == 0
                ||| (work matches Work::InjectOwn { p, names, e } && e + 1 == names@.len()
                    && next->InjectCopy_p == p + 1)
                ||| (work matches Work::InjectList { p } && ev->Names_0@.len() == 0
                    && next->InjectCopy_p == p + 1)
            }
            &&& next is InjectLink ==> {
                ||| (work matches Work::InjectList { p } && next->InjectLink_p == p
                    && next->InjectLink_names == ev->Names_0 && next->InjectLink_e == 0)
                ||| (work matches Work::InjectOwn { p, names, e } && next->InjectLink_p == p
                    && next->InjectLink_names == names && next->InjectLink_e == e + 1)
            }
            &&& next is InjectList ==> (work matches Work::InjectCopy { p } && next->InjectList_p
                == p)
            &&& next is InjectOwn ==> (work matches Work::InjectLink { p, names, e }
                && next->InjectOwn_p == p && next->InjectOwn_names == names && next->InjectOwn_e
                == e)
            &&& next is SeedOrigin ==> (work matches Work::SeedOwn { p } && next->SeedOrigin_p == p
                + 1)
            &&& next is SeedClone ==> (work matches Work::SeedOrigin { p } && next->SeedClone_p
                == p && (ev is Text ==> next->SeedClone_origin == ev->Text_0) && (ev is Failed
                ==> next->SeedClone_origin@.len() == 0))
            &&& next is SeedRemote ==> (work matches Work::SeedClone { p, origin }
                && next->SeedRemote_p == p && next->SeedRemote_origin == origin && origin@.len()
                > 0)
            &&& next is SeedFetch ==> {
                ||| (work matches Work::SeedRemote { p, .. } && next->SeedFetch_p == p)
                ||| (work matches Work::SeedClone { p, origin } && next->SeedFetch_p == p
                    && origin@.len() == 0)
            }
            &&& next is SeedOwn ==> (work matches Work::SeedFetch { p } && next->SeedOwn_p == p)
        },
        r is Working || r is Flush,
{
    assert(image.recipe.inject@.len() == image.recipe.inject.len() as int);
    assert(image.recipe.seed_repo@.len() == image.recipe.seed_repo.len() as int);
    if let Work::InjectOwn { names, .. } = work {
        assert(names@.len() == names.len() as int);
    }
}

/// **Law.** The rootfs is mounted again for everything that is to be put in: the
/// closures where there are any, then the repositories where there are any, and
/// the builder boots only after both. Work that failed ends the bake with its
/// own error.
pub proof fn law_nothing_to_put_in_is_passed_over(b: Baking, ev: BakeEvent, r: Baking)
    requires
        b is Unmount,
        b.follows(ev, r),
    ensures
        b->Unmount_outcome matches Err(e) ==> r == (Baking::Done { result: Err(e) }),
        b->Unmount_outcome is Ok ==> {
            let image = b->Unmount_image;
            let what = b->Unmount_what;
            let inject = image.recipe.inject@.len() > 0;
            let seeding = image.recipe.seed_repo@.len() > 0;
            &&& what == Mounting::Install && inject ==> r == (Baking::MakeDir {
                image,
                what: Mounting::Inject,
            })
            &&& what == Mounting::Install && !inject && seeding ==> r == (Baking::MakeDir {
                image,
                what: Mounting::Seed,
            })
            &&& what == Mounting::Inject && seeding ==> r == (Baking::MakeDir {
                image,
                what: Mounting::Seed,
            })
            &&& r is Network <==> what == Mounting::Seed || (what == Mounting::Inject && !seeding)
                || (what == Mounting::Install && !inject && !seeding)
            &&& r is Network ==> r->Network_image == image
        },
{
}

/// **Law.** The builder is provisioned with every command, in order and each once,
/// before it is flushed and suspended; what it came to is what the bake comes to:
/// a failure on the way is the bake's own, and only a copied snapshot is a
/// success.
pub proof fn law_every_command_is_run_before_the_snapshot(b: Baking, ev: BakeEvent, r: Baking)
    requires
        b.wf(),
        b.awaits(ev),
        b.follows(ev, r),
    ensures
        r matches Baking::Provision { image, slot, netns, at } ==> {
            ||| (b matches Baking::Wait { image: i, slot: s, netns: n } && i == image && s == slot
                && n == netns && at == 0 && ev is Done)
            ||| (b matches Baking::Provision { image: i, slot: s, netns: n, at: k } && i == image && s
                == slot && n == netns && at == k + 1)
        },
        r matches Baking::Sync { image, .. } ==> {
            ||| (b matches Baking::Wait { image: i, .. } && i == image && ev is Done
                && image.recipe.provision@.len() == 0)
            ||| (b matches Baking::Provision { image: i, at, .. } && i == image && at + 1
                == image.recipe.provision@.len())
        },
        r matches Baking::Destroy { image, slot, outcome } ==> {
            &&& outcome is Ok <==> b is Copy && ev is Done
            &&& ev matches BakeEvent::Failed(e) ==> outcome == Err::<(), String>(e)
            &&& b matches Baking::Copy { image: i, slot: s, .. } ==> i == image && s == slot
            &&& b matches Baking::Create { image: i, slot: s, .. } ==> i == image && s == slot
            &&& b matches Baking::Start { image: i, slot: s, .. } ==> i == image && s == slot
            &&& b matches Baking::Wait { image: i, slot: s, .. } ==> i == image && s == slot && ev
                is Late
            &&& b matches Baking::Suspend { image: i, slot: s, .. } ==> i == image && s == slot
        },
        b matches Baking::Destroy { image, slot, outcome } ==> r == (Baking::Detach {
            image,
            slot,
            outcome,
        }),
        b matches Baking::Detach { image, outcome, .. } ==> (outcome is Ok ==> r == (Baking::Done {
            result: Ok(image),
        })) && (outcome matches Err(e) ==> r == (Baking::Done { result: Err(e) })),
        b is Wait && ev is NotYet ==> r == b,
        b matches Baking::Network { image } ==> (ev is Done ==> (r is Attach <==> image.recipe.slot
            <= SLOT_MAX) && (r is Attach ==> r->Attach_slot.value() == image.recipe.slot
            && r->Attach_image == image)),
{
    if let Baking::Provision { image, .. } = b {
        assert(image.recipe.provision@.len() == image.recipe.provision.len() as int);
    }
    if let Baking::Wait { image, .. } = b {
        assert(image.recipe.provision@.len() == image.recipe.provision.len() as int);
    }
}

/// **Law.** What is done to a rootfs is done to the template's own: the device
/// that is formatted is the one that is mounted, the system is installed where it
/// is mounted, closures and repositories go below there, and the same place is
/// unmounted. What is put in for the user is the user's.
pub proof fn law_a_rootfs_is_filled_where_it_is_mounted(
    image: Image,
    mnt: String,
    p: usize,
    origin: String,
    names: Vec<String>,
    e: usize,
)
    ensures
        gives(work_words(image, mnt@, Work::Install), "--root"@, mnt@),
        gives(work_words(image, mnt@, Work::Install), "--system"@, image.toplevel@),
        work_words(image, mnt@, Work::Install)[0] == image.installer@,
        gives(work_words(image, mnt@, Work::InjectCopy { p }), "--to"@, "local?root="@ + mnt@),
        work_words(image, mnt@, Work::InjectCopy { p }).last() == image.recipe.inject@[p as int]@,
        gives(
            work_words(image, mnt@, Work::SeedClone { p, origin }),
            "file://"@ + seed_src(image.recipe, p as int),
            mnt@ + seed_dest(image.recipe, p as int),
        ),
        gives(
            work_words(image, mnt@, Work::SeedRemote { p, origin }),
            "-C"@,
            mnt@ + seed_dest(image.recipe, p as int),
        ),
        gives(work_words(image, mnt@, Work::SeedRemote { p, origin }), "origin"@, origin@),
        gives(
            work_words(image, mnt@, Work::SeedFetch { p }),
            "-C"@,
            mnt@ + seed_dest(image.recipe, p as int),
        ),
        gives(
            work_words(image, mnt@, Work::SeedOwn { p }),
            "1000:1000"@,
            mnt@ + seed_dest(image.recipe, p as int),
        ),
        gives(
            work_words(image, mnt@, Work::SeedOrigin { p }),
            "-C"@,
            seed_src(image.recipe, p as int),
        ),
        gives(
            work_words(image, mnt@, Work::InjectOwn { p, names, e }),
            "1000:1000"@,
            bin_dir(mnt@) + "/"@ + names@[e as int]@,
        ),
{
    let a = work_words(image, mnt@, Work::Install);
    assert(a[1] == "--root"@ && a[2] == mnt@ && a[3] == "--system"@ && a[4] == image.toplevel@);
    let b = work_words(image, mnt@, Work::InjectCopy { p });
    assert(b[3] == "--to"@ && b[4] == "local?root="@ + mnt@);
    let c = work_words(image, mnt@, Work::SeedClone { p, origin });
    assert(c[9] == "file://"@ + seed_src(image.recipe, p as int));
    assert(c[10] == mnt@ + seed_dest(image.recipe, p as int));
    let d = work_words(image, mnt@, Work::SeedRemote { p, origin });
    assert(d[1] == "-C"@ && d[2] == mnt@ + seed_dest(image.recipe, p as int));
    assert(d[5] == "origin"@ && d[6] == origin@);
    let f = work_words(image, mnt@, Work::SeedFetch { p });
    assert(f[1] == "-C"@ && f[2] == mnt@ + seed_dest(image.recipe, p as int));
    let g = work_words(image, mnt@, Work::SeedOwn { p });
    assert(g[2] == "1000:1000"@ && g[3] == mnt@ + seed_dest(image.recipe, p as int));
    let h = work_words(image, mnt@, Work::SeedOrigin { p });
    assert(h[1] == "-C"@ && h[2] == seed_src(image.recipe, p as int));
    let k = work_words(image, mnt@, Work::InjectOwn { p, names, e });
    assert(k[2] == "1000:1000"@ && k[3] == bin_dir(mnt@) + "/"@ + names@[e as int]@);
}

/// **Law.** The commands of a bake are about its own recipe: each part is built
/// from its flake, the volume has its name and size, the device is formatted and
/// mounted, what is mounted is unmounted, and the builder has network access
/// only where there is something to provision.
pub proof fn law_a_bake_works_on_its_own_device(b: Baking, a: BakeAction<'_>)
    requires
        b.wf(),
        asks(b, a),
    ensures
        b matches Baking::CreateVolume { image } ==> (a matches BakeAction::CreateVolume {
            name,
            size,
        } && *name == image.recipe.name && *size == image.recipe.size),
        b matches Baking::Format { image } ==> (a matches BakeAction::Run(v) && texts_of(v@).last()
            == image.dev@ && texts_of(v@)[0] == "mkfs.ext4"@),
        b matches Baking::Mount { image, mnt, .. } ==> (a matches BakeAction::Run(v) && gives(
            texts_of(v@),
            image.dev@,
            mnt@,
        ) && texts_of(v@)[0] == "mount"@),
        b matches Baking::Unmount { mnt, .. } ==> (a matches BakeAction::Try(v) && texts_of(
            v@,
        ).last() == mnt@ && texts_of(v@)[0] == "umount"@),
        b matches Baking::Attach { image, slot } ==> (a matches BakeAction::Attach {
            slot: s,
            egress,
        } && s == slot && (egress == EgressMode::Deny <==> image.recipe.provision@.len() == 0) && (
        egress == EgressMode::Allow <==> image.recipe.provision@.len() > 0)),
        b matches Baking::Provision { image, netns, at, .. } ==> (a matches BakeAction::Try(v)
            && texts_of(v@).last() == image.recipe.provision@[at as int]@ && gives(
            texts_of(v@),
            "exec"@,
            netns@,
        )),
        b matches Baking::Detach { slot, .. } ==> (a matches BakeAction::Detach { slot: s } && s
            == slot),
        b matches Baking::Create { netns, .. } ==> (a matches BakeAction::Create { netns: n } && *n
            == netns),
{
    if let Baking::Mount { image, mnt, .. } = b {
        if let BakeAction::Run(v) = a {
            let t = texts_of(v@);
            assert(t[1] == image.dev@ && t[2] == mnt@);
        }
    }
    if let Baking::Provision { netns, .. } = b {
        if let BakeAction::Try(v) = a {
            let t = texts_of(v@);
            assert(t[2] == "exec"@ && t[3] == netns@);
        }
    }
}

} // verus!
