//! The agent as PID 1: the environment it runs the agent proper in, and what it
//! does when a child exits.

use crate::oci::image::{non_empty, some_text};
use crate::text::{cut, same, split_once, trim, trimmed};
use vstd::prelude::*;
use vstd::string::*;

verus! {

/// What the bake wrote from the image's config.
#[derive(Debug)]
pub struct ImageConfig {
    /// `KEY=VALUE` entries, as the image config carries them.
    pub env: Vec<String>,
    pub workdir: Option<String>,
    /// The image's `USER`, the default for `exec`.
    pub user: Option<String>,
}

impl Default for ImageConfig {
    fn default() -> (c: Self)
        ensures
            c.env@ == Seq::<String>::empty(),
            c.workdir is None,
            c.user is None,
    {
        ImageConfig { env: Vec::new(), workdir: None, user: None }
    }
}

/// A variable and its value.
pub type Setting = (Seq<char>, Seq<char>);

/// Variables and their values as characters.
pub open spec fn settings_of(v: Seq<(String, String)>) -> Seq<Setting> {
    v.map_values(|p: (String, String)| (p.0@, p.1@))
}

/// What every guest's agent has in its environment.
pub open spec fn base_settings() -> Seq<Setting> {
    seq![
        ("PATH"@, "/usr/local/sbin:/usr/local/bin:/usr/sbin:/usr/bin:/sbin:/bin"@),
        ("HOME"@, "/root"@),
        ("USER"@, "root"@),
        ("LOGNAME"@, "root"@),
        ("TERM"@, "xterm"@),
    ]
}

/// What an image sets: its entries that have an `=`, in order.
pub open spec fn image_settings(env: Seq<String>) -> Seq<Setting>
    decreases env.len(),
{
    if env.len() == 0 {
        Seq::empty()
    } else {
        let rest = image_settings(env.drop_last());
        match cut(env.last()@, '=') {
            Some(p) => rest.push(p),
            None => rest,
        }
    }
}

/// The user that commands run as by default, if it is not root.
pub open spec fn user_settings(user: Option<String>) -> Seq<Setting> {
    match user {
        Some(u) => if u@.len() > 0 && u@ != "root"@ && u@ != "0"@ {
            seq![("ISO_DEFAULT_USER"@, u@)]
        } else {
            Seq::empty()
        },
        None => Seq::empty(),
    }
}

/// The environment the agent runs in, in the order it is set.
pub open spec fn all_settings(image: ImageConfig) -> Seq<Setting> {
    base_settings() + image_settings(image.env@) + user_settings(image.user)
}

fn push_setting(v: &mut Vec<(String, String)>, k: &str, x: &str)
    ensures
        settings_of(final(v)@) == settings_of(old(v)@).push((k@, x@)),
{
    v.push((k.to_string(), x.to_string()));
    assert(settings_of(v@) =~= settings_of(old(v)@).push((k@, x@)));
}

/// The environment the agent runs in: variables in the order they are set, so
/// that a later one of the same name wins.
pub fn environment(image: &ImageConfig) -> (v: Vec<(String, String)>)
    ensures
        settings_of(v@) == all_settings(*image),
{
    let mut v: Vec<(String, String)> = Vec::new();
    assert(settings_of(v@) =~= Seq::<Setting>::empty());
    push_setting(&mut v, "PATH", "/usr/local/sbin:/usr/local/bin:/usr/sbin:/usr/bin:/sbin:/bin");
    push_setting(&mut v, "HOME", "/root");
    push_setting(&mut v, "USER", "root");
    push_setting(&mut v, "LOGNAME", "root");
    push_setting(&mut v, "TERM", "xterm");
    assert(settings_of(v@) =~= base_settings());
    let env = &image.env;
    let mut i: usize = 0;
    assert(env@.subrange(0, 0) =~= Seq::<String>::empty());
    assert(base_settings() + Seq::<Setting>::empty() =~= base_settings());
    while i < env.len()
        invariant
            i <= env.len(),
            *env == image.env,
            settings_of(v@) == base_settings() + image_settings(env@.subrange(0, i as int)),
        decreases env.len() - i,
    {
        proof {
            let next = env@.subrange(0, i + 1);
            assert(next.drop_last() =~= env@.subrange(0, i as int));
        }
        let ghost had = image_settings(env@.subrange(0, i as int));
        if let Some(p) = split_once(env[i].as_str(), '=') {
            push_setting(&mut v, p.0.as_str(), p.1.as_str());
            assert((base_settings() + had).push((p.0@, p.1@)) =~= base_settings() + had.push(
                (p.0@, p.1@),
            ));
        }
        i += 1;
    }
    assert(env@.subrange(0, env.len() as int) =~= env@);
    let ghost done = settings_of(v@);
    if let Some(u) = &image.user {
        if !u.as_str().is_empty() && !same(u.as_str(), "root") && !same(u.as_str(), "0") {
            push_setting(&mut v, "ISO_DEFAULT_USER", u.as_str());
        }
    }
    assert(settings_of(v@) =~= done + user_settings(image.user));
    v
}

/// The directory the agent runs in, if the image names one.
pub fn working_dir(image: &ImageConfig) -> (r: Option<String>)
    ensures
        r == some_text(image.workdir),
{
    non_empty(image.workdir.clone())
}

// ---- the system ----

/// A file system that the init mounts, and what it forbids there: set-user-ID
/// programs, programs at all, device nodes.
#[derive(Clone, Copy, Debug, PartialEq, Eq)]
pub struct Mount {
    pub source: &'static str,
    pub target: &'static str,
    pub fstype: &'static str,
    pub nosuid: bool,
    pub noexec: bool,
    pub nodev: bool,
    pub data: &'static str,
}

impl Mount {
    /// Whether this mounts `fstype` on `target`, with what is forbidden there.
    pub open spec fn puts(
        self,
        fstype: Seq<char>,
        target: Seq<char>,
        noexec: bool,
        nodev: bool,
        data: Seq<char>,
    ) -> bool {
        &&& self.source@ == fstype
        &&& self.fstype@ == fstype
        &&& self.target@ == target
        &&& self.nosuid
        &&& self.noexec == noexec
        &&& self.nodev == nodev
        &&& self.data@ == data
    }
}

fn put(
    fstype: &'static str,
    target: &'static str,
    noexec: bool,
    nodev: bool,
    data: &'static str,
) -> (m: Mount)
    ensures
        m.puts(fstype@, target@, noexec, nodev, data@),
{
    Mount { source: fstype, target, fstype, nosuid: true, noexec, nodev, data }
}

/// Whether `v` is what the init mounts, in order.
pub open spec fn all_mounts(v: Seq<Mount>) -> bool {
    &&& v.len() == 7
    &&& v[0].puts("proc"@, "/proc"@, true, true, ""@)
    &&& v[1].puts("sysfs"@, "/sys"@, true, true, ""@)
    &&& v[2].puts("devtmpfs"@, "/dev"@, false, false, "mode=0755"@)
    &&& v[3].puts("devpts"@, "/dev/pts"@, true, false, "gid=5,mode=620,ptmxmode=666"@)
    &&& v[4].puts("tmpfs"@, "/dev/shm"@, false, true, "mode=1777"@)
    &&& v[5].puts("tmpfs"@, "/run"@, false, true, "mode=0755"@)
    &&& v[6].puts("tmpfs"@, "/tmp"@, false, true, "mode=1777"@)
}

/// What the init mounts, in order: a directory before those below it.
pub fn mounts() -> (v: Vec<Mount>)
    ensures
        all_mounts(v@),
{
    vec![
        put("proc", "/proc", true, true, ""),
        put("sysfs", "/sys", true, true, ""),
        put("devtmpfs", "/dev", false, false, "mode=0755"),
        put("devpts", "/dev/pts", true, false, "gid=5,mode=620,ptmxmode=666"),
        put("tmpfs", "/dev/shm", false, true, "mode=1777"),
        put("tmpfs", "/run", false, true, "mode=0755"),
        put("tmpfs", "/tmp", false, true, "mode=1777"),
    ]
}

/// The host name that a file gives, where there is more in it than white space.
pub fn hostname(text: &str) -> (r: Option<String>)
    ensures
        match r {
            Some(h) => h@ == trimmed(text@) && h@.len() > 0,
            None => trimmed(text@).len() == 0,
        },
{
    let h = trim(text);
    if h.as_str().is_empty() {
        None
    } else {
        Some(h)
    }
}

/// What the init does after looking for an exited child.
#[derive(Clone, Copy, Debug, PartialEq, Eq, Structural)]
pub enum Reap {
    /// The agent itself died: start it again.
    RestartAgent,
    /// An orphan was reaped: look again at once.
    Again,
    /// Nothing to reap: wait a moment.
    Wait,
}

/// What to do after looking for an exited child.
pub open spec fn reaps(pid: i32, agent: i32) -> Reap {
    if pid == agent {
        Reap::RestartAgent
    } else if pid <= 0 {
        Reap::Wait
    } else {
        Reap::Again
    }
}

/// Decides what to do after looking for an exited child; `pid` is the one
/// found, and not positive when there was none.
pub fn after_wait(pid: i32, agent: i32) -> (r: Reap)
    ensures
        r == reaps(pid, agent),
{
    if pid == agent {
        Reap::RestartAgent
    } else if pid <= 0 {
        Reap::Wait
    } else {
        Reap::Again
    }
}

// ---- laws ----

/// What a variable comes to when settings are made in order: the last one of its
/// name.
pub open spec fn value_in(v: Seq<Setting>, k: Seq<char>) -> Option<Seq<char>>
    decreases v.len(),
{
    if v.len() == 0 {
        None
    } else if v.last().0 == k {
        Some(v.last().1)
    } else {
        value_in(v.drop_last(), k)
    }
}

proof fn lemma_value_in(a: Seq<Setting>, b: Seq<Setting>, k: Seq<char>)
    ensures
        value_in(a + b, k) == (if value_in(b, k) is Some {
            value_in(b, k)
        } else {
            value_in(a, k)
        }),
    decreases b.len(),
{
    if b.len() == 0 {
        assert(a + b =~= a);
    } else {
        assert((a + b).drop_last() =~= a + b.drop_last());
        assert((a + b).last() == b.last());
        lemma_value_in(a, b.drop_last(), k);
    }
}

/// **Law.** What an image sets wins over what every guest has, and what it leaves
/// out is there: whatever variable it sets has the image's value in the agent's
/// environment, and a search path is there in any case.
pub proof fn law_the_image_wins(image: ImageConfig, k: Seq<char>)
    requires
        k != "ISO_DEFAULT_USER"@,
    ensures
        value_in(image_settings(image.env@), k) is Some ==> value_in(all_settings(image), k)
            == value_in(image_settings(image.env@), k),
        value_in(image_settings(image.env@), k) is None ==> value_in(all_settings(image), k)
            == value_in(base_settings(), k),
        value_in(all_settings(image), "PATH"@) is Some,
        value_in(image_settings(image.env@), "HOME"@) is None ==> value_in(
            all_settings(image),
            "HOME"@,
        ) == Some("/root"@),
{
    reveal_with_fuel(value_in, 7);
    let b = base_settings();
    let i = image_settings(image.env@);
    let u = user_settings(image.user);
    lemma_value_in(b, i, k);
    lemma_value_in(b + i, u, k);
    lemma_value_in(b, i, "PATH"@);
    lemma_value_in(b + i, u, "PATH"@);
    lemma_value_in(b, i, "HOME"@);
    lemma_value_in(b + i, u, "HOME"@);
    reveal_strlit("PATH");
    reveal_strlit("HOME");
    reveal_strlit("USER");
    reveal_strlit("LOGNAME");
    reveal_strlit("TERM");
    reveal_strlit("ISO_DEFAULT_USER");
    assert("PATH"@.len() == 4);
    assert("HOME"@.len() == 4);
    assert("USER"@.len() == 4);
    assert("LOGNAME"@.len() == 7);
    assert("TERM"@.len() == 4);
    assert("ISO_DEFAULT_USER"@.len() == 16);
    assert("PATH"@[0] != "HOME"@[0]);
    assert("PATH"@[0] != "USER"@[0]);
    assert("PATH"@[0] != "TERM"@[0]);
    assert("HOME"@[0] != "USER"@[0]);
    assert("HOME"@[0] != "TERM"@[0]);
    assert("USER"@[0] != "TERM"@[0]);
    lemma_base();
}

proof fn lemma_base()
    ensures
        value_in(base_settings(), "PATH"@) is Some,
        value_in(base_settings(), "HOME"@) == Some("/root"@),
{
    reveal_with_fuel(value_in, 7);
    reveal_strlit("PATH");
    reveal_strlit("HOME");
    reveal_strlit("USER");
    reveal_strlit("LOGNAME");
    reveal_strlit("TERM");
    assert("PATH"@.len() == 4);
    assert("HOME"@.len() == 4);
    assert("USER"@.len() == 4);
    assert("LOGNAME"@.len() == 7);
    assert("TERM"@.len() == 4);
    assert("PATH"@[0] != "HOME"@[0]);
    assert("PATH"@[0] != "USER"@[0]);
    assert("PATH"@[0] != "TERM"@[0]);
    assert("HOME"@[0] != "USER"@[0]);
    assert("HOME"@[0] != "TERM"@[0]);
    assert("USER"@[0] != "TERM"@[0]);
    let b = base_settings();
    assert(b.last() == ("TERM"@, "xterm"@));
    let c = b.drop_last();
    assert(c.last() == ("LOGNAME"@, "root"@));
    let d = c.drop_last();
    assert(d.last() == ("USER"@, "root"@));
    let e = d.drop_last();
    assert(e.last() == ("HOME"@, "/root"@));
    let f = e.drop_last();
    assert(f.last().0 == "PATH"@);
}

/// **Law.** Commands run as the image's user by default exactly where it names one
/// that is not root, under its name or its number.
pub proof fn law_the_default_user_is_the_images(image: ImageConfig)
    ensures
        user_settings(image.user).len() > 0 <==> image.user is Some && image.user->0@.len() > 0
            && image.user->0@ != "root"@ && image.user->0@ != "0"@,
        user_settings(image.user).len() > 0 ==> value_in(all_settings(image), "ISO_DEFAULT_USER"@)
            == Some(image.user->0@),
{
    let u = user_settings(image.user);
    if u.len() > 0 {
        assert(u.last() == ("ISO_DEFAULT_USER"@, image.user->0@));
        let b = base_settings() + image_settings(image.env@);
        assert((b + u).last() == u.last());
    }
}

proof fn lemma_image_setting(env: Seq<String>, i: int, k: Seq<char>, v: Seq<char>)
    requires
        0 <= i < env.len(),
        cut(env[i]@, '=') == Some((k, v)),
        forall|j: int|
            i < j < env.len() ==> !(cut((#[trigger] env[j])@, '=') matches Some(p) && p.0 == k),
    ensures
        value_in(image_settings(env), k) == Some(v),
    decreases env.len(),
{
    let w = env.drop_last();
    if i < w.len() {
        assert(env[env.len() - 1] == env.last());
        assert(w[i] == env[i]);
        assert forall|j: int| i < j < w.len() implies !(cut((#[trigger] w[j])@, '=') matches Some(p)
            && p.0 == k) by {
            assert(w[j] == env[j]);
        }
        lemma_image_setting(w, i, k, v);
        let s = image_settings(env);
        if let Some(p) = cut(env.last()@, '=') {
            assert(s =~= image_settings(w).push(p));
            assert(s.drop_last() =~= image_settings(w));
        }
    } else {
        let s = image_settings(env);
        assert(s.last() == (k, v));
    }
}

/// **Law.** The last entry of an image for a variable is the value that the agent
/// has for it.
pub proof fn law_the_last_entry_counts(image: ImageConfig, i: int, k: Seq<char>, v: Seq<char>)
    requires
        k != "ISO_DEFAULT_USER"@,
        0 <= i < image.env@.len(),
        cut(image.env@[i]@, '=') == Some((k, v)),
        forall|j: int|
            i < j < image.env@.len() ==> !(cut((#[trigger] image.env@[j])@, '=') matches Some(p)
                && p.0 == k),
    ensures
        value_in(all_settings(image), k) == Some(v),
{
    lemma_image_setting(image.env@, i, k, v);
    law_the_image_wins(image, k);
}

/// **Law.** The agent is started again exactly where it was the one that exited;
/// after any other child the init looks again at once, and with none it waits.
pub proof fn law_the_agent_is_always_running(pid: i32, agent: i32)
    requires
        agent > 0,
    ensures
        reaps(pid, agent) is RestartAgent <==> pid == agent,
        reaps(pid, agent) is Again <==> pid > 0 && pid != agent,
        reaps(pid, agent) is Wait <==> pid <= 0,
{
}

/// **Law.** A directory is mounted before those below it, or they would be hidden
/// by it; nothing that is mounted can raise privileges; and device nodes work
/// only where devices are.
pub proof fn law_mounts_do_not_hide_each_other(v: Seq<Mount>, i: int, j: int)
    requires
        all_mounts(v),
        0 <= i < v.len(),
        0 <= j < v.len(),
    ensures
        v[i].nosuid,
        v[i].target@ == "/dev"@ && (v[j].target@ == "/dev/pts"@ || v[j].target@ == "/dev/shm"@)
            ==> i < j,
        !v[i].nodev ==> v[i].target@ == "/dev"@ || v[i].target@ == "/dev/pts"@,
        v[i].target@ == "/proc"@ || v[i].target@ == "/sys"@ ==> v[i].noexec,
        v[i].source@ == v[i].fstype@,
{
    reveal_strlit("/proc");
    reveal_strlit("/sys");
    reveal_strlit("/dev");
    reveal_strlit("/dev/pts");
    reveal_strlit("/dev/shm");
    reveal_strlit("/run");
    reveal_strlit("/tmp");
    assert("/proc"@.len() == 5);
    assert("/sys"@.len() == 4);
    assert("/dev"@.len() == 4);
    assert("/dev/pts"@.len() == 8);
    assert("/dev/shm"@.len() == 8);
    assert("/run"@.len() == 4);
    assert("/tmp"@.len() == 4);
    assert("/sys"@[1] != "/dev"@[1]);
    assert("/sys"@[1] != "/run"@[1]);
    assert("/sys"@[1] != "/tmp"@[1]);
    assert("/dev"@[1] != "/run"@[1]);
    assert("/dev"@[1] != "/tmp"@[1]);
    assert("/dev/pts"@[5] != "/dev/shm"@[5]);
    assert("/run"@[1] != "/tmp"@[1]);
    assert(i == 0 || i == 1 || i == 2 || i == 3 || i == 4 || i == 5 || i == 6);
    assert(j == 0 || j == 1 || j == 2 || j == 3 || j == 4 || j == 5 || j == 6);
}

} // verus!
