//! Templates on a host or across a fleet: what there is, and building one from
//! an OCI image. The build endpoints answer differently on a host and on the
//! fleet, so these commands read the state and print what they get.

use crate::cli::vm::Conn;
use crate::text::{concat2, concat3, decimal, join, joined, push_decimal, same, texts_of};
use vstd::prelude::*;
use vstd::string::*;

verus! {

/// A command on templates.
#[derive(Debug)]
pub struct Template {
    pub conn: Conn,
    pub cmd: TemplateCmd,
}

#[derive(Debug)]
pub enum TemplateCmd {
    /// Templates on the host, or per host across the fleet.
    List,
    /// Build a template from an OCI image; on the fleet, on every host.
    Build {
        name: String,
        image: String,
        vcpus: Option<u32>,
        mem_mib: Option<u32>,
        size: Option<String>,
        /// Fleet only: build on this host alone.
        host: Option<String>,
        /// Rebuild even where the template already exists.
        force: bool,
        /// Wait for the build to finish.
        wait: bool,
    },
    /// Every build, newest first (per host on the fleet).
    Builds,
    /// Wait for a build to be ready.
    Wait { name: String, timeout: u64 },
}

/// How long a build that is waited for may take, in seconds, where nothing else
/// is said.
pub const WAIT_SECS: u64 = 1800;

/// What is done about a build that is waited for.
#[derive(Debug)]
pub enum Poll {
    /// It is ready.
    Ready,
    /// Ask again after a pause.
    Again,
    /// Give up, with this message. `shown` says whether the answer is printed.
    Failed { message: String, shown: bool },
}

pub open spec fn success(status: u16) -> bool {
    200 <= status <= 299
}

/// Whether `r` is what is done, given the answer's status (spelled out too) and
/// state, and whether the time is up.
pub open spec fn polled(
    name: Seq<char>,
    status: u16,
    spelled: Seq<char>,
    state: Option<String>,
    late: bool,
    timeout: u64,
    r: Poll,
) -> bool {
    let now = match state {
        Some(s) => s@,
        None => "unknown"@,
    };
    if success(status) && now == "ready"@ {
        r is Ready
    } else if success(status) && now == "failed"@ {
        r matches Poll::Failed { message, shown } && shown && message@ == "template "@ + name
            + ": build failed"@
    } else if !success(status) && status != 404 {
        r matches Poll::Failed { message, shown } && !shown && message@ == "GET /templates/builds/"@
            + name + ": http "@ + spelled
    } else if late {
        r matches Poll::Failed { message, shown } && !shown && message@ == "template "@ + name
            + ": still "@ + now + " after "@ + decimal(timeout as nat) + "s"@
    } else {
        r is Again
    }
}

/// What is done about a build that is waited for. A build that is not known yet
/// is waited for too.
pub fn poll(
    name: &str,
    status: u16,
    spelled: &str,
    state: Option<String>,
    late: bool,
    timeout: u64,
) -> (r: Poll)
    ensures
        polled(name@, status, spelled@, state, late, timeout, r),
{
    let now = match &state {
        Some(s) => s.clone(),
        None => "unknown".to_string(),
    };
    proof {
        reveal_strlit("ready");
        reveal_strlit("failed");
        assert("ready"@[0] == 'r');
        assert("failed"@[0] == 'f');
    }
    if 200 <= status && status <= 299 {
        if same(now.as_str(), "ready") {
            return Poll::Ready;
        }
        if same(now.as_str(), "failed") {
            return Poll::Failed {
                message: concat3("template ", name, ": build failed"),
                shown: true,
            };
        }
    } else if status != 404 {
        let mut m = concat3("GET /templates/builds/", name, ": http ");
        m.append(spelled);
        return Poll::Failed { message: m, shown: false };
    }
    if late {
        let mut m = concat3("template ", name, ": still ");
        m.append(now.as_str());
        m.append(" after ");
        push_decimal(&mut m, timeout);
        m.append("s");
        return Poll::Failed { message: m, shown: false };
    }
    Poll::Again
}

/// A line of the list of a host's templates; what the host did not say is `?`.
pub fn template_line(name: &Option<String>, vcpus: &str, mem_mib: &str, warm: bool) -> (r: String)
    ensures
        r@ == (match name {
            Some(n) => n@,
            None => "?"@,
        }) + "\t"@ + vcpus@ + " vcpu\t"@ + mem_mib@ + " MiB\t"@ + if warm {
            "warm"@
        } else {
            "cold"@
        },
{
    let mut s = match name {
        Some(n) => n.clone(),
        None => "?".to_string(),
    };
    s.append("\t");
    s.append(vcpus);
    s.append(" vcpu\t");
    s.append(mem_mib);
    s.append(" MiB\t");
    s.append(
        if warm {
            "warm"
        } else {
            "cold"
        },
    );
    s
}

/// A line of the list of a fleet's templates, host by host.
pub fn host_line(name: &Option<String>, healthy: bool, templates: &Vec<String>) -> (r: String)
    ensures
        r@ == (match name {
            Some(n) => n@,
            None => "?"@,
        }) + "\t"@ + (if healthy {
            "healthy"@
        } else {
            "down"@
        }) + "\t"@ + joined(texts_of(templates@), ","@),
{
    let mut s = match name {
        Some(n) => n.clone(),
        None => "?".to_string(),
    };
    s.append("\t");
    s.append(
        if healthy {
            "healthy"
        } else {
            "down"
        },
    );
    s.append("\t");
    s.append(join(templates, ",").as_str());
    s
}

/// Refuses an answer that is no success, naming what was asked for.
pub fn accept(what: &str, status: u16, spelled: &str) -> (r: Result<(), String>)
    ensures
        match r {
            Ok(_) => success(status),
            Err(m) => !success(status) && m@ == what@ + ": http "@ + spelled@,
        },
{
    if 200 <= status && status <= 299 {
        Ok(())
    } else {
        Err(concat3(what, ": http ", spelled))
    }
}

/// The path of a build.
pub fn build_path(name: &str) -> (r: String)
    ensures
        r@ == "/templates/builds/"@ + name@,
{
    concat2("/templates/builds/", name)
}

/// **Law.** A build that is waited for is ready only where the server says so,
/// and failed where it says that; an answer that is neither is waited for until
/// the time is up, also while the build is not known yet. Any other answer is an
/// error at once, late or not.
pub proof fn law_a_build_is_waited_for(
    name: Seq<char>,
    status: u16,
    spelled: Seq<char>,
    state: Option<String>,
    late: bool,
    timeout: u64,
    r: Poll,
)
    requires
        polled(name, status, spelled, state, late, timeout, r),
    ensures
        r is Ready <==> 200 <= status < 300 && state is Some && state->0@ == "ready"@,
        r matches Poll::Failed { shown, .. } ==> (shown <==> 200 <= status < 300 && state is Some
            && state->0@ == "failed"@),
        200 <= status < 300 && state is Some && state->0@ == "failed"@ ==> r is Failed,
        !(200 <= status < 300) && status != 404 ==> r is Failed,
        status == 404 ==> (r is Again <==> !late) && (r is Failed <==> late),
        r is Again ==> !late,
        200 <= status < 300 && !(state is Some && (state->0@ == "ready"@ || state->0@ == "failed"@))
            ==> (r is Again <==> !late),
{
    reveal_strlit("ready");
    reveal_strlit("failed");
    reveal_strlit("unknown");
    assert("ready"@.len() == 5);
    assert("failed"@.len() == 6);
    assert("unknown"@.len() == 7);
}

} // verus!
