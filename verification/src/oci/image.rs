//! What an image says of itself.

use crate::text::same;
use vstd::prelude::*;
use vstd::string::*;

verus! {

/// What the guest's init reads at boot.
#[derive(Debug)]
pub struct ImageConfig {
    pub env: Vec<String>,
    pub workdir: Option<String>,
    pub user: Option<String>,
    /// Where it came from, for the record.
    pub source: String,
}

/// One entry of an index, or one blob of a manifest.
#[derive(Debug)]
pub struct Descriptor {
    pub media_type: String,
    pub digest: String,
    pub platform: Option<Platform>,
}

#[derive(Debug)]
pub struct Platform {
    pub os: String,
    pub architecture: String,
}

/// A manifest or, when `manifests` is not empty, an index of them.
#[derive(Debug)]
pub struct Manifest {
    pub media_type: String,
    pub manifests: Vec<Descriptor>,
    pub config: Option<Descriptor>,
    pub layers: Vec<Descriptor>,
}

/// The container section of an image's config blob.
#[derive(Debug)]
pub struct ContainerConfig {
    pub env: Vec<String>,
    pub working_dir: Option<String>,
    pub user: Option<String>,
}

/// Whether the guest kernel runs what a descriptor points at.
pub open spec fn runs_here(d: Descriptor) -> bool {
    d.platform matches Some(p) && p.os@ == "linux"@ && p.architecture@ == "amd64"@
}

/// Whether the guest kernel runs what a descriptor points at.
pub fn is_linux_amd64(d: &Descriptor) -> (r: bool)
    ensures
        r == runs_here(*d),
{
    match &d.platform {
        Some(p) => same(p.os.as_str(), "linux") && same(p.architecture.as_str(), "amd64"),
        None => false,
    }
}

/// Which entry of a registry's index to take: the first for linux/amd64, or
/// else the first that names no platform.
pub fn pick_from_index(v: &Vec<Descriptor>) -> (r: Option<usize>)
    ensures
        match r {
            Some(i) => {
                &&& i < v.len()
                &&& if runs_here(v@[i as int]) {
                    forall|k: int| 0 <= k < i ==> !runs_here(#[trigger] v@[k])
                } else {
                    &&& v@[i as int].platform is None
                    &&& forall|k: int| 0 <= k < v.len() ==> !runs_here(#[trigger] v@[k])
                    &&& forall|k: int| 0 <= k < i ==> (#[trigger] v@[k]).platform is Some
                }
            },
            None => forall|k: int|
                0 <= k < v.len() ==> !runs_here(#[trigger] v@[k]) && v@[k].platform is Some,
        },
{
    let mut i: usize = 0;
    while i < v.len()
        invariant
            i <= v.len(),
            forall|k: int| 0 <= k < i ==> !runs_here(#[trigger] v@[k]),
        decreases v.len() - i,
    {
        if is_linux_amd64(&v[i]) {
            return Some(i);
        }
        i += 1;
    }
    let mut j: usize = 0;
    while j < v.len()
        invariant
            j <= v.len(),
            forall|k: int| 0 <= k < v.len() ==> !runs_here(#[trigger] v@[k]),
            forall|k: int| 0 <= k < j ==> (#[trigger] v@[k]).platform is Some,
        decreases v.len() - j,
    {
        if v[j].platform.is_none() {
            return Some(j);
        }
        j += 1;
    }
    None
}

/// Which entry of an archive's index to take: the first that is for linux/amd64
/// or names no platform.
pub fn pick_from_layout(v: &Vec<Descriptor>) -> (r: Option<usize>)
    ensures
        match r {
            Some(i) => {
                &&& i < v.len()
                &&& runs_here(v@[i as int]) || v@[i as int].platform is None
                &&& forall|k: int|
                    0 <= k < i ==> !runs_here(#[trigger] v@[k]) && v@[k].platform is Some
            },
            None => forall|k: int|
                0 <= k < v.len() ==> !runs_here(#[trigger] v@[k]) && v@[k].platform is Some,
        },
{
    let mut i: usize = 0;
    while i < v.len()
        invariant
            i <= v.len(),
            forall|k: int| 0 <= k < i ==> !runs_here(#[trigger] v@[k]) && v@[k].platform is Some,
        decreases v.len() - i,
    {
        if v[i].platform.is_none() || is_linux_amd64(&v[i]) {
            return Some(i);
        }
        i += 1;
    }
    None
}

/// An optional text, with an empty one as none.
pub open spec fn some_text(o: Option<String>) -> Option<String> {
    match o {
        Some(s) => if s@.len() == 0 {
            None
        } else {
            Some(s)
        },
        None => None,
    }
}

/// An optional text, with an empty one as none.
pub fn non_empty(o: Option<String>) -> (r: Option<String>)
    ensures
        r == some_text(o),
{
    match o {
        Some(s) => if s.as_str().is_empty() {
            None
        } else {
            Some(s)
        },
        None => None,
    }
}

/// Whether `c` is what the guest's init needs of an image from `source`.
pub open spec fn config_from(source: String, cc: Option<ContainerConfig>, c: ImageConfig) -> bool {
    &&& c.source == source
    &&& match cc {
        Some(x) => c.env == x.env && c.workdir == some_text(x.working_dir) && c.user == some_text(
            x.user,
        ),
        None => c.env@.len() == 0 && c.workdir is None && c.user is None,
    }
}

/// What the guest's init needs of an image: its environment, working directory
/// and user, where it has them.
pub fn image_config(source: String, cc: Option<ContainerConfig>) -> (c: ImageConfig)
    ensures
        config_from(source, cc, c),
{
    match cc {
        Some(x) => ImageConfig {
            env: x.env,
            workdir: non_empty(x.working_dir),
            user: non_empty(x.user),
            source,
        },
        None => ImageConfig { env: Vec::new(), workdir: None, user: None, source },
    }
}

/// **Law.** The guest gets what the image says and nothing else: its environment
/// entry for entry, its working directory and its user where they are not empty,
/// and the name of the source.
pub proof fn law_the_images_config_is_taken_over(
    source: String,
    cc: Option<ContainerConfig>,
    c: ImageConfig,
)
    requires
        config_from(source, cc, c),
    ensures
        c.source == source,
        cc is None ==> c.env@.len() == 0 && c.workdir is None && c.user is None,
        cc matches Some(x) ==> c.env == x.env,
        forall|t: String|
            (c.workdir == Some(t) <==> cc is Some && cc->0.working_dir == Some(t) && t@.len() > 0)
                && (c.user == Some(t) <==> cc is Some && cc->0.user == Some(t) && (
            #[trigger] t@).len() > 0),
{
}

} // verus!
