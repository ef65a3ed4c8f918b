//! Pulling an image from a registry, as a machine: the manifest, narrowed to
//! one platform where it is an index; the config; then the layers in order.

use crate::oci::image::{
    config_from, image_config, pick_from_index, runs_here, ContainerConfig, Descriptor, ImageConfig,
    Manifest,
};
use crate::text::concat3;
use vstd::prelude::*;
use vstd::string::*;

verus! {

/// An image being pulled. Each phase but the last awaits one result.
#[derive(Debug)]
pub enum Pull {
    Index { source: String, reference: String },
    Manifest { source: String, digest: String },
    Config { source: String, manifest: Manifest },
    Layer { manifest: Manifest, at: usize, config: ImageConfig },
    Done { result: Result<ImageConfig, String> },
}

/// What a [`Pull`] asks for.
#[derive(Debug)]
pub enum PullAction<'a> {
    /// The manifest for a tag or digest.
    GetManifest(&'a String),
    /// The config blob with this digest.
    GetConfig(&'a String),
    /// The blob with this digest, to be laid out over what is there.
    ApplyLayer(&'a Descriptor),
    Nothing,
}

/// What came of it.
#[derive(Debug)]
pub enum PullEvent {
    Manifest(Manifest),
    Config(Option<ContainerConfig>),
    Done,
    Failed(String),
}

/// Whether `i` is the entry of an index to take.
pub open spec fn picked(v: Seq<Descriptor>, i: int) -> bool {
    &&& 0 <= i < v.len()
    &&& if runs_here(v[i]) {
        forall|k: int| 0 <= k < i ==> !runs_here(#[trigger] v[k])
    } else {
        &&& v[i].platform is None
        &&& forall|k: int| 0 <= k < v.len() ==> !runs_here(#[trigger] v[k])
        &&& forall|k: int| 0 <= k < i ==> (#[trigger] v[k]).platform is Some
    }
}

/// Whether `r` is a pull that failed with this message.
pub open spec fn said(r: Pull, m: Seq<char>) -> bool {
    r matches Pull::Done { result } && (result matches Err(e) && e@ == m)
}

/// What follows when the manifest of one image is there.
pub open spec fn described(source: String, m: Manifest, r: Pull) -> bool {
    if m.layers@.len() == 0 {
        said(r, "no layers in the manifest ("@ + m.media_type@ + ")"@)
    } else if m.config is Some {
        r == (Pull::Config { source, manifest: m })
    } else {
        &&& r matches Pull::Layer { manifest, at, config }
        &&& manifest == m
        &&& at == 0
        &&& config_from(source, None, config)
    }
}

impl Pull {
    /// The machine's own data are in order.
    pub open spec fn wf(self) -> bool {
        match self {
            Pull::Config { manifest, .. } => manifest.config is Some && manifest.layers@.len() > 0,
            Pull::Layer { manifest, at, .. } => at < manifest.layers@.len(),
            _ => true,
        }
    }

    /// Whether an event answers what this machine asks for.
    pub open spec fn awaits(self, ev: PullEvent) -> bool {
        match self {
            Pull::Index { .. } => ev is Manifest || ev is Failed,
            Pull::Manifest { .. } => ev is Manifest || ev is Failed,
            Pull::Config { .. } => ev is Config || ev is Failed,
            Pull::Layer { .. } => ev is Done || ev is Failed,
            Pull::Done { .. } => false,
        }
    }

    /// The whole machine: what `ev` turns this one into.
    pub open spec fn follows(self, ev: PullEvent, r: Pull) -> bool {
        match (self, ev) {
            (Pull::Done { .. }, _) => true,
            (_, PullEvent::Failed(e)) => r == (Pull::Done { result: Err(e) }),
            (Pull::Index { source, .. }, PullEvent::Manifest(m)) => if m.manifests@.len() == 0 {
                described(source, m, r)
            } else {
                match r {
                    Pull::Manifest { source: s, digest } => s == source && exists|i: int|
                        #[trigger] picked(m.manifests@, i) && digest == m.manifests@[i].digest,
                    _ => {
                        &&& forall|i: int| !(#[trigger] picked(m.manifests@, i))
                        &&& said(r, "the image has no linux/amd64 manifest"@)
                    },
                }
            },
            (Pull::Manifest { source, .. }, PullEvent::Manifest(m)) => described(source, m, r),
            (Pull::Config { source, manifest }, PullEvent::Config(cc)) => {
                &&& r matches Pull::Layer { manifest: m, at, config }
                &&& m == manifest
                &&& at == 0
                &&& config_from(source, cc, config)
            },
            (Pull::Layer { manifest, at, config }, PullEvent::Done) => if at + 1
                < manifest.layers.len() {
                r == (Pull::Layer { manifest, at: (at + 1) as usize, config })
            } else {
                r == (Pull::Done { result: Ok(config) })
            },
            _ => true,
        }
    }

    /// Begins to pull `reference`, which `source` stood for.
    pub fn begin(source: String, reference: String) -> (r: Pull)
        ensures
            r == (Pull::Index { source, reference }),
            r.wf(),
    {
        Pull::Index { source, reference }
    }

    /// What this machine asks for next.
    pub open spec fn asks(&self) -> PullAction<'_> {
        match self {
            Pull::Index { reference, .. } => PullAction::GetManifest(reference),
            Pull::Manifest { digest, .. } => PullAction::GetManifest(digest),
            Pull::Config { manifest, .. } => match &manifest.config {
                Some(d) => PullAction::GetConfig(&d.digest),
                None => PullAction::Nothing,
            },
            Pull::Layer { manifest, at, .. } => PullAction::ApplyLayer(&manifest.layers@[*at as int]),
            Pull::Done { .. } => PullAction::Nothing,
        }
    }

    /// What has to be done next.
    pub fn action(&self) -> (a: PullAction<'_>)
        requires
            self.wf(),
        ensures
            a == self.asks(),
    {
        match self {
            Pull::Index { reference, .. } => PullAction::GetManifest(reference),
            Pull::Manifest { digest, .. } => PullAction::GetManifest(digest),
            Pull::Config { manifest, .. } => match &manifest.config {
                Some(d) => PullAction::GetConfig(&d.digest),
                None => PullAction::Nothing,
            },
            Pull::Layer { manifest, at, .. } => PullAction::ApplyLayer(&manifest.layers[*at]),
            Pull::Done { .. } => PullAction::Nothing,
        }
    }

    /// Takes what came of the action that was asked for, and goes on.
    pub fn step(self, ev: PullEvent) -> (r: Pull)
        requires
            self.wf(),
            self.awaits(ev),
        ensures
            self.follows(ev, r),
            r.wf(),
    {
        match self {
            Pull::Index { source, .. } => match ev {
                PullEvent::Manifest(m) => {
                    if m.manifests.len() == 0 {
                        return describe(source, m);
                    }
                    match pick_from_index(&m.manifests) {
                        Some(i) => {
                            assert(picked(m.manifests@, i as int));
                            Pull::Manifest { source, digest: m.manifests[i].digest.clone() }
                        },
                        None => Pull::Done {
                            result: Err("the image has no linux/amd64 manifest".to_string()),
                        },
                    }
                },
                PullEvent::Failed(e) => Pull::Done { result: Err(e) },
                _ => vstd::pervasive::unreached(),
            },
            Pull::Manifest { source, .. } => match ev {
                PullEvent::Manifest(m) => describe(source, m),
                PullEvent::Failed(e) => Pull::Done { result: Err(e) },
                _ => vstd::pervasive::unreached(),
            },
            Pull::Config { source, manifest } => match ev {
                PullEvent::Config(cc) => Pull::Layer {
                    manifest,
                    at: 0,
                    config: image_config(source, cc),
                },
                PullEvent::Failed(e) => Pull::Done { result: Err(e) },
                _ => vstd::pervasive::unreached(),
            },
            Pull::Layer { manifest, at, config } => match ev {
                PullEvent::Failed(e) => Pull::Done { result: Err(e) },
                _ => if manifest.layers.len() - at > 1 {
                    Pull::Layer { manifest, at: at + 1, config }
                } else {
                    Pull::Done { result: Ok(config) }
                },
            },
            Pull::Done { result } => Pull::Done { result },
        }
    }
}

fn describe(source: String, m: Manifest) -> (r: Pull)
    ensures
        described(source, m, r),
        r.wf(),
{
    if m.layers.len() == 0 {
        return Pull::Done {
            result: Err(concat3("no layers in the manifest (", m.media_type.as_str(), ")")),
        };
    }
    if m.config.is_some() {
        Pull::Config { source, manifest: m }
    } else {
        Pull::Layer { manifest: m, at: 0, config: image_config(source, None) }
    }
}

/// **Law.** The layers of an image are applied from the first to the last, each
/// once: a layer is followed by the next one, the last by the end, and the
/// pull succeeds only there.
pub proof fn law_layers_are_applied_in_order(p: Pull, ev: PullEvent, r: Pull)
    requires
        p.wf(),
        p.awaits(ev),
        p.follows(ev, r),
    ensures
        r matches Pull::Layer { at, manifest, .. } ==> at == 0 || (p matches Pull::Layer {
            at: before,
            manifest: m,
            ..
        } && at == before + 1 && m == manifest && ev is Done),
        r matches Pull::Done { result } ==> (result is Ok ==> (p matches Pull::Layer {
            at,
            manifest,
            ..
        } && at + 1 == manifest.layers@.len() && ev is Done)),
{
}

/// **Law.** An entry of an index is taken for linux/amd64 where there is one,
/// the first; only without one for no platform; and never for another.
pub proof fn law_the_guests_platform_is_taken(v: Seq<Descriptor>, i: int)
    requires
        picked(v, i),
    ensures
        v[i].platform matches Some(p) ==> p.os@ == "linux"@ && p.architecture@ == "amd64"@,
        forall|k: int|
            0 <= k < v.len() && (#[trigger] v[k]).platform is Some && v[k].platform->0.os@
                == "linux"@ && v[k].platform->0.architecture@ == "amd64"@ ==> i <= k
                && v[i].platform is Some,
        v[i].platform is None ==> forall|k: int|
            0 <= k < i ==> (#[trigger] v[k]).platform is Some,
{
    assert forall|k: int|
        0 <= k < v.len() && (#[trigger] v[k]).platform is Some && v[k].platform->0.os@ == "linux"@
            && v[k].platform->0.architecture@ == "amd64"@ implies i <= k && v[i].platform is Some by {
        assert(runs_here(v[k]));
    }
}

/// **Law.** A pull goes from the reference to the manifest of one image, which
/// an index leads to by the digest of the entry taken; from there to the config
/// that the manifest names; and from there to the first of its layers. An image
/// without layers is an error, and so is an index with nothing for the guest.
pub proof fn law_a_pull_follows_the_manifest(p: Pull, ev: PullEvent, r: Pull)
    requires
        p.wf(),
        p.awaits(ev),
        p.follows(ev, r),
    ensures
        p matches Pull::Index { reference, .. } ==> p.asks() == PullAction::GetManifest(&reference),
        p matches Pull::Manifest { digest, .. } ==> p.asks() == PullAction::GetManifest(&digest),
        p matches Pull::Config { manifest, .. } ==> p.asks() == PullAction::GetConfig(
            &manifest.config->0.digest,
        ),
        p matches Pull::Layer { manifest, at, .. } ==> p.asks() == PullAction::ApplyLayer(
            &manifest.layers@[at as int],
        ),
        r matches Pull::Manifest { source, digest } ==> p is Index && p->Index_source == source
            && ev is Manifest && exists|i: int|
            picked(ev->Manifest_0.manifests@, i) && digest
                == (#[trigger] ev->Manifest_0.manifests@[i]).digest,
        r matches Pull::Config { source, manifest } ==> ev == PullEvent::Manifest(manifest) && (if p
            is Index {
            p->Index_source == source && manifest.manifests@.len() == 0
        } else {
            p is Manifest && p->Manifest_source == source
        }) && manifest.config is Some,
        r is Layer ==> (p is Config ==> r->Layer_manifest == p->Config_manifest) && (ev matches
            PullEvent::Manifest(m) ==> r->Layer_manifest == m && m.config is None),
        ev matches PullEvent::Manifest(m) ==> ((p is Manifest || m.manifests@.len() == 0) ==> (r
            is Done <==> m.layers@.len() == 0)) && (p is Index && m.manifests@.len() > 0 ==> r
            is Manifest || r is Done),
        ev matches PullEvent::Failed(e) ==> r == (Pull::Done { result: Err(e) }),
        p is Config && ev !is Failed ==> r is Layer,
        p is Layer && ev !is Failed ==> r is Layer || (r matches Pull::Done { result } && result
            == Ok::<ImageConfig, String>(p->Layer_config)),
        r is Layer && p is Layer ==> r->Layer_config == p->Layer_config,
{
    if p is Index && ev is Manifest && r is Manifest {
        let v = ev->Manifest_0.manifests@;
        let i = choose|i: int| #[trigger] picked(v, i) && r->Manifest_digest == v[i].digest;
        assert(picked(v, i) && r->Manifest_digest == v[i].digest);
    }
}

/// **Law.** An image that has a linux/amd64 entry, or one without a platform, in
/// its index is not refused for want of one.
pub proof fn law_an_index_with_a_match_is_followed(p: Pull, m: Manifest, r: Pull, k: int)
    requires
        p is Index,
        p.follows(PullEvent::Manifest(m), r),
        0 <= k < m.manifests@.len(),
        m.manifests@[k].platform matches Some(x) ==> x.os@ == "linux"@ && x.architecture@
            == "amd64"@,
    ensures
        r is Manifest,
{
    let v = m.manifests@;
    if exists|j: int| 0 <= j < v.len() && runs_here(#[trigger] v[j]) {
        let j = choose|j: int| 0 <= j < v.len() && runs_here(#[trigger] v[j]);
        lemma_first_here(v, j);
    } else {
        assert(v[k].platform is None);
        lemma_first_without(v, k);
    }
}

proof fn lemma_first_here(v: Seq<Descriptor>, j: int)
    requires
        0 <= j < v.len(),
        runs_here(v[j]),
    ensures
        exists|i: int| #[trigger] picked(v, i),
    decreases j,
{
    if exists|k: int| 0 <= k < j && runs_here(#[trigger] v[k]) {
        let k = choose|k: int| 0 <= k < j && runs_here(#[trigger] v[k]);
        lemma_first_here(v, k);
    } else {
        assert(picked(v, j));
    }
}

proof fn lemma_first_without(v: Seq<Descriptor>, j: int)
    requires
        0 <= j < v.len(),
        v[j].platform is None,
        forall|k: int| 0 <= k < v.len() ==> !runs_here(#[trigger] v[k]),
    ensures
        exists|i: int| #[trigger] picked(v, i),
    decreases j,
{
    if exists|k: int| 0 <= k < j && (#[trigger] v[k]).platform is None {
        let k = choose|k: int| 0 <= k < j && (#[trigger] v[k]).platform is None;
        lemma_first_without(v, k);
    } else {
        assert(picked(v, j));
    }
}

} // verus!
