//! Laying out an image from an archive, as a machine. The archive is unpacked
//! first; what stands at its top says which of three kinds it is.

use crate::oci::image::{
    config_from, image_config, pick_from_layout, runs_here, ContainerConfig, Descriptor,
    ImageConfig, Manifest,
};
use crate::text::{cut, lemma_first_index, split_once};
use vstd::prelude::*;
use vstd::string::*;

verus! {

/// Where a file of an unpacked archive is.
#[derive(Debug, PartialEq, Eq)]
pub enum Place {
    /// At this path.
    Path(String),
    /// In the blob directory of this algorithm, under this name.
    Blob { algorithm: String, name: String },
}

/// The two parts of a digest; SHA-256 where it names no algorithm.
pub open spec fn digest_parts(d: Seq<char>) -> (Seq<char>, Seq<char>) {
    match cut(d, ':') {
        Some(p) => p,
        None => ("sha256"@, d),
    }
}

/// Whether `p` is where the blob with a digest is.
pub open spec fn is_blob(d: Seq<char>, p: Place) -> bool {
    p matches Place::Blob { algorithm, name } && (algorithm@, name@) == digest_parts(d)
}

/// Where the blob with a digest is in an OCI layout.
pub fn blob(digest: &str) -> (p: Place)
    ensures
        is_blob(digest@, p),
{
    match split_once(digest, ':') {
        Some(x) => Place::Blob { algorithm: x.0, name: x.1 },
        None => Place::Blob { algorithm: "sha256".to_string(), name: digest.to_string() },
    }
}

/// One image of a `docker save` archive.
#[derive(Debug)]
pub struct SavedImage {
    pub config: String,
    pub layers: Vec<String>,
}

/// An archive being laid out. Each phase but the last awaits one result.
#[derive(Debug)]
pub enum Archive {
    Look { source: String },
    Saved { source: String },
    Index { source: String },
    Manifest { source: String, at: Place },
    Picked { source: String, at: Place },
    Config { source: String, at: Place, layers: Vec<Place> },
    Layer { layers: Vec<Place>, next: usize, config: ImageConfig },
    Rootfs { config: ImageConfig },
    Done { result: Result<ImageConfig, String> },
}

/// What an [`Archive`] asks for.
#[derive(Debug)]
pub enum ArchiveAction<'a> {
    /// Whether a list of saved images and an index stand at the top.
    Look,
    /// The images that the list names.
    ReadSaved,
    /// The manifests that the index names.
    ReadIndex,
    ReadManifest(&'a Place),
    ReadConfig(&'a Place),
    ApplyLayer(&'a Place),
    /// Copy all that was unpacked: it is the filesystem.
    CopyTree,
    Nothing,
}

/// What came of it.
#[derive(Debug)]
pub enum ArchiveEvent {
    Found { manifest: bool, index: bool },
    Saved(Vec<SavedImage>),
    Index(Vec<Descriptor>),
    Manifest(Manifest),
    Config(Option<ContainerConfig>),
    Done,
    Failed(String),
}

/// Whether `r` is a layout that failed with this message.
pub open spec fn said(r: Archive, m: Seq<char>) -> bool {
    r matches Archive::Done { result } && (result matches Err(e) && e@ == m)
}

/// Whether `i` is the entry of an index to take.
pub open spec fn taken(v: Seq<Descriptor>, i: int) -> bool {
    &&& 0 <= i < v.len()
    &&& runs_here(v[i]) || v[i].platform is None
    &&& forall|k: int| 0 <= k < i ==> !runs_here(#[trigger] v[k]) && v[k].platform is Some
}

/// Whether `layers` are where the blobs of a manifest are.
pub open spec fn blobs_of(m: Manifest, layers: Seq<Place>) -> bool {
    &&& layers.len() == m.layers@.len()
    &&& forall|i: int| 0 <= i < layers.len() ==> is_blob(m.layers@[i].digest@, #[trigger] layers[i])
}

/// What follows when the places of the layers, and the config, are known.
pub open spec fn laid_out(config: ImageConfig, layers: Seq<Place>, r: Archive) -> bool {
    if layers.len() == 0 {
        r == (Archive::Done { result: Ok(config) })
    } else {
        r matches Archive::Layer { layers: l, next, config: c } && l@ == layers && next == 0 && c
            == config
    }
}

/// What follows when the manifest of one image is there.
pub open spec fn described(source: String, m: Manifest, r: Archive) -> bool {
    match m.config {
        Some(d) => {
            &&& r matches Archive::Config { source: s, at, layers }
            &&& s == source
            &&& is_blob(d.digest@, at)
            &&& blobs_of(m, layers@)
        },
        None => exists|config: ImageConfig, layers: Seq<Place>|
            #![trigger laid_out(config, layers, r)]
            config_from(source, None, config) && blobs_of(m, layers) && laid_out(config, layers, r),
    }
}

/// Whether `v` are the paths in `s`.
pub open spec fn paths(s: Seq<String>, v: Seq<Place>) -> bool {
    &&& v.len() == s.len()
    &&& forall|i: int| 0 <= i < v.len() ==> (#[trigger] v[i] matches Place::Path(p) && p@ == s[i]@)
}

impl Archive {
    /// The machine's own data are in order.
    pub open spec fn wf(self) -> bool {
        match self {
            Archive::Layer { layers, next, .. } => next < layers@.len(),
            _ => true,
        }
    }

    /// Whether an event answers what this machine asks for.
    pub open spec fn awaits(self, ev: ArchiveEvent) -> bool {
        match self {
            Archive::Look { .. } => ev is Found || ev is Failed,
            Archive::Saved { .. } => ev is Saved || ev is Failed,
            Archive::Index { .. } => ev is Index || ev is Failed,
            Archive::Manifest { .. } => ev is Manifest || ev is Failed,
            Archive::Picked { .. } => ev is Manifest || ev is Failed,
            Archive::Config { .. } => ev is Config || ev is Failed,
            Archive::Layer { .. } => ev is Done || ev is Failed,
            Archive::Rootfs { .. } => ev is Done || ev is Failed,
            Archive::Done { .. } => false,
        }
    }

    /// The whole machine: what `ev` turns this one into.
    pub open spec fn follows(self, ev: ArchiveEvent, r: Archive) -> bool {
        match (self, ev) {
            (Archive::Done { .. }, _) => true,
            (_, ArchiveEvent::Failed(e)) => r == (Archive::Done { result: Err(e) }),
            (Archive::Look { source }, ArchiveEvent::Found { manifest, index }) => if manifest {
                r == (Archive::Saved { source })
            } else if index {
                r == (Archive::Index { source })
            } else {
                r matches Archive::Rootfs { config } && config_from(source, None, config)
            },
            (Archive::Saved { source }, ArchiveEvent::Saved(v)) => if v@.len() == 0 {
                said(r, "empty docker manifest"@)
            } else {
                &&& r matches Archive::Config { source: s, at, layers }
                &&& s == source
                &&& at matches Place::Path(p) && p@ == v@[0].config@
                &&& paths(v@[0].layers@, layers@)
            },
            (Archive::Index { source }, ArchiveEvent::Index(v)) => if v@.len() == 0 {
                said(r, "empty OCI index"@)
            } else {
                r matches Archive::Manifest { source: s, at } && s == source && is_blob(
                    v@[0].digest@,
                    at,
                )
            },
            (Archive::Manifest { source, .. }, ArchiveEvent::Manifest(m)) => if m.manifests@.len()
                == 0 {
                described(source, m, r)
            } else {
                match r {
                    Archive::Picked { source: s, at } => s == source && exists|i: int|
                        #[trigger] taken(m.manifests@, i) && is_blob(m.manifests@[i].digest@, at),
                    _ => {
                        &&& forall|i: int| !(#[trigger] taken(m.manifests@, i))
                        &&& said(r, "no linux/amd64 manifest in the index"@)
                    },
                }
            },
            (Archive::Picked { source, .. }, ArchiveEvent::Manifest(m)) => described(source, m, r),
            (Archive::Config { source, layers, .. }, ArchiveEvent::Config(cc)) => exists|
                config: ImageConfig,
            |
                #[trigger] config_from(source, cc, config) && laid_out(config, layers@, r),
            (Archive::Layer { layers, next, config }, ArchiveEvent::Done) => if next + 1
                < layers.len() {
                r == (Archive::Layer { layers, next: (next + 1) as usize, config })
            } else {
                r == (Archive::Done { result: Ok(config) })
            },
            (Archive::Rootfs { config }, ArchiveEvent::Done) => r == (Archive::Done {
                result: Ok(config),
            }),
            _ => true,
        }
    }

    /// Begins on an archive that has been unpacked.
    pub fn begin(source: String) -> (r: Archive)
        ensures
            r == (Archive::Look { source }),
            r.wf(),
    {
        Archive::Look { source }
    }

    /// What this machine asks for next.
    pub open spec fn asks(&self) -> ArchiveAction<'_> {
        match self {
            Archive::Look { .. } => ArchiveAction::Look,
            Archive::Saved { .. } => ArchiveAction::ReadSaved,
            Archive::Index { .. } => ArchiveAction::ReadIndex,
            Archive::Manifest { at, .. } => ArchiveAction::ReadManifest(at),
            Archive::Picked { at, .. } => ArchiveAction::ReadManifest(at),
            Archive::Config { at, .. } => ArchiveAction::ReadConfig(at),
            Archive::Layer { layers, next, .. } => ArchiveAction::ApplyLayer(&layers@[*next as int]),
            Archive::Rootfs { .. } => ArchiveAction::CopyTree,
            Archive::Done { .. } => ArchiveAction::Nothing,
        }
    }

    /// What has to be done next.
    pub fn action(&self) -> (a: ArchiveAction<'_>)
        requires
            self.wf(),
        ensures
            a == self.asks(),
    {
        match self {
            Archive::Look { .. } => ArchiveAction::Look,
            Archive::Saved { .. } => ArchiveAction::ReadSaved,
            Archive::Index { .. } => ArchiveAction::ReadIndex,
            Archive::Manifest { at, .. } => ArchiveAction::ReadManifest(at),
            Archive::Picked { at, .. } => ArchiveAction::ReadManifest(at),
            Archive::Config { at, .. } => ArchiveAction::ReadConfig(at),
            Archive::Layer { layers, next, .. } => ArchiveAction::ApplyLayer(&layers[*next]),
            Archive::Rootfs { .. } => ArchiveAction::CopyTree,
            Archive::Done { .. } => ArchiveAction::Nothing,
        }
    }

    /// Takes what came of the action that was asked for, and goes on.
    pub fn step(self, ev: ArchiveEvent) -> (r: Archive)
        requires
            self.wf(),
            self.awaits(ev),
        ensures
            self.follows(ev, r),
            r.wf(),
    {
        match (self, ev) {
            (Archive::Done { result }, _) => Archive::Done { result },
            (_, ArchiveEvent::Failed(e)) => Archive::Done { result: Err(e) },
            (Archive::Look { source }, ArchiveEvent::Found { manifest, index }) => if manifest {
                Archive::Saved { source }
            } else if index {
                Archive::Index { source }
            } else {
                Archive::Rootfs { config: image_config(source, None) }
            },
            (Archive::Saved { source }, ArchiveEvent::Saved(v)) => {
                if v.len() == 0 {
                    return fail("empty docker manifest");
                }
                Archive::Config {
                    source,
                    at: Place::Path(v[0].config.clone()),
                    layers: at_paths(&v[0].layers),
                }
            },
            (Archive::Index { source }, ArchiveEvent::Index(v)) => {
                if v.len() == 0 {
                    return fail("empty OCI index");
                }
                Archive::Manifest { source, at: blob(v[0].digest.as_str()) }
            },
            (Archive::Manifest { source, .. }, ArchiveEvent::Manifest(m)) => {
                if m.manifests.len() == 0 {
                    return describe(source, m);
                }
                match pick_from_layout(&m.manifests) {
                    Some(i) => {
                        assert(taken(m.manifests@, i as int));
                        Archive::Picked { source, at: blob(m.manifests[i].digest.as_str()) }
                    },
                    None => fail("no linux/amd64 manifest in the index"),
                }
            },
            (Archive::Picked { source, .. }, ArchiveEvent::Manifest(m)) => describe(source, m),
            (Archive::Config { source, layers, .. }, ArchiveEvent::Config(cc)) => {
                let config = image_config(source, cc);
                assert(config_from(source, cc, config));
                lay_out(config, layers)
            },
            (Archive::Layer { layers, next, config }, ArchiveEvent::Done) => if layers.len() - next
                > 1 {
                Archive::Layer { layers, next: next + 1, config }
            } else {
                Archive::Done { result: Ok(config) }
            },
            (Archive::Rootfs { config }, ArchiveEvent::Done) => Archive::Done { result: Ok(config) },
            _ => vstd::pervasive::unreached(),
        }
    }
}

fn fail(m: &str) -> (r: Archive)
    ensures
        said(r, m@),
        r.wf(),
{
    Archive::Done { result: Err(m.to_string()) }
}

fn at_paths(v: &Vec<String>) -> (r: Vec<Place>)
    ensures
        paths(v@, r@),
{
    let mut out: Vec<Place> = Vec::new();
    let mut i: usize = 0;
    while i < v.len()
        invariant
            i <= v.len(),
            out.len() == i,
            forall|k: int|
                0 <= k < i ==> (#[trigger] out@[k] matches Place::Path(p) && p@ == v@[k]@),
        decreases v.len() - i,
    {
        out.push(Place::Path(v[i].clone()));
        i += 1;
    }
    out
}

fn lay_out(config: ImageConfig, layers: Vec<Place>) -> (r: Archive)
    ensures
        laid_out(config, layers@, r),
        r.wf(),
{
    if layers.len() == 0 {
        Archive::Done { result: Ok(config) }
    } else {
        Archive::Layer { layers, next: 0, config }
    }
}

fn describe(source: String, m: Manifest) -> (r: Archive)
    ensures
        described(source, m, r),
        r.wf(),
{
    let mut layers: Vec<Place> = Vec::new();
    let mut i: usize = 0;
    while i < m.layers.len()
        invariant
            i <= m.layers.len(),
            layers.len() == i,
            forall|k: int|
                0 <= k < i ==> is_blob(m.layers@[k].digest@, #[trigger] layers@[k]),
        decreases m.layers.len() - i,
    {
        layers.push(blob(m.layers[i].digest.as_str()));
        i += 1;
    }
    assert(blobs_of(m, layers@));
    match &m.config {
        Some(d) => Archive::Config { source, at: blob(d.digest.as_str()), layers },
        None => {
            let config = image_config(source, None);
            let r = lay_out(config, layers);
            assert(laid_out(config, layers@, r));
            r
        },
    }
}

/// **Law.** What stands at the top of an archive says how it is read: a list of
/// saved images before an index, an index before anything else, and with
/// neither the tree itself is the filesystem, of an image that sets nothing.
pub proof fn law_the_top_of_an_archive_says_its_kind(a: Archive, ev: ArchiveEvent, r: Archive)
    requires
        a is Look,
        a.awaits(ev),
        a.follows(ev, r),
    ensures
        ev matches ArchiveEvent::Found { manifest, index } ==> {
            &&& r.asks() is ReadSaved <==> manifest
            &&& r.asks() is ReadIndex <==> index && !manifest
            &&& r.asks() is CopyTree <==> !index && !manifest
            &&& r is Saved ==> r->Saved_source == a->Look_source
            &&& r is Index ==> r->Index_source == a->Look_source
            &&& r is Rootfs ==> r->Rootfs_config.source == a->Look_source
                && r->Rootfs_config.env@.len() == 0 && r->Rootfs_config.workdir is None
                && r->Rootfs_config.user is None
        },
{
}

/// **Law.** The image of a `docker save` archive is the first that its list
/// names: its config and its layers are read where the list says, the layers in
/// the order of the list. An empty list is an error.
pub proof fn law_the_first_saved_image_is_taken(a: Archive, v: Vec<SavedImage>, r: Archive)
    requires
        a is Saved,
        a.follows(ArchiveEvent::Saved(v), r),
    ensures
        v@.len() == 0 ==> (r matches Archive::Done { result } && result is Err),
        v@.len() > 0 ==> {
            &&& r is Config
            &&& r->Config_source == a->Saved_source
            &&& r->Config_at is Path
            &&& r->Config_at->Path_0@ == v@[0].config@
            &&& r->Config_layers@.len() == v@[0].layers@.len()
            &&& forall|i: int|
                0 <= i < v@[0].layers@.len() ==> (#[trigger] r->Config_layers@[i]) is Path
                    && r->Config_layers@[i]->Path_0@ == v@[0].layers@[i]@
        },
{
}

/// Whether entry `i` is for linux/amd64 or for no platform, as none before it
/// is, and `at` is where its blob is.
pub open spec fn leads_here(v: Seq<Descriptor>, i: int, at: Place) -> bool {
    &&& 0 <= i < v.len()
    &&& is_blob(v[i].digest@, at)
    &&& v[i].platform matches Some(p) ==> p.os@ == "linux"@ && p.architecture@ == "amd64"@
    &&& forall|k: int|
        0 <= k < i ==> (#[trigger] v[k]).platform is Some && (v[k].platform->0.os@ != "linux"@
            || v[k].platform->0.architecture@ != "amd64"@)
}

/// **Law.** The image of an OCI layout is the one that the first entry of its
/// index leads to. Where that is an index itself, an entry is taken only for
/// linux/amd64 or for no platform, and nothing before it is either.
pub proof fn law_an_oci_layout_leads_to_one_image(a: Archive, ev: ArchiveEvent, r: Archive)
    requires
        a.awaits(ev),
        a.follows(ev, r),
        !(ev is Failed),
    ensures
        a matches Archive::Index { source } ==> if ev->Index_0@.len() == 0 {
            r matches Archive::Done { result } && result is Err
        } else {
            r matches Archive::Manifest { source: s, at } && s == source && is_blob(
                ev->Index_0@[0].digest@,
                at,
            )
        },
        a is Manifest && ev->Manifest_0.manifests@.len() > 0 ==> (r is Picked || (
        r matches Archive::Done { result } && result is Err)),
        r matches Archive::Picked { source, at } ==> a is Manifest && a->Manifest_source == source
            && exists|i: int| #[trigger] leads_here(ev->Manifest_0.manifests@, i, at),
        a is Manifest && ev->Manifest_0.manifests@.len() > 0 && r is Done ==> forall|i: int|
            0 <= i < ev->Manifest_0.manifests@.len() ==> (
            #[trigger] ev->Manifest_0.manifests@[i]).platform is Some,
{
    if a is Manifest && ev->Manifest_0.manifests@.len() > 0 {
        let v = ev->Manifest_0.manifests@;
        if r is Picked {
            let i = choose|i: int|
                #[trigger] taken(v, i) && is_blob(v[i].digest@, r->Picked_at);
            assert(is_blob(v[i].digest@, r->Picked_at));
            assert forall|k: int| 0 <= k < i implies (#[trigger] v[k]).platform is Some && (
            v[k].platform->0.os@ != "linux"@ || v[k].platform->0.architecture@ != "amd64"@) by {
                assert(!runs_here(v[k]));
            }
            assert(leads_here(v, i, r->Picked_at));
        } else {
            assert forall|i: int| 0 <= i < v.len() implies (#[trigger] v[i]).platform is Some by {
                lemma_first_taken(v, i);
            }
        }
    }
}

proof fn lemma_first_taken(v: Seq<Descriptor>, i: int)
    requires
        0 <= i < v.len(),
        forall|k: int| !(#[trigger] taken(v, k)),
    ensures
        v[i].platform is Some,
        !runs_here(v[i]),
    decreases i,
{
    assert forall|k: int| 0 <= k < i implies !runs_here(#[trigger] v[k]) && v[k].platform is Some by {
        lemma_first_taken(v, k);
    }
    assert(!taken(v, i));
}

/// **Law.** The layers that an archive is laid out from are those of the image,
/// all of them and in its order: each blob of the manifest, found by its digest;
/// and what they are found to be at first is what is applied.
pub proof fn law_the_layers_of_the_image_are_laid_out(a: Archive, ev: ArchiveEvent, r: Archive)
    requires
        a.awaits(ev),
        a.follows(ev, r),
        !(ev is Failed),
        a is Picked || a is Config || (a is Manifest && ev->Manifest_0.manifests@.len() == 0),
    ensures
        !(a is Config) ==> {
            let m = ev->Manifest_0;
            &&& r is Config <==> m.config is Some
            &&& r is Config ==> is_blob(m.config->0.digest@, r->Config_at) && r->Config_source == (
            if a is Picked {
                a->Picked_source
            } else {
                a->Manifest_source
            }) && r->Config_layers@.len() == m.layers@.len() && forall|i: int|
                0 <= i < m.layers@.len() ==> is_blob(
                    m.layers@[i].digest@,
                    #[trigger] r->Config_layers@[i],
                )
            &&& r is Layer ==> r->Layer_next == 0 && r->Layer_layers@.len() == m.layers@.len()
                && forall|i: int|
                0 <= i < m.layers@.len() ==> is_blob(
                    m.layers@[i].digest@,
                    #[trigger] r->Layer_layers@[i],
                )
            &&& m.config is None && m.layers@.len() > 0 ==> r is Layer
            &&& m.config is None && m.layers@.len() == 0 ==> (r matches Archive::Done { result }
                && result is Ok)
        },
        a is Config ==> {
            &&& a->Config_layers@.len() > 0 ==> r is Layer && r->Layer_next == 0
                && r->Layer_layers@ == a->Config_layers@
            &&& a->Config_layers@.len() == 0 ==> (r matches Archive::Done { result } && result is Ok)
        },
{
}

/// **Law.** The layers of an archive are applied from the first to the last,
/// each once: a layer is followed by the next one of the same list, and an
/// archive that has layers ends with success only from its last layer.
pub proof fn law_an_archives_layers_are_applied_in_order(
    a: Archive,
    ev: ArchiveEvent,
    r: Archive,
)
    requires
        a.wf(),
        a.awaits(ev),
        a.follows(ev, r),
    ensures
        a matches Archive::Layer { layers, next, .. } ==> a.asks() == ArchiveAction::ApplyLayer(
            &layers@[next as int],
        ),
        r matches Archive::Layer { layers, next, config } ==> ev !is Failed && (if a is Layer {
            a->Layer_layers == layers && a->Layer_config == config && next == a->Layer_next + 1
        } else {
            next == 0
        }),
        r matches Archive::Done { result } ==> (result matches Ok(config) ==> ev !is Failed && (
        a is Layer ==> a->Layer_next + 1 == a->Layer_layers@.len() && config == a->Layer_config) && (
        a matches Archive::Config { layers, .. } ==> layers@.len() == 0) && (ev matches
            ArchiveEvent::Manifest(m) ==> m.layers@.len() == 0)),
        ev is Failed ==> r == (Archive::Done { result: Err(ev->Failed_0) }),
        a is Layer && ev is Done ==> r is Layer || (r matches Archive::Done { result } && result is Ok),
{
}

/// Whether `s` are the states that an archive goes through as `evs` come.
pub open spec fn goes_through(s: Seq<Archive>, evs: Seq<ArchiveEvent>) -> bool {
    &&& s.len() == evs.len() + 1
    &&& forall|i: int|
        0 <= i < evs.len() ==> (#[trigger] s[i]).wf() && s[i].awaits(evs[i]) && s[i].follows(
            evs[i],
            s[i + 1],
        )
}

/// **Law.** Where an archive that has layers is laid out with success, every
/// layer was applied exactly once, and in order: the steps from the first layer
/// to the end are as many as the layers, and each applies the layer whose turn
/// it is.
pub proof fn law_every_layer_of_an_archive_is_applied_once(
    s: Seq<Archive>,
    evs: Seq<ArchiveEvent>,
)
    requires
        goes_through(s, evs),
        s[0] is Layer,
        s[0]->Layer_next == 0,
        s.last() matches Archive::Done { result } && result is Ok,
    ensures
        evs.len() == s[0]->Layer_layers@.len(),
        forall|i: int|
            0 <= i < evs.len() ==> evs[i] is Done && (#[trigger] s[i]).asks()
                == ArchiveAction::ApplyLayer(&s[0]->Layer_layers@[i]),
{
    let layers = s[0]->Layer_layers;
    let n = evs.len() as int;
    assert forall|i: int| 0 <= i < n implies (#[trigger] s[i]) is Layer && s[i]->Layer_layers
        == layers && s[i]->Layer_next == i && evs[i] is Done by {
        lemma_layer_reached(s, evs, i);
    }
    assert(n > 0);
    lemma_layer_reached(s, evs, n - 1);
    assert(s[n - 1].follows(evs[n - 1], s[n]));
    assert(layers.len() as int == layers@.len());
}

proof fn lemma_layer_reached(s: Seq<Archive>, evs: Seq<ArchiveEvent>, i: int)
    requires
        goes_through(s, evs),
        0 <= i < evs.len(),
        s[0] is Layer,
        s[0]->Layer_next == 0,
        s.last() matches Archive::Done { result } && result is Ok,
    ensures
        s[i] is Layer,
        s[i]->Layer_layers == s[0]->Layer_layers,
        s[i]->Layer_next == i,
        evs[i] is Done,
    decreases i,
{
    if i > 0 {
        lemma_layer_reached(s, evs, i - 1);
        assert(s[i - 1].follows(evs[i - 1], s[i]));
        assert(s[i].awaits(evs[i]));
        let layers = s[0]->Layer_layers;
        assert(layers.len() as int == layers@.len());
    }
    assert(s[i].wf() && s[i].awaits(evs[i]) && s[i].follows(evs[i], s[i + 1]));
    if evs[i] is Failed {
        assert(s[i + 1] is Done);
        if i + 1 < evs.len() {
            assert(s[i + 1].awaits(evs[i + 1]));
        } else {
            assert(s[i + 1] == s.last());
        }
    }
}

/// **Law.** A blob is found by its digest: the two parts of where it is make up
/// the digest again, and one that names no algorithm is SHA-256.
pub proof fn law_a_blob_is_found_by_its_digest(d: Seq<char>, p: Place)
    requires
        is_blob(d, p),
    ensures
        p is Blob,
        d.contains(':') ==> d == p->Blob_algorithm@ + seq![':'] + p->Blob_name@
            && !p->Blob_algorithm@.contains(':'),
        !d.contains(':') ==> p->Blob_algorithm@ == "sha256"@ && p->Blob_name@ == d,
{
    lemma_first_index(d, ':');
    if d.contains(':') {
        assert(d =~= p->Blob_algorithm@ + seq![':'] + p->Blob_name@);
    }
}

} // verus!
