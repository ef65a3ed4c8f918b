//! Image references.

use crate::text::{
    begins, concat2, concat3, cut, has_char, lemma_first_index, lemma_first_index_is, lemma_last_index, rcut, rsplit_once, same, split_once, starts_with, trim,
    trimmed,
};
use vstd::prelude::*;
use vstd::string::*;

verus! {

/// `[registry/]repository[:tag|@digest]`, Docker's conventions.
#[derive(Debug, PartialEq, Eq)]
pub struct Reference {
    pub registry: String,
    pub repository: String,
    /// A tag or a `sha256:…` digest.
    pub reference: String,
}

/// The name of an image, and its tag or digest: what stands behind an `@`; or
/// else behind the last `:`, which is a tag only after the last `/`; or else
/// `latest`.
pub open spec fn name_and_tag(s: Seq<char>) -> (Seq<char>, Seq<char>) {
    match cut(s, '@') {
        Some(p) => p,
        None => match rcut(s, ':') {
            Some(p) => if p.1.contains('/') {
                (s, "latest"@)
            } else {
                p
            },
            None => (s, "latest"@),
        },
    }
}

/// Whether the first part of a name is a registry.
pub open spec fn names_registry(first: Seq<char>) -> bool {
    first.contains('.') || first.contains(':') || first == "localhost"@
}

/// The registry and the repository that a name stands for, as written.
pub open spec fn home_of(name: Seq<char>) -> (Seq<char>, Seq<char>) {
    match cut(name, '/') {
        Some(p) => if names_registry(p.0) {
            p
        } else {
            ("docker.io"@, name)
        },
        None => ("docker.io"@, name),
    }
}

/// Whether a registry is Docker Hub under one of its names.
pub open spec fn is_hub(registry: Seq<char>) -> bool {
    registry == "docker.io"@ || registry == "index.docker.io"@
}

/// The registry to talk to.
pub open spec fn registry_of(s: Seq<char>) -> Seq<char> {
    let registry = home_of(name_and_tag(s).0).0;
    if is_hub(registry) {
        "registry-1.docker.io"@
    } else {
        registry
    }
}

/// The repository to ask it for: on Docker Hub a bare name is an official image.
pub open spec fn repository_of(s: Seq<char>) -> Seq<char> {
    let (registry, repository) = home_of(name_and_tag(s).0);
    if is_hub(registry) && !repository.contains('/') {
        "library/"@ + repository
    } else {
        repository
    }
}

/// The scheme to reach a registry with.
pub open spec fn scheme_of(registry: Seq<char>) -> Seq<char> {
    if begins(registry, "localhost"@) || begins(registry, "127."@) {
        "http"@
    } else {
        "https"@
    }
}

impl Reference {
    /// Reads a reference. Only an empty one is refused.
    pub fn parse(s: &str) -> (r: Result<Self, String>)
        ensures
            match r {
                Ok(x) => {
                    let t = trimmed(s@);
                    &&& t.len() > 0
                    &&& x.registry@ == registry_of(t)
                    &&& x.repository@ == repository_of(t)
                    &&& x.reference@ == name_and_tag(t).1
                },
                Err(m) => trimmed(s@).len() == 0 && m@ == "empty image reference"@,
            },
    {
        let s = trim(s);
        if s.as_str().is_empty() {
            return Err("empty image reference".to_string());
        }
        let (name, reference) = match split_once(s.as_str(), '@') {
            Some(p) => p,
            None => match rsplit_once(s.as_str(), ':') {
                Some(p) => if has_char(p.1.as_str(), '/') {
                    (s, "latest".to_string())
                } else {
                    p
                },
                None => (s, "latest".to_string()),
            },
        };
        let (registry, repository) = match split_once(name.as_str(), '/') {
            Some(p) => if has_char(p.0.as_str(), '.') || has_char(p.0.as_str(), ':') || same(
                p.0.as_str(),
                "localhost",
            ) {
                p
            } else {
                ("docker.io".to_string(), name)
            },
            None => ("docker.io".to_string(), name),
        };
        let hub = same(registry.as_str(), "docker.io") || same(
            registry.as_str(),
            "index.docker.io",
        );
        let repository = if hub && !has_char(repository.as_str(), '/') {
            concat2("library/", repository.as_str())
        } else {
            repository
        };
        let registry = if hub {
            "registry-1.docker.io".to_string()
        } else {
            registry
        };
        Ok(Reference { registry, repository, reference })
    }

    /// Where `path` of this repository is in the registry's API.
    pub open spec fn url_of(self, path: Seq<char>) -> Seq<char> {
        scheme_of(self.registry@) + "://"@ + self.registry@ + "/v2/"@ + self.repository@ + "/"@
            + path
    }

    /// Where `path` of this repository is in the registry's API.
    pub fn url(&self, path: &str) -> (s: String)
        ensures
            s@ == self.url_of(path@),
    {
        let local = starts_with(self.registry.as_str(), "localhost") || starts_with(
            self.registry.as_str(),
            "127.",
        );
        let mut s = if local {
            concat3("http", "://", self.registry.as_str())
        } else {
            concat3("https", "://", self.registry.as_str())
        };
        s.append("/v2/");
        s.append(self.repository.as_str());
        s.append("/");
        s.append(path);
        s
    }
}

/// **Law.** Docker Hub is one registry under all its names, and every repository
/// there has a namespace: a bare name is an official image.
pub proof fn law_the_hub_has_one_address(s: Seq<char>)
    requires
        is_hub(home_of(name_and_tag(s).0).0),
    ensures
        registry_of(s) == "registry-1.docker.io"@,
        repository_of(s).contains('/'),
{
    let (registry, repository) = home_of(name_and_tag(s).0);
    if !repository.contains('/') {
        reveal_strlit("library/");
        let r = "library/"@ + repository;
        assert(r[7] == '/');
    }
}

/// **Law.** What a reference is written as is kept: the name and the tag or
/// digest, put together again, are what was written, unless the tag is the
/// default one, which stands for no tag at all.
pub proof fn law_a_reference_is_split_at_its_mark(s: Seq<char>)
    ensures
        ({
            let (name, tag) = name_and_tag(s);
            &&& s.contains('@') ==> s == name + seq!['@'] + tag && !name.contains('@')
            &&& !s.contains('@') ==> (s == name + seq![':'] + tag && !tag.contains('/')
                && !tag.contains(':')) || (name == s && tag == "latest"@)
            &&& !s.contains('@') && !s.contains(':') ==> name == s && tag == "latest"@
        }),
{
    lemma_first_index(s, '@');
    lemma_last_index(s, ':');
    let (name, tag) = name_and_tag(s);
    if s.contains('@') {
        assert(s =~= name + seq!['@'] + tag);
    } else if s.contains(':') {
        if let Some(p) = rcut(s, ':') {
            assert(s =~= p.0 + seq![':'] + p.1);
        }
    }
}

/// **Law.** A registry is taken from a name only where its first part looks like
/// a host: with a dot, a port, or `localhost`. All else is on Docker Hub.
pub proof fn law_only_hosts_are_registries(name: Seq<char>)
    ensures
        ({
            let (registry, repository) = home_of(name);
            &&& !name.contains('/') ==> registry == "docker.io"@ && repository == name
            &&& registry != "docker.io"@ ==> name == registry + seq!['/'] + repository
                && !registry.contains('/') && (registry.contains('.') || registry.contains(':')
                || registry == "localhost"@)
            &&& forall|host: Seq<char>, rest: Seq<char>|
                !host.contains('/') && (host.contains('.') || host.contains(':') || host
                    == "localhost"@) && name == #[trigger] (host + seq!['/'] + rest) ==> registry
                    == host && repository == rest
        }),
{
    lemma_first_index(name, '/');
    let (registry, repository) = home_of(name);
    if name.contains('/') {
        if let Some(p) = cut(name, '/') {
            assert(name =~= p.0 + seq!['/'] + p.1);
        }
    }
    assert forall|host: Seq<char>, rest: Seq<char>|
        !host.contains('/') && (host.contains('.') || host.contains(':') || host == "localhost"@)
            && name == #[trigger] (host + seq!['/'] + rest) implies registry == host && repository
        == rest by {
        let n = host.len() as int;
        assert(name[n] == '/');
        assert forall|k: int| 0 <= k < n implies name[k] != '/' by {
            assert(name[k] == host[k]);
            assert(host.contains(host[k]));
        }
        lemma_first_index_is(name, '/', n);
        assert(name.subrange(0, n) =~= host);
        assert(name.subrange(n + 1, name.len() as int) =~= rest);
    }
}

/// **Law.** A registry on this machine is spoken to in the clear, every other one
/// over TLS.
pub proof fn law_only_local_registries_are_spoken_to_in_the_clear(registry: Seq<char>)
    ensures
        scheme_of(registry) == "http"@ <==> begins(registry, "localhost"@) || begins(
            registry,
            "127."@,
        ),
        scheme_of(registry) == "https"@ <==> !(begins(registry, "localhost"@) || begins(
            registry,
            "127."@,
        )),
{
    reveal_strlit("http");
    reveal_strlit("https");
    assert("http"@.len() == 4);
    assert("https"@.len() == 5);
}

/// **Law.** Repositories elsewhere are asked for as they are named, at the
/// registry that was named.
pub proof fn law_other_registries_are_taken_as_named(s: Seq<char>)
    requires
        home_of(name_and_tag(s).0).0 != "docker.io"@,
        home_of(name_and_tag(s).0).0 != "index.docker.io"@,
    ensures
        registry_of(s) == home_of(name_and_tag(s).0).0,
        repository_of(s) == home_of(name_and_tag(s).0).1,
{
}

} // verus!
