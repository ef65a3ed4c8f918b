//! A template rootfs from an OCI image: where an image is, how it is fetched,
//! how its layers stack, and what is put on top of them.
//!
//! - [`pull`]: from a registry, anonymously or with a token that the registry
//!   hands out on demand, a manifest list narrowed to linux/amd64, blobs checked
//!   against their digests.
//! - [`archive`]: from a `docker save` tarball, an OCI image layout tarball, or
//!   a plain `docker export` rootfs tarball.

pub mod archive;
pub mod image;
pub mod install;
pub mod layer;
pub mod pull;
pub mod reference;
pub mod registry;
