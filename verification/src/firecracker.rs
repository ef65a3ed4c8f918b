//! The Firecracker backend: the API calls that define and drive an instance,
//! its HTTP exchange, and the jail it runs in.

pub mod api;
pub mod http;
pub mod jail;
pub mod link;
