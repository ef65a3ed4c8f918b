//! Certificates: the admin authority that lets services and operators in, and
//! the authority that signs the egress proxy's leaves.

pub mod admin;
pub mod ca;
pub mod creds;
pub mod pem;
pub mod x509;
