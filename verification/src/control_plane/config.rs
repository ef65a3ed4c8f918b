//! Control-plane configuration.

use vstd::prelude::*;
use vstd::string::*;

verus! {

#[derive(Debug)]
pub struct Config {
    /// SQLite database path (the durable source of truth). `:memory:` for tests.
    pub db_path: String,
    /// vcpus/mem used when a template doesn't specify and the request doesn't
    /// override.
    pub default_vcpus: u32,
    pub default_mem_mib: u32,
    /// How long to wait for graceful guest shutdown before forcing.
    pub graceful_stop_ms: u64,
    /// Number of placement slots (also bounds the network).
    pub slot_capacity: usize,
}

impl Default for Config {
    fn default() -> (r: Self)
        ensures
            r.db_path@ == "/var/lib/iso/control.db"@,
            r.default_vcpus == 1,
            r.default_mem_mib == 512,
            r.graceful_stop_ms == 30_000,
            r.slot_capacity == 32768,
    {
        Config {
            db_path: "/var/lib/iso/control.db".to_string(),
            default_vcpus: 1,
            default_mem_mib: 512,
            graceful_stop_ms: 30_000,
            slot_capacity: 32768,
        }
    }
}

} // verus!
