//! Storage pool settings of a running peer.
//!
//! Two pools share the object store: a user pool for interactive work
//! and a protocol pool for gossip-driven work, each sized to the
//! machine's physical core count by default.

use vstd::prelude::*;

verus! {

/// Relies on num_cpus::get_physical: it always reports at least one
/// core.
#[verifier::external_body]
fn physical_cores() -> (n: usize)
    ensures
        1 <= n,
{
    num_cpus::get_physical()
}

/// Settings for the user-facing storage pool.
pub struct UserStorage {
    /// Number of storage handles to reserve.
    pub pool_size: usize,
}

impl Default for UserStorage {
    /// One handle per physical core.
    fn default() -> (r: UserStorage)
        ensures
            1 <= r.pool_size,
    {
        UserStorage { pool_size: physical_cores() }
    }
}

/// Settings for the protocol storage pool.
pub struct ProtocolStorage {
    /// Number of storage handles to reserve.
    pub pool_size: usize,
    /// Seconds to wait for a fetch slot before giving up, for fetches
    /// initiated by incoming gossip.
    pub fetch_slot_wait_timeout_secs: u64,
}

impl Default for ProtocolStorage {
    /// One handle per physical core, and twenty seconds of slot wait.
    fn default() -> (r: ProtocolStorage)
        ensures
            1 <= r.pool_size,
            r.fetch_slot_wait_timeout_secs == 20,
    {
        ProtocolStorage { pool_size: physical_cores(), fetch_slot_wait_timeout_secs: 20 }
    }
}

} // verus!
