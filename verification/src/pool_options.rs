//! How many sessions a pool keeps and how long a caller waits for one.

use crate::client_options::ClientOptions;
use vstd::prelude::*;

verus! {

/// The size of a pool, the options of its sessions and the time, in
/// seconds, after which waiting for a session is given up.
#[derive(Debug)]
pub struct PoolOptions {
    /// The number of sessions in the pool.
    pub max_connections: u32,
    /// The options of every session.
    pub client_options: ClientOptions,
    /// Seconds after which waiting for a session is given up.
    pub acquire_timeout: u64,
}

impl PoolOptions {
    /// Options with the given fields.
    pub fn new(client_options: ClientOptions, max_connections: u32, acquire_timeout: u64) -> (r:
        Self)
        ensures
            r == (PoolOptions { max_connections, client_options, acquire_timeout }),
    {
        Self { max_connections, client_options, acquire_timeout }
    }
}

impl Clone for PoolOptions {
    fn clone(&self) -> (r: Self)
        ensures
            r == *self,
    {
        PoolOptions {
            max_connections: self.max_connections,
            client_options: self.client_options.clone(),
            acquire_timeout: self.acquire_timeout,
        }
    }
}

} // verus!
