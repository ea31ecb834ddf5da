//! The rules by which a pool of sessions is run.

use crate::client::Client;
use crate::client_options::ClientOptions;
use crate::pool_options::PoolOptions;
use vstd::prelude::*;

verus! {

/// Seconds after which an idle session is closed.
pub const IDLE_TIMEOUT_SECS: u64 = 60;

/// Seconds after which a session is replaced on its next release.
pub const MAX_LIFETIME_SECS: u64 = 1800;

/// Opens and judges the sessions of a pool.
#[derive(Debug)]
pub struct ClientManager {
    /// The options of every session the manager opens.
    pub options: ClientOptions,
}

impl ClientManager {
    /// Whether a session must be replaced rather than handed out again.
    pub fn has_broken(&self, conn: &Client) -> (r: bool)
        ensures
            r == !conn@.healthy,
    {
        conn.has_broken()
    }
}

/// The settings a pool is built with.
#[derive(Debug, Clone, Copy, PartialEq, Eq, Structural)]
pub struct PoolSettings {
    /// The number of sessions, all opened when the pool is built.
    pub max_size: u32,
    /// Seconds to wait for a free session.
    pub connection_timeout_secs: u64,
    /// Seconds a session may stay idle.
    pub idle_timeout_secs: Option<u64>,
    /// Seconds a session may live.
    pub max_lifetime_secs: Option<u64>,
    /// Whether a session is pinged before it is handed out.
    pub test_on_check_out: bool,
}

/// The settings that the options ask for: as many sessions as
/// `max_connections`, the acquire timeout as given, sessions closed after
/// a minute of idleness and replaced after half an hour, and each pinged
/// before it is handed out.
pub fn pool_settings(opts: &PoolOptions) -> (r: PoolSettings)
    ensures
        r == (PoolSettings {
            max_size: opts.max_connections,
            connection_timeout_secs: opts.acquire_timeout,
            idle_timeout_secs: Some(IDLE_TIMEOUT_SECS),
            max_lifetime_secs: Some(MAX_LIFETIME_SECS),
            test_on_check_out: true,
        }),
{
    PoolSettings {
        max_size: opts.max_connections,
        connection_timeout_secs: opts.acquire_timeout,
        idle_timeout_secs: Some(IDLE_TIMEOUT_SECS),
        max_lifetime_secs: Some(MAX_LIFETIME_SECS),
        test_on_check_out: true,
    }
}

/// The manager of the sessions that a pool with these options holds.
pub fn client_manager(opts: PoolOptions) -> (r: ClientManager)
    ensures
        r.options == opts.client_options,
{
    ClientManager { options: opts.client_options }
}

} // verus!
