//! Failover support for PostgreSQL logical replication slots.
//!
//! The extension copies logical replication slots from a primary server to a physical
//! standby, so that they survive failover, and it holds logical replication data back on
//! the primary until the named physical standbys have confirmed it.
//!
//! This library is the part that decides: it parses the configuration, builds and decodes
//! the queries sent to the primary, and runs the background worker and the walsender hook
//! as state machines. A machine states the next [`server::Request`] it needs served and is
//! advanced by the [`server::Reply`].

use vstd::prelude::*;

pub mod guc;
pub mod laws;
pub mod pg_compat;
pub mod remote;
pub mod server;
pub mod slot_sync;
pub mod standby_wait;
pub mod text;
pub mod worker;

verus! {

/// Extension name constant.
pub const EXTENSION_NAME: &'static str = "pg_failover_slots_rs";

/// Short sleep time when waiting for feedback, in milliseconds (10 seconds).
pub const WORKER_WAIT_FEEDBACK: i64 = 10_000;

/// Return the extension version.
pub fn pg_failover_slots_rs_version() -> (version: &'static str)
    ensures
        version@ == guc::VERSION@,
{
    guc::VERSION
}

/// What is set up when the extension is loaded.
#[derive(Debug, Clone, Copy, PartialEq, Eq, Structural)]
pub enum InitPlan {
    /// Nothing: the extension has to be in `shared_preload_libraries`.
    Refuse,
    /// The parameters alone: the server is being upgraded.
    Parameters,
    /// The parameters, the background worker and the client authentication hook.
    All,
}

/// Decide what to set up when the extension is loaded.
pub fn init_plan(preloading: bool, binary_upgrade: bool) -> (plan: InitPlan)
    ensures
        plan is Refuse <==> !preloading,
        plan is Parameters <==> preloading && binary_upgrade,
        plan is All <==> preloading && !binary_upgrade,
{
    if !preloading {
        InitPlan::Refuse
    } else if binary_upgrade {
        InitPlan::Parameters
    } else {
        InitPlan::All
    }
}

} // verus!
