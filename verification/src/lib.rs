//! Keeps a reverse proxy's routing configuration synchronized with the live
//! set of running containers, using labels on each container as the source of
//! truth.
//!
//! The verified core is: a label-to-configuration compiler, the pure decision
//! logic of the two-step apply/delete protocol with bounded retry, and the
//! reconciliation state that maps container identities to applied service
//! names.  Transport, the container runtime connection and the event loop
//! itself live outside the library and only hand plain values in and out.

use vstd::prelude::*;

pub mod compile;
pub mod laws;
pub mod models;
pub mod protocol;
pub mod reconcile;
pub mod snapshot;
pub mod text;

verus! {

/// Process-level settings: the proxy admin base URL, an optional container
/// runtime endpoint, and the log verbosity.
#[derive(Debug, Clone)]
pub struct Config {
    pub pingap_admin_url: String,
    pub docker_host: Option<String>,
    pub log_level: String,
}

} // verus!
