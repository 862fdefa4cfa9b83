//! Package-metadata cache and reconciliation engine for a declarative
//! package ecosystem.
//!
//! The crate keeps a locally persisted, periodically refreshed snapshot of
//! upstream package metadata and reconciles the user's installed package set
//! against it: which exact version of each package is installed, and which
//! packages have become broken, insecure or removed upstream.
//!
//! The verified core lives here: version-token handling, source resolution,
//! the refresh state machine with its offline fallback, the snapshot store
//! model, normalization of the upstream data shapes, and the reconciliation
//! rules. Network retrieval, subprocess probes and the on-disk relational
//! store are driven by a thin unverified shell that feeds plain values into
//! these functions.

use vstd::prelude::*;

pub mod config;
pub mod installed;
pub mod payload;
pub mod reconcile;
pub mod records;
pub mod snapshot;
pub mod sources;
pub mod store;
pub mod strutil;
pub mod version;

verus! {

/// The error taxonomy of the engine.
///
/// `Probe`: the current version of the system could not be determined.
/// `Fetch`: no source was reachable and no stale snapshot exists.
/// `Decode`: a payload did not match the expected shape.
/// `Store`: the snapshot store failed during a read or write.
#[derive(Clone, Copy, PartialEq, Eq, Structural, Debug)]
pub enum EngineError {
    Probe,
    Fetch,
    Decode,
    Store,
}

impl EngineError {
    /// A short human-readable description of the error.
    pub fn message(&self) -> (r: &'static str)
        ensures
            self is Probe ==> r@ == "could not determine the current version"@,
            self is Fetch ==> r@ == "no source reachable and no cached snapshot"@,
            self is Decode ==> r@ == "payload does not match the expected shape"@,
            self is Store ==> r@ == "snapshot store failure"@,
    {
        match self {
            EngineError::Probe => "could not determine the current version",
            EngineError::Fetch => "no source reachable and no cached snapshot",
            EngineError::Decode => "payload does not match the expected shape",
            EngineError::Store => "snapshot store failure",
        }
    }
}

} // verus!
