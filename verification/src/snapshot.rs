//! The cache store's on-disk state, seen as a model: the version stamp
//! and whether the data file is present. Freshness checks, the ordered
//! write protocol (data first, stamp last), refresh planning, and the
//! offline-fallback rule live here.

use vstd::prelude::*;
use crate::EngineError;
use crate::sources::SourceDescriptor;
use crate::strutil::{eq_str, last_segment, spec_split, spec_starts_with, starts_with_str};

verus! {

/// The on-disk state of one snapshot: the version stamp, when the stamp
/// file exists, and whether the data file is present.
pub struct CacheState {
    pub stamp: Option<String>,
    pub data_present: bool,
}

/// A snapshot is fresh for a token exactly when its stamp file exists,
/// holds that token, and its data file is present.
pub open spec fn spec_fresh(s: CacheState, token: Seq<char>) -> bool {
    match s.stamp {
        Some(st) => st@ == token && s.data_present,
        None => false,
    }
}

/// The state a committed refresh leaves behind: the data file present and
/// the stamp holding the new token.
pub open spec fn spec_commit(s: CacheState, token: String) -> CacheState {
    CacheState { stamp: Some(token), data_present: true }
}

impl CacheState {
    /// Whether the snapshot is fresh for `token`.
    pub fn is_fresh(&self, token: &str) -> (r: bool)
        ensures
            r == spec_fresh(*self, token@),
    {
        match &self.stamp {
            Some(st) => self.data_present && eq_str(st.as_str(), token),
            None => false,
        }
    }

    /// Deletes the data file: the first step of a replace, after which
    /// the snapshot is fresh for no token.
    pub fn remove_data(&mut self)
        ensures
            final(self).data_present == false,
            final(self).stamp == old(self).stamp,
            forall|t: Seq<char>| !spec_fresh(*final(self), t),
    {
        self.data_present = false;
    }

    /// Installs the newly written data file; the stamp is untouched.
    pub fn install_data(&mut self)
        ensures
            final(self).data_present == true,
            final(self).stamp == old(self).stamp,
    {
        self.data_present = true;
    }

    /// Writes the stamp file; written last, so a crash before this step
    /// never leaves a fresh-looking stamp over partial data.
    pub fn write_stamp(&mut self, token: String)
        ensures
            final(self).stamp == Some(token),
            final(self).data_present == old(self).data_present,
    {
        self.stamp = Some(token);
    }

    /// A whole successful refresh write: replace the data, then stamp it.
    pub fn commit(&mut self, token: String)
        ensures
            *final(self) == spec_commit(*old(self), token),
            spec_fresh(*final(self), token@),
    {
        self.remove_data();
        self.install_data();
        self.write_stamp(token);
    }
}

/// Whether one snapshot's stamp has fallen behind another's: any
/// difference between the two tokens reports the pair, equality reports
/// nothing.
pub fn stamps_differ(ours: &str, newest: &str) -> (r: Option<(String, String)>)
    ensures
        ours@ != newest@ ==> (r matches Some(p) && p.0@ == ours@ && p.1@ == newest@),
        ours@ == newest@ ==> r is None,
{
    if eq_str(ours, newest) {
        None
    } else {
        Some((String::from_str(ours), String::from_str(newest)))
    }
}

/// Whether one snapshot's stamp has fallen behind another's, comparing
/// only the revision suffixes: the pair is reported unless the newest
/// token's last dotted segment starts with ours.
pub fn stamps_differ_by_revision(ours: &str, newest: &str) -> (r: Option<(String, String)>)
    ensures
        ({
            let ol = spec_split(ours@, '.').last();
            let nl = spec_split(newest@, '.').last();
            if !spec_starts_with(nl, ol) {
                r matches Some(p) && p.0@ == ours@ && p.1@ == newest@
            } else {
                r is None
            }
        }),
{
    let ol = last_segment(ours, '.');
    let nl = last_segment(newest, '.');
    if starts_with_str(nl.as_str(), ol.as_str()) {
        None
    } else {
        Some((String::from_str(ours), String::from_str(newest)))
    }
}

/// What a refresh does: reuse the existing snapshot untouched, or try the
/// given sources in order.
pub enum RefreshPlan {
    UseExisting,
    Fetch(Vec<SourceDescriptor>),
}

/// The plan for a refresh: a snapshot fresh for the token is reused, and
/// only a non-fresh one is fetched.
pub open spec fn spec_plan(s: CacheState, token: Seq<char>, sources: Vec<SourceDescriptor>)
    -> RefreshPlan {
    if spec_fresh(s, token) {
        RefreshPlan::UseExisting
    } else {
        RefreshPlan::Fetch(sources)
    }
}

/// Plans a refresh for a token against the snapshot's current state.
pub fn plan_refresh(state: &CacheState, token: &str, sources: Vec<SourceDescriptor>)
    -> (r: RefreshPlan)
    ensures
        spec_fresh(*state, token@) ==> r is UseExisting,
        !spec_fresh(*state, token@) ==> (r matches RefreshPlan::Fetch(v) && v == sources),
{
    if state.is_fresh(token) {
        RefreshPlan::UseExisting
    } else {
        RefreshPlan::Fetch(sources)
    }
}

/// How a refresh ended.
#[derive(Clone, Copy, PartialEq, Eq, Structural, Debug)]
pub enum SnapshotStatus {
    /// The snapshot was already current; nothing was fetched.
    Fresh,
    /// A new snapshot was committed.
    Updated,
    /// Every source failed; the prior snapshot is used unchanged.
    Stale,
}

/// The verdict when every source in the chain has failed: the stale
/// snapshot when one exists, the fetch error when none does.
pub open spec fn spec_conclude_failed(s: CacheState) -> Result<SnapshotStatus, EngineError> {
    if s.data_present {
        Ok(SnapshotStatus::Stale)
    } else {
        Err(EngineError::Fetch)
    }
}

/// Concludes a refresh whose every source failed. The state is read, not
/// written: a stale snapshot is returned as it stands.
pub fn conclude_failed(state: &CacheState) -> (r: Result<SnapshotStatus, EngineError>)
    ensures
        r == spec_conclude_failed(*state),
{
    if state.data_present {
        Ok(SnapshotStatus::Stale)
    } else {
        Err(EngineError::Fetch)
    }
}

/// After a successful refresh committed a snapshot for a token, the
/// snapshot is fresh for that token, and a second refresh for the same
/// token plans no fetch at all: refreshing twice with one resolved
/// version does all its network and subprocess work at most once.
pub proof fn lemma_refresh_idempotent(
    s0: CacheState,
    token: String,
    sources: Vec<SourceDescriptor>,
)
    ensures
        spec_fresh(spec_commit(s0, token), token@),
        spec_plan(spec_commit(s0, token), token@, sources) is UseExisting,
{
}

/// When every configured source fails and a prior snapshot exists, the
/// refresh concludes with that stale snapshot and no error; concluding
/// reads the state without writing it, so the stamp is untouched.
pub proof fn lemma_offline_fallback(s: CacheState)
    requires
        s.data_present,
    ensures
        spec_conclude_failed(s) == Ok::<SnapshotStatus, EngineError>(SnapshotStatus::Stale),
{
}

} // verus!
