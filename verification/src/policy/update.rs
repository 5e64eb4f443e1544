//! The supervisors of the domain map and of the policy directory: when to
//! read the files anew, and what to do with what was read.

use vstd::prelude::*;
use crate::policy::manager::{PolicyManager, PolicyState};
use crate::reload::{MtimeWatch, SignatureWatch};

verus! {

/// Watches the domain map file by its modification time.
pub struct DomainMapUpdater {
    pub interval_secs: u64,
    pub watch: MtimeWatch,
}

/// Watches the policy directory by its signature.
pub struct PolicyDirUpdater {
    pub interval_secs: u64,
    pub watch: SignatureWatch,
}

/// Puts a freshly loaded state in force, keeping the rate limiter of the
/// state before; after a failed load, given as `None`, the state before stays as it is.
/// Returns whether a new state is in force.
pub fn apply_loaded(mgr: &mut PolicyManager, loaded: Option<PolicyState>) -> (swapped:
    bool)
    ensures
        swapped == loaded is Some,
        final(mgr).state.cc == old(mgr).state.cc,
        final(mgr).fallback == old(mgr).fallback,
        loaded matches Some(st) ==> final(mgr).state.matcher == st.matcher && final(mgr).state.policies
            == st.policies,
        loaded is None ==> final(mgr).state == old(mgr).state,
{
    match loaded {
        Some(st) => {
            mgr.reload(st);
            true
        },
        None => false,
    }
}

impl DomainMapUpdater {
    pub fn new(interval_secs: u64) -> (u: Self)
        ensures
            u.interval_secs == interval_secs,
            u.watch.last_mtime is None,
    {
        DomainMapUpdater { interval_secs, watch: MtimeWatch::new() }
    }

    /// Takes the modification time of the domain map, or `None` where it
    /// could not be had, and says whether to load the files anew: when the
    /// time is known and strictly newer than the last one seen.
    pub fn on_tick(&mut self, mtime: Option<u128>) -> (reload: bool)
        ensures
            reload == (mtime is Some && (old(self).watch.last_mtime is None || old(self).watch.last_mtime.unwrap() < mtime.unwrap())),
            final(self).watch.last_mtime == (if reload {
                mtime
            } else {
                old(self).watch.last_mtime
            }),
            final(self).interval_secs == old(self).interval_secs,
    {
        match mtime {
            Some(t) => self.watch.observe(t),
            None => false,
        }
    }

    /// Takes the outcome of a load; see `apply_loaded`.
    pub fn on_loaded(&self, mgr: &mut PolicyManager, loaded: Option<PolicyState>) -> (swapped:
        bool)
        ensures
            swapped == loaded is Some,
            final(mgr).state.cc == old(mgr).state.cc,
            final(mgr).fallback == old(mgr).fallback,
            loaded matches Some(st) ==> final(mgr).state.matcher == st.matcher && final(mgr).state.policies == st.policies,
            loaded is None ==> final(mgr).state == old(mgr).state,
    {
        apply_loaded(mgr, loaded)
    }
}

impl PolicyDirUpdater {
    pub fn new(interval_secs: u64) -> (u: Self)
        ensures
            u.interval_secs == interval_secs,
            u.watch.last_sig is None,
    {
        PolicyDirUpdater { interval_secs, watch: SignatureWatch::new() }
    }

    /// Takes the signature of the policy directory, or `None` where it
    /// could not be had, and says whether to load the files anew: when the
    /// signature is known and differs from the last one seen.
    pub fn on_tick(&mut self, signature: Option<u64>) -> (reload: bool)
        ensures
            reload == (signature is Some && old(self).watch.last_sig != signature),
            final(self).watch.last_sig == (if signature is Some {
                signature
            } else {
                old(self).watch.last_sig
            }),
            final(self).interval_secs == old(self).interval_secs,
    {
        match signature {
            Some(s) => self.watch.observe(s),
            None => false,
        }
    }

    /// Takes the outcome of a load; see `apply_loaded`.
    pub fn on_loaded(&self, mgr: &mut PolicyManager, loaded: Option<PolicyState>) -> (swapped:
        bool)
        ensures
            swapped == loaded is Some,
            final(mgr).state.cc == old(mgr).state.cc,
            final(mgr).fallback == old(mgr).fallback,
            loaded matches Some(st) ==> final(mgr).state.matcher == st.matcher && final(mgr).state.policies == st.policies,
            loaded is None ==> final(mgr).state == old(mgr).state,
    {
        apply_loaded(mgr, loaded)
    }
}

} // verus!
