//! The supervisor of the upstream file.

use vstd::prelude::*;
use crate::reload::MtimeWatch;
use crate::upstream::manager::UpstreamManager;
use crate::upstream::router::UpstreamRouter;

verus! {

/// Watches the upstream file by its modification time.
pub struct UpstreamUpdater {
    pub interval_secs: u64,
    pub watch: MtimeWatch,
}

impl UpstreamUpdater {
    pub fn new(interval_secs: u64) -> (u: Self)
        ensures
            u.interval_secs == interval_secs,
            u.watch.last_mtime is None,
    {
        UpstreamUpdater { interval_secs, watch: MtimeWatch::new() }
    }

    /// Takes the modification time of the upstream file, or `None` where
    /// it could not be had, and says whether to read the file anew: when
    /// the time is known and strictly newer than the last one seen.
    pub fn on_tick(&mut self, mtime: Option<u128>) -> (reload: bool)
        ensures
            reload == (mtime is Some && (old(self).watch.last_mtime is None || old(self).watch.last_mtime.unwrap() < mtime.unwrap())),
            final(self).watch.last_mtime == (if reload {
                mtime
            } else {
                old(self).watch.last_mtime
            }),
            final(self).interval_secs == old(self).interval_secs,
    {
        match mtime {
            Some(t) => self.watch.observe(t),
            None => false,
        }
    }

    /// Puts a freshly built router in force, with the CNAME cache of the
    /// router before; after a failure, given as
    /// `None`, the router before stays. Returns
    /// whether a new router is in force.
    pub fn on_loaded(&self, mgr: &mut UpstreamManager, built: Option<UpstreamRouter>) -> (swapped:
        bool)
        ensures
            swapped == built is Some,
            built matches Some(r) ==> final(mgr).router.cache() == old(mgr).router.cache() && final(mgr).router.same_routes(r),
            built is None ==> final(mgr).router == old(mgr).router,
    {
        match built {
            Some(r) => {
                mgr.reload(r);
                true
            },
            None => false,
        }
    }
}

} // verus!
