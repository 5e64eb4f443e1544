//! Reloading the upstream file by its content: the file is read on every
//! round and built anew only when its hash differs from that of the last
//! successful build.

use vstd::prelude::*;
use crate::reload::{fnv1a64, fnv1a_fold, HashWatch, FNV_OFFSET};
use crate::upstream::manager::UpstreamManager;
use crate::upstream::router::UpstreamRouter;

verus! {

pub struct UpstreamHotReload {
    pub watch: HashWatch,
}

impl UpstreamHotReload {
    pub fn new() -> (r: Self)
        ensures
            r.watch.last_hash is None,
    {
        UpstreamHotReload { watch: HashWatch::new() }
    }

    /// Takes the bytes of the upstream file and gives their hash where the
    /// file is to be built anew: where the hash differs from that of the
    /// last successful build.
    pub fn on_read(&self, bytes: &[u8]) -> (changed: Option<u64>)
        ensures
            changed == (if self.watch.last_hash != Some(fnv1a_fold(FNV_OFFSET, bytes@)) {
                Some(fnv1a_fold(FNV_OFFSET, bytes@))
            } else {
                None
            }),
    {
        let h = fnv1a64(bytes);
        if self.watch.changed(h) {
            Some(h)
        } else {
            None
        }
    }

    /// Takes the outcome of building the file with hash `hash`. A router
    /// is put in force, with the CNAME cache of the router before, and the
    /// hash remembered; after a failure,
    /// given as `None`, everything stays, so that the next
    /// round tries again.
    pub fn on_built(
        &mut self,
        mgr: &mut UpstreamManager,
        hash: u64,
        built: Option<UpstreamRouter>,
    ) -> (swapped: bool)
        ensures
            swapped == built is Some,
            built matches Some(r) ==> final(mgr).router.cache() == old(mgr).router.cache() && final(mgr).router.same_routes(r) && final(self).watch.last_hash == Some(hash),
            built is None ==> final(mgr).router == old(mgr).router && final(self).watch == old(self).watch,
    {
        match built {
            Some(r) => {
                mgr.reload(r);
                self.watch.commit(hash);
                true
            },
            None => false,
        }
    }
}

} // verus!
