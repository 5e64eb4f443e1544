//! Holds the router in force.

use vstd::prelude::*;
use crate::upstream::router::UpstreamRouter;

verus! {

pub struct UpstreamManager {
    pub router: UpstreamRouter,
}

impl UpstreamManager {
    pub fn new(router: UpstreamRouter) -> (m: Self)
        ensures
            m.router == router,
    {
        UpstreamManager { router }
    }

    /// The router in force.
    pub fn get(&mut self) -> (r: &mut UpstreamRouter)
        ensures
            *r == old(self).router,
            final(self).router == *final(r),
    {
        &mut self.router
    }

    /// Puts `new_router` in force and hands it the CNAME cache of the router
    /// before, so that answers from DNS outlive a reload.
    pub fn reload(&mut self, new_router: UpstreamRouter)
        ensures
            final(self).router.cache() == old(self).router.cache(),
            final(self).router.same_routes(new_router),
    {
        let mut next = new_router;
        next.adopt_cache(&mut self.router);
        self.router = next;
    }

    /// Puts `new_router` in force.
    pub fn swap(&mut self, new_router: UpstreamRouter)
        ensures
            final(self).router == new_router,
    {
        self.router = new_router;
    }
}

} // verus!
