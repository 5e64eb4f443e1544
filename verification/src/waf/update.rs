//! The supervisor of the rules file.

use vstd::prelude::*;
use crate::reload::MtimeWatch;
use crate::waf::engine::WafEngine;
use crate::waf::rules::compiler::CompiledRuleset;

verus! {

/// Watches the rules file by its modification time.
pub struct RuleUpdater {
    pub interval_secs: u64,
    pub watch: MtimeWatch,
}

impl RuleUpdater {
    pub fn new(interval_secs: u64) -> (u: Self)
        ensures
            u.interval_secs == interval_secs,
            u.watch.last_mtime is None,
    {
        RuleUpdater { interval_secs, watch: MtimeWatch::new() }
    }

    /// Takes the modification time of the rules file, or `None` where it
    /// could not be had, and says whether to compile the file anew: when
    /// the time is known and strictly newer than the last one seen.
    pub fn on_tick(&mut self, mtime: Option<u128>) -> (reload: bool)
        ensures
            reload == (mtime is Some && (old(self).watch.last_mtime is None || old(self).watch.last_mtime.unwrap() < mtime.unwrap())),
            final(self).watch.last_mtime == (if reload {
                mtime
            } else {
                old(self).watch.last_mtime
            }),
            final(self).interval_secs == old(self).interval_secs,
    {
        match mtime {
            Some(t) => self.watch.observe(t),
            None => false,
        }
    }

    /// Puts a freshly compiled ruleset in force; after a failure,
    /// given as `None`, the ruleset before stays. Returns whether a new ruleset is in force.
    pub fn on_loaded(&self, engine: &mut WafEngine, compiled: Option<CompiledRuleset>) -> (swapped:
        bool)
        ensures
            swapped == compiled is Some,
            compiled matches Some(rs) ==> final(engine).rules() == rs.rules@,
            compiled is None ==> *final(engine) == *old(engine),
    {
        match compiled {
            Some(rs) => {
                engine.swap_rules(rs);
                true
            },
            None => false,
        }
    }
}

} // verus!
