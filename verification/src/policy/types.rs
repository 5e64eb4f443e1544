//! A policy as its file states it.

use vstd::prelude::*;
use crate::policy::protection::types::ProtectionsSpec;

verus! {

/// A named, versioned bundle of rules with a switch for the header/body
/// rule engine.
#[derive(Debug)]
pub struct PolicyFile {
    pub version: u32,
    pub id: String,
    pub protections: ProtectionsSpec,
    pub waf: WafConfig,
}

#[derive(Debug, Clone)]
pub struct WafConfig {
    /// Whether requests that the policy's own rules let pass go on to the
    /// header/body rule engine.
    pub enabled: bool,
    pub ruleset: Option<String>,
}

impl Default for WafConfig {
    fn default() -> (r: Self)
        ensures
            !r.enabled,
            r.ruleset is None,
    {
        WafConfig { enabled: false, ruleset: None }
    }
}

} // verus!
