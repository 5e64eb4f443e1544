//! Rules as a policy file states them, before they are compiled.

use vstd::prelude::*;

verus! {

/// The two rule lists of a policy. The precise rules are evaluated before
/// the base rules.
#[derive(Debug)]
pub struct ProtectionsSpec {
    pub precise: Vec<RuleSpec>,
    pub base: Vec<RuleSpec>,
}

#[derive(Debug)]
pub struct RuleSpec {
    pub id: String,
    pub match_expr: MatchExpr,
    pub action: ActionSpec,
}

/// A condition on a request.
#[derive(Debug)]
pub enum MatchExpr {
    Any,
    PathPrefix { path_prefix: String },
    MethodIn { method_in: Vec<String> },
    HostIn { host_in: Vec<String> },
    HeaderExists { header_exists: String },
    HeaderEquals { header_equals: HeaderEq },
    HeaderRegex { header_regex: HeaderRegex },
    And { and: Vec<MatchExpr> },
    Or { or: Vec<MatchExpr> },
    Not { not: Box<MatchExpr> },
}

#[derive(Debug, Clone)]
pub struct HeaderEq {
    pub name: String,
    pub value: String,
}

#[derive(Debug, Clone)]
pub struct HeaderRegex {
    pub name: String,
    pub pattern: String,
}

/// What a rule does with a request that its condition holds of.
#[derive(Debug, Clone)]
pub enum ActionSpec {
    Allow { allow: AllowSpec },
    Log { log: LogSpec },
    Block { block: BlockSpec },
    Challenge { challenge: BlockSpec },
    Cc { cc: CcSpec },
}

#[derive(Debug, Clone)]
pub struct AllowSpec {
    pub reason: Option<String>,
}

#[derive(Debug, Clone)]
pub struct LogSpec {
    pub reason: String,
}

#[derive(Debug, Clone)]
pub struct BlockSpec {
    pub status: u16,
    pub reason: String,
}

/// A rate limit: the parts of the key to count under, the limits, and what
/// to do with a request over the limit.
#[derive(Debug, Clone)]
pub struct CcSpec {
    pub key_parts: Vec<String>,
    pub window_secs: u64,
    pub max_requests: u64,
    pub block_secs: u64,
    pub on_limit: OnLimitActionSpec,
}

/// The actions that a rate limit may take.
#[derive(Debug, Clone)]
pub enum OnLimitActionSpec {
    Log { log: LogSpec },
    Block { block: BlockSpec },
    Challenge { challenge: BlockSpec },
}

impl Default for ProtectionsSpec {
    fn default() -> (r: Self)
        ensures
            r.precise@.len() == 0,
            r.base@.len() == 0,
    {
        ProtectionsSpec { precise: Vec::new(), base: Vec::new() }
    }
}

impl Default for MatchExpr {
    fn default() -> (r: Self)
        ensures
            r is Any,
    {
        MatchExpr::Any
    }
}

impl Default for AllowSpec {
    fn default() -> (r: Self)
        ensures
            r.reason is None,
    {
        AllowSpec { reason: None }
    }
}

} // verus!
