//! A policy with its rules compiled.

use vstd::prelude::*;
use crate::policy::protection::compiled::{
    compile_rules, rules_compile, rules_from, tells_of, CompileError, CompiledRule,
};
use crate::policy::types::{PolicyFile, WafConfig};
use crate::text::opt_view;

verus! {

#[derive(Debug)]
pub struct CompiledPolicy {
    pub version: u32,
    pub id: String,
    pub waf: WafConfig,
    /// Evaluated first.
    pub precise: Vec<CompiledRule>,
    /// Evaluated where no precise rule blocks or challenges.
    pub base: Vec<CompiledRule>,
}

/// Whether both rule lists of the policy compile.
pub open spec fn policy_compiles(p: PolicyFile) -> bool {
    rules_compile(p.protections.precise@) && rules_compile(p.protections.base@)
}

/// Whether the error tells of a pattern in a rule of the policy that is
/// refused.
pub open spec fn tells_of_rule(e: CompileError, p: PolicyFile) -> bool {
    ||| exists|i: int|
        0 <= i < p.protections.precise@.len() && tells_of(
            e,
            (#[trigger] p.protections.precise@[i]).match_expr,
        )
    ||| exists|i: int|
        0 <= i < p.protections.base@.len() && tells_of(
            e,
            (#[trigger] p.protections.base@[i]).match_expr,
        )
}

/// Whether `c` is policy `p` compiled.
pub open spec fn policy_from(c: CompiledPolicy, p: PolicyFile) -> bool {
    &&& c.version == p.version
    &&& c.id@ == p.id@
    &&& c.waf.enabled == p.waf.enabled
    &&& opt_view(c.waf.ruleset) == opt_view(p.waf.ruleset)
    &&& rules_from(c.precise@, p.protections.precise@)
    &&& rules_from(c.base@, p.protections.base@)
}

/// Compiles a policy: its version, id and switch are taken over and both
/// rule lists are compiled. Fails exactly when a rule does not compile, and
/// then tells of a pattern that is refused.
pub fn compile_policy(p: &PolicyFile) -> (r: Result<CompiledPolicy, CompileError>)
    ensures
        r is Ok <==> policy_compiles(*p),
        r matches Ok(c) ==> policy_from(c, *p),
        r matches Err(e) ==> tells_of_rule(e, *p),
{
    let precise = match compile_rules(&p.protections.precise) {
        Ok(rs) => rs,
        Err(e) => {
            return Err(e);
        },
    };
    let base = match compile_rules(&p.protections.base) {
        Ok(rs) => rs,
        Err(e) => {
            return Err(e);
        },
    };
    let ruleset = match &p.waf.ruleset {
        Some(s) => Some(s.clone()),
        None => None,
    };
    Ok(
        CompiledPolicy {
            version: p.version,
            id: p.id.clone(),
            waf: WafConfig { enabled: p.waf.enabled, ruleset },
            precise,
            base,
        },
    )
}

} // verus!
