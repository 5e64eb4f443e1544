//! Rules in the form in which they are evaluated, and how they are made
//! from the rules of a policy file.

use vstd::prelude::*;
use regex::Regex;
use crate::policy::protection::types::{
    ActionSpec, MatchExpr, OnLimitActionSpec, RuleSpec,
};
use crate::text::{clone_strings, lower, opt_view, to_lower, views};
use crate::waf::rules::matcher::{compile_regex, regex_compiles, regex_refusal, regex_source};

verus! {

/// A rule ready for evaluation.
#[derive(Debug)]
pub struct CompiledRule {
    pub id: String,
    pub matcher: CompiledMatchExpr,
    pub action: CompiledAction,
}

/// A condition on a request, with header names in lower case and regular
/// expressions compiled.
#[derive(Debug)]
pub enum CompiledMatchExpr {
    Any,
    PathPrefix(String),
    MethodIn(Vec<String>),
    HostIn(Vec<String>),
    HeaderExists(String),
    HeaderEquals { name: String, value: String },
    HeaderRegex { name: String, re: Regex },
    And(Vec<CompiledMatchExpr>),
    Or(Vec<CompiledMatchExpr>),
    Not(Box<CompiledMatchExpr>),
}

/// What a rule does. The `on_limit` of a `Cc` made by `compile_action` is
/// a `Log`, a `Block` or a `Challenge`.
#[derive(Debug)]
#[allow(inconsistent_fields)]
pub enum CompiledAction {
    Allow { reason: Option<String> },
    Log { reason: String },
    Block { status: u16, reason: String },
    Challenge { status: u16, reason: String },
    Cc {
        key_parts: Vec<String>,
        window_secs: u64,
        max_requests: u64,
        block_secs: u64,
        on_limit: Box<CompiledAction>,
    },
}

/// Why a rule could not be compiled.
#[derive(Debug, Clone)]
pub enum CompileError {
    /// The pattern of a `header_regex` condition is no regular expression.
    BadHeaderRegex { name: String, detail: String },
}

impl CompileError {
    /// The error in words.
    pub fn message(&self) -> (m: String)
        ensures
            (self matches CompileError::BadHeaderRegex { name, detail } ==> m@
                == "bad header_regex pattern for "@ + name@ + ": "@ + detail@),
    {
        match self {
            CompileError::BadHeaderRegex { name, detail } => {
                let mut m = "bad header_regex pattern for ".to_owned();
                m.append(name.as_str());
                m.append(": ");
                m.append(detail.as_str());
                m
            },
        }
    }
}

impl CompiledAction {
    /// A rate limit's `on_limit` is a `Log`, a `Block` or a `Challenge`.
    pub open spec fn well_formed(&self) -> bool {
        self matches CompiledAction::Cc { on_limit, .. } ==> (**on_limit is Log || **on_limit is Block
            || **on_limit is Challenge)
    }
}

impl MatchExpr {
    /// Whether every regular expression in the condition compiles.
    pub open spec fn compiles(&self) -> bool
        decreases self,
    {
        match self {
            MatchExpr::HeaderRegex { header_regex } => regex_compiles(header_regex.pattern@),
            MatchExpr::And { and } => forall|i: int| 0 <= i < and.len() ==> (#[trigger] and[i]).compiles(),
            MatchExpr::Or { or } => forall|i: int| 0 <= i < or.len() ==> (#[trigger] or[i]).compiles(),
            MatchExpr::Not { not } => not.compiles(),
            _ => true,
        }
    }
}

/// Whether the condition has a `header_regex` for header `name` whose
/// pattern is refused with the words `detail`.
pub open spec fn refused_in(m: MatchExpr, name: Seq<char>, detail: Seq<char>) -> bool
    decreases m,
{
    match m {
        MatchExpr::HeaderRegex { header_regex } => header_regex.name@ == name && regex_refusal(
            header_regex.pattern@,
        ) == Some(detail),
        MatchExpr::And { and } => exists|i: int|
            0 <= i < and.len() && refused_in(#[trigger] and[i], name, detail),
        MatchExpr::Or { or } => exists|i: int|
            0 <= i < or.len() && refused_in(#[trigger] or[i], name, detail),
        MatchExpr::Not { not } => refused_in(*not, name, detail),
        _ => false,
    }
}

/// Whether the error tells of a pattern in `m` that is refused.
pub open spec fn tells_of(e: CompileError, m: MatchExpr) -> bool {
    match e {
        CompileError::BadHeaderRegex { name, detail } => refused_in(m, name@, detail@),
    }
}

/// Whether `c` is `m` compiled: the same condition, with header names in
/// lower case and each pattern as a compiled regular expression.
pub open spec fn compiled_from(c: CompiledMatchExpr, m: MatchExpr) -> bool
    decreases m,
{
    match m {
        MatchExpr::Any => c is Any,
        MatchExpr::PathPrefix { path_prefix } => c matches CompiledMatchExpr::PathPrefix(p) && p@
            == path_prefix@,
        MatchExpr::MethodIn { method_in } => c matches CompiledMatchExpr::MethodIn(ms) && views(ms@)
            == views(method_in@),
        MatchExpr::HostIn { host_in } => c matches CompiledMatchExpr::HostIn(hs) && views(hs@)
            == views(host_in@),
        MatchExpr::HeaderExists { header_exists } => c matches CompiledMatchExpr::HeaderExists(n)
            && n@ == lower(header_exists@),
        MatchExpr::HeaderEquals { header_equals } => c matches CompiledMatchExpr::HeaderEquals {
            name,
            value,
        } && name@ == lower(header_equals.name@) && value@ == header_equals.value@,
        MatchExpr::HeaderRegex { header_regex } => c matches CompiledMatchExpr::HeaderRegex {
            name,
            re,
        } && name@ == lower(header_regex.name@) && regex_source(re) == header_regex.pattern@,
        MatchExpr::And { and } => c matches CompiledMatchExpr::And(xs) && xs.len() == and.len()
            && forall|i: int| 0 <= i < and.len() ==> compiled_from(xs[i], #[trigger] and[i]),
        MatchExpr::Or { or } => c matches CompiledMatchExpr::Or(xs) && xs.len() == or.len()
            && forall|i: int| 0 <= i < or.len() ==> compiled_from(xs[i], #[trigger] or[i]),
        MatchExpr::Not { not } => c matches CompiledMatchExpr::Not(x) && compiled_from(*x, *not),
    }
}

/// Whether `c` is action `a` compiled: the same action, field by field.
pub open spec fn action_from(c: CompiledAction, a: ActionSpec) -> bool {
    match a {
        ActionSpec::Allow { allow } => c matches CompiledAction::Allow { reason } && opt_view(reason)
            == opt_view(allow.reason),
        ActionSpec::Log { log } => c matches CompiledAction::Log { reason } && reason@ == log.reason@,
        ActionSpec::Block { block } => c matches CompiledAction::Block { status, reason } && status
            == block.status && reason@ == block.reason@,
        ActionSpec::Challenge { challenge } => c matches CompiledAction::Challenge { status, reason }
            && status == challenge.status && reason@ == challenge.reason@,
        ActionSpec::Cc { cc } => c matches CompiledAction::Cc {
            key_parts,
            window_secs,
            max_requests,
            block_secs,
            on_limit,
        } && views(key_parts@) == views(cc.key_parts@) && window_secs == cc.window_secs
            && max_requests == cc.max_requests && block_secs == cc.block_secs && on_limit_from(
            *on_limit,
            cc.on_limit,
        ),
    }
}

pub open spec fn on_limit_from(c: CompiledAction, a: OnLimitActionSpec) -> bool {
    match a {
        OnLimitActionSpec::Log { log } => c matches CompiledAction::Log { reason } && reason@
            == log.reason@,
        OnLimitActionSpec::Block { block } => c matches CompiledAction::Block { status, reason }
            && status == block.status && reason@ == block.reason@,
        OnLimitActionSpec::Challenge { challenge } => c matches CompiledAction::Challenge {
            status,
            reason,
        } && status == challenge.status && reason@ == challenge.reason@,
    }
}

/// Whether `c` is rule `r` compiled.
pub open spec fn rule_from(c: CompiledRule, r: RuleSpec) -> bool {
    &&& c.id@ == r.id@
    &&& compiled_from(c.matcher, r.match_expr)
    &&& action_from(c.action, r.action)
    &&& c.action.well_formed()
}

/// Whether `cs` is the rule list `rs` compiled, rule by rule in order.
pub open spec fn rules_from(cs: Seq<CompiledRule>, rs: Seq<RuleSpec>) -> bool {
    &&& cs.len() == rs.len()
    &&& forall|i: int| 0 <= i < rs.len() ==> rule_from(cs[i], #[trigger] rs[i])
}

/// Whether every rule of the list compiles.
pub open spec fn rules_compile(rs: Seq<RuleSpec>) -> bool {
    forall|i: int| 0 <= i < rs.len() ==> (#[trigger] rs[i]).match_expr.compiles()
}

/// Compiles the conditions `ms[..]`, stopping at the first that does not
/// compile.
fn compile_matches(ms: &Vec<MatchExpr>) -> (r: Result<Vec<CompiledMatchExpr>, CompileError>)
    ensures
        r is Ok <==> forall|i: int| 0 <= i < ms.len() ==> (#[trigger] ms[i]).compiles(),
        r matches Ok(xs) ==> xs.len() == ms.len() && forall|i: int|
            0 <= i < ms.len() ==> compiled_from(xs[i], #[trigger] ms[i]),
        r matches Err(e) ==> exists|i: int| 0 <= i < ms.len() && tells_of(e, #[trigger] ms[i]),
    decreases ms, 0nat,
{
    let mut xs: Vec<CompiledMatchExpr> = Vec::new();
    let mut i: usize = 0;
    while i < ms.len()
        invariant
            0 <= i <= ms.len(),
            xs.len() == i,
            forall|j: int| 0 <= j < i ==> (#[trigger] ms[j]).compiles(),
            forall|j: int| 0 <= j < i ==> compiled_from(xs[j], #[trigger] ms[j]),
        decreases ms.len() - i,
    {
        match compile_match(&ms[i]) {
            Ok(x) => {
                xs.push(x);
            },
            Err(e) => {
                assert(!ms[i as int].compiles());
                assert(tells_of(e, ms[i as int]));
                return Err(e);
            },
        }
        i += 1;
    }
    Ok(xs)
}

/// Compiles a condition: header names are put in lower case and patterns
/// are compiled. Fails exactly when a pattern in it does not compile, and
/// then tells of a pattern that is refused, with the header it is for and
/// the words of the refusal.
pub fn compile_match(m: &MatchExpr) -> (r: Result<CompiledMatchExpr, CompileError>)
    ensures
        r is Ok <==> m.compiles(),
        r matches Ok(c) ==> compiled_from(c, *m),
        r matches Err(e) ==> tells_of(e, *m),
    decreases m, 1nat,
{
    match m {
        MatchExpr::Any => Ok(CompiledMatchExpr::Any),
        MatchExpr::PathPrefix { path_prefix } => Ok(CompiledMatchExpr::PathPrefix(path_prefix.clone())),
        MatchExpr::MethodIn { method_in } => Ok(CompiledMatchExpr::MethodIn(clone_strings(method_in))),
        MatchExpr::HostIn { host_in } => Ok(CompiledMatchExpr::HostIn(clone_strings(host_in))),
        MatchExpr::HeaderExists { header_exists } => Ok(
            CompiledMatchExpr::HeaderExists(to_lower(header_exists.as_str())),
        ),
        MatchExpr::HeaderEquals { header_equals } => Ok(
            CompiledMatchExpr::HeaderEquals {
                name: to_lower(header_equals.name.as_str()),
                value: header_equals.value.clone(),
            },
        ),
        MatchExpr::HeaderRegex { header_regex } => {
            match compile_regex(header_regex.pattern.as_str()) {
                Ok(re) => Ok(
                    CompiledMatchExpr::HeaderRegex { name: to_lower(header_regex.name.as_str()), re },
                ),
                Err(detail) => Err(
                    CompileError::BadHeaderRegex { name: header_regex.name.clone(), detail },
                ),
            }
        },
        MatchExpr::And { and } => {
            match compile_matches(and) {
                Ok(xs) => Ok(CompiledMatchExpr::And(xs)),
                Err(e) => Err(e),
            }
        },
        MatchExpr::Or { or } => {
            match compile_matches(or) {
                Ok(xs) => Ok(CompiledMatchExpr::Or(xs)),
                Err(e) => Err(e),
            }
        },
        MatchExpr::Not { not } => {
            match compile_match(not) {
                Ok(x) => Ok(CompiledMatchExpr::Not(Box::new(x))),
                Err(e) => Err(e),
            }
        },
    }
}

/// Compiles an action. The action of a rate limit is one of `Log`, `Block`
/// and `Challenge`.
pub fn compile_action(a: &ActionSpec) -> (c: CompiledAction)
    ensures
        action_from(c, *a),
        c.well_formed(),
{
    match a {
        ActionSpec::Allow { allow } => {
            let reason = match &allow.reason {
                Some(r) => Some(r.clone()),
                None => None,
            };
            CompiledAction::Allow { reason }
        },
        ActionSpec::Log { log } => CompiledAction::Log { reason: log.reason.clone() },
        ActionSpec::Block { block } => CompiledAction::Block {
            status: block.status,
            reason: block.reason.clone(),
        },
        ActionSpec::Challenge { challenge } => CompiledAction::Challenge {
            status: challenge.status,
            reason: challenge.reason.clone(),
        },
        ActionSpec::Cc { cc } => {
            let on = match &cc.on_limit {
                OnLimitActionSpec::Log { log } => CompiledAction::Log { reason: log.reason.clone() },
                OnLimitActionSpec::Block { block } => CompiledAction::Block {
                    status: block.status,
                    reason: block.reason.clone(),
                },
                OnLimitActionSpec::Challenge { challenge } => CompiledAction::Challenge {
                    status: challenge.status,
                    reason: challenge.reason.clone(),
                },
            };
            CompiledAction::Cc {
                key_parts: clone_strings(&cc.key_parts),
                window_secs: cc.window_secs,
                max_requests: cc.max_requests,
                block_secs: cc.block_secs,
                on_limit: Box::new(on),
            }
        },
    }
}

/// Compiles a rule list in order. Fails exactly when a condition in it
/// does not compile, and then tells of a pattern that is refused.
pub fn compile_rules(rs: &Vec<RuleSpec>) -> (r: Result<Vec<CompiledRule>, CompileError>)
    ensures
        r is Ok <==> rules_compile(rs@),
        r matches Ok(cs) ==> rules_from(cs@, rs@),
        r matches Err(e) ==> exists|i: int|
            0 <= i < rs.len() && tells_of(e, (#[trigger] rs[i]).match_expr),
{
    let mut out: Vec<CompiledRule> = Vec::new();
    let mut i: usize = 0;
    while i < rs.len()
        invariant
            0 <= i <= rs.len(),
            out.len() == i,
            forall|j: int| 0 <= j < i ==> (#[trigger] rs[j]).match_expr.compiles(),
            forall|j: int| 0 <= j < i ==> rule_from(out[j], #[trigger] rs[j]),
        decreases rs.len() - i,
    {
        let matcher = match compile_match(&rs[i].match_expr) {
            Ok(m) => m,
            Err(e) => {
                assert(!rs[i as int].match_expr.compiles());
                assert(tells_of(e, rs[i as int].match_expr));
                return Err(e);
            },
        };
        let action = compile_action(&rs[i].action);
        out.push(CompiledRule { id: rs[i].id.clone(), matcher, action });
        i += 1;
    }
    Ok(out)
}

} // verus!
