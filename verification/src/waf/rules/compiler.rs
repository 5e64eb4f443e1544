//! Compiles a ruleset: pattern lists become matchers, methods are put in
//! upper case, and the regular expressions are compiled.

use vstd::prelude::*;
use crate::text::{lower, opt_view, to_lower, to_upper, upper};
use crate::waf::rules::matcher::{
    automaton_refusal, compile_regex, pattern_bytes, regex_compiles, regex_refusal, regex_source,
    AcMatcher, HeaderRegexMatcher,
};
use crate::waf::rules::rule::{Action, HeaderRegex, Rule, Ruleset};

verus! {

/// A rule ready for evaluation.
pub struct CompiledRule {
    pub id: String,
    pub action: Action,
    /// The methods the rule is limited to, in upper case.
    pub methods: Option<Vec<String>>,
    pub path_prefix: Option<Vec<String>>,
    /// Patterns looked for in the path.
    pub uri_ac: Option<AcMatcher>,
    /// Patterns looked for in the body as it streams by.
    pub body_ac: Option<AcMatcher>,
    pub _header_regex: Vec<HeaderRegexMatcher>,
}

pub struct CompiledRuleset {
    pub version: Option<String>,
    pub rules: Vec<CompiledRule>,
}

/// Why a ruleset could not be compiled.
#[derive(Debug, Clone)]
pub enum RuleError {
    /// A `header_regex` pattern is no regular expression.
    InvalidRegex { header: String, rule: String, detail: String },
    /// A pattern list is more than a matcher can take.
    PatternSet { rule: String, detail: String },
}

impl RuleError {
    /// The error in words.
    pub fn message(&self) -> (m: String)
        ensures
            (self matches RuleError::InvalidRegex { header, rule, detail } ==> m@
                == "invalid regex for header "@ + header@ + " in rule "@ + rule@ + ": "@ + detail@),
            (self matches RuleError::PatternSet { rule, detail } ==> m@ == "bad pattern set in rule "@
                + rule@ + ": "@ + detail@),
    {
        match self {
            RuleError::InvalidRegex { header, rule, detail } => {
                let mut m = "invalid regex for header ".to_owned();
                m.append(header.as_str());
                m.append(" in rule ");
                m.append(rule.as_str());
                m.append(": ");
                m.append(detail.as_str());
                m
            },
            RuleError::PatternSet { rule, detail } => {
                let mut m = "bad pattern set in rule ".to_owned();
                m.append(rule.as_str());
                m.append(": ");
                m.append(detail.as_str());
                m
            },
        }
    }
}

/// The patterns of an optional matcher.
pub open spec fn patterns_of(m: Option<AcMatcher>) -> Option<Seq<Seq<u8>>> {
    match m {
        Some(m) => Some(m.patterns()),
        None => None,
    }
}

pub open spec fn opt_pattern_bytes(p: Option<Vec<String>>) -> Option<Seq<Seq<u8>>> {
    match p {
        Some(p) => Some(pattern_bytes(p@)),
        None => None,
    }
}

/// An optional list with each string put in upper case.
pub open spec fn opt_upper(v: Option<Vec<String>>) -> Option<Seq<Seq<char>>> {
    match v {
        Some(v) => Some(Seq::new(v@.len(), |i: int| upper(v@[i]@))),
        None => None,
    }
}

pub open spec fn opt_views(v: Option<Vec<String>>) -> Option<Seq<Seq<char>>> {
    match v {
        Some(v) => Some(Seq::new(v@.len(), |i: int| v@[i]@)),
        None => None,
    }
}

/// The header expressions that a rule states.
pub open spec fn stated_regexes(r: Rule) -> Seq<HeaderRegex> {
    match r.when.header_regex {
        Some(v) => v@,
        None => Seq::empty(),
    }
}

/// Whether every header expression of the rule compiles.
pub open spec fn regexes_compile(r: Rule) -> bool {
    forall|i: int|
        0 <= i < stated_regexes(r).len() ==> regex_compiles((#[trigger] stated_regexes(r)[i]).pattern@)
}

/// What is said against building a matcher for a pattern list: nothing
/// where the rule has no such list or a matcher is built for it, else the
/// words of the refusal.
pub open spec fn list_refusal(patterns: Option<Vec<String>>) -> Option<Seq<char>> {
    match patterns {
        Some(p) => automaton_refusal(pattern_bytes(p@)),
        None => None,
    }
}

/// Whether matchers are built for both pattern lists of the rule, as far
/// as it has them.
pub open spec fn lists_build(r: Rule) -> bool {
    list_refusal(r.when.uri_ac) is None && list_refusal(r.when.body_ac) is None
}

/// Whether the rule compiles: matchers are built for its pattern lists
/// and its header expressions compile.
pub open spec fn rule_compiles(r: Rule) -> bool {
    lists_build(r) && regexes_compile(r)
}

/// Whether the error tells of rule `r`: of a header expression of it that
/// is refused, or of a pattern list of it for which no matcher is built,
/// each with the words of the refusal.
pub open spec fn tells_of(e: RuleError, r: Rule) -> bool {
    match e {
        RuleError::InvalidRegex { header, rule, detail } => rule@ == r.id@ && exists|i: int|
            0 <= i < stated_regexes(r).len() && (#[trigger] stated_regexes(r)[i]).name@ == header@
                && regex_refusal(stated_regexes(r)[i].pattern@) == Some(detail@),
        RuleError::PatternSet { rule, detail } => rule@ == r.id@ && (list_refusal(r.when.uri_ac)
            == Some(detail@) || list_refusal(r.when.body_ac) == Some(detail@)),
    }
}

/// Whether `c` is rule `r` compiled.
pub open spec fn compiled_rule_from(c: CompiledRule, r: Rule) -> bool {
    &&& c.id@ == r.id@
    &&& c.action == r.action
    &&& opt_views(c.methods) == opt_upper(r.when.methods)
    &&& opt_views(c.path_prefix) == opt_views(r.when.path_prefix)
    &&& patterns_of(c.uri_ac) == opt_pattern_bytes(r.when.uri_ac)
    &&& patterns_of(c.body_ac) == opt_pattern_bytes(r.when.body_ac)
    &&& c._header_regex@.len() == stated_regexes(r).len()
    &&& forall|i: int|
        0 <= i < stated_regexes(r).len() ==> (#[trigger] c._header_regex@[i])._name@ == lower(
            stated_regexes(r)[i].name@,
        ) && regex_source(c._header_regex@[i].re) == stated_regexes(r)[i].pattern@
}

fn build_matcher(patterns: &Option<Vec<String>>, rule_id: &str) -> (r: Result<
    Option<AcMatcher>,
    RuleError,
>)
    ensures
        r is Ok <==> list_refusal(*patterns) is None,
        r matches Ok(m) ==> patterns_of(m) == opt_pattern_bytes(*patterns),
        (r matches Err(RuleError::PatternSet { rule, detail }) ==> rule@ == rule_id@
            && list_refusal(*patterns) == Some(detail@)),
        r matches Err(e) ==> e is PatternSet,
{
    match patterns {
        Some(p) => match AcMatcher::new(p) {
            Ok(m) => Ok(Some(m)),
            Err(detail) => Err(RuleError::PatternSet { rule: rule_id.to_owned(), detail }),
        },
        None => Ok(None),
    }
}

fn upper_all(v: &Vec<String>) -> (out: Vec<String>)
    ensures
        out@.len() == v@.len(),
        forall|i: int| 0 <= i < v@.len() ==> (#[trigger] out@[i])@ == upper(v@[i]@),
{
    let mut out: Vec<String> = Vec::new();
    let mut i: usize = 0;
    while i < v.len()
        invariant
            0 <= i <= v.len(),
            out@.len() == i,
            forall|j: int| 0 <= j < i ==> (#[trigger] out@[j])@ == upper(v@[j]@),
        decreases v.len() - i,
    {
        out.push(to_upper(v[i].as_str()));
        i += 1;
    }
    out
}

fn copy_all(v: &Vec<String>) -> (out: Vec<String>)
    ensures
        out@.len() == v@.len(),
        forall|i: int| 0 <= i < v@.len() ==> (#[trigger] out@[i])@ == v@[i]@,
{
    let mut out: Vec<String> = Vec::new();
    let mut i: usize = 0;
    while i < v.len()
        invariant
            0 <= i <= v.len(),
            out@.len() == i,
            forall|j: int| 0 <= j < i ==> (#[trigger] out@[j])@ == v@[j]@,
        decreases v.len() - i,
    {
        out.push(v[i].clone());
        i += 1;
    }
    out
}

/// Compiles one rule.
///
/// It succeeds exactly when matchers are built for the rule's pattern
/// lists and its header expressions compile. It fails with `PatternSet`
/// where a pattern list is more than a matcher can take, and with
/// `InvalidRegex` where a header expression does not compile, each naming
/// the rule and the words of the refusal.
pub fn compile_rule(r: &Rule) -> (res: Result<CompiledRule, RuleError>)
    ensures
        res is Ok <==> rule_compiles(*r),
        res matches Ok(c) ==> compiled_rule_from(c, *r),
        res matches Err(e) ==> tells_of(e, *r),
{
    let uri_ac = match build_matcher(&r.when.uri_ac, r.id.as_str()) {
        Ok(m) => m,
        Err(e) => {
            return Err(e);
        },
    };
    let body_ac = match build_matcher(&r.when.body_ac, r.id.as_str()) {
        Ok(m) => m,
        Err(e) => {
            return Err(e);
        },
    };
    let mut header_regex: Vec<HeaderRegexMatcher> = Vec::new();
    if let Some(v) = &r.when.header_regex {
        let mut i: usize = 0;
        while i < v.len()
            invariant
                0 <= i <= v.len(),
                v@ == stated_regexes(*r),
                header_regex@.len() == i,
                forall|j: int| 0 <= j < i ==> regex_compiles((#[trigger] v@[j]).pattern@),
                forall|j: int|
                    0 <= j < i ==> (#[trigger] header_regex@[j])._name@ == lower(v@[j].name@)
                        && regex_source(header_regex@[j].re) == v@[j].pattern@,
            decreases v.len() - i,
        {
            match compile_regex(v[i].pattern.as_str()) {
                Ok(re) => {
                    header_regex.push(
                        HeaderRegexMatcher { _name: to_lower(v[i].name.as_str()), re },
                    );
                },
                Err(detail) => {
                    assert(regex_refusal(stated_regexes(*r)[i as int].pattern@) == Some(detail@));
                    return Err(
                        RuleError::InvalidRegex {
                            header: v[i].name.clone(),
                            rule: r.id.clone(),
                            detail,
                        },
                    );
                },
            }
            i += 1;
        }
    }
    let methods = match &r.when.methods {
        Some(ms) => Some(upper_all(ms)),
        None => None,
    };
    let path_prefix = match &r.when.path_prefix {
        Some(ps) => Some(copy_all(ps)),
        None => None,
    };
    proof {
        assert(opt_views(methods) =~= opt_upper(r.when.methods)) by {
            if let Some(ms) = methods {
                assert(opt_views(methods).unwrap() =~= opt_upper(r.when.methods).unwrap());
            }
        }
        assert(opt_views(path_prefix) =~= opt_views(r.when.path_prefix)) by {
            if let Some(ps) = path_prefix {
                assert(opt_views(path_prefix).unwrap() =~= opt_views(r.when.path_prefix).unwrap());
            }
        }
    }
    Ok(
        CompiledRule {
            id: r.id.clone(),
            action: r.action,
            methods,
            path_prefix,
            uri_ac,
            body_ac,
            _header_regex: header_regex,
        },
    )
}

impl CompiledRuleset {
    /// Compiles the rules in order, stopping at the first that fails. It
    /// succeeds exactly when every rule compiles.
    pub fn compile(rs: &Ruleset) -> (res: Result<Self, RuleError>)
        ensures
            res is Ok <==> forall|i: int|
                0 <= i < rs.rules@.len() ==> rule_compiles(#[trigger] rs.rules@[i]),
            res matches Ok(c) ==> opt_view(c.version) == opt_view(rs.version) && c.rules@.len()
                == rs.rules@.len() && forall|i: int|
                0 <= i < rs.rules@.len() ==> compiled_rule_from(c.rules@[i], #[trigger] rs.rules@[i]),
            res matches Err(e) ==> exists|i: int|
                0 <= i < rs.rules@.len() && tells_of(e, #[trigger] rs.rules@[i]),
    {
        let mut rules: Vec<CompiledRule> = Vec::new();
        let mut i: usize = 0;
        while i < rs.rules.len()
            invariant
                0 <= i <= rs.rules.len(),
                rules@.len() == i,
                forall|j: int| 0 <= j < i ==> rule_compiles(#[trigger] rs.rules@[j]),
                forall|j: int| 0 <= j < i ==> compiled_rule_from(rules@[j], #[trigger] rs.rules@[j]),
            decreases rs.rules.len() - i,
        {
            match compile_rule(&rs.rules[i]) {
                Ok(c) => {
                    rules.push(c);
                },
                Err(e) => {
                    assert(!rule_compiles(rs.rules@[i as int]));
                    assert(tells_of(e, rs.rules@[i as int]));
                    return Err(e);
                },
            }
            i += 1;
        }
        let version = match &rs.version {
            Some(v) => Some(v.clone()),
            None => None,
        };
        Ok(CompiledRuleset { version, rules })
    }
}

} // verus!
