//! Rules as a document states them, where the key that is present tells
//! the kind of a condition or of an action. A condition or an action with
//! more than one key is refused.

use vstd::prelude::*;
use crate::policy::protection::types::{
    ActionSpec, AllowSpec, BlockSpec, CcSpec, HeaderEq, HeaderRegex, LogSpec, MatchExpr,
    OnLimitActionSpec, RuleSpec,
};

verus! {

/// A condition as a mapping: each kind of condition under its own key.
/// No key at all stands for the condition that holds of every request.
pub struct MatchDoc {
    pub path_prefix: Option<String>,
    pub method_in: Option<Vec<String>>,
    pub host_in: Option<Vec<String>>,
    pub header_exists: Option<String>,
    pub header_equals: Option<HeaderEq>,
    pub header_regex: Option<HeaderRegex>,
    pub and: Option<Vec<MatchDoc>>,
    pub or: Option<Vec<MatchDoc>>,
    pub not: Option<Box<MatchDoc>>,
}

/// The action of a rate limit as a mapping.
pub struct OnLimitDoc {
    pub log: Option<LogSpec>,
    pub block: Option<BlockSpec>,
    pub challenge: Option<BlockSpec>,
}

/// A rate limit as a mapping.
pub struct CcDoc {
    pub key_parts: Vec<String>,
    pub window_secs: u64,
    pub max_requests: u64,
    pub block_secs: u64,
    pub on_limit: OnLimitDoc,
}

/// An action as a mapping: each kind of action under its own key.
pub struct ActionDoc {
    pub allow: Option<AllowSpec>,
    pub log: Option<LogSpec>,
    pub block: Option<BlockSpec>,
    pub challenge: Option<BlockSpec>,
    pub cc: Option<CcDoc>,
}

/// A rule as a mapping. A rule without a condition holds of every request.
pub struct RuleDoc {
    pub id: String,
    pub match_expr: Option<MatchDoc>,
    pub action: ActionDoc,
}

/// Why a document is no rule.
#[derive(Debug, Clone, Copy, PartialEq, Eq, Structural)]
pub enum DocError {
    /// A condition has more than one key.
    AmbiguousMatch,
    /// An action has more than one key.
    AmbiguousAction,
    /// An action has no key.
    MissingAction,
    /// The action of a rate limit has more than one key.
    AmbiguousOnLimit,
    /// The action of a rate limit has no key.
    MissingOnLimit,
}

impl DocError {
    /// The error in words.
    pub fn message(&self) -> (m: &'static str)
        ensures
            *self == DocError::AmbiguousMatch ==> m@ == "match has more than one key"@,
            *self == DocError::AmbiguousAction ==> m@ == "action has more than one key"@,
            *self == DocError::MissingAction ==> m@ == "action has no key"@,
            *self == DocError::AmbiguousOnLimit ==> m@ == "on_limit has more than one key"@,
            *self == DocError::MissingOnLimit ==> m@ == "on_limit has no key"@,
    {
        match self {
            DocError::AmbiguousMatch => "match has more than one key",
            DocError::AmbiguousAction => "action has more than one key",
            DocError::MissingAction => "action has no key",
            DocError::AmbiguousOnLimit => "on_limit has more than one key",
            DocError::MissingOnLimit => "on_limit has no key",
        }
    }
}

pub open spec fn one(present: bool) -> nat {
    if present {
        1
    } else {
        0
    }
}

impl MatchDoc {
    /// How many keys the mapping has.
    pub open spec fn keys(&self) -> nat {
        one(self.path_prefix is Some) + one(self.method_in is Some) + one(self.host_in is Some)
            + one(self.header_exists is Some) + one(self.header_equals is Some) + one(
            self.header_regex is Some,
        ) + one(self.and is Some) + one(self.or is Some) + one(self.not is Some)
    }

    /// Whether the mapping and every mapping inside it has at most one
    /// key.
    pub open spec fn unambiguous(&self) -> bool
        decreases self,
    {
        &&& self.keys() <= 1
        &&& self.and matches Some(xs) ==> forall|i: int|
            0 <= i < xs.len() ==> (#[trigger] xs[i]).unambiguous()
        &&& self.or matches Some(xs) ==> forall|i: int|
            0 <= i < xs.len() ==> (#[trigger] xs[i]).unambiguous()
        &&& self.not matches Some(x) ==> x.unambiguous()
    }
}

/// Whether `e` is the condition that the mapping `d` states.
pub open spec fn reads_as(e: MatchExpr, d: MatchDoc) -> bool
    decreases d,
{
    if d.path_prefix is Some {
        e == (MatchExpr::PathPrefix { path_prefix: d.path_prefix.unwrap() })
    } else if d.method_in is Some {
        e == (MatchExpr::MethodIn { method_in: d.method_in.unwrap() })
    } else if d.host_in is Some {
        e == (MatchExpr::HostIn { host_in: d.host_in.unwrap() })
    } else if d.header_exists is Some {
        e == (MatchExpr::HeaderExists { header_exists: d.header_exists.unwrap() })
    } else if d.header_equals is Some {
        e == (MatchExpr::HeaderEquals { header_equals: d.header_equals.unwrap() })
    } else if d.header_regex is Some {
        e == (MatchExpr::HeaderRegex { header_regex: d.header_regex.unwrap() })
    } else if d.and is Some {
        e matches MatchExpr::And { and } && and.len() == d.and.unwrap().len() && forall|i: int|
            0 <= i < and.len() ==> reads_as(and[i], #[trigger] d.and.unwrap()[i])
    } else if d.or is Some {
        e matches MatchExpr::Or { or } && or.len() == d.or.unwrap().len() && forall|i: int|
            0 <= i < or.len() ==> reads_as(or[i], #[trigger] d.or.unwrap()[i])
    } else if d.not is Some {
        e matches MatchExpr::Not { not } && reads_as(*not, *d.not.unwrap())
    } else {
        e is Any
    }
}

impl OnLimitDoc {
    pub open spec fn keys(&self) -> nat {
        one(self.log is Some) + one(self.block is Some) + one(self.challenge is Some)
    }

    /// The action that the mapping states, given that it has one key.
    pub open spec fn action(&self) -> OnLimitActionSpec {
        if self.log is Some {
            OnLimitActionSpec::Log { log: self.log.unwrap() }
        } else if self.block is Some {
            OnLimitActionSpec::Block { block: self.block.unwrap() }
        } else {
            OnLimitActionSpec::Challenge { challenge: self.challenge.unwrap() }
        }
    }

    /// Reads the action of a rate limit: the one whose key is present.
    pub fn read(self) -> (r: Result<OnLimitActionSpec, DocError>)
        ensures
            self.keys() == 1 ==> r == Ok::<OnLimitActionSpec, DocError>(self.action()),
            self.keys() == 0 ==> r == Err::<OnLimitActionSpec, DocError>(DocError::MissingOnLimit),
            self.keys() > 1 ==> r == Err::<OnLimitActionSpec, DocError>(DocError::AmbiguousOnLimit),
    {
        let n: u8 = flag(self.log.is_some()) + flag(self.block.is_some()) + flag(
            self.challenge.is_some(),
        );
        if n == 0 {
            return Err(DocError::MissingOnLimit);
        }
        if n > 1 {
            return Err(DocError::AmbiguousOnLimit);
        }
        if let Some(log) = self.log {
            Ok(OnLimitActionSpec::Log { log })
        } else if let Some(block) = self.block {
            Ok(OnLimitActionSpec::Block { block })
        } else if let Some(challenge) = self.challenge {
            Ok(OnLimitActionSpec::Challenge { challenge })
        } else {
            Err(DocError::MissingOnLimit)
        }
    }
}

impl ActionDoc {
    pub open spec fn keys(&self) -> nat {
        one(self.allow is Some) + one(self.log is Some) + one(self.block is Some) + one(
            self.challenge is Some,
        ) + one(self.cc is Some)
    }

    /// What reading the mapping gives: the action whose key is present,
    /// where there is exactly one and, for a rate limit, its own action
    /// has exactly one key too.
    pub open spec fn reading(&self) -> Result<ActionSpec, DocError> {
        if self.keys() == 0 {
            Err(DocError::MissingAction)
        } else if self.keys() > 1 {
            Err(DocError::AmbiguousAction)
        } else if self.allow is Some {
            Ok(ActionSpec::Allow { allow: self.allow.unwrap() })
        } else if self.log is Some {
            Ok(ActionSpec::Log { log: self.log.unwrap() })
        } else if self.block is Some {
            Ok(ActionSpec::Block { block: self.block.unwrap() })
        } else if self.challenge is Some {
            Ok(ActionSpec::Challenge { challenge: self.challenge.unwrap() })
        } else {
            let cc = self.cc.unwrap();
            if cc.on_limit.keys() == 0 {
                Err(DocError::MissingOnLimit)
            } else if cc.on_limit.keys() > 1 {
                Err(DocError::AmbiguousOnLimit)
            } else {
                Ok(
                    ActionSpec::Cc {
                        cc: CcSpec {
                            key_parts: cc.key_parts,
                            window_secs: cc.window_secs,
                            max_requests: cc.max_requests,
                            block_secs: cc.block_secs,
                            on_limit: cc.on_limit.action(),
                        },
                    },
                )
            }
        }
    }

    /// Reads an action.
    pub fn read(self) -> (r: Result<ActionSpec, DocError>)
        ensures
            r == self.reading(),
    {
        let n: u8 = flag(self.allow.is_some()) + flag(self.log.is_some()) + flag(
            self.block.is_some(),
        ) + flag(self.challenge.is_some()) + flag(self.cc.is_some());
        if n == 0 {
            return Err(DocError::MissingAction);
        }
        if n > 1 {
            return Err(DocError::AmbiguousAction);
        }
        if let Some(allow) = self.allow {
            Ok(ActionSpec::Allow { allow })
        } else if let Some(log) = self.log {
            Ok(ActionSpec::Log { log })
        } else if let Some(block) = self.block {
            Ok(ActionSpec::Block { block })
        } else if let Some(challenge) = self.challenge {
            Ok(ActionSpec::Challenge { challenge })
        } else if let Some(cc) = self.cc {
            match cc.on_limit.read() {
                Ok(on_limit) => Ok(
                    ActionSpec::Cc {
                        cc: CcSpec {
                            key_parts: cc.key_parts,
                            window_secs: cc.window_secs,
                            max_requests: cc.max_requests,
                            block_secs: cc.block_secs,
                            on_limit,
                        },
                    },
                ),
                Err(e) => Err(e),
            }
        } else {
            Err(DocError::MissingAction)
        }
    }
}

fn flag(present: bool) -> (n: u8)
    ensures
        n == one(present),
{
    if present {
        1
    } else {
        0
    }
}

fn count_keys(doc: &MatchDoc) -> (n: u8)
    ensures
        n == doc.keys(),
{
    flag(doc.path_prefix.is_some()) + flag(doc.method_in.is_some()) + flag(doc.host_in.is_some())
        + flag(doc.header_exists.is_some()) + flag(doc.header_equals.is_some()) + flag(
        doc.header_regex.is_some(),
    ) + flag(doc.and.is_some()) + flag(doc.or.is_some()) + flag(doc.not.is_some())
}

/// Reads the conditions of a list, stopping at the first that is
/// ambiguous.
fn read_matches(docs: Vec<MatchDoc>) -> (r: Result<Vec<MatchExpr>, DocError>)
    ensures
        r is Ok <==> forall|i: int| 0 <= i < docs.len() ==> (#[trigger] docs[i]).unambiguous(),
        r matches Ok(xs) ==> xs.len() == docs.len() && forall|i: int|
            0 <= i < xs.len() ==> reads_as(xs[i], #[trigger] docs[i]),
        r matches Err(e) ==> e == DocError::AmbiguousMatch,
    decreases docs, 0nat,
{
    let mut out: Vec<MatchExpr> = Vec::new();
    let ghost all = docs@;
    for d in it: docs
        invariant
            it.seq() == all,
            all == docs@,
            out.len() == it.index(),
            forall|j: int| 0 <= j < it.index() ==> (#[trigger] all[j]).unambiguous(),
            forall|j: int| 0 <= j < it.index() ==> reads_as(out[j], #[trigger] all[j]),
    {
        assert(d == all[it.index()]);
        match read_match(d) {
            Ok(e) => {
                out.push(e);
            },
            Err(e) => {
                return Err(e);
            },
        }
    }
    Ok(out)
}

/// Reads a condition: the one whose key is present, or the condition that
/// holds of every request where there is no key. It fails exactly when the
/// mapping, or a mapping inside it, has more than one key.
pub fn read_match(doc: MatchDoc) -> (r: Result<MatchExpr, DocError>)
    ensures
        r is Ok <==> doc.unambiguous(),
        r matches Ok(e) ==> reads_as(e, doc),
        r matches Err(e) ==> e == DocError::AmbiguousMatch,
    decreases doc, 1nat,
{
    let n = count_keys(&doc);
    if n > 1 {
        return Err(DocError::AmbiguousMatch);
    }
    if let Some(path_prefix) = doc.path_prefix {
        Ok(MatchExpr::PathPrefix { path_prefix })
    } else if let Some(method_in) = doc.method_in {
        Ok(MatchExpr::MethodIn { method_in })
    } else if let Some(host_in) = doc.host_in {
        Ok(MatchExpr::HostIn { host_in })
    } else if let Some(header_exists) = doc.header_exists {
        Ok(MatchExpr::HeaderExists { header_exists })
    } else if let Some(header_equals) = doc.header_equals {
        Ok(MatchExpr::HeaderEquals { header_equals })
    } else if let Some(header_regex) = doc.header_regex {
        Ok(MatchExpr::HeaderRegex { header_regex })
    } else if let Some(xs) = doc.and {
        match read_matches(xs) {
            Ok(and) => Ok(MatchExpr::And { and }),
            Err(e) => Err(e),
        }
    } else if let Some(xs) = doc.or {
        match read_matches(xs) {
            Ok(or) => Ok(MatchExpr::Or { or }),
            Err(e) => Err(e),
        }
    } else if let Some(x) = doc.not {
        match read_match(*x) {
            Ok(e) => Ok(MatchExpr::Not { not: Box::new(e) }),
            Err(e) => Err(e),
        }
    } else {
        Ok(MatchExpr::Any)
    }
}

/// Reads a rule: its condition first, then its action.
pub fn read_rule(doc: RuleDoc) -> (r: Result<RuleSpec, DocError>)
    ensures
        ({
            let plain = match doc.match_expr {
                Some(m) => m.unambiguous(),
                None => true,
            };
            &&& r is Ok <==> plain && doc.action.reading() is Ok
            &&& r matches Ok(rule) ==> ({
                &&& rule.id == doc.id
                &&& Ok::<ActionSpec, DocError>(rule.action) == doc.action.reading()
                &&& match doc.match_expr {
                    Some(m) => reads_as(rule.match_expr, m),
                    None => rule.match_expr is Any,
                }
            })
            &&& r matches Err(e) ==> (if plain {
                Err::<ActionSpec, DocError>(e) == doc.action.reading()
            } else {
                e == DocError::AmbiguousMatch
            })
        }),
{
    let match_expr = match doc.match_expr {
        Some(m) => match read_match(m) {
            Ok(e) => e,
            Err(e) => {
                return Err(e);
            },
        },
        None => MatchExpr::Any,
    };
    match doc.action.read() {
        Ok(action) => Ok(RuleSpec { id: doc.id, match_expr, action }),
        Err(e) => Err(e),
    }
}

} // verus!
