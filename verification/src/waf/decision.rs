//! The outcome of evaluating a request against the rules.

use vstd::prelude::*;

verus! {

/// What to do with a request. `Block` and `Challenge` end the evaluation;
/// `Allow` and `Log` let it go on.
#[derive(Debug, Clone)]
pub enum Decision {
    Allow,
    Log { reason: String, rule_id: String },
    Block { status: u16, reason: String, rule_id: String },
    Challenge { status: u16, reason: String, rule_id: String },
}

/// The status that `Decision::block` and `Decision::challenge` attach.
pub const DEFAULT_STATUS: u16 = 403;

/// A decision reduced to plain values: its kind, status, reason and rule.
pub enum DecisionView {
    Allow,
    Log { reason: Seq<char>, rule_id: Seq<char> },
    Block { status: u16, reason: Seq<char>, rule_id: Seq<char> },
    Challenge { status: u16, reason: Seq<char>, rule_id: Seq<char> },
}

impl DecisionView {
    pub open spec fn is_terminal(self) -> bool {
        self is Block || self is Challenge
    }
}

impl View for Decision {
    type V = DecisionView;

    open spec fn view(&self) -> DecisionView {
        match *self {
            Decision::Allow => DecisionView::Allow,
            Decision::Log { reason, rule_id } => DecisionView::Log {
                reason: reason@,
                rule_id: rule_id@,
            },
            Decision::Block { status, reason, rule_id } => DecisionView::Block {
                status,
                reason: reason@,
                rule_id: rule_id@,
            },
            Decision::Challenge { status, reason, rule_id } => DecisionView::Challenge {
                status,
                reason: reason@,
                rule_id: rule_id@,
            },
        }
    }
}

impl Decision {
    /// A block with the default status.
    pub fn block(rule_id: &str, reason: &str) -> (d: Self)
        ensures
            d@ == (DecisionView::Block { status: 403, reason: reason@, rule_id: rule_id@ }),
    {
        Decision::Block {
            status: DEFAULT_STATUS,
            reason: reason.to_owned(),
            rule_id: rule_id.to_owned(),
        }
    }

    /// Whether the decision ends the evaluation of a request.
    pub fn is_terminal(&self) -> (r: bool)
        ensures
            r == self@.is_terminal(),
            r == (self is Block || self is Challenge),
    {
        match self {
            Decision::Block { .. } => true,
            Decision::Challenge { .. } => true,
            _ => false,
        }
    }

    /// The lower-case name of the decision's kind.
    pub fn kind_str(&self) -> (r: &'static str)
        ensures
            self is Allow ==> r@ == "allow"@,
            self is Log ==> r@ == "log"@,
            self is Block ==> r@ == "block"@,
            self is Challenge ==> r@ == "challenge"@,
    {
        match self {
            Decision::Allow => "allow",
            Decision::Log { .. } => "log",
            Decision::Block { .. } => "block",
            Decision::Challenge { .. } => "challenge",
        }
    }

    pub fn allow() -> (d: Self)
        ensures
            d@ == DecisionView::Allow,
    {
        Decision::Allow
    }

    pub fn log(rule_id: &str, reason: &str) -> (d: Self)
        ensures
            d@ == (DecisionView::Log { reason: reason@, rule_id: rule_id@ }),
    {
        Decision::Log { reason: reason.to_owned(), rule_id: rule_id.to_owned() }
    }

    pub fn block_with_status(status: u16, rule_id: &str, reason: &str) -> (d: Self)
        ensures
            d@ == (DecisionView::Block { status, reason: reason@, rule_id: rule_id@ }),
    {
        Decision::Block { status, reason: reason.to_owned(), rule_id: rule_id.to_owned() }
    }

    /// A challenge with the default status.
    pub fn challenge(rule_id: &str, reason: &str) -> (d: Self)
        ensures
            d@ == (DecisionView::Challenge { status: 403, reason: reason@, rule_id: rule_id@ }),
    {
        Decision::Challenge {
            status: DEFAULT_STATUS,
            reason: reason.to_owned(),
            rule_id: rule_id.to_owned(),
        }
    }

    /// A copy of the decision.
    pub fn duplicate(&self) -> (d: Self)
        ensures
            d@ == self@,
    {
        match self {
            Decision::Allow => Decision::Allow,
            Decision::Log { reason, rule_id } => Decision::Log {
                reason: reason.clone(),
                rule_id: rule_id.clone(),
            },
            Decision::Block { status, reason, rule_id } => Decision::Block {
                status: *status,
                reason: reason.clone(),
                rule_id: rule_id.clone(),
            },
            Decision::Challenge { status, reason, rule_id } => Decision::Challenge {
                status: *status,
                reason: reason.clone(),
                rule_id: rule_id.clone(),
            },
        }
    }
}

} // verus!
