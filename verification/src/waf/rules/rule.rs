//! Header/body rules as the rules file states them.

use vstd::prelude::*;

verus! {

#[derive(Debug, Clone)]
pub struct Ruleset {
    pub version: Option<String>,
    pub rules: Vec<Rule>,
}

#[derive(Debug, Clone)]
pub struct Rule {
    pub id: String,
    pub _description: Option<String>,
    pub when: When,
    pub action: Action,
}

/// The conditions of a rule. One that is absent holds of every request.
#[derive(Debug, Clone)]
pub struct When {
    pub methods: Option<Vec<String>>,
    pub path_prefix: Option<Vec<String>>,
    pub uri_ac: Option<Vec<String>>,
    pub body_ac: Option<Vec<String>>,
    pub header_regex: Option<Vec<HeaderRegex>>,
}

#[derive(Debug, Clone)]
pub struct HeaderRegex {
    pub name: String,
    pub pattern: String,
}

#[derive(Debug, Clone, Copy, PartialEq, Eq, Structural)]
pub enum Action {
    Allow,
    Block,
    Challenge,
}

} // verus!
