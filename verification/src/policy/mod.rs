//! Host-keyed policies: the domain matcher, the rule lists of a policy,
//! the rate limiter and the enforcer that ties them together.

pub mod cc;
pub mod compiled;
pub mod domain_map;
pub mod enforcer;
pub mod manager;
pub mod protection;
pub mod types;
pub mod update;
