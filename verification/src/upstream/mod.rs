//! Routing of allowed requests: from the request's host over its CNAME to
//! a tenant, and from the tenant to one of its upstreams in turn.

pub mod manager;
pub mod reload;
pub mod router;
pub mod types;
pub mod update;
