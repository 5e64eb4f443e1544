//! Decision core of an inline HTTP reverse proxy that acts as a web
//! application firewall: host-keyed policies, request-rate limiting,
//! streaming body scanning, tenant routing and the bookkeeping behind
//! hot reloads.

pub mod text;
pub mod waf;
pub mod policy;
pub mod upstream;
pub mod reload;
pub mod server;
pub mod config;
