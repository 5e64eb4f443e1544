//! The match expressions and actions of a policy's rule lists.

pub mod compiled;
pub mod cookie;
pub mod document;
pub mod engine;
pub mod key;
pub mod matcher;
pub mod types;
