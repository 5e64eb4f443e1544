//! Request context, decisions, and the header/body rule engine.

pub mod context;
pub mod decision;
pub mod engine;
pub mod normalizer;
pub mod rules;
pub mod scanner;
pub mod update;
