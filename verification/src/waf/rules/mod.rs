//! The header/body rules: their file form, their matchers and how they
//! are compiled.

pub mod compiler;
pub mod matcher;
pub mod rule;
