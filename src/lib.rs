//! A named, bounded key-value configuration container whose structural
//! correctness is checked on demand through the `Validate` capability.

pub mod config;
pub mod decimal;
pub mod outcome;
pub mod validate;
