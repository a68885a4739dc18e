//! Chat-side logic.

pub mod prompt_compiler;
