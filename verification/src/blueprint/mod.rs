//! Blueprints: curated knowledge templates parsed from markdown.

pub mod models;
pub mod parser;
pub mod queries;
