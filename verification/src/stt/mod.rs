//! Speech-to-text integration: configuration and project dictionaries.

pub mod config;
pub mod dictionary;
pub mod api;
