//! Task retrospectives: the tool trace of a session, built from its
//! recorded chat events.

pub mod trace;
pub mod events;
pub mod insights;
pub mod queries;
pub mod notes;
pub mod run;
pub mod cohort;
