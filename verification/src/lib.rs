//! A task-reminder service core: a self-validating calendar date type with
//! deterministic day arithmetic, the polling scheduler that decides, once
//! per wall-clock hour boundary and once per user-local midnight, which
//! tasks get a reminder or expiration notice, and the record validation and
//! configuration parsing around them.

pub mod auth;
pub mod date;
pub mod email;
pub mod models;
pub mod options;
pub mod scheduler;
pub mod text;
