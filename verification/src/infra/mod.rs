//! The persisted rows and the repositories that work on them.

pub mod models;
pub mod repositories;
pub mod search;
