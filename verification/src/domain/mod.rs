//! The records of the application as values with parsed timestamps.

pub mod mapping;
pub mod place;
pub mod product;
pub mod supplier;
