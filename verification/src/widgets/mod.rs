//! The parts that every screen shares.

pub mod sidebar;
