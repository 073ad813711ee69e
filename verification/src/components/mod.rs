//! The parts of the screens that hold state of their own.

pub mod modals;
