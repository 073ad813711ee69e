//! The state of each screen and what the events of the screen do to it.

pub mod dashboard_screen;
pub mod places_screen;
pub mod products_screen;
