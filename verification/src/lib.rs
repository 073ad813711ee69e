//! Verified data-access core of a stock-management application: records,
//! row mapping, search, soft deletion and form validation.

pub mod components;
pub mod domain;
pub mod infra;
pub mod navigation;
pub mod screens;
pub mod services;
pub mod text;
pub mod timestamp;
pub mod widgets;
