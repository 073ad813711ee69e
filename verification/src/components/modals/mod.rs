//! The forms in which a record is entered or changed. Each form holds what
//! the user typed, checks it, and hands the record to its repository.

pub mod place_form_modal;
pub mod product_form_modal;
pub mod supplier_form_modal;
pub mod validation;
