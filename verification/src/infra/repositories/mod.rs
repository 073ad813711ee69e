//! One repository for each kind of record: list, create, edit and
//! soft-delete on the table of its rows.

pub mod error;
pub mod place_repository;
pub mod product_repository;
pub mod supplier_repository;
