//! The sheets that an export writes: a header row, then one row for each
//! record, every cell as text.

pub mod export_places;
pub mod export_products;
pub mod export_suppliers;
