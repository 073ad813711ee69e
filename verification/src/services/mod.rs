//! The exchange of records with spreadsheets: which sheet holds which kind
//! of record, under which headers, and with which text in every cell.

pub mod export;
pub mod import;
pub mod sheet;
