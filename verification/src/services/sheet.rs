//! A sheet of a workbook as rows of text cells.

use vstd::prelude::*;

verus! {

/// The sheet of the products.
pub const PRODUCTS_SHEET: &'static str = "Products";

/// The sheet of the suppliers.
pub const SUPPLIERS_SHEET: &'static str = "Suppliers";

/// The sheet of the places.
pub const PLACES_SHEET: &'static str = "Places";

/// A sheet: its name and its rows from top to bottom, each row its cells
/// from left to right.
#[derive(Debug, PartialEq, Eq)]
pub struct Sheet {
    pub name: String,
    pub rows: Vec<Vec<String>>,
}

/// What a `Sheet` holds, as mathematical values.
pub struct SheetView {
    pub name: Seq<char>,
    pub rows: Seq<Seq<Seq<char>>>,
}

/// The texts of the cells of a row.
pub open spec fn row_texts(row: Vec<String>) -> Seq<Seq<char>> {
    row@.map_values(|cell: String| cell@)
}

/// The texts of the cells of rows.
pub open spec fn rows_texts(rows: Seq<Vec<String>>) -> Seq<Seq<Seq<char>>> {
    rows.map_values(|row: Vec<String>| row_texts(row))
}

impl View for Sheet {
    type V = SheetView;

    open spec fn view(&self) -> SheetView {
        SheetView { name: self.name@, rows: rows_texts(self.rows@) }
    }
}

} // verus!
