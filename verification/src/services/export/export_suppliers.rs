//! The export of suppliers.

use crate::domain::supplier::{Supplier, SupplierView};
use crate::infra::repositories::supplier_repository::{all_valid, supplier_views};
use crate::services::sheet::{row_texts, rows_texts, Sheet, SUPPLIERS_SHEET};
use crate::text::{i32_to_string, integer_text};
use crate::timestamp::format_timestamp;
use vstd::prelude::*;

verus! {

/// The header row of the sheet.
pub open spec fn column_headers() -> Seq<Seq<char>> {
    seq!["id"@, "name"@, "created_at"@, "updated_at"@]
}

/// The row of a supplier: its id as a decimal numeral, its name, and its times
/// of creation and of update in the fixed pattern.
pub open spec fn cells_of(supplier: SupplierView) -> Seq<Seq<char>> {
    seq![
        integer_text(supplier.id as int),
        supplier.name,
        supplier.created_at.text(),
        supplier.updated_at.text(),
    ]
}

/// The rows of the sheet: the header row, then the rows of the suppliers in
/// their order.
pub open spec fn sheet_rows(suppliers: Seq<SupplierView>) -> Seq<Seq<Seq<char>>> {
    seq![column_headers()] + suppliers.map_values(|supplier: SupplierView| cells_of(supplier))
}

/// The row of a supplier.
fn row_of_supplier(supplier: &Supplier) -> (row: Vec<String>)
    requires
        supplier.is_valid(),
    ensures
        row_texts(row) == cells_of(supplier@),
{
    let mut row: Vec<String> = Vec::new();
    row.push(i32_to_string(supplier.id));
    row.push(supplier.name.clone());
    row.push(format_timestamp(&supplier.created_at));
    row.push(format_timestamp(&supplier.updated_at));
    assert(row_texts(row) =~= cells_of(supplier@));
    row
}

/// The sheet "Suppliers" of these suppliers.
pub fn export_suppliers(suppliers: &[Supplier]) -> (sheet: Sheet)
    requires
        all_valid(suppliers@),
    ensures
        sheet@.name == "Suppliers"@,
        sheet@.rows == sheet_rows(supplier_views(suppliers@)),
{
    let mut header: Vec<String> = Vec::new();
    header.push(String::from_str("id"));
    header.push(String::from_str("name"));
    header.push(String::from_str("created_at"));
    header.push(String::from_str("updated_at"));
    assert(row_texts(header) =~= column_headers());
    let mut rows: Vec<Vec<String>> = Vec::new();
    rows.push(header);
    let ghost views = supplier_views(suppliers@);
    let n: usize = suppliers.len();
    let mut i: usize = 0;
    assert(rows_texts(rows@) =~= sheet_rows(views.take(0)));
    while i < n
        invariant
            0 <= i <= n,
            n == suppliers.len(),
            views == supplier_views(suppliers@),
            all_valid(suppliers@),
            rows_texts(rows@) == sheet_rows(views.take(i as int)),
        decreases n - i,
    {
        let row = row_of_supplier(&suppliers[i]);
        let ghost before = rows_texts(rows@);
        rows.push(row);
        proof {
            assert(rows_texts(rows@) == before.push(cells_of(views[i as int])));
            assert(views.take(i + 1) == views.take(i as int).push(views[i as int]));
            assert(rows_texts(rows@) =~= sheet_rows(views.take(i + 1)));
        }
        i = i + 1;
    }
    assert(views.take(n as int) == views);
    Sheet { name: String::from_str(SUPPLIERS_SHEET), rows }
}

} // verus!
