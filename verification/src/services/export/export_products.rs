//! The export of products.

use crate::domain::product::{Product, ProductView};
use crate::infra::models::optional_text;
use crate::infra::repositories::product_repository::{all_valid, product_views};
use crate::services::sheet::{row_texts, rows_texts, Sheet, PRODUCTS_SHEET};
use crate::text::{i32_to_string, integer_text};
use crate::timestamp::format_timestamp;
use vstd::prelude::*;

verus! {

/// The header row of the sheet.
pub open spec fn column_headers() -> Seq<Seq<char>> {
    seq![
        "id"@,
        "name"@,
        "brand"@,
        "unity"@,
        "min_stock"@,
        "observation"@,
        "created_at"@,
        "updated_at"@,
    ]
}

/// The text of an optional field in a cell: empty where the field is not
/// set.
pub open spec fn text_or_empty(value: Option<Seq<char>>) -> Seq<char> {
    match value {
        Some(text) => text,
        None => Seq::empty(),
    }
}

/// The row of a product: its id as a decimal numeral, its name, brand and
/// unit, its minimum stock as a decimal numeral, its observation, and its
/// times of creation and of update in the fixed pattern.
pub open spec fn cells_of(product: ProductView) -> Seq<Seq<char>> {
    seq![
        integer_text(product.id as int),
        product.name,
        text_or_empty(product.brand),
        text_or_empty(product.unity),
        integer_text(product.min_stock as int),
        text_or_empty(product.observation),
        product.created_at.text(),
        product.updated_at.text(),
    ]
}

/// The text of an optional field, empty where the field is not set.
fn or_empty(value: &Option<String>) -> (text: String)
    ensures
        text@ == text_or_empty(optional_text(*value)),
{
    match value {
        Some(text) => text.clone(),
        None => String::new(),
    }
}

/// The rows of the sheet: the header row, then the rows of the products in
/// their order.
pub open spec fn sheet_rows(products: Seq<ProductView>) -> Seq<Seq<Seq<char>>> {
    seq![column_headers()] + products.map_values(|product: ProductView| cells_of(product))
}

/// The row of a product.
fn row_of_product(product: &Product) -> (row: Vec<String>)
    requires
        product.is_valid(),
    ensures
        row_texts(row) == cells_of(product@),
{
    let mut row: Vec<String> = Vec::new();
    row.push(i32_to_string(product.id));
    row.push(product.name.clone());
    row.push(or_empty(&product.brand));
    row.push(or_empty(&product.unity));
    row.push(i32_to_string(product.min_stock));
    row.push(or_empty(&product.observation));
    row.push(format_timestamp(&product.created_at));
    row.push(format_timestamp(&product.updated_at));
    assert(row_texts(row) =~= cells_of(product@));
    row
}

/// The sheet "Products" of these products.
pub fn export_products(products: &[Product]) -> (sheet: Sheet)
    requires
        all_valid(products@),
    ensures
        sheet@.name == "Products"@,
        sheet@.rows == sheet_rows(product_views(products@)),
{
    let mut header: Vec<String> = Vec::new();
    header.push(String::from_str("id"));
    header.push(String::from_str("name"));
    header.push(String::from_str("brand"));
    header.push(String::from_str("unity"));
    header.push(String::from_str("min_stock"));
    header.push(String::from_str("observation"));
    header.push(String::from_str("created_at"));
    header.push(String::from_str("updated_at"));
    assert(row_texts(header) =~= column_headers());
    let mut rows: Vec<Vec<String>> = Vec::new();
    rows.push(header);
    let ghost views = product_views(products@);
    let n: usize = products.len();
    let mut i: usize = 0;
    assert(rows_texts(rows@) =~= sheet_rows(views.take(0)));
    while i < n
        invariant
            0 <= i <= n,
            n == products.len(),
            views == product_views(products@),
            all_valid(products@),
            rows_texts(rows@) == sheet_rows(views.take(i as int)),
        decreases n - i,
    {
        let row = row_of_product(&products[i]);
        let ghost before = rows_texts(rows@);
        rows.push(row);
        proof {
            assert(rows_texts(rows@) == before.push(cells_of(views[i as int])));
            assert(views.take(i + 1) == views.take(i as int).push(views[i as int]));
            assert(rows_texts(rows@) =~= sheet_rows(views.take(i + 1)));
        }
        i = i + 1;
    }
    assert(views.take(n as int) == views);
    Sheet { name: String::from_str(PRODUCTS_SHEET), rows }
}

} // verus!
