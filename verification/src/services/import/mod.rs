//! What an import looks for in a workbook: one sheet for each kind of
//! record, with a header row that names the fields of a new record.

use vstd::prelude::*;

verus! {

/// The headers under which the sheet of the places holds new places.
pub fn place_headers() -> (headers: Vec<&'static str>)
    ensures
        headers@ == seq!["name"],
{
    let mut headers: Vec<&'static str> = Vec::new();
    headers.push("name");
    assert(headers@ =~= seq!["name"]);
    headers
}

/// The headers under which the sheet of the suppliers holds new suppliers.
pub fn supplier_headers() -> (headers: Vec<&'static str>)
    ensures
        headers@ == seq!["name"],
{
    let mut headers: Vec<&'static str> = Vec::new();
    headers.push("name");
    assert(headers@ =~= seq!["name"]);
    headers
}

/// The headers under which the sheet of the products holds new products.
pub fn product_headers() -> (headers: Vec<&'static str>)
    ensures
        headers@ == seq!["name", "brand", "unity", "min_stock", "observation"],
{
    let mut headers: Vec<&'static str> = Vec::new();
    headers.push("name");
    headers.push("brand");
    headers.push("unity");
    headers.push("min_stock");
    headers.push("observation");
    assert(headers@ =~= seq!["name", "brand", "unity", "min_stock", "observation"]);
    headers
}

} // verus!
