//! The export of places.

use crate::domain::place::{Place, PlaceView};
use crate::infra::repositories::place_repository::{all_valid, place_views};
use crate::services::sheet::{row_texts, rows_texts, Sheet, PLACES_SHEET};
use crate::text::{i32_to_string, integer_text};
use crate::timestamp::format_timestamp;
use vstd::prelude::*;

verus! {

/// The header row of the sheet.
pub open spec fn column_headers() -> Seq<Seq<char>> {
    seq!["id"@, "name"@, "created_at"@, "updated_at"@]
}

/// The row of a place: its id as a decimal numeral, its name, and its times
/// of creation and of update in the fixed pattern.
pub open spec fn cells_of(place: PlaceView) -> Seq<Seq<char>> {
    seq![
        integer_text(place.id as int),
        place.name,
        place.created_at.text(),
        place.updated_at.text(),
    ]
}

/// The rows of the sheet: the header row, then the rows of the places in
/// their order.
pub open spec fn sheet_rows(places: Seq<PlaceView>) -> Seq<Seq<Seq<char>>> {
    seq![column_headers()] + places.map_values(|place: PlaceView| cells_of(place))
}

/// The row of a place.
fn row_of_place(place: &Place) -> (row: Vec<String>)
    requires
        place.is_valid(),
    ensures
        row_texts(row) == cells_of(place@),
{
    let mut row: Vec<String> = Vec::new();
    row.push(i32_to_string(place.id));
    row.push(place.name.clone());
    row.push(format_timestamp(&place.created_at));
    row.push(format_timestamp(&place.updated_at));
    assert(row_texts(row) =~= cells_of(place@));
    row
}

/// The sheet "Places" of these places.
pub fn export_places(places: &[Place]) -> (sheet: Sheet)
    requires
        all_valid(places@),
    ensures
        sheet@.name == "Places"@,
        sheet@.rows == sheet_rows(place_views(places@)),
{
    let mut header: Vec<String> = Vec::new();
    header.push(String::from_str("id"));
    header.push(String::from_str("name"));
    header.push(String::from_str("created_at"));
    header.push(String::from_str("updated_at"));
    assert(row_texts(header) =~= column_headers());
    let mut rows: Vec<Vec<String>> = Vec::new();
    rows.push(header);
    let ghost views = place_views(places@);
    let n: usize = places.len();
    let mut i: usize = 0;
    assert(rows_texts(rows@) =~= sheet_rows(views.take(0)));
    while i < n
        invariant
            0 <= i <= n,
            n == places.len(),
            views == place_views(places@),
            all_valid(places@),
            rows_texts(rows@) == sheet_rows(views.take(i as int)),
        decreases n - i,
    {
        let row = row_of_place(&places[i]);
        let ghost before = rows_texts(rows@);
        rows.push(row);
        proof {
            assert(rows_texts(rows@) == before.push(cells_of(views[i as int])));
            assert(views.take(i + 1) == views.take(i as int).push(views[i as int]));
            assert(rows_texts(rows@) =~= sheet_rows(views.take(i + 1)));
        }
        i = i + 1;
    }
    assert(views.take(n as int) == views);
    Sheet { name: String::from_str(PLACES_SHEET), rows }
}

} // verus!
