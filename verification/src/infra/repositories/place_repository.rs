//! The repository of places: the table of their rows and the operations
//! that list, create, edit and soft-delete them.

use crate::domain::mapping::MappingError;
use crate::domain::place::{place_of_row, Place, PlaceView};
use crate::infra::models::{
    clone_optional, EditPlaceRow, NewPlaceRow, PlaceRow, PlaceRowView,
};
use crate::infra::repositories::error::RepositoryError;
use crate::infra::search::{lemma_empty_search_accepts, search_accepts, SearchFilter};
use crate::timestamp::{format_timestamp, law_format_then_parse, now, DateTime};
use vstd::prelude::*;

verus! {

/// What a sequence of rows holds.
pub open spec fn row_views(rows: Seq<PlaceRow>) -> Seq<PlaceRowView> {
    rows.map_values(|row: PlaceRow| row@)
}

/// What a sequence of places holds.
pub open spec fn place_views(places: Seq<Place>) -> Seq<PlaceView> {
    places.map_values(|place: Place| place@)
}

/// Whether the timestamps of all the places are dates and times of the
/// calendar.
pub open spec fn all_valid(places: Seq<Place>) -> bool {
    forall|i: int| 0 <= i < places.len() ==> (#[trigger] places[i]).is_valid()
}

/// Every row has a larger id than the rows before it, so no id occurs twice.
pub open spec fn ids_increasing(rows: Seq<PlaceRowView>) -> bool {
    forall|i: int, j: int| 0 <= i < j < rows.len() ==> rows[i].id < rows[j].id
}

/// A live row is one that was not deleted.
pub open spec fn is_live(row: PlaceRowView) -> bool {
    row.deleted_at is None
}

/// Whether a listing under `search` shows the row.
pub open spec fn is_listed(row: PlaceRowView, search: Seq<char>) -> bool {
    is_live(row) && search_accepts(search, row.id, row.name)
}

/// The rows that a listing under `search` shows, in the order of the table.
pub open spec fn listed_rows(rows: Seq<PlaceRowView>, search: Seq<char>) -> Seq<
    PlaceRowView,
>
    decreases rows.len(),
{
    if rows.len() == 0 {
        rows
    } else if is_listed(rows.last(), search) {
        listed_rows(rows.drop_last(), search).push(rows.last())
    } else {
        listed_rows(rows.drop_last(), search)
    }
}

/// The places that the rows stand for, or the failure of the first row
/// that does not map.
pub open spec fn places_of_rows(rows: Seq<PlaceRowView>) -> Result<
    Seq<PlaceView>,
    MappingError,
>
    decreases rows.len(),
{
    if rows.len() == 0 {
        Ok(Seq::empty())
    } else {
        match places_of_rows(rows.drop_last()) {
            Err(e) => Err(e),
            Ok(places) => match place_of_row(rows.last()) {
                Err(e) => Err(e),
                Ok(place) => Ok(places.push(place)),
            },
        }
    }
}

/// The position of the first row with this id.
pub open spec fn position_of(rows: Seq<PlaceRowView>, id: i32) -> Option<int>
    decreases rows.len(),
{
    if rows.len() == 0 {
        None
    } else {
        match position_of(rows.drop_last(), id) {
            Some(i) => Some(i),
            None => if rows.last().id == id {
                Some(rows.len() - 1)
            } else {
                None
            },
        }
    }
}

/// The id that the next inserted row gets: 1 in an empty table, else one
/// more than the last id.
pub open spec fn next_id(rows: Seq<PlaceRowView>) -> int {
    if rows.len() == 0 {
        1
    } else {
        rows.last().id + 1
    }
}

/// The row of a place inserted at `now`.
pub open spec fn created_row(id: i32, name: Seq<char>, now: DateTime) -> PlaceRowView {
    PlaceRowView { id, name, created_at: now.text(), updated_at: now.text(), deleted_at: None }
}

/// The rows of places inserted together at `now`, the first with `first_id`.
pub open spec fn created_rows(first_id: int, names: Seq<Seq<char>>, now: DateTime) -> Seq<
    PlaceRowView,
> {
    Seq::new(names.len(), |i: int| created_row((first_id + i) as i32, names[i], now))
}

/// A row after an edit at `now` that sets its name.
pub open spec fn edited_row(
    row: PlaceRowView,
    name: Seq<char>,
    now: DateTime,
) -> PlaceRowView {
    PlaceRowView { name, updated_at: now.text(), ..row }
}

/// A row after its deletion at `now`.
pub open spec fn deleted_row(row: PlaceRowView, now: DateTime) -> PlaceRowView {
    PlaceRowView { deleted_at: Some(now.text()), ..row }
}

/// A failure to map as a failure of the repository.
pub open spec fn lifted(expected: Result<PlaceView, MappingError>) -> Result<
    PlaceView,
    RepositoryError,
> {
    match expected {
        Ok(place) => Ok(place),
        Err(e) => Err(RepositoryError::Mapping(e)),
    }
}

/// Whether `r` returns the place that `expected` describes, or its failure.
pub open spec fn returns_place(
    r: Result<Place, RepositoryError>,
    expected: Result<PlaceView, RepositoryError>,
) -> bool {
    match expected {
        Ok(place) => r is Ok && r.unwrap()@ == place,
        Err(e) => r == Err::<Place, RepositoryError>(e),
    }
}

/// Whether `r` returns the places that `expected` describes, in their
/// order, or its failure.
pub open spec fn returns_places(
    r: Result<Vec<Place>, RepositoryError>,
    expected: Result<Seq<PlaceView>, RepositoryError>,
) -> bool {
    match expected {
        Ok(places) => r is Ok && place_views(r.unwrap()@) == places,
        Err(e) => r == Err::<Vec<Place>, RepositoryError>(e),
    }
}

/// What a listing under `search` does on a table that holds `rows`.
pub open spec fn places_listed(
    rows: Seq<PlaceRowView>,
    search: Seq<char>,
    r: Result<Vec<Place>, MappingError>,
) -> bool {
    match places_of_rows(listed_rows(rows, search)) {
        Ok(places) => r is Ok && place_views(r.unwrap()@) == places,
        Err(e) => r == Err::<Vec<Place>, MappingError>(e),
    }
}

/// The table after the insertion of a place named `name` at `now`: one
/// more row, with the next id, both timestamps at `now` and no deletion.
/// Where no id is left, the table stays as it is.
pub open spec fn rows_after_create(
    before: Seq<PlaceRowView>,
    name: Seq<char>,
    now: DateTime,
) -> Seq<PlaceRowView> {
    if next_id(before) > i32::MAX {
        before
    } else {
        before.push(created_row(next_id(before) as i32, name, now))
    }
}

/// What the insertion of a place named `name` at `now` returns: the place
/// of the inserted row, or the failure that no id is left.
pub open spec fn outcome_of_create(
    before: Seq<PlaceRowView>,
    name: Seq<char>,
    now: DateTime,
) -> Result<PlaceView, RepositoryError> {
    if next_id(before) > i32::MAX {
        Err(RepositoryError::Constraint)
    } else {
        lifted(place_of_row(created_row(next_id(before) as i32, name, now)))
    }
}

/// What the insertion of a place does to the table and returns.
pub open spec fn place_created(
    before: Seq<PlaceRowView>,
    name: Seq<char>,
    now: DateTime,
    after: Seq<PlaceRowView>,
    r: Result<Place, RepositoryError>,
) -> bool {
    after == rows_after_create(before, name, now) && returns_place(
        r,
        outcome_of_create(before, name, now),
    )
}

/// The table after the insertion of several places at `now`: one more row
/// for each name, in the order given, with consecutive ids. Where the ids
/// do not suffice for all, the table stays as it is.
pub open spec fn rows_after_batch(
    before: Seq<PlaceRowView>,
    names: Seq<Seq<char>>,
    now: DateTime,
) -> Seq<PlaceRowView> {
    if next_id(before) + names.len() - 1 > i32::MAX {
        before
    } else {
        before + created_rows(next_id(before), names, now)
    }
}

/// What the insertion of several places at `now` returns: the places of
/// the inserted rows in the order given, or the failure that the ids do not
/// suffice.
pub open spec fn outcome_of_batch(
    before: Seq<PlaceRowView>,
    names: Seq<Seq<char>>,
    now: DateTime,
) -> Result<Seq<PlaceView>, RepositoryError> {
    if next_id(before) + names.len() - 1 > i32::MAX {
        Err(RepositoryError::Constraint)
    } else {
        match places_of_rows(created_rows(next_id(before), names, now)) {
            Ok(places) => Ok(places),
            Err(e) => Err(RepositoryError::Mapping(e)),
        }
    }
}

/// What the insertion of several places does to the table and returns.
pub open spec fn places_created(
    before: Seq<PlaceRowView>,
    names: Seq<Seq<char>>,
    now: DateTime,
    after: Seq<PlaceRowView>,
    r: Result<Vec<Place>, RepositoryError>,
) -> bool {
    after == rows_after_batch(before, names, now) && returns_places(
        r,
        outcome_of_batch(before, names, now),
    )
}

/// The table after an edit at `now`: the row with the id has the new name
/// and `now` as its time of update, and nothing else has changed. Where no
/// row has the id, the table stays as it is.
pub open spec fn rows_after_edit(
    before: Seq<PlaceRowView>,
    id: i32,
    name: Seq<char>,
    now: DateTime,
) -> Seq<PlaceRowView> {
    match position_of(before, id) {
        None => before,
        Some(i) => before.update(i, edited_row(before[i], name, now)),
    }
}

/// What an edit at `now` returns: the place of the changed row, or the
/// failure that no row has the id.
pub open spec fn outcome_of_edit(
    before: Seq<PlaceRowView>,
    id: i32,
    name: Seq<char>,
    now: DateTime,
) -> Result<PlaceView, RepositoryError> {
    match position_of(before, id) {
        None => Err(RepositoryError::NotFound),
        Some(i) => lifted(place_of_row(edited_row(before[i], name, now))),
    }
}

/// What an edit does to the table and returns.
pub open spec fn place_edited(
    before: Seq<PlaceRowView>,
    id: i32,
    name: Seq<char>,
    now: DateTime,
    after: Seq<PlaceRowView>,
    r: Result<Place, RepositoryError>,
) -> bool {
    after == rows_after_edit(before, id, name, now) && returns_place(
        r,
        outcome_of_edit(before, id, name, now),
    )
}

/// Whether a deletion finds a place to mark: a live row with the id.
pub open spec fn outcome_of_delete(before: Seq<PlaceRowView>, id: i32) -> bool {
    match position_of(before, id) {
        None => false,
        Some(i) => is_live(before[i]),
    }
}

/// The table after a deletion at `now`: the live row with the id has `now`
/// as its time of deletion. Where no row has the id, or the row is deleted
/// already, the table stays as it is.
pub open spec fn rows_after_delete(before: Seq<PlaceRowView>, id: i32, now: DateTime) -> Seq<
    PlaceRowView,
> {
    match position_of(before, id) {
        None => before,
        Some(i) => if is_live(before[i]) {
            before.update(i, deleted_row(before[i], now))
        } else {
            before
        },
    }
}

/// What a deletion does to the table and answers.
pub open spec fn place_deleted(
    before: Seq<PlaceRowView>,
    id: i32,
    now: DateTime,
    after: Seq<PlaceRowView>,
    r: bool,
) -> bool {
    after == rows_after_delete(before, id, now) && r == outcome_of_delete(before, id)
}

/// The names of the places to insert.
pub open spec fn new_names(new_places: Seq<NewPlaceRow>) -> Seq<Seq<char>> {
    new_places.map_values(|new_place: NewPlaceRow| new_place.name@)
}

/// `position_of` finds the first row with the id, and none only where no
/// row has it.
pub proof fn lemma_position_of(rows: Seq<PlaceRowView>, id: i32)
    ensures
        match position_of(rows, id) {
            Some(i) => 0 <= i < rows.len() && rows[i].id == id && forall|k: int|
                0 <= k < i ==> rows[k].id != id,
            None => forall|k: int| 0 <= k < rows.len() ==> rows[k].id != id,
        },
    decreases rows.len(),
{
    if rows.len() > 0 {
        lemma_position_of(rows.drop_last(), id);
        assert forall|k: int| 0 <= k < rows.len() - 1 implies rows[k] == rows.drop_last()[k] by {}
    }
}

/// The listing of a table that got one more row.
pub proof fn lemma_listed_rows_push(
    rows: Seq<PlaceRowView>,
    row: PlaceRowView,
    search: Seq<char>,
)
    ensures
        listed_rows(rows.push(row), search) == if is_listed(row, search) {
            listed_rows(rows, search).push(row)
        } else {
            listed_rows(rows, search)
        },
{
    assert(rows.push(row).drop_last() == rows);
}

/// The places of rows with one more row.
pub proof fn lemma_places_of_rows_push(rows: Seq<PlaceRowView>, row: PlaceRowView)
    ensures
        places_of_rows(rows.push(row)) == match places_of_rows(rows) {
            Err(e) => Err::<Seq<PlaceView>, MappingError>(e),
            Ok(places) => match place_of_row(row) {
                Err(e) => Err(e),
                Ok(place) => Ok(places.push(place)),
            },
        },
{
    assert(rows.push(row).drop_last() == rows);
}

/// A failure among the first rows is the failure of the whole.
pub proof fn lemma_failure_stays(rows: Seq<PlaceRowView>, k: int)
    requires
        0 <= k <= rows.len(),
        places_of_rows(rows.take(k)) is Err,
    ensures
        places_of_rows(rows) == places_of_rows(rows.take(k)),
    decreases rows.len() - k,
{
    if k < rows.len() {
        assert(rows.take(k + 1).drop_last() == rows.take(k));
        lemma_failure_stays(rows, k + 1);
    } else {
        assert(rows.take(k) == rows);
    }
}

/// Rows created at a valid time map to places, each with `now` as both of
/// its times.
pub proof fn lemma_created_rows_map(first_id: int, names: Seq<Seq<char>>, now: DateTime)
    requires
        now.is_valid(),
    ensures
        places_of_rows(created_rows(first_id, names, now)) is Ok,
    decreases names.len(),
{
    law_format_then_parse(now);
    if names.len() > 0 {
        lemma_created_rows_map(first_id, names.drop_last(), now);
        assert(created_rows(first_id, names, now).drop_last() == created_rows(
            first_id,
            names.drop_last(),
            now,
        ));
    }
}

/// The table of the places: the rows of the store in the order of their
/// ids.
pub struct PlaceTable {
    rows: Vec<PlaceRow>,
}

impl View for PlaceTable {
    type V = Seq<PlaceRowView>;

    closed spec fn view(&self) -> Seq<PlaceRowView> {
        row_views(self.rows@)
    }
}

impl PlaceTable {
    /// What every operation keeps: the ids of the rows are increasing.
    pub open spec fn wf(&self) -> bool {
        ids_increasing(self@)
    }

    /// The empty table.
    pub fn new() -> (table: PlaceTable)
        ensures
            table@ == Seq::<PlaceRowView>::empty(),
            table.wf(),
    {
        let table = PlaceTable { rows: Vec::new() };
        assert(table@ =~= Seq::<PlaceRowView>::empty());
        table
    }

    /// The table of these rows, if each has a larger id than the one
    /// before it.
    pub fn from_rows(rows: Vec<PlaceRow>) -> (table: Option<PlaceTable>)
        ensures
            table is Some <==> ids_increasing(row_views(rows@)),
            table is Some ==> table.unwrap()@ == row_views(rows@) && table.unwrap().wf(),
    {
        let n: usize = rows.len();
        let ghost views = row_views(rows@);
        if n == 0 {
            return Some(PlaceTable { rows });
        }
        let mut i: usize = 1;
        while i < n
            invariant
                1 <= i <= n,
                n == rows.len(),
                views == row_views(rows@),
                ids_increasing(views.take(i as int)),
            decreases n - i,
        {
            if rows[i - 1].id >= rows[i].id {
                assert(views[i - 1].id >= views[i as int].id);
                return None;
            }
            proof {
                let longer = views.take(i + 1);
                assert forall|a: int, b: int| 0 <= a < b < longer.len() implies longer[a].id
                    < longer[b].id by {
                    if b < i {
                        assert(views.take(i as int)[a].id < views.take(i as int)[b].id);
                    } else if a < i - 1 {
                        assert(views.take(i as int)[a].id < views.take(i as int)[i - 1].id);
                    }
                }
            }
            i = i + 1;
        }
        assert(views.take(n as int) == views);
        Some(PlaceTable { rows })
    }

    /// The rows of the table, in the order of their ids.
    pub fn rows(&self) -> (rows: &Vec<PlaceRow>)
        ensures
            row_views(rows@) == self@,
    {
        &self.rows
    }

    /// The number of rows, deleted ones included.
    pub fn len(&self) -> (n: usize)
        ensures
            n == self@.len(),
    {
        self.rows.len()
    }
}

/// The position of the first row with this id.
fn find(table: &PlaceTable, id: i32) -> (r: Option<usize>)
    ensures
        match r {
            Some(i) => position_of(table@, id) == Some(i as int) && i < table@.len()
                && table@[i as int].id == id,
            None => position_of(table@, id) is None,
        },
{
    let n: usize = table.rows.len();
    let mut i: usize = 0;
    while i < n
        invariant
            0 <= i <= n,
            n == table.rows.len(),
            forall|k: int| 0 <= k < i ==> table@[k].id != id,
        decreases n - i,
    {
        if table.rows[i].id == id {
            proof {
                assert(table@[i as int].id == id);
                lemma_position_of(table@, id);
            }
            return Some(i);
        }
        i = i + 1;
    }
    proof {
        lemma_position_of(table@, id);
    }
    None
}

/// Maps rows to places, all or none.
fn map_rows(rows: &Vec<PlaceRow>) -> (r: Result<Vec<Place>, MappingError>)
    ensures
        match places_of_rows(row_views(rows@)) {
            Ok(places) => r is Ok && place_views(r.unwrap()@) == places,
            Err(e) => r == Err::<Vec<Place>, MappingError>(e),
        },
        r is Ok ==> all_valid(r.unwrap()@),
{
    let ghost views = row_views(rows@);
    let mut places: Vec<Place> = Vec::new();
    let n: usize = rows.len();
    let mut i: usize = 0;
    assert(views.take(0) == Seq::<PlaceRowView>::empty());
    assert(place_views(places@) == Seq::<PlaceView>::empty());
    while i < n
        invariant
            0 <= i <= n,
            n == rows.len(),
            views == row_views(rows@),
            places_of_rows(views.take(i as int)) == Ok::<Seq<PlaceView>, MappingError>(
                place_views(places@),
            ),
            all_valid(places@),
        decreases n - i,
    {
        proof {
            assert(views.take(i + 1) == views.take(i as int).push(rows[i as int]@));
            lemma_places_of_rows_push(views.take(i as int), rows[i as int]@);
        }
        match Place::try_from(rows[i].clone()) {
            Ok(place) => {
                let ghost before = place_views(places@);
                places.push(place);
                assert(place_views(places@) == before.push(place@));
            },
            Err(e) => {
                proof {
                    lemma_failure_stays(views, i + 1);
                }
                return Err(e);
            },
        }
        i = i + 1;
    }
    assert(views.take(n as int) == views);
    Ok(places)
}

/// Lists the live places that answer `search`: those whose name contains
/// the text and, where the text writes a number, the one with that id. The
/// empty text lists every live place. The listing fails as a whole where a
/// row that it shows does not map.
pub fn list_places(table: &PlaceTable, search: &str) -> (r: Result<
    Vec<Place>,
    MappingError,
>)
    ensures
        places_listed(table@, search@, r),
        r is Ok ==> all_valid(r.unwrap()@),
{
    let filter = SearchFilter::new(search);
    let mut shown: Vec<PlaceRow> = Vec::new();
    let n: usize = table.rows.len();
    let mut i: usize = 0;
    assert(table@.take(0) == Seq::<PlaceRowView>::empty());
    assert(row_views(shown@) == Seq::<PlaceRowView>::empty());
    while i < n
        invariant
            0 <= i <= n,
            n == table.rows.len(),
            filter.search() == search@,
            listed_rows(table@.take(i as int), search@) == row_views(shown@),
        decreases n - i,
    {
        let row = &table.rows[i];
        proof {
            assert(table@.take(i + 1) == table@.take(i as int).push(row@));
            lemma_listed_rows_push(table@.take(i as int), row@, search@);
        }
        if row.deleted_at.is_none() && filter.accepts(row.id, row.name.as_str()) {
            let ghost before = row_views(shown@);
            shown.push(row.clone());
            assert(row_views(shown@) == before.push(row@));
        }
        i = i + 1;
    }
    assert(table@.take(n as int) == table@);
    map_rows(&shown)
}

/// Inserts a place at the time `now` and returns it as the store holds it.
pub fn create_place_at(
    table: &mut PlaceTable,
    new_place: NewPlaceRow,
    now: &DateTime,
) -> (r: Result<Place, RepositoryError>)
    requires
        old(table).wf(),
        now.is_valid(),
    ensures
        final(table).wf(),
        place_created(old(table)@, new_place.name@, *now, final(table)@, r),
        r is Ok <==> next_id(old(table)@) <= i32::MAX,
        r is Ok ==> r.unwrap().is_valid(),
        r is Ok ==> r.unwrap().id == next_id(old(table)@) && r.unwrap()@.name == new_place.name@
            && r.unwrap().created_at == *now && r.unwrap().updated_at == *now
            && r.unwrap().deleted_at is None,
        r is Ok ==> final(table)@.len() == old(table)@.len() + 1,
        r is Err ==> final(table)@ == old(table)@,
{
    proof {
        law_format_then_parse(*now);
    }
    let n: usize = table.rows.len();
    let id: i32 = if n == 0 {
        1
    } else {
        let last: i32 = table.rows[n - 1].id;
        if last == i32::MAX {
            return Err(RepositoryError::Constraint);
        }
        last + 1
    };
    let stamp = format_timestamp(now);
    let row = PlaceRow {
        id,
        name: new_place.name,
        created_at: stamp.clone(),
        updated_at: stamp,
        deleted_at: None,
    };
    let ghost before = row_views(table.rows@);
    assert(before.len() > 0 ==> before.last() == table.rows[n - 1]@);
    table.rows.push(row.clone());
    assert(row_views(table.rows@) == before.push(row@));
    match Place::try_from(row) {
        Ok(place) => Ok(place),
        Err(e) => Err(RepositoryError::Mapping(e)),
    }
}

/// Inserts a place at the current time of the clock and returns it as the
/// store holds it.
pub fn create_place(table: &mut PlaceTable, new_place: NewPlaceRow) -> (r: Result<
    Place,
    RepositoryError,
>)
    requires
        old(table).wf(),
    ensures
        final(table).wf(),
        exists|now: DateTime|
            now.is_valid() && #[trigger] place_created(
                old(table)@,
                new_place.name@,
                now,
                final(table)@,
                r,
            ),
        r is Ok <==> next_id(old(table)@) <= i32::MAX,
        r is Ok ==> r.unwrap().is_valid(),
        r is Ok ==> r.unwrap().id == next_id(old(table)@) && r.unwrap()@.name == new_place.name@
            && r.unwrap().created_at == r.unwrap().updated_at && r.unwrap().deleted_at is None,
        r is Ok ==> final(table)@.len() == old(table)@.len() + 1,
        r is Err ==> final(table)@ == old(table)@,
{
    let t = now();
    create_place_at(table, new_place, &t)
}

/// Inserts several places at the time `now` and returns them in the order
/// given.
pub fn create_places_at(
    table: &mut PlaceTable,
    new_places: &[NewPlaceRow],
    now: &DateTime,
) -> (r: Result<Vec<Place>, RepositoryError>)
    requires
        old(table).wf(),
        now.is_valid(),
    ensures
        final(table).wf(),
        places_created(old(table)@, new_names(new_places@), *now, final(table)@, r),
        r is Ok <==> next_id(old(table)@) + new_places@.len() - 1 <= i32::MAX,
        r is Ok ==> all_valid(r.unwrap()@),
        r is Ok ==> r.unwrap()@.len() == new_places@.len() && final(table)@.len() == old(
            table,
        )@.len() + new_places@.len(),
        r is Ok ==> forall|k: int|
            0 <= k < new_places@.len() ==> (#[trigger] r.unwrap()@[k])@.name
                == new_places@[k].name@ && r.unwrap()@[k].id == next_id(old(table)@) + k
                && r.unwrap()@[k].deleted_at is None && r.unwrap()@[k].created_at
                == r.unwrap()@[k].updated_at,
        r is Err ==> final(table)@ == old(table)@,
{
    proof {
        lemma_created_rows_map(next_id(old(table)@), new_names(new_places@), *now);
    }
    let ghost before = row_views(table.rows@);
    let ghost names = new_names(new_places@);
    let count: usize = new_places.len();
    let n: usize = table.rows.len();
    let first: i64 = if n == 0 {
        1
    } else {
        table.rows[n - 1].id as i64 + 1
    };
    assert(before.len() > 0 ==> before.last() == table.rows[n - 1]@);
    assert(first == next_id(before));
    let room: u64 = (2147483648 - first) as u64;
    if count as u64 > room {
        return Err(RepositoryError::Constraint);
    }
    let mut inserted: Vec<PlaceRow> = Vec::new();
    let mut i: usize = 0;
    assert(created_rows(first as int, names.take(0), *now) == Seq::<PlaceRowView>::empty());
    assert(before + Seq::<PlaceRowView>::empty() == before);
    assert(row_views(inserted@) == Seq::<PlaceRowView>::empty());
    while i < count
        invariant
            0 <= i <= count,
            count == new_places.len(),
            names == new_names(new_places@),
            now.is_valid(),
            first == next_id(before),
            first + count - 1 <= i32::MAX,
            ids_increasing(before),
            row_views(inserted@) == created_rows(first as int, names.take(i as int), *now),
            row_views(table.rows@) == before + row_views(inserted@),
        decreases count - i,
    {
        let stamp = format_timestamp(now);
        let row = PlaceRow {
            id: (first + i as i64) as i32,
            name: new_places[i].name.clone(),
            created_at: stamp.clone(),
            updated_at: stamp,
            deleted_at: None,
        };
        let ghost rows_before = row_views(table.rows@);
        let ghost inserted_before = row_views(inserted@);
        table.rows.push(row.clone());
        inserted.push(row);
        proof {
            assert(row@ == created_row((first + i) as i32, names[i as int], *now));
            assert(row_views(inserted@) == inserted_before.push(row@));
            assert(row_views(table.rows@) == rows_before.push(row@));
            assert(names.take(i + 1) == names.take(i as int).push(names[i as int]));
            assert(row_views(inserted@) =~= created_rows(first as int, names.take(i + 1), *now));
            assert(row_views(table.rows@) =~= before + row_views(inserted@));
            let all = row_views(table.rows@);
            assert forall|a: int, b: int| 0 <= a < b < all.len() implies all[a].id < all[b].id by {
                if b < before.len() {
                    assert(before[a].id < before[b].id);
                } else if a < before.len() {
                    assert(before[a].id <= before.last().id) by {
                        if a < before.len() - 1 {
                            assert(before[a].id < before[before.len() - 1].id);
                        }
                    }
                }
            }
        }
        i = i + 1;
    }
    assert(names.take(count as int) == names);
    let r = match map_rows(&inserted) {
        Ok(places) => Ok(places),
        Err(e) => Err(RepositoryError::Mapping(e)),
    };
    proof {
        law_created_places_are_new(before, names, *now, row_views(table.rows@), r);
        assert forall|k: int| 0 <= k < new_places@.len() implies names[k]
            == new_places@[k].name@ by {}
    }
    r
}

/// Inserts several places at the current time of the clock and returns
/// them in the order given.
pub fn create_places(table: &mut PlaceTable, new_places: &[NewPlaceRow]) -> (r: Result<
    Vec<Place>,
    RepositoryError,
>)
    requires
        old(table).wf(),
    ensures
        final(table).wf(),
        exists|now: DateTime|
            now.is_valid() && #[trigger] places_created(
                old(table)@,
                new_names(new_places@),
                now,
                final(table)@,
                r,
            ),
        r is Ok <==> next_id(old(table)@) + new_places@.len() - 1 <= i32::MAX,
        r is Ok ==> all_valid(r.unwrap()@),
        r is Ok ==> r.unwrap()@.len() == new_places@.len() && final(table)@.len() == old(
            table,
        )@.len() + new_places@.len(),
        r is Ok ==> forall|k: int|
            0 <= k < new_places@.len() ==> (#[trigger] r.unwrap()@[k])@.name
                == new_places@[k].name@ && r.unwrap()@[k].id == next_id(old(table)@) + k
                && r.unwrap()@[k].deleted_at is None && r.unwrap()@[k].created_at
                == r.unwrap()@[k].updated_at,
        r is Err ==> final(table)@ == old(table)@,
{
    let t = now();
    create_places_at(table, new_places, &t)
}

/// Gives the place with the id of `place` its new name at the time `now`
/// and returns it as the store holds it. A deleted place is edited like a
/// live one.
pub fn edit_place_at(
    table: &mut PlaceTable,
    place: EditPlaceRow,
    now: &DateTime,
) -> (r: Result<Place, RepositoryError>)
    requires
        old(table).wf(),
        now.is_valid(),
    ensures
        final(table).wf(),
        final(table)@.len() == old(table)@.len(),
        place_edited(old(table)@, place.id, place.name@, *now, final(table)@, r),
        r is Ok ==> r.unwrap().is_valid(),
        r is Ok ==> r.unwrap().updated_at == *now,
        r is Ok ==> r.unwrap().id == place.id && r.unwrap()@.name == place.name@,
        r == Err::<Place, RepositoryError>(RepositoryError::NotFound) <==> position_of(
            old(table)@,
            place.id,
        ) is None,
        position_of(old(table)@, place.id) matches Some(i) ==> final(table)@[i].name
            == place.name@ && (place_of_row(old(table)@[i]) is Ok ==> r is Ok),
{
    proof {
        law_format_then_parse(*now);
        lemma_position_of(old(table)@, place.id);
    }
    match find(table, place.id) {
        None => Err(RepositoryError::NotFound),
        Some(i) => {
            let ghost before = row_views(table.rows@);
            let row = PlaceRow {
                id: table.rows[i].id,
                name: place.name,
                created_at: table.rows[i].created_at.clone(),
                updated_at: format_timestamp(now),
                deleted_at: clone_optional(&table.rows[i].deleted_at),
            };
            table.rows.set(i, row.clone());
            proof {
                assert(row@ == edited_row(before[i as int], place.name@, *now));
                assert(row_views(table.rows@) == before.update(i as int, row@));
            }
            match Place::try_from(row) {
                Ok(edited) => Ok(edited),
                Err(e) => Err(RepositoryError::Mapping(e)),
            }
        },
    }
}

/// Gives the place with the id of `place` its new name at the current time
/// of the clock and returns it as the store holds it.
pub fn edit_place(table: &mut PlaceTable, place: EditPlaceRow) -> (r: Result<
    Place,
    RepositoryError,
>)
    requires
        old(table).wf(),
    ensures
        final(table).wf(),
        final(table)@.len() == old(table)@.len(),
        exists|now: DateTime|
            now.is_valid() && #[trigger] place_edited(
                old(table)@,
                place.id,
                place.name@,
                now,
                final(table)@,
                r,
            ),
        r is Ok ==> r.unwrap().is_valid(),
        r is Ok ==> r.unwrap().id == place.id && r.unwrap()@.name == place.name@,
        r == Err::<Place, RepositoryError>(RepositoryError::NotFound) <==> position_of(
            old(table)@,
            place.id,
        ) is None,
        position_of(old(table)@, place.id) matches Some(i) ==> final(table)@[i].name
            == place.name@ && (place_of_row(old(table)@[i]) is Ok ==> r is Ok),
{
    let t = now();
    edit_place_at(table, place, &t)
}

/// Marks the live place with this id as deleted at the time `now`. The
/// answer tells whether a place was marked: a place that is deleted already
/// keeps its time of deletion.
pub fn delete_place_at(table: &mut PlaceTable, place_id: i32, now: &DateTime) -> (r: bool)
    requires
        old(table).wf(),
        now.is_valid(),
    ensures
        final(table).wf(),
        final(table)@.len() == old(table)@.len(),
        place_deleted(old(table)@, place_id, *now, final(table)@, r),
        r == outcome_of_delete(old(table)@, place_id),
        !r ==> final(table)@ == old(table)@,
{
    match find(table, place_id) {
        None => false,
        Some(i) => {
            if table.rows[i].deleted_at.is_some() {
                return false;
            }
            let ghost before = row_views(table.rows@);
            let row = PlaceRow {
                id: table.rows[i].id,
                name: table.rows[i].name.clone(),
                created_at: table.rows[i].created_at.clone(),
                updated_at: table.rows[i].updated_at.clone(),
                deleted_at: Some(format_timestamp(now)),
            };
            table.rows.set(i, row);
            proof {
                assert(row_views(table.rows@) == before.update(
                    i as int,
                    deleted_row(before[i as int], *now),
                ));
            }
            true
        },
    }
}

/// Marks the live place with this id as deleted at the current time of the
/// clock.
pub fn delete_place(table: &mut PlaceTable, place_id: i32) -> (r: bool)
    requires
        old(table).wf(),
    ensures
        final(table).wf(),
        final(table)@.len() == old(table)@.len(),
        exists|now: DateTime|
            now.is_valid() && #[trigger] place_deleted(
                old(table)@,
                place_id,
                now,
                final(table)@,
                r,
            ),
        r == outcome_of_delete(old(table)@, place_id),
        !r ==> final(table)@ == old(table)@,
{
    let t = now();
    delete_place_at(table, place_id, &t)
}

/// A listing shows every live place whose name contains the search text and
/// every live place whose id the search text writes.
pub proof fn law_listing_shows_matches(rows: Seq<PlaceRowView>, search: Seq<char>, i: int)
    requires
        0 <= i < rows.len(),
        is_live(rows[i]),
        search_accepts(search, rows[i].id, rows[i].name),
    ensures
        listed_rows(rows, search).contains(rows[i]),
    decreases rows.len(),
{
    let shorter = rows.drop_last();
    if i == rows.len() - 1 {
        let shown = listed_rows(rows, search);
        assert(shown[shown.len() - 1] == rows[i]);
    } else {
        law_listing_shows_matches(shorter, search, i);
        let k = choose|k: int|
            0 <= k < listed_rows(shorter, search).len() && listed_rows(shorter, search)[k]
                == shorter[i];
        assert(listed_rows(rows, search)[k] == rows[i]);
    }
}

/// The listing under the empty search shows every live place.
pub proof fn law_listing_shows_live_rows(rows: Seq<PlaceRowView>, i: int)
    requires
        0 <= i < rows.len(),
        is_live(rows[i]),
    ensures
        listed_rows(rows, Seq::<char>::empty()).contains(rows[i]),
{
    lemma_empty_search_accepts(rows[i].id, rows[i].name);
    law_listing_shows_matches(rows, Seq::<char>::empty(), i);
}

/// A listing shows only live rows of the table that answer the search.
pub proof fn law_listing_shows_only_matches(rows: Seq<PlaceRowView>, search: Seq<char>, k: int)
    requires
        0 <= k < listed_rows(rows, search).len(),
    ensures
        is_listed(listed_rows(rows, search)[k], search),
        rows.contains(listed_rows(rows, search)[k]),
    decreases rows.len(),
{
    let shorter = rows.drop_last();
    if rows.len() > 0 {
        if k < listed_rows(shorter, search).len() {
            law_listing_shows_only_matches(shorter, search, k);
            let j = choose|j: int|
                0 <= j < shorter.len() && shorter[j] == listed_rows(shorter, search)[k];
            assert(rows[j] == listed_rows(rows, search)[k]);
        } else {
            assert(rows[rows.len() - 1] == listed_rows(rows, search)[k]);
        }
    }
}

/// The places of rows stand one for one for the rows, in their order.
pub proof fn law_places_follow_rows(rows: Seq<PlaceRowView>)
    requires
        places_of_rows(rows) is Ok,
    ensures
        places_of_rows(rows).unwrap().len() == rows.len(),
        forall|k: int|
            0 <= k < rows.len() ==> place_of_row(#[trigger] rows[k]) == Ok::<
                PlaceView,
                MappingError,
            >(places_of_rows(rows).unwrap()[k]),
    decreases rows.len(),
{
    if rows.len() > 0 {
        law_places_follow_rows(rows.drop_last());
        let places = places_of_rows(rows).unwrap();
        let shorter = places_of_rows(rows.drop_last()).unwrap();
        assert forall|k: int| 0 <= k < rows.len() implies place_of_row(#[trigger] rows[k]) == Ok::<
            PlaceView,
            MappingError,
        >(places[k]) by {
            if k < rows.len() - 1 {
                assert(rows[k] == rows.drop_last()[k]);
                assert(places[k] == shorter[k]);
            }
        }
    }
}

/// After the deletion of a place no listing shows a place with its id,
/// whatever the search.
pub proof fn law_deleted_place_is_not_listed(
    before: Seq<PlaceRowView>,
    id: i32,
    now: DateTime,
    after: Seq<PlaceRowView>,
    r: bool,
    search: Seq<char>,
)
    requires
        ids_increasing(before),
        place_deleted(before, id, now, after, r),
    ensures
        forall|k: int|
            0 <= k < listed_rows(after, search).len() ==> (#[trigger] listed_rows(
                after,
                search,
            )[k]).id != id,
{
    lemma_position_of(before, id);
    assert forall|k: int| 0 <= k < listed_rows(after, search).len() implies (#[trigger] listed_rows(
        after,
        search,
    )[k]).id != id by {
        law_listing_shows_only_matches(after, search, k);
        let shown = listed_rows(after, search)[k];
        let j = choose|j: int| 0 <= j < after.len() && after[j] == shown;
        match position_of(before, id) {
            None => {
                assert(after[j] == before[j]);
            },
            Some(i) => {
                if j != i {
                    assert(after[j] == before[j]);
                    if j < i {
                        assert(before[j].id < before[i].id);
                    } else {
                        assert(before[i].id < before[j].id);
                    }
                }
            },
        }
    }
}

/// A created place has the name given, was never updated after its
/// creation and is not deleted. With an id left the creation succeeds and
/// both times are `now`. The rows that the table held stay as they are.
pub proof fn law_created_place(
    before: Seq<PlaceRowView>,
    name: Seq<char>,
    now: DateTime,
    after: Seq<PlaceRowView>,
    r: Result<Place, RepositoryError>,
)
    requires
        place_created(before, name, now, after, r),
    ensures
        r is Ok ==> r.unwrap()@.name == name && r.unwrap().id == next_id(before)
            && r.unwrap().created_at == r.unwrap().updated_at && r.unwrap().deleted_at is None,
        now.is_valid() && next_id(before) <= i32::MAX ==> r is Ok
            && r.unwrap().created_at == now,
        before.len() <= after.len() <= before.len() + 1,
        forall|k: int| 0 <= k < before.len() ==> after[k] == before[k],
{
    if now.is_valid() {
        law_format_then_parse(now);
    }
}

/// An edited place has the new name and `now` as its time of update. Where
/// it was created before `now`, it was updated strictly later than it was
/// created; where it was created no later than `now`, it was updated no
/// earlier than it was created.
pub proof fn law_edited_place(
    before: Seq<PlaceRowView>,
    id: i32,
    name: Seq<char>,
    now: DateTime,
    after: Seq<PlaceRowView>,
    r: Result<Place, RepositoryError>,
)
    requires
        place_edited(before, id, name, now, after, r),
        r is Ok,
    ensures
        r.unwrap().id == id,
        r.unwrap()@.name == name,
        now.is_valid() ==> r.unwrap().updated_at == now,
        now.is_valid() && r.unwrap().created_at.precedes(&now)
            ==> r.unwrap().created_at.precedes(&r.unwrap().updated_at),
        now.is_valid() && r.unwrap().created_at.not_after(&now) ==> r.unwrap().created_at.not_after(
            &r.unwrap().updated_at,
        ),
{
    lemma_position_of(before, id);
    if now.is_valid() {
        law_format_then_parse(now);
    }
}

/// Places created together come back one for each name, in the order
/// given, with consecutive ids, so no two of them share an id.
pub proof fn law_created_places(
    before: Seq<PlaceRowView>,
    names: Seq<Seq<char>>,
    now: DateTime,
    after: Seq<PlaceRowView>,
    r: Result<Vec<Place>, RepositoryError>,
)
    requires
        places_created(before, names, now, after, r),
        r is Ok,
    ensures
        r.unwrap()@.len() == names.len(),
        forall|k: int|
            0 <= k < names.len() ==> (#[trigger] r.unwrap()@[k])@.name == names[k]
                && r.unwrap()@[k].id == next_id(before) + k,
        forall|a: int, b: int|
            0 <= a < b < names.len() ==> r.unwrap()@[a].id != r.unwrap()@[b].id,
{
    let rows = created_rows(next_id(before), names, now);
    law_places_follow_rows(rows);
    let places = places_of_rows(rows).unwrap();
    assert forall|k: int| 0 <= k < names.len() implies (#[trigger] r.unwrap()@[k])@.name
        == names[k] && r.unwrap()@[k].id == next_id(before) + k by {
        assert(place_views(r.unwrap()@)[k] == r.unwrap()@[k]@);
        assert(place_of_row(rows[k]) == Ok::<PlaceView, MappingError>(places[k]));
    }
}

/// An edit or a deletion keeps every row in its position with its id and
/// its time of creation, and a time of deletion that is set stays as it is.
pub proof fn law_rows_keep_identity(
    before: Seq<PlaceRowView>,
    after: Seq<PlaceRowView>,
    id: i32,
    name: Seq<char>,
    now: DateTime,
    edited: Result<Place, RepositoryError>,
    deleted: bool,
)
    requires
        place_edited(before, id, name, now, after, edited) || place_deleted(
            before,
            id,
            now,
            after,
            deleted,
        ),
    ensures
        after.len() == before.len(),
        forall|k: int|
            0 <= k < before.len() ==> (#[trigger] after[k]).id == before[k].id
                && after[k].created_at == before[k].created_at && (before[k].deleted_at is Some
                ==> after[k].deleted_at == before[k].deleted_at),
{
    lemma_position_of(before, id);
}

/// A successful listing returns, for every live place of the table that
/// answers the search, the place that its row stands for.
pub proof fn law_listing_returns_matches(
    rows: Seq<PlaceRowView>,
    search: Seq<char>,
    r: Result<Vec<Place>, MappingError>,
    i: int,
)
    requires
        places_listed(rows, search, r),
        r is Ok,
        0 <= i < rows.len(),
        is_live(rows[i]),
        search_accepts(search, rows[i].id, rows[i].name),
    ensures
        exists|k: int|
            0 <= k < r.unwrap()@.len() && place_of_row(rows[i]) == Ok::<PlaceView, MappingError>(
                #[trigger] r.unwrap()@[k]@,
            ) && r.unwrap()@[k].id == rows[i].id && r.unwrap()@[k]@.name == rows[i].name,
{
    let shown = listed_rows(rows, search);
    law_listing_shows_matches(rows, search, i);
    law_places_follow_rows(shown);
    let k = choose|k: int| 0 <= k < shown.len() && shown[k] == rows[i];
    assert(place_of_row(shown[k]) == Ok::<PlaceView, MappingError>(
        places_of_rows(shown).unwrap()[k],
    ));
    assert(place_views(r.unwrap()@)[k] == r.unwrap()@[k]@);
}

/// After the deletion of a place a successful listing returns no place
/// with its id, whatever the search.
pub proof fn law_deleted_place_is_not_returned(
    before: Seq<PlaceRowView>,
    id: i32,
    now: DateTime,
    after: Seq<PlaceRowView>,
    deleted: bool,
    search: Seq<char>,
    r: Result<Vec<Place>, MappingError>,
)
    requires
        ids_increasing(before),
        place_deleted(before, id, now, after, deleted),
        places_listed(after, search, r),
        r is Ok,
    ensures
        forall|k: int| 0 <= k < r.unwrap()@.len() ==> (#[trigger] r.unwrap()@[k]).id != id,
{
    let shown = listed_rows(after, search);
    law_deleted_place_is_not_listed(before, id, now, after, deleted, search);
    law_places_follow_rows(shown);
    assert forall|k: int| 0 <= k < r.unwrap()@.len() implies (#[trigger] r.unwrap()@[k]).id
        != id by {
        assert(place_views(r.unwrap()@)[k] == r.unwrap()@[k]@);
        assert(place_of_row(shown[k]) == Ok::<PlaceView, MappingError>(
            places_of_rows(shown).unwrap()[k],
        ));
        assert(shown[k].id != id);
    }
}

/// Of two insertions that follow each other, whoever made them, each
/// succeeds while ids are left and returns the place with the name that it
/// inserted, the first with the id that the table gave it, and the two
/// places have different ids.
pub proof fn law_creations_return_their_own_places(
    before: Seq<PlaceRowView>,
    first_name: Seq<char>,
    second_name: Seq<char>,
    first_now: DateTime,
    second_now: DateTime,
    between: Seq<PlaceRowView>,
    after: Seq<PlaceRowView>,
    first: Result<Place, RepositoryError>,
    second: Result<Place, RepositoryError>,
)
    requires
        first_now.is_valid(),
        second_now.is_valid(),
        next_id(before) < i32::MAX,
        place_created(before, first_name, first_now, between, first),
        place_created(between, second_name, second_now, after, second),
    ensures
        first is Ok,
        second is Ok,
        first.unwrap()@.name == first_name,
        second.unwrap()@.name == second_name,
        first.unwrap().id == next_id(before),
        second.unwrap().id == first.unwrap().id + 1,
        first.unwrap().id != second.unwrap().id,
{
    law_format_then_parse(first_now);
    law_format_then_parse(second_now);
}

/// While the ids suffice, places created together at a valid time come
/// back one for each name, in the order given, each live and created at
/// `now`; their ids follow each other, none of them is an id that the table
/// held, and the table has one row more for each.
pub proof fn law_created_places_are_new(
    before: Seq<PlaceRowView>,
    names: Seq<Seq<char>>,
    now: DateTime,
    after: Seq<PlaceRowView>,
    r: Result<Vec<Place>, RepositoryError>,
)
    requires
        now.is_valid(),
        ids_increasing(before),
        next_id(before) + names.len() - 1 <= i32::MAX,
        places_created(before, names, now, after, r),
    ensures
        r is Ok,
        r.unwrap()@.len() == names.len(),
        after.len() == before.len() + names.len(),
        forall|k: int|
            0 <= k < names.len() ==> (#[trigger] r.unwrap()@[k])@.name == names[k]
                && r.unwrap()@[k].id == next_id(before) + k && r.unwrap()@[k].deleted_at is None
                && r.unwrap()@[k].created_at == now && r.unwrap()@[k].updated_at == now,
        forall|a: int, b: int|
            0 <= a < b < names.len() ==> r.unwrap()@[a].id != r.unwrap()@[b].id,
        forall|k: int, j: int|
            0 <= k < names.len() && 0 <= j < before.len() ==> (#[trigger] r.unwrap()@[k]).id
                != (#[trigger] before[j]).id,
{
    let rows = created_rows(next_id(before), names, now);
    lemma_created_rows_map(next_id(before), names, now);
    law_places_follow_rows(rows);
    law_format_then_parse(now);
    let places = places_of_rows(rows).unwrap();
    assert forall|k: int| 0 <= k < names.len() implies (#[trigger] r.unwrap()@[k])@.name
        == names[k] && r.unwrap()@[k].id == next_id(before) + k && r.unwrap()@[k].deleted_at
        is None && r.unwrap()@[k].created_at == now && r.unwrap()@[k].updated_at == now by {
        assert(place_views(r.unwrap()@)[k] == r.unwrap()@[k]@);
        assert(place_of_row(rows[k]) == Ok::<PlaceView, MappingError>(places[k]));
    }
    assert forall|k: int, j: int| 0 <= k < names.len() && 0 <= j < before.len() implies (
    #[trigger] r.unwrap()@[k]).id != (#[trigger] before[j]).id by {
        if j < before.len() - 1 {
            assert(before[j].id < before[before.len() - 1].id);
        }
    }
}

/// The edit of a place whose row maps succeeds at a valid time: it returns
/// the place with its id, the new name and `now` as its time of update,
/// and the row of the table holds the new name.
pub proof fn law_edit_of_a_mapped_place(
    before: Seq<PlaceRowView>,
    id: i32,
    name: Seq<char>,
    now: DateTime,
    after: Seq<PlaceRowView>,
    r: Result<Place, RepositoryError>,
)
    requires
        now.is_valid(),
        position_of(before, id) is Some,
        place_of_row(before[position_of(before, id).unwrap()]) is Ok,
        place_edited(before, id, name, now, after, r),
    ensures
        r is Ok,
        r.unwrap().id == id,
        r.unwrap()@.name == name,
        r.unwrap().updated_at == now,
        r.unwrap().created_at == place_of_row(
            before[position_of(before, id).unwrap()],
        ).unwrap().created_at,
        position_of(after, id) == position_of(before, id),
        after[position_of(before, id).unwrap()].name == name,
{
    lemma_position_of(before, id);
    lemma_position_of(after, id);
    law_format_then_parse(now);
    let i = position_of(before, id).unwrap();
    assert(after[i].id == id);
    assert forall|k: int| 0 <= k < i implies after[k].id != id by {
        assert(after[k].id == before[k].id);
    }
}

/// A place that is created and then deleted is shown by no listing: where
/// the listing of the table mapped before, it maps after as it did, to the
/// same places, and none of them has the id of the place.
pub proof fn law_created_then_deleted_place_is_not_listed(
    before: Seq<PlaceRowView>,
    name: Seq<char>,
    now: DateTime,
    later: DateTime,
    between: Seq<PlaceRowView>,
    after: Seq<PlaceRowView>,
    created: Result<Place, RepositoryError>,
    deleted: bool,
    search: Seq<char>,
    listed: Result<Vec<Place>, MappingError>,
)
    requires
        now.is_valid(),
        ids_increasing(before),
        next_id(before) <= i32::MAX,
        places_of_rows(listed_rows(before, search)) is Ok,
        place_created(before, name, now, between, created),
        created is Ok ==> place_deleted(between, created.unwrap().id, later, after, deleted),
        places_listed(after, search, listed),
    ensures
        created is Ok,
        deleted,
        listed_rows(after, search) == listed_rows(before, search),
        listed is Ok,
        forall|k: int|
            0 <= k < listed.unwrap()@.len() ==> (#[trigger] listed.unwrap()@[k]).id
                != created.unwrap().id,
{
    law_format_then_parse(now);
    let id = created.unwrap().id;
    let row = created_row(next_id(before) as i32, name, now);
    assert(between == before.push(row));
    assert(ids_increasing(between)) by {
        assert forall|a: int, b: int| 0 <= a < b < between.len() implies between[a].id
            < between[b].id by {
            if b < before.len() {
                assert(before[a].id < before[b].id);
            } else if a < before.len() - 1 {
                assert(before[a].id < before[before.len() - 1].id);
            }
        }
    }
    lemma_position_of(between, id);
    let i = position_of(between, id).unwrap();
    assert(i == before.len()) by {
        if i < before.len() {
            assert(between[i].id < between[before.len() as int].id);
        }
    }
    assert(after == before.push(deleted_row(row, later)));
    lemma_listed_rows_push(before, deleted_row(row, later), search);
    law_deleted_place_is_not_returned(between, id, later, after, deleted, search, listed);
}

} // verus!
