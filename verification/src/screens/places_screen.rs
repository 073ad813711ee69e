//! The screen of the places: the list that is shown, the search that
//! narrows it, the form that is open, the place whose deletion waits for an
//! answer and the failure that waits to be shown.

use crate::components::modals::place_form_modal::{
    form_after_save, form_opened, outcome_of_save, rows_after_save, PlaceFormModal,
    PlaceFormModalView,
};
use crate::domain::place::{Place, PlaceView};
use crate::infra::models::{optional_text, NewPlaceRow, PlaceRowView};
use crate::infra::repositories::place_repository::{
    create_places_at, delete_place_at, list_places, listed_rows, new_names, outcome_of_batch,
    place_views, places_of_rows, rows_after_batch, rows_after_delete, PlaceTable,
};
use crate::timestamp::{now, DateTime};
use vstd::prelude::*;

verus! {

/// The screen of the places.
pub struct PlacesScreen {
    pub places: Vec<Place>,
    pub place_form_modal: Option<PlaceFormModal>,
    pub place_to_delete: Option<Place>,
    pub error: Option<String>,
    pub search: String,
}

/// What a `PlacesScreen` holds, as mathematical values.
pub struct PlacesScreenView {
    pub places: Seq<PlaceView>,
    pub form: Option<PlaceFormModalView>,
    pub to_delete: Option<PlaceView>,
    pub error: Option<Seq<char>>,
    pub search: Seq<char>,
}

impl View for PlacesScreen {
    type V = PlacesScreenView;

    open spec fn view(&self) -> PlacesScreenView {
        PlacesScreenView {
            places: place_views(self.places@),
            form: match self.place_form_modal {
                Some(form) => Some(form@),
                None => None,
            },
            to_delete: match self.place_to_delete {
                Some(place) => Some(place@),
                None => None,
            },
            error: optional_text(self.error),
            search: self.search@,
        }
    }
}

/// The position of the first place with this id.
pub open spec fn first_with_id(places: Seq<PlaceView>, id: i32) -> Option<int>
    decreases places.len(),
{
    if places.len() == 0 {
        None
    } else {
        match first_with_id(places.drop_last(), id) {
            Some(i) => Some(i),
            None => if places.last().id == id {
                Some(places.len() - 1)
            } else {
                None
            },
        }
    }
}

/// The list without the first place that has this id.
pub open spec fn without_id(places: Seq<PlaceView>, id: i32) -> Seq<PlaceView> {
    match first_with_id(places, id) {
        Some(i) => places.remove(i),
        None => places,
    }
}

/// The list with a place put where the first with its id stands, or added
/// at the end where none has its id.
pub open spec fn upserted(places: Seq<PlaceView>, place: PlaceView) -> Seq<PlaceView> {
    match first_with_id(places, place.id) {
        Some(i) => places.update(i, place),
        None => places.push(place),
    }
}

/// The places that the screen shows for a table under a search: the live
/// ones that answer it, or none where the listing fails.
pub open spec fn places_shown(rows: Seq<PlaceRowView>, search: Seq<char>) -> Seq<PlaceView> {
    match places_of_rows(listed_rows(rows, search)) {
        Ok(places) => places,
        Err(_) => Seq::empty(),
    }
}

/// The screen as it opens on a table: the live places, the empty search,
/// no form, no deletion that waits and no failure.
pub open spec fn screen_opened(rows: Seq<PlaceRowView>, screen: PlacesScreenView) -> bool {
    screen == PlacesScreenView {
        places: places_shown(rows, Seq::empty()),
        form: None,
        to_delete: None,
        error: None,
        search: Seq::empty(),
    }
}

/// What an import handed over: the names of the places read from the
/// sheet, or the failure to read it.
pub open spec fn import_view(imported: Result<Vec<NewPlaceRow>, String>) -> Result<
    Seq<Seq<char>>,
    Seq<char>,
> {
    match imported {
        Ok(new_places) => Ok(new_names(new_places@)),
        Err(failure) => Err(failure@),
    }
}

/// What taking in the outcome of an import does at `now`. The places read
/// from a sheet are inserted together and added to the list unless the
/// repository failed; a failure to read the sheet waits to be shown.
pub open spec fn places_imported(
    before: PlacesScreenView,
    rows: Seq<PlaceRowView>,
    imported: Result<Seq<Seq<char>>, Seq<char>>,
    now: DateTime,
    after: PlacesScreenView,
    rows_after: Seq<PlaceRowView>,
) -> bool {
    match imported {
        Err(failure) => rows_after == rows && after == (PlacesScreenView {
            error: Some(failure),
            ..before
        }),
        Ok(names) => rows_after == rows_after_batch(rows, names, now) && after == (
        PlacesScreenView {
            places: match outcome_of_batch(rows, names, now) {
                Ok(created) => before.places + created,
                Err(_) => before.places,
            },
            ..before
        }),
    }
}

/// What the answer "yes" to the question of deletion does at `now`: the
/// place that waits is deleted in the table and taken off the list, and
/// nothing waits any more.
pub open spec fn deletion_confirmed(
    before: PlacesScreenView,
    rows: Seq<PlaceRowView>,
    now: DateTime,
    after: PlacesScreenView,
    rows_after: Seq<PlaceRowView>,
) -> bool {
    match before.to_delete {
        None => after == before && rows_after == rows,
        Some(place) => rows_after == rows_after_delete(rows, place.id, now) && after == (
        PlacesScreenView {
            places: without_id(before.places, place.id),
            to_delete: None,
            ..before
        }),
    }
}

/// Whether the press of Save closes the form: its fields pass the check.
pub open spec fn closes(form: PlaceFormModalView) -> bool {
    form_after_save(form).should_close
}

/// What the press of Save in the open form does at `now`: the form saves,
/// and where it then asks to be closed it is closed and the saved place is
/// put into the list.
pub open spec fn form_submitted(
    before: PlacesScreenView,
    rows: Seq<PlaceRowView>,
    now: DateTime,
    after: PlacesScreenView,
    rows_after: Seq<PlaceRowView>,
) -> bool {
    match before.form {
        None => after == before && rows_after == rows,
        Some(form) => rows_after == rows_after_save(form, rows, now) && after == (if closes(
            form,
        ) {
            PlacesScreenView {
                form: None,
                places: match outcome_of_save(form, rows, now) {
                    Some(place) => upserted(before.places, place),
                    None => before.places,
                },
                ..before
            }
        } else {
            PlacesScreenView { form: Some(form_after_save(form)), ..before }
        }),
    }
}

/// `first_with_id` finds the first place with the id, and none only
/// where no place has it.
pub proof fn lemma_first_with_id(places: Seq<PlaceView>, id: i32)
    ensures
        match first_with_id(places, id) {
            Some(i) => 0 <= i < places.len() && places[i].id == id && forall|k: int|
                0 <= k < i ==> places[k].id != id,
            None => forall|k: int| 0 <= k < places.len() ==> places[k].id != id,
        },
    decreases places.len(),
{
    if places.len() > 0 {
        lemma_first_with_id(places.drop_last(), id);
        assert forall|k: int| 0 <= k < places.len() - 1 implies places[k]
            == places.drop_last()[k] by {}
    }
}

/// The position of the first place with this id.
fn position(places: &Vec<Place>, id: i32) -> (r: Option<usize>)
    ensures
        match r {
            Some(i) => first_with_id(place_views(places@), id) == Some(i as int) && i
                < places.len(),
            None => first_with_id(place_views(places@), id) is None,
        },
{
    let ghost views = place_views(places@);
    let n: usize = places.len();
    let mut i: usize = 0;
    while i < n
        invariant
            0 <= i <= n,
            n == places.len(),
            views == place_views(places@),
            forall|k: int| 0 <= k < i ==> views[k].id != id,
        decreases n - i,
    {
        if places[i].id == id {
            proof {
                assert(views[i as int].id == id);
                lemma_first_with_id(views, id);
            }
            return Some(i);
        }
        i = i + 1;
    }
    proof {
        lemma_first_with_id(views, id);
    }
    None
}

/// Takes the first place with this id off the list.
fn remove_by_id(places: &mut Vec<Place>, id: i32)
    ensures
        place_views(final(places)@) == without_id(place_views(old(places)@), id),
{
    match position(places, id) {
        Some(i) => {
            let ghost before = place_views(places@);
            places.remove(i);
            assert(place_views(places@) == before.remove(i as int));
        },
        None => {},
    }
}

/// Puts a place where the first with its id stands, or adds it at the end
/// where none has its id.
fn upsert(places: &mut Vec<Place>, place: Place)
    ensures
        place_views(final(places)@) == upserted(place_views(old(places)@), place@),
{
    let ghost before = place_views(places@);
    match position(places, place.id) {
        Some(i) => {
            places.set(i, place);
            assert(place_views(places@) == before.update(i as int, place@));
        },
        None => {
            places.push(place);
            assert(place_views(places@) == before.push(place@));
        },
    }
}

impl PlacesScreen {
    /// The live places of the table that answer the search, and none where
    /// the listing fails.
    pub fn get_places_list(table: &PlaceTable, search: &str) -> (places: Vec<Place>)
        ensures
            place_views(places@) == places_shown(table@, search@),
    {
        let places = match list_places(table, search) {
            Ok(places) => places,
            Err(_) => Vec::new(),
        };
        assert(place_views(places@) == places_shown(table@, search@));
        places
    }

    /// The screen as it opens: it lists the live places of the table.
    pub fn new(table: &PlaceTable) -> (screen: PlacesScreen)
        ensures
            screen_opened(table@, screen@),
    {
        let places = PlacesScreen::get_places_list(table, "");
        proof {
            reveal_strlit("");
            assert(""@ =~= Seq::<char>::empty());
        }
        PlacesScreen {
            places,
            place_form_modal: None,
            place_to_delete: None,
            error: None,
            search: String::new(),
        }
    }

    /// A change of the search text: the list is read anew under it.
    pub fn search_changed(&mut self, table: &PlaceTable, search: String)
        ensures
            final(self)@ == (PlacesScreenView {
                places: places_shown(table@, search@),
                search: search@,
                ..old(self)@
            }),
    {
        self.places = PlacesScreen::get_places_list(table, search.as_str());
        self.search = search;
    }

    /// Takes in the outcome of an import at the time `now`.
    pub fn import_at(
        &mut self,
        table: &mut PlaceTable,
        imported: Result<Vec<NewPlaceRow>, String>,
        now: &DateTime,
    )
        requires
            old(table).wf(),
            now.is_valid(),
        ensures
            final(table).wf(),
            places_imported(
                old(self)@,
                old(table)@,
                import_view(imported),
                *now,
                final(self)@,
                final(table)@,
            ),
    {
        match imported {
            Ok(new_places) => {
                let ghost before = place_views(self.places@);
                let outcome = create_places_at(table, new_places.as_slice(), now);
                match outcome {
                    Ok(mut created) => {
                        let ghost added = place_views(created@);
                        self.places.append(&mut created);
                        assert(place_views(self.places@) == before + added);
                    },
                    Err(_) => {},
                }
            },
            Err(failure) => {
                self.error = Some(failure);
            },
        }
    }

    /// Takes in the outcome of an import at the current time of the clock.
    pub fn import(&mut self, table: &mut PlaceTable, imported: Result<Vec<NewPlaceRow>, String>)
        requires
            old(table).wf(),
        ensures
            final(table).wf(),
            exists|now: DateTime|
                now.is_valid() && #[trigger] places_imported(
                    old(self)@,
                    old(table)@,
                    import_view(imported),
                    now,
                    final(self)@,
                    final(table)@,
                ),
    {
        let t = now();
        self.import_at(table, imported, &t)
    }

    /// The press of OK under the failure: it is shown no more.
    pub fn dismiss_error(&mut self)
        ensures
            final(self)@ == (PlacesScreenView { error: None, ..old(self)@ }),
    {
        self.error = None;
    }

    /// The press of "Add Place": the empty form opens.
    pub fn add_place(&mut self)
        ensures
            final(self)@ == (PlacesScreenView { form: Some(form_opened(None)), ..old(self)@ }),
    {
        self.place_form_modal = Some(PlaceFormModal::new(None));
    }

    /// The press of "Edit" in a row of the list: the form of that place
    /// opens.
    pub fn edit_place(&mut self, index: usize)
        requires
            index < old(self).places.len(),
        ensures
            final(self)@ == (PlacesScreenView {
                form: Some(form_opened(Some(old(self).places[index as int]@))),
                ..old(self)@
            }),
    {
        self.place_form_modal = Some(PlaceFormModal::new(Some(&self.places[index])));
    }

    /// The press of "Delete" in a row of the list: the question of deletion
    /// is put for that place.
    pub fn ask_delete(&mut self, index: usize)
        requires
            index < old(self).places.len(),
        ensures
            final(self)@ == (PlacesScreenView {
                to_delete: Some(old(self).places[index as int]@),
                ..old(self)@
            }),
    {
        self.place_to_delete = Some(self.places[index].clone());
    }

    /// The answer "no" to the question of deletion.
    pub fn cancel_delete(&mut self)
        ensures
            final(self)@ == (PlacesScreenView { to_delete: None, ..old(self)@ }),
    {
        self.place_to_delete = None;
    }

    /// The answer "yes" to the question of deletion, at the time `now`.
    pub fn confirm_delete_at(&mut self, table: &mut PlaceTable, now: &DateTime)
        requires
            old(table).wf(),
            now.is_valid(),
        ensures
            final(table).wf(),
            deletion_confirmed(old(self)@, old(table)@, *now, final(self)@, final(table)@),
    {
        let id: i32 = match &self.place_to_delete {
            None => {
                return ;
            },
            Some(place) => place.id,
        };
        delete_place_at(table, id, now);
        remove_by_id(&mut self.places, id);
        self.place_to_delete = None;
    }

    /// The answer "yes" to the question of deletion, at the current time of
    /// the clock.
    pub fn confirm_delete(&mut self, table: &mut PlaceTable)
        requires
            old(table).wf(),
        ensures
            final(table).wf(),
            exists|now: DateTime|
                now.is_valid() && #[trigger] deletion_confirmed(
                    old(self)@,
                    old(table)@,
                    now,
                    final(self)@,
                    final(table)@,
                ),
    {
        let t = now();
        self.confirm_delete_at(table, &t)
    }

    /// The press of Cancel in the open form: the form closes.
    pub fn cancel_form(&mut self)
        ensures
            final(self)@ == (PlacesScreenView { form: None, ..old(self)@ }),
    {
        self.place_form_modal = None;
    }

    /// The press of Save in the open form, at the time `now`.
    pub fn save_form_at(&mut self, table: &mut PlaceTable, now: &DateTime)
        requires
            old(table).wf(),
            now.is_valid(),
        ensures
            final(table).wf(),
            form_submitted(old(self)@, old(table)@, *now, final(self)@, final(table)@),
    {
        let mut form = match self.place_form_modal.take() {
            None => {
                return ;
            },
            Some(form) => form,
        };
        let saved = form.save_at(table, now);
        if form.should_close() {
            match saved {
                Some(place) => {
                    upsert(&mut self.places, place);
                },
                None => {},
            }
        } else {
            self.place_form_modal = Some(form);
        }
    }

    /// The press of Save in the open form, at the current time of the
    /// clock.
    pub fn save_form(&mut self, table: &mut PlaceTable)
        requires
            old(table).wf(),
        ensures
            final(table).wf(),
            exists|now: DateTime|
                now.is_valid() && #[trigger] form_submitted(
                    old(self)@,
                    old(table)@,
                    now,
                    final(self)@,
                    final(table)@,
                ),
    {
        let t = now();
        self.save_form_at(table, &t)
    }
}

} // verus!
