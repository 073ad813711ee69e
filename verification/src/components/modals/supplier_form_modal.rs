//! The form of a supplier.

use crate::components::modals::validation::{check_name, name_is_valid, name_message};
use crate::domain::supplier::{Supplier, SupplierView};
use crate::infra::models::{optional_text, EditSupplierRow, NewSupplierRow, SupplierRowView};
use crate::infra::repositories::supplier_repository::{
    create_supplier_at, edit_supplier_at, next_id, outcome_of_create, outcome_of_edit,
    rows_after_create, rows_after_edit, SupplierTable,
};
use crate::timestamp::{law_format_then_parse, now, DateTime};
use vstd::prelude::*;

verus! {

/// What the form has to say of each field, where it has anything to say.
#[derive(Debug)]
pub struct FormErrors {
    pub name: Option<String>,
}

impl Default for FormErrors {
    fn default() -> (errors: FormErrors)
        ensures
            errors.name is None,
    {
        FormErrors { name: None }
    }
}

/// The fields of a form that passed the check.
pub struct SupplierForm {
    name: String,
}

impl SupplierForm {
    /// The name that was entered.
    pub closed spec fn name_text(&self) -> Seq<char> {
        self.name@
    }

    /// The name that was entered.
    pub fn name(&self) -> (name: &String)
        ensures
            name@ == self.name_text(),
    {
        &self.name
    }
}

/// The form in which a supplier is entered or changed. `id` is the id of the
/// supplier that is changed, and `None` while a new supplier is entered.
pub struct SupplierFormModal {
    should_close: bool,
    id: Option<i32>,
    name: String,
    errors: FormErrors,
}

/// What a `SupplierFormModal` holds, as mathematical values.
pub struct SupplierFormModalView {
    pub should_close: bool,
    pub id: Option<i32>,
    pub name: Seq<char>,
    pub name_error: Option<Seq<char>>,
}

impl View for SupplierFormModal {
    type V = SupplierFormModalView;

    closed spec fn view(&self) -> SupplierFormModalView {
        SupplierFormModalView {
            should_close: self.should_close,
            id: self.id,
            name: self.name@,
            name_error: optional_text(self.errors.name),
        }
    }
}

/// The message under the name of a form that was checked.
pub open spec fn name_error_of(name: Seq<char>) -> Option<Seq<char>> {
    if name_is_valid(name) {
        None
    } else {
        Some("Name must contain at least two characters"@)
    }
}

/// The form after a check of its fields.
pub open spec fn checked(form: SupplierFormModalView) -> SupplierFormModalView {
    SupplierFormModalView { name_error: name_error_of(form.name), ..form }
}

/// The form after the press of Save: its messages are those of the check,
/// and it asks to be closed where the fields pass the check.
pub open spec fn form_after_save(form: SupplierFormModalView) -> SupplierFormModalView {
    if name_is_valid(form.name) {
        SupplierFormModalView { should_close: true, ..checked(form) }
    } else {
        checked(form)
    }
}

/// The table after the press of Save at `now`. Where the fields pass the
/// check, the supplier with the id of the form is changed, or a supplier is
/// created where the form has no id; otherwise the table stays as it is.
pub open spec fn rows_after_save(
    form: SupplierFormModalView,
    rows: Seq<SupplierRowView>,
    now: DateTime,
) -> Seq<SupplierRowView> {
    if !name_is_valid(form.name) {
        rows
    } else {
        match form.id {
            Some(id) => rows_after_edit(rows, id, form.name, now),
            None => rows_after_create(rows, form.name, now),
        }
    }
}

/// The supplier that the press of Save at `now` hands back: the changed or
/// created supplier, and none where the fields do not pass the check or the
/// repository fails.
pub open spec fn outcome_of_save(
    form: SupplierFormModalView,
    rows: Seq<SupplierRowView>,
    now: DateTime,
) -> Option<SupplierView> {
    if !name_is_valid(form.name) {
        None
    } else {
        let stored = match form.id {
            Some(id) => outcome_of_edit(rows, id, form.name, now),
            None => outcome_of_create(rows, form.name, now),
        };
        match stored {
            Ok(supplier) => Some(supplier),
            Err(_) => None,
        }
    }
}

/// What the press of Save at `now` does to the form and the table, and
/// hands back.
pub open spec fn form_saved(
    form: SupplierFormModalView,
    rows: Seq<SupplierRowView>,
    now: DateTime,
    form_after: SupplierFormModalView,
    rows_after: Seq<SupplierRowView>,
    saved: Option<Supplier>,
) -> bool {
    &&& form_after == form_after_save(form)
    &&& rows_after == rows_after_save(form, rows, now)
    &&& match outcome_of_save(form, rows, now) {
        Some(supplier) => saved is Some && saved.unwrap()@ == supplier,
        None => saved is None,
    }
}

/// The form as it opens: filled with the name of the supplier that is to be
/// changed, or empty for a new supplier.
pub open spec fn form_opened(supplier: Option<SupplierView>) -> SupplierFormModalView {
    match supplier {
        Some(supplier) => SupplierFormModalView {
            should_close: false,
            id: Some(supplier.id),
            name: supplier.name,
            name_error: None,
        },
        None => SupplierFormModalView {
            should_close: false,
            id: None,
            name: Seq::empty(),
            name_error: None,
        },
    }
}

impl SupplierFormModal {
    /// The form of an existing supplier, filled with its name, or the empty
    /// form of a new supplier.
    pub fn new(supplier: Option<&Supplier>) -> (form: SupplierFormModal)
        ensures
            form@ == form_opened(
                match supplier {
                    Some(supplier) => Some(supplier@),
                    None => None,
                },
            ),
    {
        let errors = FormErrors::default();
        let should_close = false;
        match supplier {
            Some(supplier) => SupplierFormModal {
                should_close,
                errors,
                id: Some(supplier.id),
                name: supplier.name.clone(),
            },
            None => SupplierFormModal { should_close, errors, id: None, name: String::new() },
        }
    }

    /// Checks the fields. A name of fewer than two characters gets its
    /// message and fails the check; otherwise the fields come back.
    pub fn validate_form(&mut self) -> (r: Option<SupplierForm>)
        ensures
            final(self)@ == checked(old(self)@),
            r is Some <==> name_is_valid(old(self)@.name),
            r is Some ==> r.unwrap().name_text() == old(self)@.name,
            r is None <==> final(self)@.name_error is Some,
    {
        self.errors = FormErrors::default();
        if check_name(self.name.as_str()) {
            Some(SupplierForm { name: self.name.clone() })
        } else {
            self.errors.name = Some(name_message());
            None
        }
    }

    /// Whether the form asks to be closed.
    pub fn should_close(&self) -> (r: bool)
        ensures
            r == self@.should_close,
    {
        self.should_close
    }

    /// The id of the supplier that the form changes.
    pub fn id(&self) -> (r: Option<i32>)
        ensures
            r == self@.id,
    {
        self.id
    }

    /// The name as it stands in the form.
    pub fn name(&self) -> (r: &String)
        ensures
            r@ == self@.name,
    {
        &self.name
    }

    /// What the form has to say of its fields.
    pub fn errors(&self) -> (r: &FormErrors)
        ensures
            optional_text(r.name) == self@.name_error,
    {
        &self.errors
    }

    /// Takes what the user typed as the name.
    pub fn set_name(&mut self, name: String)
        ensures
            final(self)@ == (SupplierFormModalView { name: name@, ..old(self)@ }),
    {
        self.name = name;
    }

    /// The press of Cancel, or a request to close from outside the form.
    pub fn cancel(&mut self)
        ensures
            final(self)@ == (SupplierFormModalView { should_close: true, ..old(self)@ }),
    {
        self.should_close = true;
    }

    /// The press of Save at the time `now`.
    pub fn save_at(&mut self, table: &mut SupplierTable, now: &DateTime) -> (saved: Option<Supplier>)
        requires
            old(table).wf(),
            now.is_valid(),
        ensures
            final(table).wf(),
            form_saved(old(self)@, old(table)@, *now, final(self)@, final(table)@, saved),
            saved is Some ==> saved.unwrap().is_valid(),
    {
        match self.validate_form() {
            None => None,
            Some(fields) => {
                let outcome = match self.id {
                    Some(id) => edit_supplier_at(table, EditSupplierRow { id, name: fields.name }, now),
                    None => create_supplier_at(table, NewSupplierRow { name: fields.name }, now),
                };
                self.should_close = true;
                match outcome {
                    Ok(supplier) => Some(supplier),
                    Err(_) => None,
                }
            },
        }
    }

    /// The press of Save at the current time of the clock.
    pub fn save(&mut self, table: &mut SupplierTable) -> (saved: Option<Supplier>)
        requires
            old(table).wf(),
        ensures
            final(table).wf(),
            exists|now: DateTime|
                now.is_valid() && #[trigger] form_saved(
                    old(self)@,
                    old(table)@,
                    now,
                    final(self)@,
                    final(table)@,
                    saved,
                ),
            saved is Some ==> saved.unwrap().is_valid(),
    {
        let t = now();
        self.save_at(table, &t)
    }
}

/// A form passes the check exactly where the check leaves no message: a
/// name that fails its rule is always named.
pub proof fn law_failures_are_reported(form: SupplierFormModalView)
    ensures
        name_is_valid(form.name) <==> checked(form).name_error is None,
{
}

/// The press of Save on the form of a new supplier with a name of at least
/// two characters creates the supplier while an id is left: the supplier that
/// comes back has the name of the form, is live and was created at `now`,
/// the table has one row more, and the form asks to be closed.
pub proof fn law_save_creates_the_supplier(
    form: SupplierFormModalView,
    rows: Seq<SupplierRowView>,
    now: DateTime,
)
    requires
        now.is_valid(),
        form.id is None,
        name_is_valid(form.name),
        next_id(rows) <= i32::MAX,
    ensures
        outcome_of_save(form, rows, now) is Some,
        outcome_of_save(form, rows, now).unwrap().name == form.name,
        outcome_of_save(form, rows, now).unwrap().id == next_id(rows),
        outcome_of_save(form, rows, now).unwrap().deleted_at is None,
        outcome_of_save(form, rows, now).unwrap().created_at == now,
        outcome_of_save(form, rows, now).unwrap().updated_at == now,
        rows_after_save(form, rows, now).len() == rows.len() + 1,
        form_after_save(form).should_close,
{
    law_format_then_parse(now);
}

/// The press of Save on a form whose name has fewer than two characters
/// changes nothing in the table, hands nothing back, leaves the form open
/// and names the field.
pub proof fn law_save_of_a_failing_form(
    form: SupplierFormModalView,
    rows: Seq<SupplierRowView>,
    now: DateTime,
)
    requires
        !name_is_valid(form.name),
    ensures
        rows_after_save(form, rows, now) == rows,
        outcome_of_save(form, rows, now) is None,
        form_after_save(form).should_close == form.should_close,
        form_after_save(form).name_error is Some,
{
}

} // verus!
