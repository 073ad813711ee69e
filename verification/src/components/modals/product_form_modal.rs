//! The form of a product.

use crate::components::modals::validation::{
    check_min_stock, check_name, min_stock_is_valid, min_stock_message,
    min_stock_range_message, name_is_valid, name_message,
};
use crate::domain::product::{Product, ProductView};
use crate::infra::models::{
    optional_text, EditProductRow, EditProductRowView, NewProductRow, NewProductRowView,
    ProductRowView,
};
use crate::infra::repositories::product_repository::{
    create_product_at, edit_product_at, next_id, outcome_of_create, outcome_of_edit,
    rows_after_create, rows_after_edit, ProductTable,
};
use crate::text::{
    i32_to_string, integer_text, law_integer_text_round_trip, parse_i32, parse_i32_spec,
};
use crate::timestamp::{law_format_then_parse, now, DateTime};
use vstd::prelude::*;

verus! {

/// What the form has to say of each field, where it has anything to say.
#[derive(Debug)]
pub struct FormErrors {
    pub name: Option<String>,
    pub min_stock: Option<String>,
}

impl Default for FormErrors {
    fn default() -> (errors: FormErrors)
        ensures
            errors.name is None,
            errors.min_stock is None,
    {
        FormErrors { name: None, min_stock: None }
    }
}

/// The fields of a form that passed the check.
pub struct ProductForm {
    name: String,
    unity: &'static str,
    brand: String,
    min_stock: i32,
    observation: String,
}

/// What a `ProductForm` holds, as mathematical values.
pub struct ProductFormView {
    pub name: Seq<char>,
    pub unity: Seq<char>,
    pub brand: Seq<char>,
    pub min_stock: i32,
    pub observation: Seq<char>,
}

impl View for ProductForm {
    type V = ProductFormView;

    closed spec fn view(&self) -> ProductFormView {
        ProductFormView {
            name: self.name@,
            unity: self.unity@,
            brand: self.brand@,
            min_stock: self.min_stock,
            observation: self.observation@,
        }
    }
}

impl ProductForm {
    /// The name that was entered.
    pub fn name(&self) -> (r: &String)
        ensures
            r@ == self@.name,
    {
        &self.name
    }

    /// The unit of measure that was chosen.
    pub fn unity(&self) -> (r: &'static str)
        ensures
            r@ == self@.unity,
    {
        self.unity
    }

    /// The brand that was entered.
    pub fn brand(&self) -> (r: &String)
        ensures
            r@ == self@.brand,
    {
        &self.brand
    }

    /// The minimum stock that was entered.
    pub fn min_stock(&self) -> (r: i32)
        ensures
            r == self@.min_stock,
    {
        self.min_stock
    }

    /// The observation that was entered.
    pub fn observation(&self) -> (r: &String)
        ensures
            r@ == self@.observation,
    {
        &self.observation
    }
}

/// The form in which a product is entered or changed. `id` is the id of
/// the product that is changed, and `None` while a new product is entered.
/// The minimum stock is held as the user typed it.
#[derive(Debug)]
pub struct ProductFormModal {
    should_close: bool,
    id: Option<i32>,
    name: String,
    brand: String,
    unity: &'static str,
    min_stock: String,
    observation: String,
    errors: FormErrors,
}

/// What a `ProductFormModal` holds, as mathematical values.
pub struct ProductFormModalView {
    pub should_close: bool,
    pub id: Option<i32>,
    pub name: Seq<char>,
    pub brand: Seq<char>,
    pub unity: Seq<char>,
    pub min_stock: Seq<char>,
    pub observation: Seq<char>,
    pub name_error: Option<Seq<char>>,
    pub min_stock_error: Option<Seq<char>>,
}

impl View for ProductFormModal {
    type V = ProductFormModalView;

    closed spec fn view(&self) -> ProductFormModalView {
        ProductFormModalView {
            should_close: self.should_close,
            id: self.id,
            name: self.name@,
            brand: self.brand@,
            unity: self.unity@,
            min_stock: self.min_stock@,
            observation: self.observation@,
            name_error: optional_text(self.errors.name),
            min_stock_error: optional_text(self.errors.min_stock),
        }
    }
}

/// The text of an optional field in a form: empty where the field is not
/// set.
pub open spec fn text_or_empty(value: Option<Seq<char>>) -> Seq<char> {
    match value {
        Some(text) => text,
        None => Seq::empty(),
    }
}

/// The message under the name of a form that was checked.
pub open spec fn name_error_of(name: Seq<char>) -> Option<Seq<char>> {
    if name_is_valid(name) {
        None
    } else {
        Some("Name must contain at least two characters"@)
    }
}

/// The message under the minimum stock of a form that was checked: one
/// for a text that is no integer, another for an integer below 0, and none
/// for an integer that is not negative.
pub open spec fn min_stock_error_of(min_stock: Seq<char>) -> Option<Seq<char>> {
    match parse_i32_spec(min_stock) {
        None => Some("Min stock should be a valide integer"@),
        Some(value) => if min_stock_is_valid(value) {
            None
        } else {
            Some("Min stock must not be negative"@)
        },
    }
}

/// The minimum stock that the form holds: the integer that was typed, and
/// -1 where the text is no integer.
pub open spec fn min_stock_of(min_stock: Seq<char>) -> i32 {
    match parse_i32_spec(min_stock) {
        Some(value) => value,
        None => -1i32,
    }
}

/// Whether the fields of the form pass the check: the name has at least two
/// characters and the minimum stock is an integer that is not negative.
pub open spec fn passes(form: ProductFormModalView) -> bool {
    name_is_valid(form.name) && min_stock_is_valid(min_stock_of(form.min_stock))
}

/// The form after a check of its fields: every field that fails its rule
/// carries its message, and no other field carries one.
pub open spec fn checked(form: ProductFormModalView) -> ProductFormModalView {
    ProductFormModalView {
        name_error: name_error_of(form.name),
        min_stock_error: min_stock_error_of(form.min_stock),
        ..form
    }
}

/// The fields of a form that passes the check.
pub open spec fn fields_of(form: ProductFormModalView) -> ProductFormView {
    ProductFormView {
        name: form.name,
        unity: form.unity,
        brand: form.brand,
        min_stock: min_stock_of(form.min_stock),
        observation: form.observation,
    }
}

/// The new product that the fields of a form describe: every field is set.
pub open spec fn new_product_of(fields: ProductFormView) -> NewProductRowView {
    NewProductRowView {
        name: fields.name,
        unity: Some(fields.unity),
        brand: Some(fields.brand),
        min_stock: Some(fields.min_stock),
        observation: Some(fields.observation),
    }
}

/// The change that the fields of a form describe: every field is set.
pub open spec fn change_of(id: i32, fields: ProductFormView) -> EditProductRowView {
    EditProductRowView {
        id,
        name: fields.name,
        unity: Some(fields.unity),
        brand: Some(fields.brand),
        min_stock: Some(fields.min_stock),
        observation: Some(fields.observation),
    }
}

/// The form after the press of Save: its messages are those of the check,
/// and it asks to be closed where the fields pass the check.
pub open spec fn form_after_save(form: ProductFormModalView) -> ProductFormModalView {
    if passes(form) {
        ProductFormModalView { should_close: true, ..checked(form) }
    } else {
        checked(form)
    }
}

/// The table after the press of Save at `now`. Where the fields pass the
/// check, the product with the id of the form is changed, or a product is
/// created where the form has no id; otherwise the table stays as it is.
pub open spec fn rows_after_save(
    form: ProductFormModalView,
    rows: Seq<ProductRowView>,
    now: DateTime,
) -> Seq<ProductRowView> {
    if !passes(form) {
        rows
    } else {
        match form.id {
            Some(id) => rows_after_edit(rows, change_of(id, fields_of(form)), now),
            None => rows_after_create(rows, new_product_of(fields_of(form)), now),
        }
    }
}

/// The product that the press of Save at `now` hands back: the changed or
/// created product, and none where the fields do not pass the check or the
/// repository fails.
pub open spec fn outcome_of_save(
    form: ProductFormModalView,
    rows: Seq<ProductRowView>,
    now: DateTime,
) -> Option<ProductView> {
    if !passes(form) {
        None
    } else {
        let stored = match form.id {
            Some(id) => outcome_of_edit(rows, change_of(id, fields_of(form)), now),
            None => outcome_of_create(rows, new_product_of(fields_of(form)), now),
        };
        match stored {
            Ok(product) => Some(product),
            Err(_) => None,
        }
    }
}

/// What the press of Save at `now` does to the form and the table, and
/// hands back.
pub open spec fn form_saved(
    form: ProductFormModalView,
    rows: Seq<ProductRowView>,
    now: DateTime,
    form_after: ProductFormModalView,
    rows_after: Seq<ProductRowView>,
    saved: Option<Product>,
) -> bool {
    &&& form_after == form_after_save(form)
    &&& rows_after == rows_after_save(form, rows, now)
    &&& match outcome_of_save(form, rows, now) {
        Some(product) => saved is Some && saved.unwrap()@ == product,
        None => saved is None,
    }
}

/// The form as it opens: filled with the fields of the product that is to
/// be changed, or empty for a new product. The unit of measure is "un".
pub open spec fn form_opened(product: Option<ProductView>) -> ProductFormModalView {
    match product {
        Some(product) => ProductFormModalView {
            should_close: false,
            id: Some(product.id),
            name: product.name,
            brand: text_or_empty(product.brand),
            unity: "un"@,
            min_stock: integer_text(product.min_stock as int),
            observation: text_or_empty(product.observation),
            name_error: None,
            min_stock_error: None,
        },
        None => ProductFormModalView {
            should_close: false,
            id: None,
            name: Seq::empty(),
            brand: Seq::empty(),
            unity: "un"@,
            min_stock: Seq::empty(),
            observation: Seq::empty(),
            name_error: None,
            min_stock_error: None,
        },
    }
}

/// The text of an optional field, empty where the field is not set.
fn or_empty(value: &Option<String>) -> (text: String)
    ensures
        text@ == text_or_empty(optional_text(*value)),
{
    match value {
        Some(text) => text.clone(),
        None => String::new(),
    }
}

impl ProductFormModal {
    /// The form of an existing product, filled with its fields, or the
    /// empty form of a new product. The unit of measure is always "un".
    pub fn new(product: Option<&Product>) -> (form: ProductFormModal)
        ensures
            form@ == form_opened(
                match product {
                    Some(product) => Some(product@),
                    None => None,
                },
            ),
    {
        let errors = FormErrors::default();
        let should_close = false;
        match product {
            Some(prod) => ProductFormModal {
                should_close,
                errors,
                id: Some(prod.id),
                name: prod.name.clone(),
                brand: or_empty(&prod.brand),
                unity: "un",
                min_stock: i32_to_string(prod.min_stock),
                observation: or_empty(&prod.observation),
            },
            None => ProductFormModal {
                should_close,
                errors,
                id: None,
                name: String::new(),
                brand: String::new(),
                unity: "un",
                min_stock: String::new(),
                observation: String::new(),
            },
        }
    }

    /// Checks the fields. A name of fewer than two characters gets its
    /// message; so does a minimum stock that is no integer, and one that is
    /// below 0. The check fails where a field got a message; otherwise the
    /// fields come back.
    pub fn validate_form(&mut self) -> (r: Option<ProductForm>)
        ensures
            final(self)@ == checked(old(self)@),
            r is Some <==> passes(old(self)@),
            r is Some ==> r.unwrap()@ == fields_of(old(self)@),
            final(self)@.name_error is Some <==> !name_is_valid(old(self)@.name),
            final(self)@.min_stock_error is Some <==> !min_stock_is_valid(
                min_stock_of(old(self)@.min_stock),
            ),
            r is None <==> final(self)@.name_error is Some || final(self)@.min_stock_error
                is Some,
    {
        self.errors = FormErrors::default();
        let min_stock: i32 = match parse_i32(self.min_stock.as_str()) {
            Some(value) => value,
            None => {
                self.errors.min_stock = Some(min_stock_message());
                -1
            },
        };
        let name_passes = check_name(self.name.as_str());
        let min_stock_passes = check_min_stock(min_stock);
        if self.errors.min_stock.is_none() && !min_stock_passes {
            self.errors.min_stock = Some(min_stock_range_message());
        }
        if name_passes && min_stock_passes {
            Some(
                ProductForm {
                    name: self.name.clone(),
                    brand: self.brand.clone(),
                    min_stock,
                    unity: self.unity,
                    observation: self.observation.clone(),
                },
            )
        } else {
            if !name_passes {
                self.errors.name = Some(name_message());
            }
            None
        }
    }

    /// Whether the form asks to be closed.
    pub fn should_close(&self) -> (r: bool)
        ensures
            r == self@.should_close,
    {
        self.should_close
    }

    /// The id of the product that the form changes.
    pub fn id(&self) -> (r: Option<i32>)
        ensures
            r == self@.id,
    {
        self.id
    }

    /// The name as it stands in the form.
    pub fn name(&self) -> (r: &String)
        ensures
            r@ == self@.name,
    {
        &self.name
    }

    /// The brand as it stands in the form.
    pub fn brand(&self) -> (r: &String)
        ensures
            r@ == self@.brand,
    {
        &self.brand
    }

    /// The unit of measure that is chosen.
    pub fn unity(&self) -> (r: &'static str)
        ensures
            r@ == self@.unity,
    {
        self.unity
    }

    /// The minimum stock as it stands in the form.
    pub fn min_stock(&self) -> (r: &String)
        ensures
            r@ == self@.min_stock,
    {
        &self.min_stock
    }

    /// The observation as it stands in the form.
    pub fn observation(&self) -> (r: &String)
        ensures
            r@ == self@.observation,
    {
        &self.observation
    }

    /// What the form has to say of its fields.
    pub fn errors(&self) -> (r: &FormErrors)
        ensures
            optional_text(r.name) == self@.name_error,
            optional_text(r.min_stock) == self@.min_stock_error,
    {
        &self.errors
    }

    /// Takes what the user typed as the name.
    pub fn set_name(&mut self, name: String)
        ensures
            final(self)@ == (ProductFormModalView { name: name@, ..old(self)@ }),
    {
        self.name = name;
    }

    /// Takes what the user typed as the brand.
    pub fn set_brand(&mut self, brand: String)
        ensures
            final(self)@ == (ProductFormModalView { brand: brand@, ..old(self)@ }),
    {
        self.brand = brand;
    }

    /// Takes the unit of measure that the user chose.
    pub fn set_unity(&mut self, unity: &'static str)
        ensures
            final(self)@ == (ProductFormModalView { unity: unity@, ..old(self)@ }),
    {
        self.unity = unity;
    }

    /// Takes what the user typed as the minimum stock.
    pub fn set_min_stock(&mut self, min_stock: String)
        ensures
            final(self)@ == (ProductFormModalView { min_stock: min_stock@, ..old(self)@ }),
    {
        self.min_stock = min_stock;
    }

    /// Takes what the user typed as the observation.
    pub fn set_observation(&mut self, observation: String)
        ensures
            final(self)@ == (ProductFormModalView { observation: observation@, ..old(self)@ }),
    {
        self.observation = observation;
    }

    /// The press of Cancel, or a request to close from outside the form.
    pub fn cancel(&mut self)
        ensures
            final(self)@ == (ProductFormModalView { should_close: true, ..old(self)@ }),
    {
        self.should_close = true;
    }

    /// The press of Save at the time `now`.
    pub fn save_at(&mut self, table: &mut ProductTable, now: &DateTime) -> (saved: Option<Product>)
        requires
            old(table).wf(),
            now.is_valid(),
        ensures
            final(table).wf(),
            form_saved(old(self)@, old(table)@, *now, final(self)@, final(table)@, saved),
            saved is Some ==> saved.unwrap().is_valid(),
    {
        match self.validate_form() {
            None => None,
            Some(fields) => {
                let outcome = match self.id {
                    Some(id) => edit_product_at(
                        table,
                        EditProductRow {
                            id,
                            name: fields.name,
                            unity: Some(String::from_str(fields.unity)),
                            brand: Some(fields.brand),
                            min_stock: Some(fields.min_stock),
                            observation: Some(fields.observation),
                        },
                        now,
                    ),
                    None => create_product_at(
                        table,
                        NewProductRow {
                            name: fields.name,
                            unity: Some(String::from_str(fields.unity)),
                            brand: Some(fields.brand),
                            min_stock: Some(fields.min_stock),
                            observation: Some(fields.observation),
                        },
                        now,
                    ),
                };
                self.should_close = true;
                match outcome {
                    Ok(product) => Some(product),
                    Err(_) => None,
                }
            },
        }
    }

    /// The press of Save at the current time of the clock.
    pub fn save(&mut self, table: &mut ProductTable) -> (saved: Option<Product>)
        requires
            old(table).wf(),
        ensures
            final(table).wf(),
            exists|now: DateTime|
                now.is_valid() && #[trigger] form_saved(
                    old(self)@,
                    old(table)@,
                    now,
                    final(self)@,
                    final(table)@,
                    saved,
                ),
            saved is Some ==> saved.unwrap().is_valid(),
    {
        let t = now();
        self.save_at(table, &t)
    }
}

/// The form that opens on a product whose name has at least two characters
/// and whose minimum stock is not negative passes the check as it stands,
/// with the minimum stock of the product.
pub proof fn law_opened_form_passes(product: ProductView)
    requires
        name_is_valid(product.name),
        min_stock_is_valid(product.min_stock),
    ensures
        passes(form_opened(Some(product))),
        fields_of(form_opened(Some(product))).name == product.name,
        fields_of(form_opened(Some(product))).min_stock == product.min_stock,
{
    law_integer_text_round_trip(product.min_stock as int);
}

/// A form passes the check exactly where the check leaves no message: a
/// field that fails its rule is always named.
pub proof fn law_failures_are_reported(form: ProductFormModalView)
    ensures
        passes(form) <==> checked(form).name_error is None && checked(form).min_stock_error
            is None,
        !name_is_valid(form.name) <==> checked(form).name_error is Some,
        !min_stock_is_valid(min_stock_of(form.min_stock)) <==> checked(form).min_stock_error
            is Some,
{
}

/// The press of Save on the form of a new product that passes the check
/// creates the product while an id is left: the product that comes back has
/// the fields of the form, is live and was created at `now`, the table has
/// one row more, and the form asks to be closed.
pub proof fn law_save_creates_the_product(
    form: ProductFormModalView,
    rows: Seq<ProductRowView>,
    now: DateTime,
)
    requires
        now.is_valid(),
        form.id is None,
        passes(form),
        next_id(rows) <= i32::MAX,
    ensures
        outcome_of_save(form, rows, now) is Some,
        outcome_of_save(form, rows, now).unwrap().name == form.name,
        outcome_of_save(form, rows, now).unwrap().min_stock == min_stock_of(form.min_stock),
        outcome_of_save(form, rows, now).unwrap().id == next_id(rows),
        outcome_of_save(form, rows, now).unwrap().deleted_at is None,
        outcome_of_save(form, rows, now).unwrap().created_at == now,
        outcome_of_save(form, rows, now).unwrap().updated_at == now,
        rows_after_save(form, rows, now).len() == rows.len() + 1,
        form_after_save(form).should_close,
{
    law_format_then_parse(now);
}

/// The press of Save on a form that fails the check changes nothing in the
/// table, hands nothing back, leaves the form open and names a field that
/// fails.
pub proof fn law_save_of_a_failing_form(
    form: ProductFormModalView,
    rows: Seq<ProductRowView>,
    now: DateTime,
)
    requires
        !passes(form),
    ensures
        rows_after_save(form, rows, now) == rows,
        outcome_of_save(form, rows, now) is None,
        form_after_save(form).should_close == form.should_close,
        form_after_save(form).name_error is Some || form_after_save(form).min_stock_error
            is Some,
        !min_stock_is_valid(min_stock_of(form.min_stock)) ==> form_after_save(
            form,
        ).min_stock_error is Some,
        !name_is_valid(form.name) ==> form_after_save(form).name_error is Some,
{
}

} // verus!
