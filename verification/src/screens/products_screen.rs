//! The screen of the products: the list that is shown, the form that is
//! open and the product whose deletion waits for an answer.

use crate::components::modals::product_form_modal::{
    form_after_save, form_opened, outcome_of_save, rows_after_save, ProductFormModal,
    ProductFormModalView,
};
use crate::domain::product::{Product, ProductView};
use crate::infra::models::{NewProductRow, NewProductRowView, ProductRowView};
use crate::infra::repositories::product_repository::{
    create_product_at, delete_product_at, list_products, listed_rows, outcome_of_create,
    product_views, products_of_rows, rows_after_create, rows_after_delete, ProductTable,
};
use crate::text::{decimal, push_decimal};
use crate::timestamp::{now, DateTime};
use vstd::prelude::*;

verus! {

/// What can happen on the screen of the products.
#[derive(Debug, Clone)]
pub enum ProductsScreenMessage {
    /// A product with a numbered name is to be created.
    Create,
    /// The product with this id is to be deleted.
    Delete(i32),
}

/// The screen of the products.
pub struct ProductsScreen {
    pub products: Vec<Product>,
    pub product_form_modal: Option<ProductFormModal>,
    pub product_to_delete: Option<Product>,
}

/// What a `ProductsScreen` holds, as mathematical values.
pub struct ProductsScreenView {
    pub products: Seq<ProductView>,
    pub form: Option<ProductFormModalView>,
    pub to_delete: Option<ProductView>,
}

impl View for ProductsScreen {
    type V = ProductsScreenView;

    open spec fn view(&self) -> ProductsScreenView {
        ProductsScreenView {
            products: product_views(self.products@),
            form: match self.product_form_modal {
                Some(form) => Some(form@),
                None => None,
            },
            to_delete: match self.product_to_delete {
                Some(product) => Some(product@),
                None => None,
            },
        }
    }
}

/// The position of the first product with this id.
pub open spec fn first_with_id(products: Seq<ProductView>, id: i32) -> Option<int>
    decreases products.len(),
{
    if products.len() == 0 {
        None
    } else {
        match first_with_id(products.drop_last(), id) {
            Some(i) => Some(i),
            None => if products.last().id == id {
                Some(products.len() - 1)
            } else {
                None
            },
        }
    }
}

/// The list without the first product that has this id.
pub open spec fn without_id(products: Seq<ProductView>, id: i32) -> Seq<ProductView> {
    match first_with_id(products, id) {
        Some(i) => products.remove(i),
        None => products,
    }
}

/// The list with a product put where the first with its id stands, or
/// added at the end where none has its id.
pub open spec fn upserted(products: Seq<ProductView>, product: ProductView) -> Seq<ProductView> {
    match first_with_id(products, product.id) {
        Some(i) => products.update(i, product),
        None => products.push(product),
    }
}

/// The products that the screen shows for a table: the live ones, or none
/// where the listing fails.
pub open spec fn products_shown(rows: Seq<ProductRowView>) -> Seq<ProductView> {
    match products_of_rows(listed_rows(rows, Seq::empty())) {
        Ok(products) => products,
        Err(_) => Seq::empty(),
    }
}

/// The screen as it opens on a table: the live products, no form, no
/// deletion that waits.
pub open spec fn screen_opened(rows: Seq<ProductRowView>, screen: ProductsScreenView) -> bool {
    screen == ProductsScreenView { products: products_shown(rows), form: None, to_delete: None }
}

/// The product that the message `Create` asks for when the list holds
/// `count` products.
pub open spec fn numbered_product(count: nat) -> NewProductRowView {
    NewProductRowView {
        name: "Product "@ + decimal(count),
        unity: Some("un"@),
        brand: Some("Brand X"@),
        min_stock: None,
        observation: None,
    }
}

/// The table after a message received at `now`: `Create` inserts the
/// numbered product, `Delete` deletes the product with the id.
pub open spec fn rows_after_update(
    before: ProductsScreenView,
    rows: Seq<ProductRowView>,
    message: ProductsScreenMessage,
    now: DateTime,
) -> Seq<ProductRowView> {
    match message {
        ProductsScreenMessage::Create => rows_after_create(
            rows,
            numbered_product(before.products.len()),
            now,
        ),
        ProductsScreenMessage::Delete(id) => rows_after_delete(rows, id, now),
    }
}

/// The screen after a message received at `now`: `Create` adds the
/// inserted product to the list unless the repository failed, `Delete`
/// takes the first product with the id off the list.
pub open spec fn screen_after_update(
    before: ProductsScreenView,
    rows: Seq<ProductRowView>,
    message: ProductsScreenMessage,
    now: DateTime,
) -> ProductsScreenView {
    match message {
        ProductsScreenMessage::Create => ProductsScreenView {
            products: match outcome_of_create(rows, numbered_product(before.products.len()), now) {
                Ok(product) => before.products.push(product),
                Err(_) => before.products,
            },
            ..before
        },
        ProductsScreenMessage::Delete(id) => ProductsScreenView {
            products: without_id(before.products, id),
            ..before
        },
    }
}

/// What a message received at `now` does to the screen and the table.
pub open spec fn screen_updated(
    before: ProductsScreenView,
    rows: Seq<ProductRowView>,
    message: ProductsScreenMessage,
    now: DateTime,
    after: ProductsScreenView,
    rows_after: Seq<ProductRowView>,
) -> bool {
    after == screen_after_update(before, rows, message, now) && rows_after == rows_after_update(
        before,
        rows,
        message,
        now,
    )
}

/// What the answer "yes" to the question of deletion does at `now`: the
/// product that waits is deleted in the table and taken off the list, and
/// nothing waits any more.
pub open spec fn deletion_confirmed(
    before: ProductsScreenView,
    rows: Seq<ProductRowView>,
    now: DateTime,
    after: ProductsScreenView,
    rows_after: Seq<ProductRowView>,
) -> bool {
    match before.to_delete {
        None => after == before && rows_after == rows,
        Some(product) => rows_after == rows_after_delete(rows, product.id, now) && after == (
        ProductsScreenView {
            products: without_id(before.products, product.id),
            to_delete: None,
            ..before
        }),
    }
}

/// Whether the press of Save closes the form: its fields pass the check.
pub open spec fn closes(form: ProductFormModalView) -> bool {
    form_after_save(form).should_close
}

/// What the press of Save in the open form does at `now`: the form saves,
/// and where it then asks to be closed it is closed and the saved product
/// is put into the list.
pub open spec fn form_submitted(
    before: ProductsScreenView,
    rows: Seq<ProductRowView>,
    now: DateTime,
    after: ProductsScreenView,
    rows_after: Seq<ProductRowView>,
) -> bool {
    match before.form {
        None => after == before && rows_after == rows,
        Some(form) => rows_after == rows_after_save(form, rows, now) && after == (if closes(
            form,
        ) {
            ProductsScreenView {
                form: None,
                products: match outcome_of_save(form, rows, now) {
                    Some(product) => upserted(before.products, product),
                    None => before.products,
                },
                ..before
            }
        } else {
            ProductsScreenView { form: Some(form_after_save(form)), ..before }
        }),
    }
}

/// `first_with_id` finds the first product with the id, and none only
/// where no product has it.
pub proof fn lemma_first_with_id(products: Seq<ProductView>, id: i32)
    ensures
        match first_with_id(products, id) {
            Some(i) => 0 <= i < products.len() && products[i].id == id && forall|k: int|
                0 <= k < i ==> products[k].id != id,
            None => forall|k: int| 0 <= k < products.len() ==> products[k].id != id,
        },
    decreases products.len(),
{
    if products.len() > 0 {
        lemma_first_with_id(products.drop_last(), id);
        assert forall|k: int| 0 <= k < products.len() - 1 implies products[k]
            == products.drop_last()[k] by {}
    }
}

/// The position of the first product with this id.
fn position(products: &Vec<Product>, id: i32) -> (r: Option<usize>)
    ensures
        match r {
            Some(i) => first_with_id(product_views(products@), id) == Some(i as int) && i
                < products.len(),
            None => first_with_id(product_views(products@), id) is None,
        },
{
    let ghost views = product_views(products@);
    let n: usize = products.len();
    let mut i: usize = 0;
    while i < n
        invariant
            0 <= i <= n,
            n == products.len(),
            views == product_views(products@),
            forall|k: int| 0 <= k < i ==> views[k].id != id,
        decreases n - i,
    {
        if products[i].id == id {
            proof {
                assert(views[i as int].id == id);
                lemma_first_with_id(views, id);
            }
            return Some(i);
        }
        i = i + 1;
    }
    proof {
        lemma_first_with_id(views, id);
    }
    None
}

/// Takes the first product with this id off the list.
fn remove_by_id(products: &mut Vec<Product>, id: i32)
    ensures
        product_views(final(products)@) == without_id(product_views(old(products)@), id),
{
    match position(products, id) {
        Some(i) => {
            let ghost before = product_views(products@);
            products.remove(i);
            assert(product_views(products@) == before.remove(i as int));
        },
        None => {},
    }
}

/// Puts a product where the first with its id stands, or adds it at the
/// end where none has its id.
fn upsert(products: &mut Vec<Product>, product: Product)
    ensures
        product_views(final(products)@) == upserted(product_views(old(products)@), product@),
{
    let ghost before = product_views(products@);
    match position(products, product.id) {
        Some(i) => {
            products.set(i, product);
            assert(product_views(products@) == before.update(i as int, product@));
        },
        None => {
            products.push(product);
            assert(product_views(products@) == before.push(product@));
        },
    }
}

impl ProductsScreen {
    /// The screen as it opens: it lists the live products of the table,
    /// and none where the listing fails.
    pub fn new(table: &ProductTable) -> (screen: ProductsScreen)
        ensures
            screen_opened(table@, screen@),
    {
        let products = match list_products(table, "") {
            Ok(products) => products,
            Err(_) => Vec::new(),
        };
        proof {
            reveal_strlit("");
            assert(""@ =~= Seq::<char>::empty());
        }
        assert(product_views(products@) == products_shown(table@));
        ProductsScreen { products, product_form_modal: None, product_to_delete: None }
    }

    /// Takes a message at the time `now`.
    pub fn update_at(
        &mut self,
        table: &mut ProductTable,
        message: ProductsScreenMessage,
        now: &DateTime,
    )
        requires
            old(table).wf(),
            now.is_valid(),
        ensures
            final(table).wf(),
            screen_updated(old(self)@, old(table)@, message, *now, final(self)@, final(table)@),
    {
        match message {
            ProductsScreenMessage::Create => {
                proof {
                    reveal_strlit("Product ");
                }
                let mut name = String::from_str("Product ");
                push_decimal(&mut name, self.products.len() as u64);
                let new_product = NewProductRow {
                    name,
                    unity: Some(String::from_str("un")),
                    brand: Some(String::from_str("Brand X")),
                    min_stock: None,
                    observation: None,
                };
                assert(new_product@ == numbered_product(old(self)@.products.len()));
                let ghost before = product_views(self.products@);
                let outcome = create_product_at(table, new_product, now);
                match outcome {
                    Ok(product) => {
                        self.products.push(product);
                        assert(product_views(self.products@) == before.push(product@));
                    },
                    Err(_) => {},
                }
            },
            ProductsScreenMessage::Delete(product_id) => {
                delete_product_at(table, product_id, now);
                remove_by_id(&mut self.products, product_id);
            },
        }
    }

    /// Takes a message at the current time of the clock.
    pub fn update(&mut self, table: &mut ProductTable, message: ProductsScreenMessage)
        requires
            old(table).wf(),
        ensures
            final(table).wf(),
            exists|now: DateTime|
                now.is_valid() && #[trigger] screen_updated(
                    old(self)@,
                    old(table)@,
                    message,
                    now,
                    final(self)@,
                    final(table)@,
                ),
    {
        let t = now();
        self.update_at(table, message, &t)
    }

    /// The press of "Add Product": the empty form opens.
    pub fn add_product(&mut self)
        ensures
            final(self)@ == (ProductsScreenView { form: Some(form_opened(None)), ..old(self)@ }),
    {
        self.product_form_modal = Some(ProductFormModal::new(None));
    }

    /// The press of "Edit" in a row of the list: the form of that product
    /// opens.
    pub fn edit_product(&mut self, index: usize)
        requires
            index < old(self).products.len(),
        ensures
            final(self)@ == (ProductsScreenView {
                form: Some(form_opened(Some(old(self).products[index as int]@))),
                ..old(self)@
            }),
    {
        self.product_form_modal = Some(ProductFormModal::new(Some(&self.products[index])));
    }

    /// The press of "Delete" in a row of the list: the question of deletion
    /// is put for that product.
    pub fn ask_delete(&mut self, index: usize)
        requires
            index < old(self).products.len(),
        ensures
            final(self)@ == (ProductsScreenView {
                to_delete: Some(old(self).products[index as int]@),
                ..old(self)@
            }),
    {
        self.product_to_delete = Some(self.products[index].clone());
    }

    /// The answer "no" to the question of deletion.
    pub fn cancel_delete(&mut self)
        ensures
            final(self)@ == (ProductsScreenView { to_delete: None, ..old(self)@ }),
    {
        self.product_to_delete = None;
    }

    /// The answer "yes" to the question of deletion, at the time `now`.
    pub fn confirm_delete_at(&mut self, table: &mut ProductTable, now: &DateTime)
        requires
            old(table).wf(),
            now.is_valid(),
        ensures
            final(table).wf(),
            deletion_confirmed(old(self)@, old(table)@, *now, final(self)@, final(table)@),
    {
        let id: i32 = match &self.product_to_delete {
            None => {
                return ;
            },
            Some(product) => product.id,
        };
        delete_product_at(table, id, now);
        remove_by_id(&mut self.products, id);
        self.product_to_delete = None;
    }

    /// The answer "yes" to the question of deletion, at the current time of
    /// the clock.
    pub fn confirm_delete(&mut self, table: &mut ProductTable)
        requires
            old(table).wf(),
        ensures
            final(table).wf(),
            exists|now: DateTime|
                now.is_valid() && #[trigger] deletion_confirmed(
                    old(self)@,
                    old(table)@,
                    now,
                    final(self)@,
                    final(table)@,
                ),
    {
        let t = now();
        self.confirm_delete_at(table, &t)
    }

    /// The press of Cancel in the open form: the form closes.
    pub fn cancel_form(&mut self)
        ensures
            final(self)@ == (ProductsScreenView { form: None, ..old(self)@ }),
    {
        self.product_form_modal = None;
    }

    /// The press of Save in the open form, at the time `now`.
    pub fn save_form_at(&mut self, table: &mut ProductTable, now: &DateTime)
        requires
            old(table).wf(),
            now.is_valid(),
        ensures
            final(table).wf(),
            form_submitted(old(self)@, old(table)@, *now, final(self)@, final(table)@),
    {
        let mut form = match self.product_form_modal.take() {
            None => {
                return ;
            },
            Some(form) => form,
        };
        let saved = form.save_at(table, now);
        if form.should_close() {
            match saved {
                Some(product) => {
                    upsert(&mut self.products, product);
                },
                None => {},
            }
        } else {
            self.product_form_modal = Some(form);
        }
    }

    /// The press of Save in the open form, at the current time of the
    /// clock.
    pub fn save_form(&mut self, table: &mut ProductTable)
        requires
            old(table).wf(),
        ensures
            final(table).wf(),
            exists|now: DateTime|
                now.is_valid() && #[trigger] form_submitted(
                    old(self)@,
                    old(table)@,
                    now,
                    final(self)@,
                    final(table)@,
                ),
    {
        let t = now();
        self.save_form_at(table, &t)
    }
}

} // verus!
