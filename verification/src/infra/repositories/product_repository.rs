//! The repository of products: the table of their rows and the operations
//! that list, fetch, create, edit and soft-delete them.

use crate::domain::mapping::MappingError;
use crate::domain::product::{product_of_row, Product, ProductView};
use crate::infra::models::{
    clone_optional, optional_text, EditProductRow, EditProductRowView, NewProductRow,
    NewProductRowView, ProductRow, ProductRowView,
};
use crate::infra::repositories::error::RepositoryError;
use crate::infra::search::{lemma_empty_search_accepts, search_accepts, SearchFilter};
use crate::timestamp::{format_timestamp, law_format_then_parse, now, DateTime};
use vstd::prelude::*;

verus! {

/// What a sequence of rows holds.
pub open spec fn row_views(rows: Seq<ProductRow>) -> Seq<ProductRowView> {
    rows.map_values(|row: ProductRow| row@)
}

/// What a sequence of products holds.
pub open spec fn product_views(products: Seq<Product>) -> Seq<ProductView> {
    products.map_values(|product: Product| product@)
}

/// Whether the timestamps of all the products are dates and times of the
/// calendar.
pub open spec fn all_valid(products: Seq<Product>) -> bool {
    forall|i: int| 0 <= i < products.len() ==> (#[trigger] products[i]).is_valid()
}

/// Every row has a larger id than the rows before it, so no id occurs twice.
pub open spec fn ids_increasing(rows: Seq<ProductRowView>) -> bool {
    forall|i: int, j: int| 0 <= i < j < rows.len() ==> rows[i].id < rows[j].id
}

/// A live row is one that was not deleted.
pub open spec fn is_live(row: ProductRowView) -> bool {
    row.deleted_at is None
}

/// Whether a listing under `search` shows the row.
pub open spec fn is_listed(row: ProductRowView, search: Seq<char>) -> bool {
    is_live(row) && search_accepts(search, row.id, row.name)
}

/// The rows that a listing under `search` shows, in the order of the table.
pub open spec fn listed_rows(rows: Seq<ProductRowView>, search: Seq<char>) -> Seq<
    ProductRowView,
>
    decreases rows.len(),
{
    if rows.len() == 0 {
        rows
    } else if is_listed(rows.last(), search) {
        listed_rows(rows.drop_last(), search).push(rows.last())
    } else {
        listed_rows(rows.drop_last(), search)
    }
}

/// The products that the rows stand for, or the failure of the first row
/// that does not map.
pub open spec fn products_of_rows(rows: Seq<ProductRowView>) -> Result<
    Seq<ProductView>,
    MappingError,
>
    decreases rows.len(),
{
    if rows.len() == 0 {
        Ok(Seq::empty())
    } else {
        match products_of_rows(rows.drop_last()) {
            Err(e) => Err(e),
            Ok(products) => match product_of_row(rows.last()) {
                Err(e) => Err(e),
                Ok(product) => Ok(products.push(product)),
            },
        }
    }
}

/// The position of the first row with this id.
pub open spec fn position_of(rows: Seq<ProductRowView>, id: i32) -> Option<int>
    decreases rows.len(),
{
    if rows.len() == 0 {
        None
    } else {
        match position_of(rows.drop_last(), id) {
            Some(i) => Some(i),
            None => if rows.last().id == id {
                Some(rows.len() - 1)
            } else {
                None
            },
        }
    }
}

/// The id that the next inserted row gets: 1 in an empty table, else one
/// more than the last id.
pub open spec fn next_id(rows: Seq<ProductRowView>) -> int {
    if rows.len() == 0 {
        1
    } else {
        rows.last().id + 1
    }
}

/// The row of a product inserted at `now`. A product that came without a
/// minimum stock gets 0.
pub open spec fn created_row(
    id: i32,
    new_product: NewProductRowView,
    now: DateTime,
) -> ProductRowView {
    ProductRowView {
        id,
        name: new_product.name,
        unity: new_product.unity,
        brand: new_product.brand,
        min_stock: match new_product.min_stock {
            Some(min_stock) => min_stock,
            None => 0,
        },
        observation: new_product.observation,
        created_at: now.text(),
        updated_at: now.text(),
        deleted_at: None,
    }
}

/// The rows of products inserted together at `now`, the first with `first_id`.
pub open spec fn created_rows(
    first_id: int,
    new_products: Seq<NewProductRowView>,
    now: DateTime,
) -> Seq<ProductRowView> {
    Seq::new(
        new_products.len(),
        |i: int| created_row((first_id + i) as i32, new_products[i], now),
    )
}

/// The new value of an optional column: the change, or the old value where
/// the change leaves the column out.
pub open spec fn changed_text(old_value: Option<Seq<char>>, change: Option<Seq<char>>) -> Option<
    Seq<char>,
> {
    match change {
        Some(text) => Some(text),
        None => old_value,
    }
}

/// A row after an edit at `now`: the name is set, and so is every further
/// column that the change holds.
pub open spec fn edited_row(
    row: ProductRowView,
    change: EditProductRowView,
    now: DateTime,
) -> ProductRowView {
    ProductRowView {
        name: change.name,
        unity: changed_text(row.unity, change.unity),
        brand: changed_text(row.brand, change.brand),
        min_stock: match change.min_stock {
            Some(min_stock) => min_stock,
            None => row.min_stock,
        },
        observation: changed_text(row.observation, change.observation),
        updated_at: now.text(),
        ..row
    }
}

/// A row after its deletion at `now`.
pub open spec fn deleted_row(row: ProductRowView, now: DateTime) -> ProductRowView {
    ProductRowView { deleted_at: Some(now.text()), ..row }
}

/// A failure to map as a failure of the repository.
pub open spec fn lifted(expected: Result<ProductView, MappingError>) -> Result<
    ProductView,
    RepositoryError,
> {
    match expected {
        Ok(product) => Ok(product),
        Err(e) => Err(RepositoryError::Mapping(e)),
    }
}

/// Whether `r` returns the product that `expected` describes, or its
/// failure.
pub open spec fn returns_product(
    r: Result<Product, RepositoryError>,
    expected: Result<ProductView, RepositoryError>,
) -> bool {
    match expected {
        Ok(product) => r is Ok && r.unwrap()@ == product,
        Err(e) => r == Err::<Product, RepositoryError>(e),
    }
}

/// Whether `r` returns the products that `expected` describes, in their
/// order, or its failure.
pub open spec fn returns_products(
    r: Result<Vec<Product>, RepositoryError>,
    expected: Result<Seq<ProductView>, RepositoryError>,
) -> bool {
    match expected {
        Ok(products) => r is Ok && product_views(r.unwrap()@) == products,
        Err(e) => r == Err::<Vec<Product>, RepositoryError>(e),
    }
}

/// What a listing under `search` does on a table that holds `rows`.
pub open spec fn products_listed(
    rows: Seq<ProductRowView>,
    search: Seq<char>,
    r: Result<Vec<Product>, MappingError>,
) -> bool {
    match products_of_rows(listed_rows(rows, search)) {
        Ok(products) => r is Ok && product_views(r.unwrap()@) == products,
        Err(e) => r == Err::<Vec<Product>, MappingError>(e),
    }
}

/// The table after the insertion of a product at `now`: one more row, with
/// the next id, the fields given, both timestamps at `now` and no deletion.
/// Where no id is left, the table stays as it is.
pub open spec fn rows_after_create(
    before: Seq<ProductRowView>,
    new_product: NewProductRowView,
    now: DateTime,
) -> Seq<ProductRowView> {
    if next_id(before) > i32::MAX {
        before
    } else {
        before.push(created_row(next_id(before) as i32, new_product, now))
    }
}

/// What the insertion of a product at `now` returns: the product of the
/// inserted row, or the failure that no id is left.
pub open spec fn outcome_of_create(
    before: Seq<ProductRowView>,
    new_product: NewProductRowView,
    now: DateTime,
) -> Result<ProductView, RepositoryError> {
    if next_id(before) > i32::MAX {
        Err(RepositoryError::Constraint)
    } else {
        lifted(product_of_row(created_row(next_id(before) as i32, new_product, now)))
    }
}

/// What the insertion of a product does to the table and returns.
pub open spec fn product_created(
    before: Seq<ProductRowView>,
    new_product: NewProductRowView,
    now: DateTime,
    after: Seq<ProductRowView>,
    r: Result<Product, RepositoryError>,
) -> bool {
    after == rows_after_create(before, new_product, now) && returns_product(
        r,
        outcome_of_create(before, new_product, now),
    )
}

/// The table after the insertion of several products at `now`: one more
/// row for each of them, in the order given, with consecutive ids. Where
/// the ids do not suffice for all, the table stays as it is.
pub open spec fn rows_after_batch(
    before: Seq<ProductRowView>,
    new_products: Seq<NewProductRowView>,
    now: DateTime,
) -> Seq<ProductRowView> {
    if next_id(before) + new_products.len() - 1 > i32::MAX {
        before
    } else {
        before + created_rows(next_id(before), new_products, now)
    }
}

/// What the insertion of several products at `now` returns: the products
/// of the inserted rows in the order given, or the failure that the ids do
/// not suffice.
pub open spec fn outcome_of_batch(
    before: Seq<ProductRowView>,
    new_products: Seq<NewProductRowView>,
    now: DateTime,
) -> Result<Seq<ProductView>, RepositoryError> {
    if next_id(before) + new_products.len() - 1 > i32::MAX {
        Err(RepositoryError::Constraint)
    } else {
        match products_of_rows(created_rows(next_id(before), new_products, now)) {
            Ok(products) => Ok(products),
            Err(e) => Err(RepositoryError::Mapping(e)),
        }
    }
}

/// What the insertion of several products does to the table and returns.
pub open spec fn products_created(
    before: Seq<ProductRowView>,
    new_products: Seq<NewProductRowView>,
    now: DateTime,
    after: Seq<ProductRowView>,
    r: Result<Vec<Product>, RepositoryError>,
) -> bool {
    after == rows_after_batch(before, new_products, now) && returns_products(
        r,
        outcome_of_batch(before, new_products, now),
    )
}

/// The table after an edit at `now`: the row with the id of the change has
/// the new name, a new value in every further column that the change
/// holds, and `now` as its time of update; nothing else has changed. Where
/// no row has the id, the table stays as it is.
pub open spec fn rows_after_edit(
    before: Seq<ProductRowView>,
    change: EditProductRowView,
    now: DateTime,
) -> Seq<ProductRowView> {
    match position_of(before, change.id) {
        None => before,
        Some(i) => before.update(i, edited_row(before[i], change, now)),
    }
}

/// What an edit at `now` returns: the product of the changed row, or the
/// failure that no row has the id.
pub open spec fn outcome_of_edit(
    before: Seq<ProductRowView>,
    change: EditProductRowView,
    now: DateTime,
) -> Result<ProductView, RepositoryError> {
    match position_of(before, change.id) {
        None => Err(RepositoryError::NotFound),
        Some(i) => lifted(product_of_row(edited_row(before[i], change, now))),
    }
}

/// What an edit does to the table and returns.
pub open spec fn product_edited(
    before: Seq<ProductRowView>,
    change: EditProductRowView,
    now: DateTime,
    after: Seq<ProductRowView>,
    r: Result<Product, RepositoryError>,
) -> bool {
    after == rows_after_edit(before, change, now) && returns_product(
        r,
        outcome_of_edit(before, change, now),
    )
}

/// Whether a deletion finds a product to mark: a live row with the id.
pub open spec fn outcome_of_delete(before: Seq<ProductRowView>, id: i32) -> bool {
    match position_of(before, id) {
        None => false,
        Some(i) => is_live(before[i]),
    }
}

/// The table after a deletion at `now`: the live row with the id has `now`
/// as its time of deletion. Where no row has the id, or the row is deleted
/// already, the table stays as it is.
pub open spec fn rows_after_delete(before: Seq<ProductRowView>, id: i32, now: DateTime) -> Seq<
    ProductRowView,
> {
    match position_of(before, id) {
        None => before,
        Some(i) => if is_live(before[i]) {
            before.update(i, deleted_row(before[i], now))
        } else {
            before
        },
    }
}

/// What a deletion does to the table and answers.
pub open spec fn product_deleted(
    before: Seq<ProductRowView>,
    id: i32,
    now: DateTime,
    after: Seq<ProductRowView>,
    r: bool,
) -> bool {
    after == rows_after_delete(before, id, now) && r == outcome_of_delete(before, id)
}

/// What fetching the product with an id returns: the product of the row
/// with the id, deleted or not, or the failure to find or to map it.
pub open spec fn outcome_of_fetch(rows: Seq<ProductRowView>, id: i32) -> Result<
    ProductView,
    RepositoryError,
> {
    match position_of(rows, id) {
        None => Err(RepositoryError::NotFound),
        Some(i) => lifted(product_of_row(rows[i])),
    }
}

/// What the products to insert hold.
pub open spec fn new_views(new_products: Seq<NewProductRow>) -> Seq<NewProductRowView> {
    new_products.map_values(|new_product: NewProductRow| new_product@)
}

/// What fetching the product with an id does.
pub open spec fn product_fetched(
    rows: Seq<ProductRowView>,
    id: i32,
    r: Result<Product, RepositoryError>,
) -> bool {
    returns_product(r, outcome_of_fetch(rows, id))
}

/// `position_of` finds the first row with the id, and none only where no
/// row has it.
pub proof fn lemma_position_of(rows: Seq<ProductRowView>, id: i32)
    ensures
        match position_of(rows, id) {
            Some(i) => 0 <= i < rows.len() && rows[i].id == id && forall|k: int|
                0 <= k < i ==> rows[k].id != id,
            None => forall|k: int| 0 <= k < rows.len() ==> rows[k].id != id,
        },
    decreases rows.len(),
{
    if rows.len() > 0 {
        lemma_position_of(rows.drop_last(), id);
        assert forall|k: int| 0 <= k < rows.len() - 1 implies rows[k] == rows.drop_last()[k] by {}
    }
}

/// The listing of a table that got one more row.
pub proof fn lemma_listed_rows_push(
    rows: Seq<ProductRowView>,
    row: ProductRowView,
    search: Seq<char>,
)
    ensures
        listed_rows(rows.push(row), search) == if is_listed(row, search) {
            listed_rows(rows, search).push(row)
        } else {
            listed_rows(rows, search)
        },
{
    assert(rows.push(row).drop_last() == rows);
}

/// The products of rows with one more row.
pub proof fn lemma_products_of_rows_push(rows: Seq<ProductRowView>, row: ProductRowView)
    ensures
        products_of_rows(rows.push(row)) == match products_of_rows(rows) {
            Err(e) => Err::<Seq<ProductView>, MappingError>(e),
            Ok(products) => match product_of_row(row) {
                Err(e) => Err(e),
                Ok(product) => Ok(products.push(product)),
            },
        },
{
    assert(rows.push(row).drop_last() == rows);
}

/// A failure among the first rows is the failure of the whole.
pub proof fn lemma_failure_stays(rows: Seq<ProductRowView>, k: int)
    requires
        0 <= k <= rows.len(),
        products_of_rows(rows.take(k)) is Err,
    ensures
        products_of_rows(rows) == products_of_rows(rows.take(k)),
    decreases rows.len() - k,
{
    if k < rows.len() {
        assert(rows.take(k + 1).drop_last() == rows.take(k));
        lemma_failure_stays(rows, k + 1);
    } else {
        assert(rows.take(k) == rows);
    }
}

/// Rows created at a valid time map to products, each with `now` as both
/// of its times.
pub proof fn lemma_created_rows_map(
    first_id: int,
    new_products: Seq<NewProductRowView>,
    now: DateTime,
)
    requires
        now.is_valid(),
    ensures
        products_of_rows(created_rows(first_id, new_products, now)) is Ok,
    decreases new_products.len(),
{
    law_format_then_parse(now);
    if new_products.len() > 0 {
        lemma_created_rows_map(first_id, new_products.drop_last(), now);
        assert(created_rows(first_id, new_products, now).drop_last() == created_rows(
            first_id,
            new_products.drop_last(),
            now,
        ));
    }
}

/// The table of the products: the rows of the store in the order of their
/// ids.
pub struct ProductTable {
    rows: Vec<ProductRow>,
}

impl View for ProductTable {
    type V = Seq<ProductRowView>;

    closed spec fn view(&self) -> Seq<ProductRowView> {
        row_views(self.rows@)
    }
}

impl ProductTable {
    /// What every operation keeps: the ids of the rows are increasing.
    pub open spec fn wf(&self) -> bool {
        ids_increasing(self@)
    }

    /// The empty table.
    pub fn new() -> (table: ProductTable)
        ensures
            table@ == Seq::<ProductRowView>::empty(),
            table.wf(),
    {
        let table = ProductTable { rows: Vec::new() };
        assert(table@ =~= Seq::<ProductRowView>::empty());
        table
    }

    /// The table of these rows, if each has a larger id than the one
    /// before it.
    pub fn from_rows(rows: Vec<ProductRow>) -> (table: Option<ProductTable>)
        ensures
            table is Some <==> ids_increasing(row_views(rows@)),
            table is Some ==> table.unwrap()@ == row_views(rows@) && table.unwrap().wf(),
    {
        let n: usize = rows.len();
        let ghost views = row_views(rows@);
        if n == 0 {
            return Some(ProductTable { rows });
        }
        let mut i: usize = 1;
        while i < n
            invariant
                1 <= i <= n,
                n == rows.len(),
                views == row_views(rows@),
                ids_increasing(views.take(i as int)),
            decreases n - i,
        {
            if rows[i - 1].id >= rows[i].id {
                assert(views[i - 1].id >= views[i as int].id);
                return None;
            }
            proof {
                let longer = views.take(i + 1);
                assert forall|a: int, b: int| 0 <= a < b < longer.len() implies longer[a].id
                    < longer[b].id by {
                    if b < i {
                        assert(views.take(i as int)[a].id < views.take(i as int)[b].id);
                    } else if a < i - 1 {
                        assert(views.take(i as int)[a].id < views.take(i as int)[i - 1].id);
                    }
                }
            }
            i = i + 1;
        }
        assert(views.take(n as int) == views);
        Some(ProductTable { rows })
    }

    /// The rows of the table, in the order of their ids.
    pub fn rows(&self) -> (rows: &Vec<ProductRow>)
        ensures
            row_views(rows@) == self@,
    {
        &self.rows
    }

    /// The number of rows, deleted ones included.
    pub fn len(&self) -> (n: usize)
        ensures
            n == self@.len(),
    {
        self.rows.len()
    }
}

/// The position of the first row with this id.
fn find(table: &ProductTable, id: i32) -> (r: Option<usize>)
    ensures
        match r {
            Some(i) => position_of(table@, id) == Some(i as int) && i < table@.len()
                && table@[i as int].id == id,
            None => position_of(table@, id) is None,
        },
{
    let n: usize = table.rows.len();
    let mut i: usize = 0;
    while i < n
        invariant
            0 <= i <= n,
            n == table.rows.len(),
            forall|k: int| 0 <= k < i ==> table@[k].id != id,
        decreases n - i,
    {
        if table.rows[i].id == id {
            proof {
                assert(table@[i as int].id == id);
                lemma_position_of(table@, id);
            }
            return Some(i);
        }
        i = i + 1;
    }
    proof {
        lemma_position_of(table@, id);
    }
    None
}

/// Maps rows to products, all or none.
fn map_rows(rows: &Vec<ProductRow>) -> (r: Result<Vec<Product>, MappingError>)
    ensures
        match products_of_rows(row_views(rows@)) {
            Ok(products) => r is Ok && product_views(r.unwrap()@) == products,
            Err(e) => r == Err::<Vec<Product>, MappingError>(e),
        },
        r is Ok ==> all_valid(r.unwrap()@),
{
    let ghost views = row_views(rows@);
    let mut products: Vec<Product> = Vec::new();
    let n: usize = rows.len();
    let mut i: usize = 0;
    assert(views.take(0) == Seq::<ProductRowView>::empty());
    assert(product_views(products@) == Seq::<ProductView>::empty());
    while i < n
        invariant
            0 <= i <= n,
            n == rows.len(),
            views == row_views(rows@),
            products_of_rows(views.take(i as int)) == Ok::<Seq<ProductView>, MappingError>(
                product_views(products@),
            ),
            all_valid(products@),
        decreases n - i,
    {
        proof {
            assert(views.take(i + 1) == views.take(i as int).push(rows[i as int]@));
            lemma_products_of_rows_push(views.take(i as int), rows[i as int]@);
        }
        match Product::try_from(rows[i].clone()) {
            Ok(product) => {
                let ghost before = product_views(products@);
                products.push(product);
                assert(product_views(products@) == before.push(product@));
            },
            Err(e) => {
                proof {
                    lemma_failure_stays(views, i + 1);
                }
                return Err(e);
            },
        }
        i = i + 1;
    }
    assert(views.take(n as int) == views);
    Ok(products)
}

/// Lists the live products that answer `search`: those whose name contains
/// the text and, where the text writes a number, the one with that id. The
/// empty text lists every live product. The listing fails as a whole where a
/// row that it shows does not map.
pub fn list_products(table: &ProductTable, search: &str) -> (r: Result<
    Vec<Product>,
    MappingError,
>)
    ensures
        products_listed(table@, search@, r),
        r is Ok ==> all_valid(r.unwrap()@),
{
    let filter = SearchFilter::new(search);
    let mut shown: Vec<ProductRow> = Vec::new();
    let n: usize = table.rows.len();
    let mut i: usize = 0;
    assert(table@.take(0) == Seq::<ProductRowView>::empty());
    assert(row_views(shown@) == Seq::<ProductRowView>::empty());
    while i < n
        invariant
            0 <= i <= n,
            n == table.rows.len(),
            filter.search() == search@,
            listed_rows(table@.take(i as int), search@) == row_views(shown@),
        decreases n - i,
    {
        let row = &table.rows[i];
        proof {
            assert(table@.take(i + 1) == table@.take(i as int).push(row@));
            lemma_listed_rows_push(table@.take(i as int), row@, search@);
        }
        if row.deleted_at.is_none() && filter.accepts(row.id, row.name.as_str()) {
            let ghost before = row_views(shown@);
            shown.push(row.clone());
            assert(row_views(shown@) == before.push(row@));
        }
        i = i + 1;
    }
    assert(table@.take(n as int) == table@);
    map_rows(&shown)
}

/// Fetches the product with this id, deleted or not.
pub fn get_product_by_id(table: &ProductTable, product_id: i32) -> (r: Result<
    Product,
    RepositoryError,
>)
    ensures
        product_fetched(table@, product_id, r),
        r is Ok ==> r.unwrap().is_valid(),
{
    match find(table, product_id) {
        None => Err(RepositoryError::NotFound),
        Some(i) => match Product::try_from(table.rows[i].clone()) {
            Ok(product) => Ok(product),
            Err(e) => Err(RepositoryError::Mapping(e)),
        },
    }
}

/// The row of a product to insert with this id at the time written in
/// `stamp`.
fn new_row(id: i32, new_product: &NewProductRow, stamp: &String) -> (row: ProductRow)
    ensures
        row@ == (ProductRowView {
            id,
            name: new_product.name@,
            unity: optional_text(new_product.unity),
            brand: optional_text(new_product.brand),
            min_stock: match new_product.min_stock {
                Some(min_stock) => min_stock,
                None => 0,
            },
            observation: optional_text(new_product.observation),
            created_at: stamp@,
            updated_at: stamp@,
            deleted_at: None,
        }),
{
    ProductRow {
        id,
        name: new_product.name.clone(),
        unity: clone_optional(&new_product.unity),
        brand: clone_optional(&new_product.brand),
        min_stock: match new_product.min_stock {
            Some(min_stock) => min_stock,
            None => 0,
        },
        observation: clone_optional(&new_product.observation),
        created_at: stamp.clone(),
        updated_at: stamp.clone(),
        deleted_at: None,
    }
}

/// The new value of an optional column.
fn changed(old_value: &Option<String>, change: &Option<String>) -> (r: Option<String>)
    ensures
        optional_text(r) == changed_text(optional_text(*old_value), optional_text(*change)),
{
    match change {
        Some(text) => Some(text.clone()),
        None => clone_optional(old_value),
    }
}

/// Inserts a product at the time `now` and returns it as the store holds
/// it.
pub fn create_product_at(
    table: &mut ProductTable,
    new_product: NewProductRow,
    now: &DateTime,
) -> (r: Result<Product, RepositoryError>)
    requires
        old(table).wf(),
        now.is_valid(),
    ensures
        final(table).wf(),
        product_created(old(table)@, new_product@, *now, final(table)@, r),
        r is Ok <==> next_id(old(table)@) <= i32::MAX,
        r is Ok ==> r.unwrap().is_valid(),
        r is Ok ==> r.unwrap().id == next_id(old(table)@) && holds_fields_of(
            r.unwrap()@,
            new_product@,
        ) && r.unwrap().created_at == *now && r.unwrap().updated_at == *now
            && r.unwrap().deleted_at is None,
        r is Ok ==> final(table)@.len() == old(table)@.len() + 1,
        r is Err ==> final(table)@ == old(table)@,
{
    proof {
        law_format_then_parse(*now);
    }
    let n: usize = table.rows.len();
    let id: i32 = if n == 0 {
        1
    } else {
        let last: i32 = table.rows[n - 1].id;
        if last == i32::MAX {
            return Err(RepositoryError::Constraint);
        }
        last + 1
    };
    let stamp = format_timestamp(now);
    let row = new_row(id, &new_product, &stamp);
    let ghost before = row_views(table.rows@);
    assert(before.len() > 0 ==> before.last() == table.rows[n - 1]@);
    table.rows.push(row.clone());
    assert(row_views(table.rows@) == before.push(row@));
    match Product::try_from(row) {
        Ok(product) => Ok(product),
        Err(e) => Err(RepositoryError::Mapping(e)),
    }
}

/// Inserts a product at the current time of the clock and returns it as the
/// store holds it.
pub fn create_product(table: &mut ProductTable, new_product: NewProductRow) -> (r: Result<
    Product,
    RepositoryError,
>)
    requires
        old(table).wf(),
    ensures
        final(table).wf(),
        exists|now: DateTime|
            now.is_valid() && #[trigger] product_created(
                old(table)@,
                new_product@,
                now,
                final(table)@,
                r,
            ),
        r is Ok <==> next_id(old(table)@) <= i32::MAX,
        r is Ok ==> r.unwrap().is_valid(),
        r is Ok ==> r.unwrap().id == next_id(old(table)@) && holds_fields_of(
            r.unwrap()@,
            new_product@,
        ) && r.unwrap().created_at == r.unwrap().updated_at && r.unwrap().deleted_at is None,
        r is Ok ==> final(table)@.len() == old(table)@.len() + 1,
        r is Err ==> final(table)@ == old(table)@,
{
    let t = now();
    create_product_at(table, new_product, &t)
}

/// Inserts several products at the time `now` and returns them in the
/// order given.
pub fn create_products_at(
    table: &mut ProductTable,
    new_products: &[NewProductRow],
    now: &DateTime,
) -> (r: Result<Vec<Product>, RepositoryError>)
    requires
        old(table).wf(),
        now.is_valid(),
    ensures
        final(table).wf(),
        products_created(old(table)@, new_views(new_products@), *now, final(table)@, r),
        r is Ok <==> next_id(old(table)@) + new_products@.len() - 1 <= i32::MAX,
        r is Ok ==> all_valid(r.unwrap()@),
        r is Ok ==> r.unwrap()@.len() == new_products@.len() && final(table)@.len() == old(
            table,
        )@.len() + new_products@.len(),
        r is Ok ==> forall|k: int|
            0 <= k < new_products@.len() ==> holds_fields_of(
                (#[trigger] r.unwrap()@[k])@,
                new_products@[k]@,
            ) && r.unwrap()@[k].id == next_id(old(table)@) + k && r.unwrap()@[k].deleted_at
                is None && r.unwrap()@[k].created_at == r.unwrap()@[k].updated_at,
        r is Err ==> final(table)@ == old(table)@,
{
    proof {
        lemma_created_rows_map(next_id(old(table)@), new_views(new_products@), *now);
    }
    let ghost before = row_views(table.rows@);
    let ghost news = new_views(new_products@);
    let count: usize = new_products.len();
    let n: usize = table.rows.len();
    let first: i64 = if n == 0 {
        1
    } else {
        table.rows[n - 1].id as i64 + 1
    };
    assert(before.len() > 0 ==> before.last() == table.rows[n - 1]@);
    assert(first == next_id(before));
    let room: u64 = (2147483648 - first) as u64;
    if count as u64 > room {
        return Err(RepositoryError::Constraint);
    }
    let mut inserted: Vec<ProductRow> = Vec::new();
    let mut i: usize = 0;
    assert(created_rows(first as int, news.take(0), *now) == Seq::<ProductRowView>::empty());
    assert(before + Seq::<ProductRowView>::empty() == before);
    assert(row_views(inserted@) == Seq::<ProductRowView>::empty());
    while i < count
        invariant
            0 <= i <= count,
            count == new_products.len(),
            news == new_views(new_products@),
            now.is_valid(),
            first == next_id(before),
            first + count - 1 <= i32::MAX,
            ids_increasing(before),
            row_views(inserted@) == created_rows(first as int, news.take(i as int), *now),
            row_views(table.rows@) == before + row_views(inserted@),
        decreases count - i,
    {
        let stamp = format_timestamp(now);
        let row = new_row((first + i as i64) as i32, &new_products[i], &stamp);
        let ghost rows_before = row_views(table.rows@);
        let ghost inserted_before = row_views(inserted@);
        table.rows.push(row.clone());
        inserted.push(row);
        proof {
            assert(row@ == created_row((first + i) as i32, news[i as int], *now));
            assert(row_views(inserted@) == inserted_before.push(row@));
            assert(row_views(table.rows@) == rows_before.push(row@));
            assert(news.take(i + 1) == news.take(i as int).push(news[i as int]));
            assert(row_views(inserted@) =~= created_rows(first as int, news.take(i + 1), *now));
            assert(row_views(table.rows@) =~= before + row_views(inserted@));
            let all = row_views(table.rows@);
            assert forall|a: int, b: int| 0 <= a < b < all.len() implies all[a].id < all[b].id by {
                if b < before.len() {
                    assert(before[a].id < before[b].id);
                } else if a < before.len() {
                    assert(before[a].id <= before.last().id) by {
                        if a < before.len() - 1 {
                            assert(before[a].id < before[before.len() - 1].id);
                        }
                    }
                }
            }
        }
        i = i + 1;
    }
    assert(news.take(count as int) == news);
    let r = match map_rows(&inserted) {
        Ok(products) => Ok(products),
        Err(e) => Err(RepositoryError::Mapping(e)),
    };
    proof {
        law_created_products_are_new(before, news, *now, row_views(table.rows@), r);
        assert forall|k: int| 0 <= k < new_products@.len() implies news[k]
            == new_products@[k]@ by {}
    }
    r
}

/// Inserts several products at the current time of the clock and returns
/// them in the order given.
pub fn create_products(table: &mut ProductTable, new_products: &[NewProductRow]) -> (r: Result<
    Vec<Product>,
    RepositoryError,
>)
    requires
        old(table).wf(),
    ensures
        final(table).wf(),
        exists|now: DateTime|
            now.is_valid() && #[trigger] products_created(
                old(table)@,
                new_views(new_products@),
                now,
                final(table)@,
                r,
            ),
        r is Ok <==> next_id(old(table)@) + new_products@.len() - 1 <= i32::MAX,
        r is Ok ==> all_valid(r.unwrap()@),
        r is Ok ==> r.unwrap()@.len() == new_products@.len() && final(table)@.len() == old(
            table,
        )@.len() + new_products@.len(),
        r is Ok ==> forall|k: int|
            0 <= k < new_products@.len() ==> holds_fields_of(
                (#[trigger] r.unwrap()@[k])@,
                new_products@[k]@,
            ) && r.unwrap()@[k].id == next_id(old(table)@) + k && r.unwrap()@[k].deleted_at
                is None && r.unwrap()@[k].created_at == r.unwrap()@[k].updated_at,
        r is Err ==> final(table)@ == old(table)@,
{
    let t = now();
    create_products_at(table, new_products, &t)
}

/// Applies a change to the product with its id at the time `now` and
/// returns the product as the store holds it. A deleted product is edited
/// like a live one.
pub fn edit_product_at(table: &mut ProductTable, product: EditProductRow, now: &DateTime) -> (r:
    Result<Product, RepositoryError>)
    requires
        old(table).wf(),
        now.is_valid(),
    ensures
        final(table).wf(),
        final(table)@.len() == old(table)@.len(),
        product_edited(old(table)@, product@, *now, final(table)@, r),
        r is Ok ==> r.unwrap().is_valid(),
        r is Ok ==> r.unwrap().updated_at == *now,
        r is Ok ==> r.unwrap().id == product.id && r.unwrap()@.name == product.name@,
        r == Err::<Product, RepositoryError>(RepositoryError::NotFound) <==> position_of(
            old(table)@,
            product.id,
        ) is None,
        position_of(old(table)@, product.id) matches Some(i) ==> final(table)@[i].name
            == product.name@ && (product_of_row(old(table)@[i]) is Ok ==> r is Ok),
{
    proof {
        law_format_then_parse(*now);
        lemma_position_of(old(table)@, product.id);
    }
    match find(table, product.id) {
        None => Err(RepositoryError::NotFound),
        Some(i) => {
            let ghost before = row_views(table.rows@);
            let row = ProductRow {
                id: table.rows[i].id,
                name: product.name,
                unity: changed(&table.rows[i].unity, &product.unity),
                brand: changed(&table.rows[i].brand, &product.brand),
                min_stock: match product.min_stock {
                    Some(min_stock) => min_stock,
                    None => table.rows[i].min_stock,
                },
                observation: changed(&table.rows[i].observation, &product.observation),
                created_at: table.rows[i].created_at.clone(),
                updated_at: format_timestamp(now),
                deleted_at: clone_optional(&table.rows[i].deleted_at),
            };
            table.rows.set(i, row.clone());
            proof {
                assert(row@ == edited_row(before[i as int], product@, *now));
                assert(row_views(table.rows@) == before.update(i as int, row@));
            }
            match Product::try_from(row) {
                Ok(edited) => Ok(edited),
                Err(e) => Err(RepositoryError::Mapping(e)),
            }
        },
    }
}

/// Applies a change to the product with its id at the current time of the
/// clock and returns the product as the store holds it.
pub fn edit_product(table: &mut ProductTable, product: EditProductRow) -> (r: Result<
    Product,
    RepositoryError,
>)
    requires
        old(table).wf(),
    ensures
        final(table).wf(),
        final(table)@.len() == old(table)@.len(),
        exists|now: DateTime|
            now.is_valid() && #[trigger] product_edited(
                old(table)@,
                product@,
                now,
                final(table)@,
                r,
            ),
        r is Ok ==> r.unwrap().is_valid(),
        r is Ok ==> r.unwrap().id == product.id && r.unwrap()@.name == product.name@,
        r == Err::<Product, RepositoryError>(RepositoryError::NotFound) <==> position_of(
            old(table)@,
            product.id,
        ) is None,
        position_of(old(table)@, product.id) matches Some(i) ==> final(table)@[i].name
            == product.name@ && (product_of_row(old(table)@[i]) is Ok ==> r is Ok),
{
    let t = now();
    edit_product_at(table, product, &t)
}

/// Marks the live product with this id as deleted at the time `now`. The
/// answer tells whether a product was marked: a product that is deleted
/// already keeps its time of deletion.
pub fn delete_product_at(table: &mut ProductTable, product_id: i32, now: &DateTime) -> (r: bool)
    requires
        old(table).wf(),
        now.is_valid(),
    ensures
        final(table).wf(),
        final(table)@.len() == old(table)@.len(),
        product_deleted(old(table)@, product_id, *now, final(table)@, r),
        r == outcome_of_delete(old(table)@, product_id),
        !r ==> final(table)@ == old(table)@,
{
    match find(table, product_id) {
        None => false,
        Some(i) => {
            if table.rows[i].deleted_at.is_some() {
                return false;
            }
            let ghost before = row_views(table.rows@);
            let mut row = table.rows[i].clone();
            row.deleted_at = Some(format_timestamp(now));
            table.rows.set(i, row);
            proof {
                assert(row_views(table.rows@) == before.update(
                    i as int,
                    deleted_row(before[i as int], *now),
                ));
            }
            true
        },
    }
}

/// Marks the live product with this id as deleted at the current time of
/// the clock.
pub fn delete_product(table: &mut ProductTable, product_id: i32) -> (r: bool)
    requires
        old(table).wf(),
    ensures
        final(table).wf(),
        final(table)@.len() == old(table)@.len(),
        exists|now: DateTime|
            now.is_valid() && #[trigger] product_deleted(
                old(table)@,
                product_id,
                now,
                final(table)@,
                r,
            ),
        r == outcome_of_delete(old(table)@, product_id),
        !r ==> final(table)@ == old(table)@,
{
    let t = now();
    delete_product_at(table, product_id, &t)
}

/// A listing shows every live product whose name contains the search text and
/// every live product whose id the search text writes.
pub proof fn law_listing_shows_matches(rows: Seq<ProductRowView>, search: Seq<char>, i: int)
    requires
        0 <= i < rows.len(),
        is_live(rows[i]),
        search_accepts(search, rows[i].id, rows[i].name),
    ensures
        listed_rows(rows, search).contains(rows[i]),
    decreases rows.len(),
{
    let shorter = rows.drop_last();
    if i == rows.len() - 1 {
        let shown = listed_rows(rows, search);
        assert(shown[shown.len() - 1] == rows[i]);
    } else {
        law_listing_shows_matches(shorter, search, i);
        let k = choose|k: int|
            0 <= k < listed_rows(shorter, search).len() && listed_rows(shorter, search)[k]
                == shorter[i];
        assert(listed_rows(rows, search)[k] == rows[i]);
    }
}

/// The listing under the empty search shows every live product.
pub proof fn law_listing_shows_live_rows(rows: Seq<ProductRowView>, i: int)
    requires
        0 <= i < rows.len(),
        is_live(rows[i]),
    ensures
        listed_rows(rows, Seq::<char>::empty()).contains(rows[i]),
{
    lemma_empty_search_accepts(rows[i].id, rows[i].name);
    law_listing_shows_matches(rows, Seq::<char>::empty(), i);
}

/// A listing shows only live rows of the table that answer the search.
pub proof fn law_listing_shows_only_matches(rows: Seq<ProductRowView>, search: Seq<char>, k: int)
    requires
        0 <= k < listed_rows(rows, search).len(),
    ensures
        is_listed(listed_rows(rows, search)[k], search),
        rows.contains(listed_rows(rows, search)[k]),
    decreases rows.len(),
{
    let shorter = rows.drop_last();
    if rows.len() > 0 {
        if k < listed_rows(shorter, search).len() {
            law_listing_shows_only_matches(shorter, search, k);
            let j = choose|j: int|
                0 <= j < shorter.len() && shorter[j] == listed_rows(shorter, search)[k];
            assert(rows[j] == listed_rows(rows, search)[k]);
        } else {
            assert(rows[rows.len() - 1] == listed_rows(rows, search)[k]);
        }
    }
}

/// The products of rows stand one for one for the rows, in their order.
pub proof fn law_products_follow_rows(rows: Seq<ProductRowView>)
    requires
        products_of_rows(rows) is Ok,
    ensures
        products_of_rows(rows).unwrap().len() == rows.len(),
        forall|k: int|
            0 <= k < rows.len() ==> product_of_row(#[trigger] rows[k]) == Ok::<
                ProductView,
                MappingError,
            >(products_of_rows(rows).unwrap()[k]),
    decreases rows.len(),
{
    if rows.len() > 0 {
        law_products_follow_rows(rows.drop_last());
        let products = products_of_rows(rows).unwrap();
        let shorter = products_of_rows(rows.drop_last()).unwrap();
        assert forall|k: int| 0 <= k < rows.len() implies product_of_row(#[trigger] rows[k])
            == Ok::<ProductView, MappingError>(products[k]) by {
            if k < rows.len() - 1 {
                assert(rows[k] == rows.drop_last()[k]);
                assert(products[k] == shorter[k]);
            }
        }
    }
}

/// After the deletion of a product no listing shows a product with its id,
/// whatever the search.
pub proof fn law_deleted_product_is_not_listed(
    before: Seq<ProductRowView>,
    id: i32,
    now: DateTime,
    after: Seq<ProductRowView>,
    r: bool,
    search: Seq<char>,
)
    requires
        ids_increasing(before),
        product_deleted(before, id, now, after, r),
    ensures
        forall|k: int|
            0 <= k < listed_rows(after, search).len() ==> (#[trigger] listed_rows(
                after,
                search,
            )[k]).id != id,
{
    lemma_position_of(before, id);
    assert forall|k: int| 0 <= k < listed_rows(after, search).len() implies (#[trigger] listed_rows(
        after,
        search,
    )[k]).id != id by {
        law_listing_shows_only_matches(after, search, k);
        let shown = listed_rows(after, search)[k];
        let j = choose|j: int| 0 <= j < after.len() && after[j] == shown;
        match position_of(before, id) {
            None => {
                assert(after[j] == before[j]);
            },
            Some(i) => {
                if j != i {
                    assert(after[j] == before[j]);
                    if j < i {
                        assert(before[j].id < before[i].id);
                    } else {
                        assert(before[i].id < before[j].id);
                    }
                }
            },
        }
    }
}

/// After the deletion of a product its row is still in the table, in its
/// position, with a time of deletion set.
pub proof fn law_deleted_product_keeps_its_row(
    before: Seq<ProductRowView>,
    id: i32,
    now: DateTime,
    after: Seq<ProductRowView>,
    r: bool,
)
    requires
        product_deleted(before, id, now, after, r),
    ensures
        position_of(after, id) == position_of(before, id),
        position_of(after, id) is Some ==> after[position_of(
            after,
            id,
        ).unwrap()].deleted_at is Some,
{
    lemma_position_of(before, id);
    lemma_position_of(after, id);
    match position_of(before, id) {
        None => {},
        Some(i) => {
            assert(after[i].id == id);
            assert forall|k: int| 0 <= k < i implies after[k].id != id by {
                assert(after[k].id == before[k].id);
            }
        },
    }
}

/// A created product has the fields given, 0 as its minimum stock where
/// none was given, was never updated after its creation and is not
/// deleted. With an id left the creation succeeds and both times are `now`.
/// The rows that the table held stay as they are.
pub proof fn law_created_product(
    before: Seq<ProductRowView>,
    new_product: NewProductRowView,
    now: DateTime,
    after: Seq<ProductRowView>,
    r: Result<Product, RepositoryError>,
)
    requires
        product_created(before, new_product, now, after, r),
    ensures
        r is Ok ==> r.unwrap()@.name == new_product.name && r.unwrap()@.unity == new_product.unity
            && r.unwrap()@.brand == new_product.brand && r.unwrap()@.observation
            == new_product.observation && r.unwrap().min_stock == (match new_product.min_stock {
            Some(min_stock) => min_stock,
            None => 0,
        }) && r.unwrap().id == next_id(before) && r.unwrap().created_at == r.unwrap().updated_at
            && r.unwrap().deleted_at is None,
        now.is_valid() && next_id(before) <= i32::MAX ==> r is Ok
            && r.unwrap().created_at == now,
        before.len() <= after.len() <= before.len() + 1,
        forall|k: int| 0 <= k < before.len() ==> after[k] == before[k],
{
    if now.is_valid() {
        law_format_then_parse(now);
    }
}

/// An edited product has the new name and `now` as its time of update. Where
/// it was created before `now`, it was updated strictly later than it was
/// created; where it was created no later than `now`, it was updated no
/// earlier than it was created.
pub proof fn law_edited_product(
    before: Seq<ProductRowView>,
    change: EditProductRowView,
    now: DateTime,
    after: Seq<ProductRowView>,
    r: Result<Product, RepositoryError>,
)
    requires
        product_edited(before, change, now, after, r),
        r is Ok,
    ensures
        r.unwrap().id == change.id,
        r.unwrap()@.name == change.name,
        change.min_stock is Some ==> r.unwrap().min_stock == change.min_stock.unwrap(),
        now.is_valid() ==> r.unwrap().updated_at == now,
        now.is_valid() && r.unwrap().created_at.precedes(&now)
            ==> r.unwrap().created_at.precedes(&r.unwrap().updated_at),
        now.is_valid() && r.unwrap().created_at.not_after(&now) ==> r.unwrap().created_at.not_after(
            &r.unwrap().updated_at,
        ),
{
    lemma_position_of(before, change.id);
    if now.is_valid() {
        law_format_then_parse(now);
    }
}

/// Products created together come back one for each record given, in the
/// order given, with consecutive ids, so no two of them share an id.
pub proof fn law_created_products(
    before: Seq<ProductRowView>,
    new_products: Seq<NewProductRowView>,
    now: DateTime,
    after: Seq<ProductRowView>,
    r: Result<Vec<Product>, RepositoryError>,
)
    requires
        products_created(before, new_products, now, after, r),
        r is Ok,
    ensures
        r.unwrap()@.len() == new_products.len(),
        forall|k: int|
            0 <= k < new_products.len() ==> (#[trigger] r.unwrap()@[k])@.name
                == new_products[k].name && r.unwrap()@[k].id == next_id(before) + k,
        forall|a: int, b: int|
            0 <= a < b < new_products.len() ==> r.unwrap()@[a].id != r.unwrap()@[b].id,
{
    let rows = created_rows(next_id(before), new_products, now);
    law_products_follow_rows(rows);
    let products = products_of_rows(rows).unwrap();
    assert forall|k: int| 0 <= k < new_products.len() implies (#[trigger] r.unwrap()@[k])@.name
        == new_products[k].name && r.unwrap()@[k].id == next_id(before) + k by {
        assert(product_views(r.unwrap()@)[k] == r.unwrap()@[k]@);
        assert(product_of_row(rows[k]) == Ok::<ProductView, MappingError>(products[k]));
    }
}

/// An edit or a deletion keeps every row in its position with its id and
/// its time of creation, and a time of deletion that is set stays as it is.
pub proof fn law_rows_keep_identity(
    before: Seq<ProductRowView>,
    after: Seq<ProductRowView>,
    change: EditProductRowView,
    id: i32,
    now: DateTime,
    edited: Result<Product, RepositoryError>,
    deleted: bool,
)
    requires
        product_edited(before, change, now, after, edited) || product_deleted(
            before,
            id,
            now,
            after,
            deleted,
        ),
    ensures
        after.len() == before.len(),
        forall|k: int|
            0 <= k < before.len() ==> (#[trigger] after[k]).id == before[k].id
                && after[k].created_at == before[k].created_at && (before[k].deleted_at is Some
                ==> after[k].deleted_at == before[k].deleted_at),
{
    lemma_position_of(before, change.id);
    lemma_position_of(before, id);
}

/// A successful listing returns, for every live product of the table that
/// answers the search, the product that its row stands for.
pub proof fn law_listing_returns_matches(
    rows: Seq<ProductRowView>,
    search: Seq<char>,
    r: Result<Vec<Product>, MappingError>,
    i: int,
)
    requires
        products_listed(rows, search, r),
        r is Ok,
        0 <= i < rows.len(),
        is_live(rows[i]),
        search_accepts(search, rows[i].id, rows[i].name),
    ensures
        exists|k: int|
            0 <= k < r.unwrap()@.len() && product_of_row(rows[i]) == Ok::<ProductView, MappingError>(
                #[trigger] r.unwrap()@[k]@,
            ) && r.unwrap()@[k].id == rows[i].id && r.unwrap()@[k]@.name == rows[i].name,
{
    let shown = listed_rows(rows, search);
    law_listing_shows_matches(rows, search, i);
    law_products_follow_rows(shown);
    let k = choose|k: int| 0 <= k < shown.len() && shown[k] == rows[i];
    assert(product_of_row(shown[k]) == Ok::<ProductView, MappingError>(
        products_of_rows(shown).unwrap()[k],
    ));
    assert(product_views(r.unwrap()@)[k] == r.unwrap()@[k]@);
}

/// After the deletion of a product a successful listing returns no product
/// with its id, whatever the search.
pub proof fn law_deleted_product_is_not_returned(
    before: Seq<ProductRowView>,
    id: i32,
    now: DateTime,
    after: Seq<ProductRowView>,
    deleted: bool,
    search: Seq<char>,
    r: Result<Vec<Product>, MappingError>,
)
    requires
        ids_increasing(before),
        product_deleted(before, id, now, after, deleted),
        products_listed(after, search, r),
        r is Ok,
    ensures
        forall|k: int| 0 <= k < r.unwrap()@.len() ==> (#[trigger] r.unwrap()@[k]).id != id,
{
    let shown = listed_rows(after, search);
    law_deleted_product_is_not_listed(before, id, now, after, deleted, search);
    law_products_follow_rows(shown);
    assert forall|k: int| 0 <= k < r.unwrap()@.len() implies (#[trigger] r.unwrap()@[k]).id
        != id by {
        assert(product_views(r.unwrap()@)[k] == r.unwrap()@[k]@);
        assert(product_of_row(shown[k]) == Ok::<ProductView, MappingError>(
            products_of_rows(shown).unwrap()[k],
        ));
        assert(shown[k].id != id);
    }
}

/// A product that was deleted at `now` is still fetched by its id, with
/// `now` as its time of deletion.
pub proof fn law_deleted_product_is_still_fetched(
    before: Seq<ProductRowView>,
    id: i32,
    now: DateTime,
    after: Seq<ProductRowView>,
    r: Result<Product, RepositoryError>,
)
    requires
        now.is_valid(),
        product_deleted(before, id, now, after, true),
        product_fetched(after, id, r),
        r is Ok,
    ensures
        r.unwrap().id == id,
        r.unwrap().deleted_at == Some(now),
{
    lemma_position_of(before, id);
    lemma_position_of(after, id);
    law_format_then_parse(now);
    let i = position_of(before, id).unwrap();
    assert(after[i].id == id);
    assert forall|k: int| 0 <= k < i implies after[k].id != id by {
        assert(after[k].id == before[k].id);
    }
}

/// Of two insertions that follow each other, whoever made them, each
/// succeeds while ids are left and returns the product with the name that
/// it inserted, the first with the id that the table gave it, and the two
/// products have different ids.
pub proof fn law_creations_return_their_own_products(
    before: Seq<ProductRowView>,
    first_new: NewProductRowView,
    second_new: NewProductRowView,
    first_now: DateTime,
    second_now: DateTime,
    between: Seq<ProductRowView>,
    after: Seq<ProductRowView>,
    first: Result<Product, RepositoryError>,
    second: Result<Product, RepositoryError>,
)
    requires
        first_now.is_valid(),
        second_now.is_valid(),
        next_id(before) < i32::MAX,
        product_created(before, first_new, first_now, between, first),
        product_created(between, second_new, second_now, after, second),
    ensures
        first is Ok,
        second is Ok,
        first.unwrap()@.name == first_new.name,
        second.unwrap()@.name == second_new.name,
        first.unwrap().id == next_id(before),
        second.unwrap().id == first.unwrap().id + 1,
        first.unwrap().id != second.unwrap().id,
{
    law_format_then_parse(first_now);
    law_format_then_parse(second_now);
}

/// The fields of the product that a new record becomes: its own, with 0
/// as the minimum stock where none was given.
pub open spec fn holds_fields_of(product: ProductView, new_product: NewProductRowView) -> bool {
    &&& product.name == new_product.name
    &&& product.unity == new_product.unity
    &&& product.brand == new_product.brand
    &&& product.observation == new_product.observation
    &&& product.min_stock == match new_product.min_stock {
        Some(min_stock) => min_stock,
        None => 0,
    }
}

/// While the ids suffice, products created together at a valid time come
/// back one for each record, in the order given, each with the fields of
/// its record, live and created at `now`; their ids follow each other,
/// none of them is an id that the table held, and the table has one row
/// more for each.
pub proof fn law_created_products_are_new(
    before: Seq<ProductRowView>,
    new_products: Seq<NewProductRowView>,
    now: DateTime,
    after: Seq<ProductRowView>,
    r: Result<Vec<Product>, RepositoryError>,
)
    requires
        now.is_valid(),
        ids_increasing(before),
        next_id(before) + new_products.len() - 1 <= i32::MAX,
        products_created(before, new_products, now, after, r),
    ensures
        r is Ok,
        r.unwrap()@.len() == new_products.len(),
        after.len() == before.len() + new_products.len(),
        forall|k: int|
            0 <= k < new_products.len() ==> holds_fields_of(
                (#[trigger] r.unwrap()@[k])@,
                new_products[k],
            ) && r.unwrap()@[k].id == next_id(before) + k && r.unwrap()@[k].deleted_at is None
                && r.unwrap()@[k].created_at == now && r.unwrap()@[k].updated_at == now,
        forall|a: int, b: int|
            0 <= a < b < new_products.len() ==> r.unwrap()@[a].id != r.unwrap()@[b].id,
        forall|k: int, j: int|
            0 <= k < new_products.len() && 0 <= j < before.len() ==> (
            #[trigger] r.unwrap()@[k]).id != (#[trigger] before[j]).id,
{
    let rows = created_rows(next_id(before), new_products, now);
    lemma_created_rows_map(next_id(before), new_products, now);
    law_products_follow_rows(rows);
    law_format_then_parse(now);
    let products = products_of_rows(rows).unwrap();
    assert forall|k: int| 0 <= k < new_products.len() implies holds_fields_of(
        (#[trigger] r.unwrap()@[k])@,
        new_products[k],
    ) && r.unwrap()@[k].id == next_id(before) + k && r.unwrap()@[k].deleted_at is None
        && r.unwrap()@[k].created_at == now && r.unwrap()@[k].updated_at == now by {
        assert(product_views(r.unwrap()@)[k] == r.unwrap()@[k]@);
        assert(product_of_row(rows[k]) == Ok::<ProductView, MappingError>(products[k]));
    }
    assert forall|k: int, j: int| 0 <= k < new_products.len() && 0 <= j < before.len() implies (
    #[trigger] r.unwrap()@[k]).id != (#[trigger] before[j]).id by {
        if j < before.len() - 1 {
            assert(before[j].id < before[before.len() - 1].id);
        }
    }
}

/// The edit of a product whose row maps succeeds at a valid time: it
/// returns the product with its id, the new name and `now` as its time of
/// update, and the row of the table holds the new name.
pub proof fn law_edit_of_a_mapped_product(
    before: Seq<ProductRowView>,
    change: EditProductRowView,
    now: DateTime,
    after: Seq<ProductRowView>,
    r: Result<Product, RepositoryError>,
)
    requires
        now.is_valid(),
        position_of(before, change.id) is Some,
        product_of_row(before[position_of(before, change.id).unwrap()]) is Ok,
        product_edited(before, change, now, after, r),
    ensures
        r is Ok,
        r.unwrap().id == change.id,
        r.unwrap()@.name == change.name,
        r.unwrap().updated_at == now,
        r.unwrap().created_at == product_of_row(
            before[position_of(before, change.id).unwrap()],
        ).unwrap().created_at,
        position_of(after, change.id) == position_of(before, change.id),
        after[position_of(before, change.id).unwrap()].name == change.name,
{
    lemma_position_of(before, change.id);
    lemma_position_of(after, change.id);
    law_format_then_parse(now);
    let i = position_of(before, change.id).unwrap();
    assert(after[i].id == change.id);
    assert forall|k: int| 0 <= k < i implies after[k].id != change.id by {
        assert(after[k].id == before[k].id);
    }
}

/// A product that is created and then deleted is shown by no listing:
/// where the listing of the table mapped before, it maps after as it did,
/// to the same products, and none of them has the id of the product.
pub proof fn law_created_then_deleted_product_is_not_listed(
    before: Seq<ProductRowView>,
    new_product: NewProductRowView,
    now: DateTime,
    later: DateTime,
    between: Seq<ProductRowView>,
    after: Seq<ProductRowView>,
    created: Result<Product, RepositoryError>,
    deleted: bool,
    search: Seq<char>,
    listed: Result<Vec<Product>, MappingError>,
)
    requires
        now.is_valid(),
        ids_increasing(before),
        next_id(before) <= i32::MAX,
        products_of_rows(listed_rows(before, search)) is Ok,
        product_created(before, new_product, now, between, created),
        created is Ok ==> product_deleted(between, created.unwrap().id, later, after, deleted),
        products_listed(after, search, listed),
    ensures
        created is Ok,
        deleted,
        listed_rows(after, search) == listed_rows(before, search),
        listed is Ok,
        forall|k: int|
            0 <= k < listed.unwrap()@.len() ==> (#[trigger] listed.unwrap()@[k]).id
                != created.unwrap().id,
{
    law_format_then_parse(now);
    let id = created.unwrap().id;
    let row = created_row(next_id(before) as i32, new_product, now);
    assert(between == before.push(row));
    assert(ids_increasing(between)) by {
        assert forall|a: int, b: int| 0 <= a < b < between.len() implies between[a].id
            < between[b].id by {
            if b < before.len() {
                assert(before[a].id < before[b].id);
            } else if a < before.len() - 1 {
                assert(before[a].id < before[before.len() - 1].id);
            }
        }
    }
    lemma_position_of(between, id);
    let i = position_of(between, id).unwrap();
    assert(i == before.len()) by {
        if i < before.len() {
            assert(between[i].id < between[before.len() as int].id);
        }
    }
    assert(after == before.push(deleted_row(row, later)));
    lemma_listed_rows_push(before, deleted_row(row, later), search);
    law_deleted_product_is_not_returned(between, id, later, after, deleted, search, listed);
}

} // verus!
