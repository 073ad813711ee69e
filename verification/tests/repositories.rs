use stock_management::domain::mapping::{MappingError, TimestampField};
use stock_management::domain::place::Place;
use stock_management::domain::product::Product;
use stock_management::domain::supplier::Supplier;
use stock_management::infra::models::{
    EditPlaceRow, EditProductRow, EditSupplierRow, NewPlaceRow, NewProductRow, NewSupplierRow,
    PlaceRow, ProductRow, SupplierRow,
};
use stock_management::infra::repositories::error::RepositoryError;
use stock_management::infra::repositories::place_repository::{
    create_place, create_place_at, create_places, create_places_at, delete_place,
    delete_place_at, edit_place, edit_place_at, list_places, PlaceTable,
};
use stock_management::infra::repositories::product_repository::{
    create_product, create_product_at, create_products_at, delete_product, delete_product_at,
    edit_product_at, get_product_by_id, list_products, ProductTable,
};
use stock_management::infra::repositories::supplier_repository::{
    create_supplier_at, create_suppliers_at, delete_supplier_at, edit_supplier_at,
    list_suppliers, SupplierTable,
};
use stock_management::infra::search::SearchFilter;
use stock_management::timestamp::DateTime;

fn at(year: i32, month: u32, day: u32, hour: u32, minute: u32, second: u32) -> DateTime {
    DateTime::new(year, month, day, hour, minute, second).expect("a date of the calendar")
}

fn morning() -> DateTime {
    at(2024, 3, 1, 8, 0, 0)
}

fn noon() -> DateTime {
    at(2024, 3, 1, 12, 0, 0)
}

fn evening() -> DateTime {
    at(2024, 3, 1, 20, 30, 15)
}

fn place_row(id: i32, name: &str, deleted_at: Option<&str>) -> PlaceRow {
    PlaceRow {
        id,
        name: name.to_string(),
        created_at: "2024-01-01 10:00:00".to_string(),
        updated_at: "2024-01-02 11:30:00".to_string(),
        deleted_at: deleted_at.map(|text| text.to_string()),
    }
}

fn new_place(name: &str) -> NewPlaceRow {
    NewPlaceRow { name: name.to_string() }
}

fn new_product(name: &str, min_stock: Option<i32>) -> NewProductRow {
    NewProductRow {
        name: name.to_string(),
        unity: None,
        brand: None,
        min_stock,
        observation: None,
    }
}

fn names(places: &[Place]) -> Vec<String> {
    places.iter().map(|place| place.name.clone()).collect()
}

fn ids(places: &[Place]) -> Vec<i32> {
    places.iter().map(|place| place.id).collect()
}

#[test]
fn a_row_maps_to_a_place() {
    let place = Place::try_from(place_row(3, "Shelf", None)).expect("maps");
    assert_eq!(
        place,
        Place {
            id: 3,
            name: "Shelf".to_string(),
            created_at: at(2024, 1, 1, 10, 0, 0),
            updated_at: at(2024, 1, 2, 11, 30, 0),
            deleted_at: None,
        }
    );
    let deleted = Place::try_from(place_row(4, "Old", Some("2024-02-03 04:05:06"))).expect("maps");
    assert_eq!(deleted.deleted_at, Some(at(2024, 2, 3, 4, 5, 6)));
    assert!(deleted.check());
}

#[test]
fn try_into_maps_like_try_from() {
    let place: Result<Place, MappingError> = place_row(3, "Shelf", None).try_into();
    assert_eq!(place.expect("maps").id, 3);
}

#[test]
fn the_first_bad_timestamp_fails_the_row() {
    let mut row = place_row(1, "Shelf", Some("yesterday"));
    assert_eq!(
        Place::try_from(row.clone()),
        Err(MappingError { field: TimestampField::DeletedAt })
    );
    row.updated_at = "2024-01-02".to_string();
    assert_eq!(
        Place::try_from(row.clone()),
        Err(MappingError { field: TimestampField::UpdatedAt })
    );
    row.created_at = String::new();
    assert_eq!(Place::try_from(row), Err(MappingError { field: TimestampField::CreatedAt }));
}

#[test]
fn a_row_maps_to_a_product_and_a_supplier() {
    let product = Product::try_from(ProductRow {
        id: 9,
        name: "Widget".to_string(),
        unity: Some("un".to_string()),
        brand: None,
        min_stock: 5,
        observation: Some("fragile".to_string()),
        created_at: "2024-01-01 10:00:00".to_string(),
        updated_at: "2024-01-01 10:00:00".to_string(),
        deleted_at: None,
    })
    .expect("maps");
    assert_eq!(product.id, 9);
    assert_eq!(product.name, "Widget");
    assert_eq!(product.unity.as_deref(), Some("un"));
    assert_eq!(product.brand, None);
    assert_eq!(product.min_stock, 5);
    assert_eq!(product.observation.as_deref(), Some("fragile"));
    assert_eq!(product.created_at, product.updated_at);
    let supplier = Supplier::try_from(SupplierRow {
        id: 2,
        name: "Acme".to_string(),
        created_at: "2024-01-01 10:00:00".to_string(),
        updated_at: "bad".to_string(),
        deleted_at: None,
    });
    assert_eq!(supplier, Err(MappingError { field: TimestampField::UpdatedAt }));
}

#[test]
fn mapping_errors_name_the_column() {
    assert_eq!(
        MappingError { field: TimestampField::CreatedAt }.message(),
        "created_at does not match YYYY-MM-DD HH:MM:SS"
    );
    assert_eq!(
        RepositoryError::Mapping(MappingError { field: TimestampField::DeletedAt }).message(),
        "deleted_at does not match YYYY-MM-DD HH:MM:SS"
    );
    assert_eq!(RepositoryError::NotFound.message(), "no record has this id");
    assert_eq!(RepositoryError::Constraint.message(), "the store has no id left to assign");
}

#[test]
fn the_search_filter_takes_numbers_as_ids() {
    let filter = SearchFilter::new("12");
    assert_eq!(filter.id(), Some(12));
    assert!(filter.accepts(12, "Shelf"));
    assert!(filter.accepts(3, "12 units"));
    assert!(!filter.accepts(3, "Shelf"));
    let text = SearchFilter::new("she");
    assert_eq!(text.id(), None);
    assert!(text.accepts(1, "Bookshelf"));
    assert!(!text.accepts(1, "Shelf"));
    let all = SearchFilter::new("");
    assert!(all.accepts(1, ""));
    assert!(all.accepts(2, "anything"));
}

#[test]
fn created_place_has_equal_timestamps_and_is_live() {
    let mut table = PlaceTable::new();
    let place = create_place_at(&mut table, new_place("Shelf"), &morning()).expect("created");
    assert_eq!(place.id, 1);
    assert_eq!(place.name, "Shelf");
    assert_eq!(place.created_at, morning());
    assert_eq!(place.updated_at, morning());
    assert_eq!(place.deleted_at, None);
    assert_eq!(
        table.rows()[0],
        PlaceRow {
            id: 1,
            name: "Shelf".to_string(),
            created_at: "2024-03-01 08:00:00".to_string(),
            updated_at: "2024-03-01 08:00:00".to_string(),
            deleted_at: None,
        }
    );
}

#[test]
fn created_place_at_the_clock_has_equal_timestamps() {
    let mut table = PlaceTable::new();
    let place = create_place(&mut table, new_place("Shelf")).expect("created");
    assert_eq!(place.created_at, place.updated_at);
    assert_eq!(place.deleted_at, None);
    assert!(place.check());
    assert_eq!(table.len(), 1);
}

#[test]
fn every_live_place_is_listed_and_a_deleted_one_is_not() {
    let mut table = PlaceTable::new();
    let a = create_place_at(&mut table, new_place("Shelf"), &morning()).expect("created");
    let b = create_place_at(&mut table, new_place("Cellar"), &morning()).expect("created");
    let c = create_place_at(&mut table, new_place("Attic"), &morning()).expect("created");
    assert_eq!(list_places(&table, "").expect("lists"), vec![a.clone(), b.clone(), c.clone()]);
    assert!(delete_place_at(&mut table, b.id, &noon()));
    assert_eq!(list_places(&table, "").expect("lists"), vec![a, c]);
    assert_eq!(table.len(), 3);
    assert_eq!(table.rows()[1].deleted_at.as_deref(), Some("2024-03-01 12:00:00"));
}

#[test]
fn search_seven_lists_id_seven_and_names_with_seven() {
    let rows = vec![
        place_row(3, "Shelf 7", None),
        place_row(7, "Cellar", None),
        place_row(8, "Attic", None),
        place_row(17, "Room 17", Some("2024-02-01 00:00:00")),
        place_row(70, "77", None),
    ];
    let table = PlaceTable::from_rows(rows).expect("ids increase");
    let listed = list_places(&table, "7").expect("lists");
    assert_eq!(ids(&listed), vec![3, 7, 70]);
    assert_eq!(names(&listed), vec!["Shelf 7", "Cellar", "77"]);
}

#[test]
fn search_by_text_keeps_case_apart() {
    let rows = vec![place_row(1, "Main warehouse", None), place_row(2, "main office", None)];
    let table = PlaceTable::from_rows(rows).expect("ids increase");
    assert_eq!(ids(&list_places(&table, "Main").expect("lists")), vec![1]);
    assert_eq!(ids(&list_places(&table, "main").expect("lists")), vec![2]);
    assert_eq!(ids(&list_places(&table, "ain").expect("lists")), vec![1, 2]);
    assert_eq!(ids(&list_places(&table, "zzz").expect("lists")), Vec::<i32>::new());
    assert_eq!(ids(&list_places(&table, "%").expect("lists")), Vec::<i32>::new());
}

#[test]
fn search_twelve_matches_the_name_and_the_id() {
    let rows = vec![place_row(5, "12 units", None), place_row(12, "Yard", None)];
    let table = PlaceTable::from_rows(rows).expect("ids increase");
    assert_eq!(ids(&list_places(&table, "12").expect("lists")), vec![5, 12]);
    assert_eq!(ids(&list_places(&table, "+12").expect("lists")), vec![12]);
    assert_eq!(ids(&list_places(&table, "012").expect("lists")), vec![12]);
}

#[test]
fn listing_fails_where_a_listed_row_does_not_map() {
    let mut bad = place_row(2, "Cellar", None);
    bad.updated_at = "02/01/2024".to_string();
    let table =
        PlaceTable::from_rows(vec![place_row(1, "Shelf", None), bad, place_row(3, "Attic", None)])
            .expect("ids increase");
    assert_eq!(list_places(&table, ""), Err(MappingError { field: TimestampField::UpdatedAt }));
    assert_eq!(ids(&list_places(&table, "Shelf").expect("lists")), vec![1]);
}

#[test]
fn listing_passes_over_deleted_rows_that_do_not_map() {
    let mut bad = place_row(2, "Cellar", Some("2024-02-01 00:00:00"));
    bad.created_at = "never".to_string();
    let table = PlaceTable::from_rows(vec![place_row(1, "Shelf", None), bad]).expect("ids");
    assert_eq!(ids(&list_places(&table, "").expect("lists")), vec![1]);
}

#[test]
fn edit_sets_the_name_and_a_later_update_time() {
    let mut table = PlaceTable::new();
    let created = create_place_at(&mut table, new_place("Shelf"), &morning()).expect("created");
    let edited =
        edit_place_at(&mut table, EditPlaceRow { id: created.id, name: "X".to_string() }, &noon())
            .expect("edited");
    assert_eq!(edited.id, created.id);
    assert_eq!(edited.name, "X");
    assert_eq!(edited.created_at, morning());
    assert_eq!(edited.updated_at, noon());
    assert!(edited.created_at.is_before(&edited.updated_at));
    assert_eq!(edited.deleted_at, None);
    assert_eq!(list_places(&table, "").expect("lists"), vec![edited]);
}

#[test]
fn edit_in_the_same_second_leaves_the_times_equal() {
    let mut table = PlaceTable::new();
    let created = create_place_at(&mut table, new_place("Shelf"), &morning()).expect("created");
    let edited = edit_place_at(
        &mut table,
        EditPlaceRow { id: created.id, name: "X".to_string() },
        &morning(),
    )
    .expect("edited");
    assert_eq!(edited.updated_at, edited.created_at);
    assert!(!edited.created_at.is_before(&edited.updated_at));
}

#[test]
fn edit_at_the_clock_sets_the_name() {
    let mut table = PlaceTable::new();
    let created = create_place_at(&mut table, new_place("Shelf"), &morning()).expect("created");
    let edited = edit_place(&mut table, EditPlaceRow { id: created.id, name: "X".to_string() })
        .expect("edited");
    assert_eq!(edited.name, "X");
    assert!(edited.created_at.is_before(&edited.updated_at));
}

#[test]
fn edit_of_an_unknown_id_is_not_found() {
    let mut table = PlaceTable::new();
    create_place_at(&mut table, new_place("Shelf"), &morning()).expect("created");
    let before = table.rows().clone();
    assert_eq!(
        edit_place_at(&mut table, EditPlaceRow { id: 99, name: "X".to_string() }, &noon()),
        Err(RepositoryError::NotFound)
    );
    assert_eq!(table.rows(), &before);
}

#[test]
fn edit_reports_a_row_that_does_not_map() {
    let mut bad = place_row(1, "Shelf", None);
    bad.created_at = "long ago".to_string();
    let mut table = PlaceTable::from_rows(vec![bad]).expect("ids");
    assert_eq!(
        edit_place_at(&mut table, EditPlaceRow { id: 1, name: "X".to_string() }, &noon()),
        Err(RepositoryError::Mapping(MappingError { field: TimestampField::CreatedAt }))
    );
    assert_eq!(table.rows()[0].name, "X");
    assert_eq!(table.rows()[0].updated_at, "2024-03-01 12:00:00");
}

#[test]
fn edit_keeps_a_deletion() {
    let mut table =
        PlaceTable::from_rows(vec![place_row(1, "Shelf", Some("2024-02-01 00:00:00"))])
            .expect("ids");
    let edited =
        edit_place_at(&mut table, EditPlaceRow { id: 1, name: "X".to_string() }, &noon())
            .expect("edited");
    assert_eq!(edited.deleted_at, Some(at(2024, 2, 1, 0, 0, 0)));
}

#[test]
fn delete_answers_false_for_an_unknown_id() {
    let mut table = PlaceTable::new();
    create_place_at(&mut table, new_place("Shelf"), &morning()).expect("created");
    assert!(!delete_place_at(&mut table, 42, &noon()));
    assert_eq!(table.rows()[0].deleted_at, None);
}

#[test]
fn a_second_delete_keeps_the_first_time_of_deletion() {
    let mut table = PlaceTable::new();
    let place = create_place_at(&mut table, new_place("Shelf"), &morning()).expect("created");
    assert!(delete_place_at(&mut table, place.id, &noon()));
    assert!(!delete_place_at(&mut table, place.id, &evening()));
    assert_eq!(table.rows()[0].deleted_at.as_deref(), Some("2024-03-01 12:00:00"));
    assert!(!delete_place(&mut table, place.id));
    assert_eq!(table.rows()[0].deleted_at.as_deref(), Some("2024-03-01 12:00:00"));
}

#[test]
fn delete_at_the_clock_marks_the_place() {
    let mut table = PlaceTable::new();
    let place = create_place_at(&mut table, new_place("Shelf"), &morning()).expect("created");
    assert!(delete_place(&mut table, place.id));
    assert!(table.rows()[0].deleted_at.is_some());
    assert!(list_places(&table, "").expect("lists").is_empty());
}

#[test]
fn batch_returns_the_places_in_order_with_distinct_ids() {
    let mut table = PlaceTable::new();
    create_place_at(&mut table, new_place("First"), &morning()).expect("created");
    let created =
        create_places_at(&mut table, &[new_place("A"), new_place("B"), new_place("C")], &noon())
            .expect("created");
    assert_eq!(names(&created), vec!["A", "B", "C"]);
    assert_eq!(ids(&created), vec![2, 3, 4]);
    for place in &created {
        assert_eq!(place.created_at, noon());
        assert_eq!(place.updated_at, noon());
        assert_eq!(place.deleted_at, None);
    }
    assert_eq!(names(&list_places(&table, "").expect("lists")), vec!["First", "A", "B", "C"]);
}

#[test]
fn an_empty_batch_changes_nothing() {
    let mut table = PlaceTable::new();
    assert_eq!(create_places_at(&mut table, &[], &noon()), Ok(vec![]));
    assert_eq!(table.len(), 0);
    assert_eq!(create_places(&mut table, &[new_place("A")]).expect("created").len(), 1);
}

#[test]
fn interleaved_creates_return_their_own_rows() {
    let mut table = PlaceTable::new();
    let first = create_place_at(&mut table, new_place("from caller one"), &morning());
    let second = create_place_at(&mut table, new_place("from caller two"), &morning());
    let first = first.expect("created");
    let second = second.expect("created");
    assert_eq!(first.name, "from caller one");
    assert_eq!(second.name, "from caller two");
    assert_ne!(first.id, second.id);
}

#[test]
fn no_id_left_is_a_constraint_failure() {
    let mut table = PlaceTable::from_rows(vec![place_row(i32::MAX, "Last", None)]).expect("ids");
    assert_eq!(
        create_place_at(&mut table, new_place("One more"), &noon()),
        Err(RepositoryError::Constraint)
    );
    assert_eq!(table.len(), 1);
    let mut nearly = PlaceTable::from_rows(vec![place_row(i32::MAX - 2, "Near", None)]).expect("ids");
    assert_eq!(
        create_places_at(&mut nearly, &[new_place("A"), new_place("B"), new_place("C")], &noon()),
        Err(RepositoryError::Constraint)
    );
    assert_eq!(nearly.len(), 1);
    let two = create_places_at(&mut nearly, &[new_place("A"), new_place("B")], &noon())
        .expect("two ids are left");
    assert_eq!(ids(&two), vec![i32::MAX - 1, i32::MAX]);
}

#[test]
fn ids_continue_after_the_last_row() {
    let mut table =
        PlaceTable::from_rows(vec![place_row(-5, "Odd", None), place_row(40, "Forty", None)])
            .expect("ids");
    assert_eq!(create_place_at(&mut table, new_place("Next"), &noon()).expect("created").id, 41);
}

#[test]
fn a_table_needs_increasing_ids() {
    assert!(PlaceTable::from_rows(vec![]).is_some());
    assert!(PlaceTable::from_rows(vec![place_row(1, "A", None)]).is_some());
    assert!(PlaceTable::from_rows(vec![place_row(1, "A", None), place_row(1, "B", None)]).is_none());
    assert!(PlaceTable::from_rows(vec![place_row(2, "A", None), place_row(1, "B", None)]).is_none());
    assert!(PlaceTable::from_rows(vec![
        place_row(1, "A", None),
        place_row(5, "B", None),
        place_row(4, "C", None)
    ])
    .is_none());
}

#[test]
fn widget_scenario() {
    let mut table = ProductTable::new();
    let widget = create_product_at(&mut table, new_product("Widget", Some(5)), &morning())
        .expect("created");
    assert_eq!(widget.name, "Widget");
    assert_eq!(widget.min_stock, 5);
    assert_eq!(widget.deleted_at, None);
    assert_eq!(widget.created_at, widget.updated_at);
    assert!(delete_product_at(&mut table, widget.id, &noon()));
    assert!(list_products(&table, "").expect("lists").is_empty());
    let fetched = get_product_by_id(&table, widget.id).expect("still there");
    assert_eq!(fetched.name, "Widget");
    assert_eq!(fetched.deleted_at, Some(noon()));
}

#[test]
fn widget_scenario_at_the_clock() {
    let mut table = ProductTable::new();
    let widget = create_product(&mut table, new_product("Widget", Some(5))).expect("created");
    assert_eq!((widget.name.as_str(), widget.min_stock, widget.deleted_at), ("Widget", 5, None));
    assert!(delete_product(&mut table, widget.id));
    assert!(list_products(&table, "").expect("lists").is_empty());
    assert!(get_product_by_id(&table, widget.id).expect("still there").deleted_at.is_some());
}

#[test]
fn product_search_seven_lists_id_seven_and_names_with_seven() {
    let mut table = ProductTable::from_rows(
        [(7, "Widget"), (8, "M7 bolt"), (9, "Nut")]
            .into_iter()
            .map(|(id, name)| ProductRow {
                id,
                name: name.to_string(),
                unity: None,
                brand: None,
                min_stock: 0,
                observation: None,
                created_at: "2024-01-01 10:00:00".to_string(),
                updated_at: "2024-01-01 10:00:00".to_string(),
                deleted_at: None,
            })
            .collect(),
    )
    .expect("ids increase");
    let listed = list_products(&table, "7").expect("lists");
    assert_eq!(listed.iter().map(|p| p.id).collect::<Vec<i32>>(), vec![7, 8]);
    assert_eq!(list_products(&table, "").expect("lists").len(), 3);
    assert_eq!(list_products(&table, "nut").expect("lists").len(), 0);
    assert_eq!(list_products(&table, "Nut").expect("lists")[0].id, 9);
    assert!(delete_product_at(&mut table, 7, &noon()));
    let after = list_products(&table, "7").expect("lists");
    assert_eq!(after.iter().map(|p| p.id).collect::<Vec<i32>>(), vec![8]);
}

#[test]
fn a_product_without_minimum_stock_gets_zero() {
    let mut table = ProductTable::new();
    let product =
        create_product_at(&mut table, new_product("Bolt", None), &morning()).expect("created");
    assert_eq!(product.min_stock, 0);
    assert_eq!(product.unity, None);
    assert_eq!(table.rows()[0].min_stock, 0);
}

#[test]
fn get_product_by_id_fails_for_an_unknown_id() {
    let mut table = ProductTable::new();
    create_product_at(&mut table, new_product("Bolt", None), &morning()).expect("created");
    assert_eq!(get_product_by_id(&table, 2), Err(RepositoryError::NotFound));
    assert_eq!(get_product_by_id(&table, 1).expect("found").name, "Bolt");
}

#[test]
fn product_edit_changes_only_the_fields_given() {
    let mut table = ProductTable::new();
    let created = create_product_at(
        &mut table,
        NewProductRow {
            name: "Bolt".to_string(),
            unity: Some("un".to_string()),
            brand: Some("Acme".to_string()),
            min_stock: Some(10),
            observation: Some("steel".to_string()),
        },
        &morning(),
    )
    .expect("created");
    let edited = edit_product_at(
        &mut table,
        EditProductRow {
            id: created.id,
            name: "Bolt M8".to_string(),
            unity: None,
            brand: Some("Bolts Inc".to_string()),
            min_stock: None,
            observation: None,
        },
        &noon(),
    )
    .expect("edited");
    assert_eq!(edited.name, "Bolt M8");
    assert_eq!(edited.unity.as_deref(), Some("un"));
    assert_eq!(edited.brand.as_deref(), Some("Bolts Inc"));
    assert_eq!(edited.min_stock, 10);
    assert_eq!(edited.observation.as_deref(), Some("steel"));
    assert_eq!(edited.created_at, morning());
    assert_eq!(edited.updated_at, noon());
    let again = edit_product_at(
        &mut table,
        EditProductRow {
            id: created.id,
            name: "Bolt M8".to_string(),
            unity: Some("kg".to_string()),
            brand: None,
            min_stock: Some(3),
            observation: Some(String::new()),
        },
        &evening(),
    )
    .expect("edited");
    assert_eq!(again.unity.as_deref(), Some("kg"));
    assert_eq!(again.min_stock, 3);
    assert_eq!(again.observation.as_deref(), Some(""));
    assert_eq!(again.updated_at, evening());
}

#[test]
fn product_batch_keeps_order_and_fields() {
    let mut table = ProductTable::new();
    let created = create_products_at(
        &mut table,
        &[new_product("A", Some(1)), new_product("B", None), new_product("C", Some(3))],
        &noon(),
    )
    .expect("created");
    let seen: Vec<(i32, &str, i32)> =
        created.iter().map(|p| (p.id, p.name.as_str(), p.min_stock)).collect();
    assert_eq!(seen, vec![(1, "A", 1), (2, "B", 0), (3, "C", 3)]);
    assert_eq!(list_products(&table, "").expect("lists"), created);
}

#[test]
fn suppliers_follow_the_same_rules() {
    let mut table = SupplierTable::new();
    let acme = create_supplier_at(&mut table, NewSupplierRow { name: "Acme".to_string() }, &morning())
        .expect("created");
    let more = create_suppliers_at(
        &mut table,
        &[NewSupplierRow { name: "Bolts 7".to_string() }, NewSupplierRow { name: "Nuts".to_string() }],
        &morning(),
    )
    .expect("created");
    assert_eq!((acme.id, more[0].id, more[1].id), (1, 2, 3));
    let edited = edit_supplier_at(
        &mut table,
        EditSupplierRow { id: 3, name: "Nuts and more".to_string() },
        &noon(),
    )
    .expect("edited");
    assert!(edited.created_at.is_before(&edited.updated_at));
    assert!(delete_supplier_at(&mut table, 1, &noon()));
    assert!(!delete_supplier_at(&mut table, 1, &evening()));
    let listed = list_suppliers(&table, "").expect("lists");
    assert_eq!(listed.iter().map(|s| s.id).collect::<Vec<i32>>(), vec![2, 3]);
    let by_seven = list_suppliers(&table, "7").expect("lists");
    assert_eq!(by_seven.iter().map(|s| s.name.as_str()).collect::<Vec<&str>>(), vec!["Bolts 7"]);
    let by_id = list_suppliers(&table, "3").expect("lists");
    assert_eq!(by_id.iter().map(|s| s.id).collect::<Vec<i32>>(), vec![3]);
    assert_eq!(
        SupplierTable::from_rows(vec![SupplierRow {
            id: 1,
            name: "Acme".to_string(),
            created_at: "x".to_string(),
            updated_at: "2024-01-01 00:00:00".to_string(),
            deleted_at: None,
        }])
        .map(|t| list_suppliers(&t, "")),
        Some(Err(MappingError { field: TimestampField::CreatedAt }))
    );
}

#[test]
fn a_created_and_deleted_place_leaves_the_listing_as_it_was() {
    let mut table = PlaceTable::from_rows(vec![
        place_row(3, "Shelf 7", None),
        place_row(7, "Cellar", Some("2024-02-01 00:00:00")),
        place_row(9, "Attic", None),
    ])
    .expect("ids increase");
    for search in ["", "7", "A", "10"] {
        let before = list_places(&table, search).expect("lists");
        let created = create_place_at(&mut table, new_place("Attic 7"), &morning()).expect("created");
        assert!(delete_place_at(&mut table, created.id, &noon()));
        let after = list_places(&table, search).expect("lists");
        assert_eq!(after, before);
        assert!(after.iter().all(|place| place.id != created.id));
    }
    assert_eq!(table.len(), 7);
}

#[test]
fn batch_ids_are_new_and_the_table_grows_by_the_batch() {
    let mut table =
        PlaceTable::from_rows(vec![place_row(2, "A", None), place_row(10, "B", None)]).expect("ids");
    let held: Vec<i32> = table.rows().iter().map(|row| row.id).collect();
    let created = create_places_at(
        &mut table,
        &[new_place("C"), new_place("D"), new_place("E"), new_place("F")],
        &noon(),
    )
    .expect("created");
    assert_eq!(created.len(), 4);
    assert_eq!(table.len(), 6);
    assert_eq!(ids(&created), vec![11, 12, 13, 14]);
    assert!(created.iter().all(|place| !held.contains(&place.id)));
}

#[test]
fn edit_of_a_mapped_row_succeeds_and_the_row_holds_the_name() {
    let mut table =
        PlaceTable::from_rows(vec![place_row(4, "Shelf", None), place_row(5, "Yard", None)])
            .expect("ids");
    let edited = edit_place_at(&mut table, EditPlaceRow { id: 5, name: "X".to_string() }, &noon())
        .expect("edited");
    assert_eq!((edited.id, edited.name.as_str()), (5, "X"));
    assert_eq!(edited.created_at, at(2024, 1, 1, 10, 0, 0));
    assert_eq!(edited.updated_at, noon());
    assert_eq!(table.rows()[1].name, "X");
    assert_eq!(table.rows()[0], place_row(4, "Shelf", None));
}

#[test]
fn product_batch_keeps_every_field_of_its_records() {
    let mut table = ProductTable::new();
    let records = [
        NewProductRow {
            name: "A".to_string(),
            unity: Some("un".to_string()),
            brand: Some("Acme".to_string()),
            min_stock: Some(4),
            observation: Some("steel".to_string()),
        },
        NewProductRow {
            name: "B".to_string(),
            unity: None,
            brand: Some("Bolts".to_string()),
            min_stock: Some(0),
            observation: None,
        },
    ];
    let created = create_products_at(&mut table, &records, &noon()).expect("created");
    assert_eq!(created.len(), records.len());
    for (product, record) in created.iter().zip(records.iter()) {
        assert_eq!(product.name, record.name);
        assert_eq!(product.unity, record.unity);
        assert_eq!(product.brand, record.brand);
        assert_eq!(product.observation, record.observation);
        assert_eq!(Some(product.min_stock), record.min_stock);
        assert_eq!(product.deleted_at, None);
        assert_eq!(product.created_at, noon());
    }
}

#[test]
fn created_supplier_has_the_name_and_no_deletion() {
    let mut table = SupplierTable::new();
    let supplier =
        create_supplier_at(&mut table, NewSupplierRow { name: "Acme".to_string() }, &morning())
            .expect("created");
    assert_eq!(supplier.name, "Acme");
    assert_eq!(supplier.deleted_at, None);
    assert_eq!(supplier.created_at, supplier.updated_at);
}
