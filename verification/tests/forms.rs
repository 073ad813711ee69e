use stock_management::components::modals::place_form_modal::PlaceFormModal;
use stock_management::components::modals::product_form_modal::ProductFormModal;
use stock_management::components::modals::supplier_form_modal::SupplierFormModal;
use stock_management::components::modals::validation::{
    check_min_stock, check_name, min_stock_message, min_stock_range_message, name_message,
};
use stock_management::domain::place::Place;
use stock_management::domain::product::Product;
use stock_management::infra::models::{NewPlaceRow, NewProductRow};
use stock_management::infra::repositories::place_repository::{
    create_place_at, list_places, PlaceTable,
};
use stock_management::infra::repositories::product_repository::{
    create_product_at, get_product_by_id, list_products, ProductTable,
};
use stock_management::infra::repositories::supplier_repository::{list_suppliers, SupplierTable};
use stock_management::timestamp::DateTime;

fn at(hour: u32) -> DateTime {
    DateTime::new(2024, 3, 1, hour, 0, 0).expect("a date of the calendar")
}

fn place_form(name: &str) -> PlaceFormModal {
    let mut form = PlaceFormModal::new(None);
    form.set_name(name.to_string());
    form
}

fn product_form(name: &str, min_stock: &str) -> ProductFormModal {
    let mut form = ProductFormModal::new(None);
    form.set_name(name.to_string());
    form.set_min_stock(min_stock.to_string());
    form
}

#[test]
fn names_need_two_characters() {
    assert!(!check_name(""));
    assert!(!check_name("a"));
    assert!(check_name("ab"));
    assert!(check_name("  "));
    assert!(!check_name("é"));
    assert!(check_name("éa"));
    assert!(check_name("水水"));
    assert!(check_name("a long name"));
}

#[test]
fn minimum_stock_must_not_be_negative() {
    assert!(check_min_stock(0));
    assert!(check_min_stock(1));
    assert!(check_min_stock(i32::MAX));
    assert!(!check_min_stock(-1));
    assert!(!check_min_stock(i32::MIN));
}

#[test]
fn the_messages_are_fixed() {
    assert_eq!(name_message(), "Name must contain at least two characters");
    assert_eq!(min_stock_message(), "Min stock should be a valide integer");
    assert_eq!(min_stock_range_message(), "Min stock must not be negative");
}

#[test]
fn a_new_place_form_is_empty() {
    let form = PlaceFormModal::new(None);
    assert_eq!(form.id(), None);
    assert_eq!(form.name(), "");
    assert_eq!(form.errors().name, None);
    assert!(!form.should_close());
}

#[test]
fn a_place_form_opens_with_the_place() {
    let place = Place {
        id: 4,
        name: "Shelf".to_string(),
        created_at: at(1),
        updated_at: at(2),
        deleted_at: None,
    };
    let form = PlaceFormModal::new(Some(&place));
    assert_eq!(form.id(), Some(4));
    assert_eq!(form.name(), "Shelf");
    assert_eq!(form.errors().name, None);
    assert!(!form.should_close());
}

#[test]
fn place_form_validation_rejects_a_short_name() {
    let mut form = place_form("a");
    assert!(form.validate_form().is_none());
    assert_eq!(
        form.errors().name.as_deref(),
        Some("Name must contain at least two characters")
    );
    form.set_name("ab".to_string());
    let fields = form.validate_form().expect("passes");
    assert_eq!(fields.name(), "ab");
    assert_eq!(form.errors().name, None);
    assert!(!form.should_close());
}

#[test]
fn saving_a_new_place_creates_it_and_closes_the_form() {
    let mut table = PlaceTable::new();
    let mut form = place_form("Shelf");
    let saved = form.save_at(&mut table, &at(8)).expect("saved");
    assert!(form.should_close());
    assert_eq!(saved.id, 1);
    assert_eq!(saved.name, "Shelf");
    assert_eq!(saved.created_at, at(8));
    assert_eq!(list_places(&table, "").expect("lists"), vec![saved]);
}

#[test]
fn saving_an_existing_place_edits_it() {
    let mut table = PlaceTable::new();
    let place = create_place_at(&mut table, NewPlaceRow { name: "Shelf".to_string() }, &at(8))
        .expect("created");
    let mut form = PlaceFormModal::new(Some(&place));
    form.set_name("Top shelf".to_string());
    let saved = form.save_at(&mut table, &at(9)).expect("saved");
    assert!(form.should_close());
    assert_eq!((saved.id, saved.name.as_str()), (1, "Top shelf"));
    assert_eq!(saved.updated_at, at(9));
    assert_eq!(table.len(), 1);
}

#[test]
fn saving_a_short_name_changes_nothing() {
    let mut table = PlaceTable::new();
    let mut form = place_form("x");
    assert!(form.save_at(&mut table, &at(8)).is_none());
    assert!(!form.should_close());
    assert!(form.errors().name.is_some());
    assert_eq!(table.len(), 0);
    assert!(form.save(&mut table).is_none());
}

#[test]
fn saving_for_a_vanished_place_closes_without_a_place() {
    let mut table = PlaceTable::new();
    let ghost = Place {
        id: 77,
        name: "Gone".to_string(),
        created_at: at(1),
        updated_at: at(1),
        deleted_at: None,
    };
    let mut form = PlaceFormModal::new(Some(&ghost));
    assert!(form.save_at(&mut table, &at(8)).is_none());
    assert!(form.should_close());
    assert_eq!(table.len(), 0);
}

#[test]
fn cancel_asks_to_close() {
    let mut form = place_form("Shelf");
    form.cancel();
    assert!(form.should_close());
    assert_eq!(form.name(), "Shelf");
}

#[test]
fn supplier_form_saves_at_the_clock() {
    let mut table = SupplierTable::new();
    let mut form = SupplierFormModal::new(None);
    form.set_name("Acme".to_string());
    let saved = form.save(&mut table).expect("saved");
    assert_eq!(saved.name, "Acme");
    assert_eq!(saved.created_at, saved.updated_at);
    assert_eq!(list_suppliers(&table, "Acme").expect("lists").len(), 1);
    let mut short = SupplierFormModal::new(None);
    short.set_name("A".to_string());
    assert!(short.validate_form().is_none());
    assert!(short.errors().name.is_some());
}

#[test]
fn a_new_product_form_is_empty_with_unit_un() {
    let form = ProductFormModal::new(None);
    assert_eq!(form.id(), None);
    assert_eq!(form.name(), "");
    assert_eq!(form.brand(), "");
    assert_eq!(form.unity(), "un");
    assert_eq!(form.min_stock(), "");
    assert_eq!(form.observation(), "");
    assert_eq!(form.errors().name, None);
    assert_eq!(form.errors().min_stock, None);
}

#[test]
fn a_product_form_opens_with_the_product() {
    let product = Product {
        id: 3,
        name: "Bolt".to_string(),
        unity: Some("kg".to_string()),
        brand: None,
        min_stock: -12,
        observation: Some("steel".to_string()),
        created_at: at(1),
        updated_at: at(1),
        deleted_at: None,
    };
    let form = ProductFormModal::new(Some(&product));
    assert_eq!(form.id(), Some(3));
    assert_eq!(form.name(), "Bolt");
    assert_eq!(form.brand(), "");
    assert_eq!(form.unity(), "un");
    assert_eq!(form.min_stock(), "-12");
    assert_eq!(form.observation(), "steel");
}

#[test]
fn product_form_validation_reads_the_minimum_stock() {
    let mut form = product_form("Bolt", "5");
    form.set_brand("Acme".to_string());
    form.set_observation("steel".to_string());
    let fields = form.validate_form().expect("passes");
    assert_eq!(fields.name(), "Bolt");
    assert_eq!(fields.brand(), "Acme");
    assert_eq!(fields.unity(), "un");
    assert_eq!(fields.min_stock(), 5);
    assert_eq!(fields.observation(), "steel");
    assert_eq!(form.errors().name, None);
    assert_eq!(form.errors().min_stock, None);
}

#[test]
fn product_form_validation_reports_a_minimum_stock_that_is_no_integer() {
    for text in ["", "abc", "1.5", " 5", "99999999999"] {
        let mut form = product_form("Bolt", text);
        assert!(form.validate_form().is_none(), "{:?}", text);
        assert_eq!(
            form.errors().min_stock.as_deref(),
            Some("Min stock should be a valide integer")
        );
        assert_eq!(form.errors().name, None);
    }
}

#[test]
fn product_form_validation_reports_a_minimum_stock_below_zero() {
    for text in ["-3", "-5", "-1", "-2147483648"] {
        let mut form = product_form("Widget", text);
        assert!(form.validate_form().is_none(), "{:?}", text);
        assert_eq!(form.errors().min_stock.as_deref(), Some("Min stock must not be negative"));
        assert_eq!(form.errors().name, None);
    }
    let mut both = product_form("W", "-3");
    assert!(both.validate_form().is_none());
    assert_eq!(both.errors().min_stock.as_deref(), Some("Min stock must not be negative"));
    assert_eq!(
        both.errors().name.as_deref(),
        Some("Name must contain at least two characters")
    );
}

#[test]
fn product_form_validation_accepts_zero_and_minus_zero() {
    for text in ["0", "-0", "+0", "00"] {
        let mut form = product_form("Widget", text);
        assert_eq!(form.validate_form().expect("passes").min_stock(), 0);
        assert_eq!(form.errors().min_stock, None);
    }
}

#[test]
fn product_form_validation_reports_both_fields() {
    let mut form = product_form("B", "many");
    assert!(form.validate_form().is_none());
    assert_eq!(
        form.errors().name.as_deref(),
        Some("Name must contain at least two characters")
    );
    assert_eq!(form.errors().min_stock.as_deref(), Some("Min stock should be a valide integer"));
    form.set_name("Bolt".to_string());
    form.set_min_stock("0".to_string());
    assert!(form.validate_form().is_some());
    assert_eq!(form.errors().name, None);
    assert_eq!(form.errors().min_stock, None);
}

#[test]
fn saving_a_new_product_sets_every_field() {
    let mut table = ProductTable::new();
    let mut form = product_form("Bolt", "7");
    form.set_brand("Acme".to_string());
    let saved = form.save_at(&mut table, &at(8)).expect("saved");
    assert!(form.should_close());
    assert_eq!(saved.name, "Bolt");
    assert_eq!(saved.unity.as_deref(), Some("un"));
    assert_eq!(saved.brand.as_deref(), Some("Acme"));
    assert_eq!(saved.min_stock, 7);
    assert_eq!(saved.observation.as_deref(), Some(""));
    assert_eq!(list_products(&table, "").expect("lists"), vec![saved]);
}

#[test]
fn saving_an_existing_product_edits_it() {
    let mut table = ProductTable::new();
    let product = create_product_at(
        &mut table,
        NewProductRow {
            name: "Bolt".to_string(),
            unity: Some("kg".to_string()),
            brand: Some("Acme".to_string()),
            min_stock: Some(1),
            observation: None,
        },
        &at(8),
    )
    .expect("created");
    let mut form = ProductFormModal::new(Some(&product));
    form.set_min_stock("20".to_string());
    form.set_unity("un");
    let saved = form.save_at(&mut table, &at(9)).expect("saved");
    assert_eq!(saved.id, product.id);
    assert_eq!(saved.min_stock, 20);
    assert_eq!(saved.unity.as_deref(), Some("un"));
    assert_eq!(saved.brand.as_deref(), Some("Acme"));
    assert_eq!(saved.updated_at, at(9));
    assert_eq!(get_product_by_id(&table, product.id).expect("found"), saved);
    let mut at_clock = ProductFormModal::new(Some(&saved));
    at_clock.set_name("Bolt M8".to_string());
    assert_eq!(at_clock.save(&mut table).expect("saved").name, "Bolt M8");
}

#[test]
fn saving_a_bad_product_form_changes_nothing() {
    let mut table = ProductTable::new();
    let mut form = product_form("Bolt", "-1");
    assert!(form.save_at(&mut table, &at(8)).is_none());
    assert!(!form.should_close());
    assert_eq!(form.errors().min_stock.as_deref(), Some("Min stock must not be negative"));
    assert_eq!(form.errors().name, None);
    assert_eq!(table.len(), 0);
    form.set_min_stock("1".to_string());
    assert!(form.save_at(&mut table, &at(8)).is_some());
    assert!(form.should_close());
    assert_eq!(form.errors().min_stock, None);
    assert_eq!(table.len(), 1);
}
