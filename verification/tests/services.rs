use stock_management::domain::place::Place;
use stock_management::domain::product::Product;
use stock_management::domain::supplier::Supplier;
use stock_management::services::export::export_places::export_places;
use stock_management::services::export::export_products::export_products;
use stock_management::services::export::export_suppliers::export_suppliers;
use stock_management::services::import::{place_headers, product_headers, supplier_headers};
use stock_management::services::sheet::{PLACES_SHEET, PRODUCTS_SHEET, SUPPLIERS_SHEET};
use stock_management::timestamp::DateTime;

fn at(day: u32, hour: u32) -> DateTime {
    DateTime::new(2024, 3, day, hour, 5, 9).expect("a date of the calendar")
}

fn texts(rows: &[Vec<String>]) -> Vec<Vec<&str>> {
    rows.iter().map(|row| row.iter().map(|cell| cell.as_str()).collect()).collect()
}

#[test]
fn sheets_are_named_after_their_records() {
    assert_eq!(PRODUCTS_SHEET, "Products");
    assert_eq!(SUPPLIERS_SHEET, "Suppliers");
    assert_eq!(PLACES_SHEET, "Places");
}

#[test]
fn import_headers_name_the_fields_of_a_new_record() {
    assert_eq!(place_headers(), vec!["name"]);
    assert_eq!(supplier_headers(), vec!["name"]);
    assert_eq!(product_headers(), vec!["name", "brand", "unity", "min_stock", "observation"]);
}

#[test]
fn places_are_exported_under_a_header_row() {
    let places = vec![
        Place {
            id: 1,
            name: "Shelf".to_string(),
            created_at: at(1, 8),
            updated_at: at(2, 9),
            deleted_at: None,
        },
        Place {
            id: -20,
            name: String::new(),
            created_at: at(3, 10),
            updated_at: at(3, 10),
            deleted_at: Some(at(4, 11)),
        },
    ];
    let sheet = export_places(&places);
    assert_eq!(sheet.name, "Places");
    assert_eq!(
        texts(&sheet.rows),
        vec![
            vec!["id", "name", "created_at", "updated_at"],
            vec!["1", "Shelf", "2024-03-01 08:05:09", "2024-03-02 09:05:09"],
            vec!["-20", "", "2024-03-03 10:05:09", "2024-03-03 10:05:09"],
        ]
    );
}

#[test]
fn an_empty_export_has_only_the_header_row() {
    assert_eq!(
        texts(&export_places(&[]).rows),
        vec![vec!["id", "name", "created_at", "updated_at"]]
    );
    assert_eq!(
        texts(&export_suppliers(&[]).rows),
        vec![vec!["id", "name", "created_at", "updated_at"]]
    );
    assert_eq!(
        texts(&export_products(&[]).rows),
        vec![vec![
            "id",
            "name",
            "brand",
            "unity",
            "min_stock",
            "observation",
            "created_at",
            "updated_at"
        ]]
    );
}

#[test]
fn suppliers_are_exported_like_places() {
    let suppliers = vec![Supplier {
        id: 12,
        name: "Acme".to_string(),
        created_at: at(1, 8),
        updated_at: at(1, 8),
        deleted_at: None,
    }];
    let sheet = export_suppliers(&suppliers);
    assert_eq!(sheet.name, "Suppliers");
    assert_eq!(
        texts(&sheet.rows)[1],
        vec!["12", "Acme", "2024-03-01 08:05:09", "2024-03-01 08:05:09"]
    );
}

#[test]
fn products_are_exported_with_brand_before_unity() {
    let products = vec![
        Product {
            id: 7,
            name: "Bolt".to_string(),
            unity: Some("un".to_string()),
            brand: Some("Acme".to_string()),
            min_stock: 25,
            observation: Some("steel".to_string()),
            created_at: at(1, 8),
            updated_at: at(2, 9),
            deleted_at: None,
        },
        Product {
            id: 8,
            name: "Nut".to_string(),
            unity: None,
            brand: None,
            min_stock: 0,
            observation: None,
            created_at: at(1, 8),
            updated_at: at(1, 8),
            deleted_at: None,
        },
    ];
    let sheet = export_products(&products);
    assert_eq!(sheet.name, "Products");
    assert_eq!(
        texts(&sheet.rows)[1..],
        [
            vec![
                "7",
                "Bolt",
                "Acme",
                "un",
                "25",
                "steel",
                "2024-03-01 08:05:09",
                "2024-03-02 09:05:09"
            ],
            vec!["8", "Nut", "", "", "0", "", "2024-03-01 08:05:09", "2024-03-01 08:05:09"],
        ]
    );
}

#[test]
fn exported_timestamps_read_as_chrono_prints_them() {
    let place = Place {
        id: 1,
        name: "Shelf".to_string(),
        created_at: at(1, 8),
        updated_at: at(2, 9),
        deleted_at: None,
    };
    let known = chrono::NaiveDate::from_ymd_opt(2024, 3, 1)
        .and_then(|date| date.and_hms_opt(8, 5, 9))
        .expect("a date of the calendar");
    assert_eq!(export_places(&[place]).rows[1][2], known.to_string());
}
