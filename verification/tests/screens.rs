use stock_management::infra::models::{NewPlaceRow, NewProductRow, NewSupplierRow, PlaceRow};
use stock_management::infra::repositories::place_repository::{
    create_place_at, create_places_at, PlaceTable,
};
use stock_management::infra::repositories::product_repository::{
    create_product_at, get_product_by_id, list_products, ProductTable,
};
use stock_management::infra::repositories::supplier_repository::{
    create_suppliers_at, SupplierTable,
};
use stock_management::screens::places_screen::PlacesScreen;
use stock_management::navigation::{ActiveScreenInstance, Message, ScreenId, StockManagement};
use stock_management::screens::dashboard_screen::DashboardScreen;
use stock_management::screens::products_screen::{ProductsScreen, ProductsScreenMessage};
use stock_management::timestamp::DateTime;
use stock_management::widgets::sidebar::SideBar;

fn at(hour: u32) -> DateTime {
    DateTime::new(2024, 3, 1, hour, 0, 0).expect("a date of the calendar")
}

fn product(name: &str) -> NewProductRow {
    NewProductRow { name: name.to_string(), unity: None, brand: None, min_stock: None, observation: None }
}

fn table_of(names: &[&str]) -> ProductTable {
    let mut table = ProductTable::new();
    for name in names {
        create_product_at(&mut table, product(name), &at(8)).expect("created");
    }
    table
}

fn shown(screen: &ProductsScreen) -> Vec<(i32, String)> {
    screen.products.iter().map(|p| (p.id, p.name.clone())).collect()
}

#[test]
fn the_side_bar_has_five_entries_in_order() {
    let bar = SideBar::new();
    assert_eq!(bar.len(), 5);
    let entries: Vec<(&str, ScreenId)> = (0..bar.len()).map(|i| (bar.label(i), bar.screen(i))).collect();
    assert_eq!(
        entries,
        vec![
            ("Dashboard", ScreenId::Dashboard),
            ("Products", ScreenId::Products),
            ("Suppliers", ScreenId::Suppliers),
            ("Places", ScreenId::Places),
            ("Inventory Transactions", ScreenId::InventoryTransactions),
        ]
    );
}

#[test]
fn a_click_in_the_side_bar_switches_the_screen() {
    let bar = SideBar::new();
    let mut active = ScreenId::Dashboard;
    bar.click(3, &mut active);
    assert_eq!(active, ScreenId::Places);
    bar.click(3, &mut active);
    assert_eq!(active, ScreenId::Places);
    bar.click(0, &mut active);
    assert_eq!(active, ScreenId::Dashboard);
}

#[test]
fn the_entry_of_the_open_screen_sends_no_message() {
    let bar = SideBar::new();
    assert!(bar.message(1, &ScreenId::Products).is_none());
    match bar.message(2, &ScreenId::Products) {
        Some(Message::SwitchScreen(screen)) => assert_eq!(screen, ScreenId::Suppliers),
        _ => panic!("a switch was expected"),
    }
}

#[test]
fn the_dashboard_opens_empty() {
    let mut screen = DashboardScreen::new();
    assert!(screen.entry_form_modal.is_none());
    assert!(screen.error.is_none());
    screen.error = Some("could not read the sheet".to_string());
    screen.dismiss_error();
    assert!(screen.error.is_none());
}

#[test]
fn the_application_starts_on_the_dashboard() {
    let app = StockManagement::default();
    assert_eq!(app.screen, ScreenId::Dashboard);
    assert!(matches!(app.active_screen, ActiveScreenInstance::Dashboard));
}

#[test]
fn a_switch_opens_the_screen_afresh() {
    let mut table = table_of(&["Bolt", "Nut"]);
    let mut app = StockManagement::default();
    app.update_at(&mut table, Message::SwitchScreen(ScreenId::Products), &at(9));
    assert_eq!(app.screen, ScreenId::Products);
    match &app.active_screen {
        ActiveScreenInstance::Products(screen) => {
            assert_eq!(shown(screen), vec![(1, "Bolt".to_string()), (2, "Nut".to_string())])
        },
        _ => panic!("the products were expected"),
    }
    app.update_at(&mut table, Message::SwitchScreen(ScreenId::Places), &at(9));
    assert_eq!(app.screen, ScreenId::Places);
    assert!(matches!(app.active_screen, ActiveScreenInstance::Places));
    app.update(&mut table, Message::SwitchScreen(ScreenId::InventoryTransactions));
    assert!(matches!(app.active_screen, ActiveScreenInstance::InventoryTransactions));
}

#[test]
fn messages_for_the_products_reach_only_their_screen() {
    let mut table = table_of(&["Bolt"]);
    let mut app = StockManagement::default();
    app.update_at(&mut table, Message::Products(ProductsScreenMessage::Create), &at(9));
    assert_eq!(table.len(), 1);
    assert!(matches!(app.active_screen, ActiveScreenInstance::Dashboard));
    app.update_at(&mut table, Message::SwitchScreen(ScreenId::Products), &at(9));
    app.update_at(&mut table, Message::Products(ProductsScreenMessage::Create), &at(9));
    assert_eq!(table.len(), 2);
    assert_eq!(table.rows()[1].name, "Product 1");
    assert_eq!(table.rows()[1].unity.as_deref(), Some("un"));
    assert_eq!(table.rows()[1].brand.as_deref(), Some("Brand X"));
    assert_eq!(table.rows()[1].min_stock, 0);
    app.update_at(&mut table, Message::Products(ProductsScreenMessage::Delete(1)), &at(10));
    match &app.active_screen {
        ActiveScreenInstance::Products(screen) => {
            assert_eq!(shown(screen), vec![(2, "Product 1".to_string())])
        },
        _ => panic!("the products were expected"),
    }
    assert_eq!(app.screen, ScreenId::Products);
}

#[test]
fn the_products_screen_lists_live_products() {
    let mut table = table_of(&["Bolt", "Nut", "Washer"]);
    let mut screen = ProductsScreen::new(&table);
    assert_eq!(screen.products.len(), 3);
    screen.update_at(&mut table, ProductsScreenMessage::Delete(2), &at(9));
    assert_eq!(shown(&screen), vec![(1, "Bolt".to_string()), (3, "Washer".to_string())]);
    assert_eq!(shown(&ProductsScreen::new(&table)), shown(&screen));
    assert!(get_product_by_id(&table, 2).expect("found").deleted_at.is_some());
    screen.update_at(&mut table, ProductsScreenMessage::Delete(99), &at(9));
    assert_eq!(screen.products.len(), 2);
}

#[test]
fn create_numbers_the_product_by_the_length_of_the_list() {
    let mut table = ProductTable::new();
    let mut screen = ProductsScreen::new(&table);
    screen.update_at(&mut table, ProductsScreenMessage::Create, &at(9));
    screen.update(&mut table, ProductsScreenMessage::Create);
    assert_eq!(shown(&screen), vec![(1, "Product 0".to_string()), (2, "Product 1".to_string())]);
    assert_eq!(list_products(&table, "").expect("lists"), screen.products);
}

#[test]
fn the_form_of_the_screen_adds_and_replaces() {
    let mut table = table_of(&["Bolt"]);
    let mut screen = ProductsScreen::new(&table);
    screen.add_product();
    {
        let form = screen.product_form_modal.as_mut().expect("open");
        form.set_name("Nut".to_string());
        form.set_min_stock("4".to_string());
    }
    screen.save_form_at(&mut table, &at(9));
    assert!(screen.product_form_modal.is_none());
    assert_eq!(shown(&screen), vec![(1, "Bolt".to_string()), (2, "Nut".to_string())]);
    screen.edit_product(0);
    {
        let form = screen.product_form_modal.as_mut().expect("open");
        assert_eq!(form.name(), "Bolt");
        form.set_name("Bolt M8".to_string());
    }
    screen.save_form_at(&mut table, &at(10));
    assert!(screen.product_form_modal.is_none());
    assert_eq!(shown(&screen), vec![(1, "Bolt M8".to_string()), (2, "Nut".to_string())]);
    assert_eq!(table.len(), 2);
}

#[test]
fn a_form_that_fails_the_check_stays_open() {
    let mut table = ProductTable::new();
    let mut screen = ProductsScreen::new(&table);
    screen.add_product();
    screen.save_form_at(&mut table, &at(9));
    let form = screen.product_form_modal.as_ref().expect("still open");
    assert!(form.errors().name.is_some());
    assert!(form.errors().min_stock.is_some());
    assert!(screen.products.is_empty());
    screen.cancel_form();
    assert!(screen.product_form_modal.is_none());
    screen.save_form(&mut table);
    assert_eq!(table.len(), 0);
}

#[test]
fn deletion_waits_for_an_answer() {
    let mut table = table_of(&["Bolt", "Nut"]);
    let mut screen = ProductsScreen::new(&table);
    screen.ask_delete(1);
    assert_eq!(screen.product_to_delete.as_ref().map(|p| p.id), Some(2));
    screen.cancel_delete();
    assert!(screen.product_to_delete.is_none());
    assert_eq!(screen.products.len(), 2);
    screen.confirm_delete_at(&mut table, &at(9));
    assert_eq!(list_products(&table, "").expect("lists").len(), 2);
    screen.ask_delete(0);
    screen.confirm_delete_at(&mut table, &at(9));
    assert!(screen.product_to_delete.is_none());
    assert_eq!(shown(&screen), vec![(2, "Nut".to_string())]);
    assert_eq!(list_products(&table, "").expect("lists"), screen.products);
    screen.ask_delete(0);
    screen.confirm_delete(&mut table);
    assert!(screen.products.is_empty());
}

#[test]
fn the_places_screen_searches_and_imports() {
    let mut table = PlaceTable::new();
    create_places_at(
        &mut table,
        &[
            NewPlaceRow { name: "Shelf 7".to_string() },
            NewPlaceRow { name: "Cellar".to_string() },
        ],
        &at(8),
    )
    .expect("created");
    let mut screen = PlacesScreen::new(&table);
    assert_eq!(screen.places.len(), 2);
    assert_eq!(screen.search, "");
    assert!(screen.error.is_none());
    screen.search_changed(&table, "7".to_string());
    assert_eq!(screen.search, "7");
    assert_eq!(screen.places.iter().map(|p| p.id).collect::<Vec<i32>>(), vec![1]);
    screen.search_changed(&table, "2".to_string());
    assert_eq!(screen.places.iter().map(|p| p.id).collect::<Vec<i32>>(), vec![2]);
    screen.import_at(
        &mut table,
        Ok(vec![NewPlaceRow { name: "Attic".to_string() }, NewPlaceRow { name: "Yard".to_string() }]),
        &at(9),
    );
    assert_eq!(screen.places.iter().map(|p| p.id).collect::<Vec<i32>>(), vec![2, 3, 4]);
    assert_eq!(table.len(), 4);
    screen.import_at(&mut table, Err("no sheet named Places".to_string()), &at(9));
    assert_eq!(screen.error.as_deref(), Some("no sheet named Places"));
    assert_eq!(table.len(), 4);
    screen.dismiss_error();
    assert!(screen.error.is_none());
    screen.import(&mut table, Ok(vec![]));
    assert_eq!(table.len(), 4);
    assert_eq!(PlacesScreen::get_places_list(&table, "").len(), 4);
    assert_eq!(PlacesScreen::get_places_list(&table, "zzz").len(), 0);
}

#[test]
fn the_places_screen_edits_and_deletes_through_its_form() {
    let mut table = PlaceTable::new();
    create_place_at(&mut table, NewPlaceRow { name: "Shelf".to_string() }, &at(8)).expect("created");
    let mut screen = PlacesScreen::new(&table);
    screen.add_place();
    screen.place_form_modal.as_mut().expect("open").set_name("Cellar".to_string());
    screen.save_form_at(&mut table, &at(9));
    assert!(screen.place_form_modal.is_none());
    assert_eq!(screen.places.len(), 2);
    screen.edit_place(1);
    screen.place_form_modal.as_mut().expect("open").set_name("C".to_string());
    screen.save_form_at(&mut table, &at(10));
    assert!(screen.place_form_modal.as_ref().expect("still open").errors().name.is_some());
    screen.place_form_modal.as_mut().expect("open").set_name("Deep cellar".to_string());
    screen.save_form(&mut table);
    assert!(screen.place_form_modal.is_none());
    assert_eq!(screen.places[1].name, "Deep cellar");
    screen.ask_delete(0);
    screen.confirm_delete_at(&mut table, &at(11));
    assert_eq!(screen.places.iter().map(|p| p.id).collect::<Vec<i32>>(), vec![2]);
    assert_eq!(table.rows()[0].deleted_at.as_deref(), Some("2024-03-01 11:00:00"));
    screen.ask_delete(0);
    screen.cancel_delete();
    screen.confirm_delete(&mut table);
    assert_eq!(screen.places.len(), 1);
    let broken = PlaceTable::from_rows(vec![PlaceRow {
        id: 1,
        name: "Shelf".to_string(),
        created_at: "?".to_string(),
        updated_at: "?".to_string(),
        deleted_at: None,
    }])
    .expect("ids");
    assert!(PlacesScreen::new(&broken).places.is_empty());
}

#[test]
fn the_dashboard_lists_suppliers_for_a_search() {
    let mut table = SupplierTable::new();
    create_suppliers_at(
        &mut table,
        &[NewSupplierRow { name: "Acme".to_string() }, NewSupplierRow { name: "Bolts".to_string() }],
        &at(8),
    )
    .expect("created");
    assert_eq!(DashboardScreen::get_suppliers_list(&table, "").len(), 2);
    assert_eq!(DashboardScreen::get_suppliers_list(&table, "Bol")[0].id, 2);
    assert!(DashboardScreen::get_suppliers_list(&table, "x").is_empty());
}
