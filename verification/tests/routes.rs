//! The service-level flows, driven against the store as the route handlers
//! drive it.

use restaurant::entities::OrderCreateRequest;
use restaurant::store::Restaurant;

#[test]
fn test_create_item() {
    let mut store = Restaurant::new();
    let created = store.create_item(String::from("Some good tasting item!"), 1);
    assert!(created.is_ok());
    let found = store.item_get(1);
    assert!(found.is_ok());
    let missing = store.item_get(10);
    assert!(missing.is_err());
}

#[test]
fn test_create_table() {
    let mut store = Restaurant::new();
    let checked_in = store.check_in(1);
    assert!(checked_in.is_ok());
    let tables = store.tables_all();
    assert!(tables.len() == 1);
}

#[test]
fn test_create_order() {
    let mut store = Restaurant::new();
    let checked_in = store.check_in(2);
    assert!(checked_in.is_ok());
    let item = store.create_item(String::from("Some good tasting item!"), 10);
    assert!(item.is_ok());
    let quantities = [10, 1, 5, 6, 100, 50, 70, 1];
    let mut lines = Vec::new();
    for quantity in quantities {
        lines.push(OrderCreateRequest { item_id: 1, table_id: 2, quantity });
    }
    let reports = store.submit_orders_now(&lines);
    assert!(reports.len() == 8 && reports.iter().all(|line| line.is_ok()));
}
