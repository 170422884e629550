//! Behavior of the single store operations: lookups, validation, deletes and
//! the error taxonomy.

use restaurant::entities::{NewItem, NewOrder, NewTable, OrderCreateRequest};
use restaurant::interfaces::AbstractUseCase;
use restaurant::store::Restaurant;
use restaurant::ApiError;

fn stamp() -> String {
    String::from("2024-05-01T12:00:00+02:00")
}

#[test]
fn check_in_assigns_keys_and_marks_occupied() {
    let mut store = Restaurant::new();
    let table = store.check_in(5).unwrap();
    assert_eq!(table.id, 1);
    assert_eq!(table.table_number, 5);
    assert_eq!(table.total, -1);
    let fetched = store.table_get(5).unwrap();
    assert_eq!(fetched.id, 1);
    assert_eq!(fetched.checked_in_time, table.checked_in_time);
}

#[test]
fn check_in_twice_reports_conflict() {
    let mut store = Restaurant::new();
    assert!(store.check_in(7).is_ok());
    let second = store.check_in(7);
    assert!(matches!(second, Err(ApiError::Conflict)));
}

#[test]
fn get_item_never_created_reports_not_found() {
    let store = Restaurant::new();
    let missing = store.item_get(999);
    assert!(matches!(missing, Err(ApiError::NotFound)));
}

#[test]
fn created_item_carries_its_fields_and_a_drawn_estimate() {
    let mut store = Restaurant::new();
    let item = store.create_item(String::from("Coffee"), 3).unwrap();
    assert_eq!(item.id, 1);
    assert_eq!(item.description, "Coffee");
    assert_eq!(item.price, 3);
    assert!(5 <= item.estimated_minutes && item.estimated_minutes <= 15);
    let fetched = store.item_get(1).unwrap();
    assert_eq!(fetched.estimated_minutes, item.estimated_minutes);
}

#[test]
fn negative_price_is_rejected() {
    let mut store = Restaurant::new();
    let rejected = store.create_item(String::from("Free money"), -1);
    assert!(matches!(rejected, Err(ApiError::ValidationError)));
    assert_eq!(store.items_all().len(), 0);
}

#[test]
fn non_positive_quantity_is_rejected_per_line() {
    let mut store = Restaurant::new();
    store.check_in(1).unwrap();
    store.create_item(String::from("Tea"), 2).unwrap();
    let lines = vec![OrderCreateRequest { item_id: 1, table_id: 1, quantity: 0 }];
    let reports = store.submit_orders(&lines, &stamp());
    assert!(matches!(reports[0], Err(ApiError::ValidationError)));
    assert_eq!(store.orders_all().len(), 0);
}

#[test]
fn order_for_missing_item_is_rejected_per_line() {
    let mut store = Restaurant::new();
    store.check_in(1).unwrap();
    let lines = vec![OrderCreateRequest { item_id: 44, table_id: 1, quantity: 1 }];
    let reports = store.submit_orders(&lines, &stamp());
    assert!(matches!(reports[0], Err(ApiError::NotFound)));
}

#[test]
fn scoped_delete_requires_the_owning_table() {
    let mut store = Restaurant::new();
    store.check_in(1).unwrap();
    store.check_in(2).unwrap();
    store.create_item(String::from("Soup"), 4).unwrap();
    let lines = vec![OrderCreateRequest { item_id: 1, table_id: 1, quantity: 1 }];
    let reports = store.submit_orders(&lines, &stamp());
    let order_id = reports[0].as_ref().unwrap().id;

    let wrong_table = store.delete_table_order(2, order_id);
    assert!(matches!(wrong_table, Err(ApiError::NotFound)));
    assert_eq!(store.orders_all().len(), 1);

    let owning_table = store.delete_table_order(1, order_id);
    assert!(owning_table.is_ok());
    assert_eq!(store.orders_all().len(), 0);

    let gone = store.delete_table_order(1, order_id);
    assert!(matches!(gone, Err(ApiError::NotFound)));
}

#[test]
fn unscoped_delete_removes_by_key_and_ignores_absent_keys() {
    let mut store = Restaurant::new();
    store.check_in(1).unwrap();
    store.create_item(String::from("Bread"), 1).unwrap();
    let table = store.table_get(1).unwrap();
    let order = store
        .order_create(NewOrder {
            item_id: 1,
            table_id: table.id,
            published_at: stamp(),
            quantity: 2,
        })
        .unwrap();
    assert_eq!(store.orders_all().len(), 1);
    store.order_delete(order.id);
    assert_eq!(store.orders_all().len(), 0);
    store.order_delete(order.id);
    assert_eq!(store.orders_all().len(), 0);
}

#[test]
fn checkout_of_table_without_orders_totals_zero() {
    let mut store = Restaurant::new();
    store.check_in(9).unwrap();
    let total = store.checkout_table(9);
    assert!(matches!(total, Ok(0)));
    let closed = store.tables_all();
    assert_eq!(closed[0].total, 0);
}

#[test]
fn checkout_of_unknown_table_reports_not_found() {
    let mut store = Restaurant::new();
    let result = store.checkout_table(42);
    assert!(matches!(result, Err(ApiError::NotFound)));
}

#[test]
fn total_too_large_for_its_column_reports_internal() {
    let mut store = Restaurant::new();
    store.check_in(1).unwrap();
    store
        .item_create(NewItem {
            description: String::from("Everything"),
            estimated_minutes: 10,
            price: i32::MAX,
        })
        .unwrap();
    let lines = vec![OrderCreateRequest { item_id: 1, table_id: 1, quantity: 2 }];
    let reports = store.submit_orders(&lines, &stamp());
    assert!(reports[0].is_ok());
    assert!(matches!(store.order_total(1), Err(ApiError::Internal)));
    assert!(matches!(store.checkout_table(1), Err(ApiError::Internal)));
}

#[test]
fn conditional_checkout_write_rejects_negative_totals() {
    let mut store = Restaurant::new();
    store.check_in(1).unwrap();
    let rejected = store.table_checkout(1, -5);
    assert!(matches!(rejected, Err(ApiError::ValidationError)));
    assert_eq!(store.table_get(1).unwrap().total, -1);
}

#[test]
fn conditional_checkout_write_matches_only_occupied_rows() {
    let mut store = Restaurant::new();
    store.check_in(3).unwrap();
    assert!(store.table_checkout(3, 11).is_ok());
    assert_eq!(store.tables_all()[0].total, 11);
    // No occupied row matches any more; the write succeeds and changes nothing.
    assert!(store.table_checkout(3, 22).is_ok());
    assert_eq!(store.tables_all()[0].total, 11);
}

struct TotalUseCase {
    store: Restaurant,
    table_number: i32,
}

impl AbstractUseCase<i32> for TotalUseCase {
    fn execute(&self) -> Result<i32, ApiError> {
        self.store.order_total(self.table_number)
    }
}

#[test]
fn a_use_case_reports_through_the_taxonomy() {
    let mut store = Restaurant::new();
    store.check_in(1).unwrap();
    let use_case = TotalUseCase { store, table_number: 1 };
    assert_eq!(use_case.execute(), Ok(0));
    let missing = TotalUseCase { store: Restaurant::new(), table_number: 1 };
    assert_eq!(missing.execute(), Err(ApiError::NotFound));
}

#[test]
fn table_create_inserts_the_given_shape() {
    let mut store = Restaurant::new();
    let table = store
        .table_create(NewTable { checked_in_time: stamp(), table_number: 12 })
        .unwrap();
    assert_eq!(table.checked_in_time, stamp());
    assert_eq!(table.table_number, 12);
    assert_eq!(table.total, -1);
}
