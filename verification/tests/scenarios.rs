//! End-to-end flows through the store: the coffee checkout, batch partial
//! success, and what stays visible once a table checks out.

use restaurant::entities::OrderCreateRequest;
use restaurant::store::Restaurant;
use restaurant::ApiError;

fn stamp() -> String {
    String::from("2024-05-01T12:00:00+02:00")
}

#[test]
fn coffee_checkout_flow() {
    let mut store = Restaurant::new();
    store.check_in(5).unwrap();
    let item = store.create_item(String::from("Coffee"), 3).unwrap();
    assert_eq!(item.id, 1);

    let lines = vec![OrderCreateRequest { item_id: 1, table_id: 5, quantity: 2 }];
    let reports = store.submit_orders(&lines, &stamp());
    assert!(reports[0].is_ok());

    let orders = store.orders_for_table(5).unwrap();
    assert_eq!(orders.len(), 1);
    assert_eq!(orders[0].quantity, 2);

    let total = store.checkout_table(5);
    assert!(matches!(total, Ok(6)));
    let again = store.checkout_table(5);
    assert!(matches!(again, Ok(6)));
    // The second call did not alter the persisted total.
    assert_eq!(store.tables_all()[0].total, 6);
}

#[test]
fn at_most_one_occupied_row_per_number() {
    let mut store = Restaurant::new();
    store.check_in(3).unwrap();
    assert!(store.check_in(3).is_err());
    store.checkout_table(3).unwrap();
    store.check_in(3).unwrap();
    assert!(store.check_in(3).is_err());
    store.check_in(8).unwrap();
    let tables = store.tables_all();
    assert_eq!(tables.len(), 3);
    for a in &tables {
        for b in &tables {
            if a.id != b.id && a.total == -1 && b.total == -1 {
                assert_ne!(a.table_number, b.table_number);
            }
        }
    }
}

#[test]
fn batch_lines_succeed_and_fail_independently() {
    let mut store = Restaurant::new();
    store.check_in(1).unwrap();
    store.create_item(String::from("Cake"), 7).unwrap();
    let lines = vec![
        OrderCreateRequest { item_id: 1, table_id: 1, quantity: 1 },
        OrderCreateRequest { item_id: 1, table_id: 99, quantity: 1 },
        OrderCreateRequest { item_id: 1, table_id: 1, quantity: 3 },
    ];
    let reports = store.submit_orders(&lines, &stamp());
    assert_eq!(reports.len(), 3);
    assert!(reports[0].is_ok());
    assert!(matches!(reports[1], Err(ApiError::NotFound)));
    assert!(reports[2].is_ok());
    assert_eq!(store.orders_all().len(), 2);
    assert!(matches!(store.order_total(1), Ok(28)));
}

#[test]
fn orders_of_checked_out_tables_leave_the_active_view() {
    let mut store = Restaurant::new();
    store.check_in(4).unwrap();
    store.create_item(String::from("Stew"), 9).unwrap();
    let lines = vec![OrderCreateRequest { item_id: 1, table_id: 4, quantity: 1 }];
    let reports = store.submit_orders(&lines, &stamp());
    let order_id = reports[0].as_ref().unwrap().id;

    assert_eq!(store.order_find(order_id).len(), 1);
    assert_eq!(store.active_tables().len(), 1);

    store.checkout_table(4).unwrap();

    // The row still exists, but neither it nor its order is visible through
    // the active paths.
    assert_eq!(store.tables_all().len(), 1);
    assert_eq!(store.active_tables().len(), 0);
    assert_eq!(store.order_find(order_id).len(), 0);
    assert!(matches!(store.table_get(4), Err(ApiError::NotFound)));
    assert_eq!(store.orders_all().len(), 1);
}

#[test]
fn same_number_can_check_in_again_after_checkout() {
    let mut store = Restaurant::new();
    store.check_in(6).unwrap();
    store.checkout_table(6).unwrap();
    let second = store.check_in(6).unwrap();
    assert_eq!(second.id, 2);
    // The fresh row is open; checkout totals its own (empty) orders.
    assert!(matches!(store.checkout_table(6), Ok(0)));
}

#[test]
fn table_scoped_reads_filter_by_order_and_item() {
    let mut store = Restaurant::new();
    store.check_in(2).unwrap();
    store.create_item(String::from("Juice"), 4).unwrap();
    store.create_item(String::from("Toast"), 5).unwrap();
    let lines = vec![
        OrderCreateRequest { item_id: 1, table_id: 2, quantity: 1 },
        OrderCreateRequest { item_id: 2, table_id: 2, quantity: 2 },
        OrderCreateRequest { item_id: 1, table_id: 2, quantity: 3 },
    ];
    let reports = store.submit_orders(&lines, &stamp());
    assert!(reports.iter().all(|line| line.is_ok()));

    let first_order = reports[0].as_ref().unwrap().id;
    let scoped = store.order_for_table(2, first_order).unwrap();
    assert_eq!(scoped.len(), 1);
    assert_eq!(scoped[0].id, first_order);

    // The juice item comes back once per juice order line.
    let juice_items = store.items_for_table(2, 1).unwrap();
    assert_eq!(juice_items.len(), 2);
    assert!(juice_items.iter().all(|item| item.description == "Juice"));

    let toast_items = store.items_for_table(2, 2).unwrap();
    assert_eq!(toast_items.len(), 1);

    assert!(matches!(store.order_for_table(9, first_order), Err(ApiError::NotFound)));
    assert!(matches!(store.items_for_table(9, 1), Err(ApiError::NotFound)));
}
