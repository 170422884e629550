//! The mathematical model of the store: a ghost snapshot of the three row
//! sequences and the next surrogate keys, the well-formedness invariant that
//! every operation preserves, and the spec-level transitions that the
//! executable operations are proved to implement.

use vstd::prelude::*;

use crate::entities::{Item, NewItem, NewOrder, NewTable, Order, OrderCreateRequest, Table};
use crate::error::ApiError;

verus! {

/// The largest surrogate key a row can carry; creation fails with
/// `ApiError::Internal` once a counter reaches it.
pub const MAX_ID: i32 = 0x7fff_ffff;

/// A ghost snapshot of the whole store.
#[verifier::ext_equal]
pub struct StoreModel {
    pub tables: Seq<Table>,
    pub items: Seq<Item>,
    pub orders: Seq<Order>,
    pub next_table_id: int,
    pub next_item_id: int,
    pub next_order_id: int,
}

// ---------------------------------------------------------------------------
// Row lookups
// ---------------------------------------------------------------------------

/// Index `i` holds the occupied row for table number `n`.
pub open spec fn is_occupied_at(tables: Seq<Table>, n: int, i: int) -> bool {
    &&& 0 <= i < tables.len()
    &&& tables[i].total == -1
    &&& tables[i].table_number == n
}

/// Some row for table number `n` is occupied.
pub open spec fn has_occupied(tables: Seq<Table>, n: int) -> bool {
    exists|i: int| is_occupied_at(tables, n, i)
}

/// The index of the occupied row for table number `n`; meaningful only when
/// `has_occupied` holds (and then unique under well-formedness).
pub open spec fn occupied_idx(tables: Seq<Table>, n: int) -> int {
    choose|i: int| is_occupied_at(tables, n, i)
}

/// Some row carries table number `n`, occupied or not.
pub open spec fn has_number(tables: Seq<Table>, n: int) -> bool {
    exists|i: int| 0 <= i < tables.len() && (#[trigger] tables[i]).table_number == n
}

/// The greatest index whose row carries table number `n`, or `-1` if none
/// does: the most recent check-in for that number.
pub open spec fn latest_idx(tables: Seq<Table>, n: int) -> int
    decreases tables.len(),
{
    if tables.len() == 0 {
        -1
    } else if tables.last().table_number == n {
        tables.len() - 1
    } else {
        latest_idx(tables.drop_last(), n)
    }
}

/// Some table row carries the surrogate key `tid`.
pub open spec fn has_table_row(tables: Seq<Table>, tid: int) -> bool {
    exists|i: int| 0 <= i < tables.len() && (#[trigger] tables[i]).id == tid
}

/// The table row with surrogate key `tid` exists and is occupied.
pub open spec fn is_active_id(tables: Seq<Table>, tid: int) -> bool {
    exists|i: int|
        0 <= i < tables.len() && (#[trigger] tables[i]).id == tid && tables[i].total == -1
}

/// Some item row carries the key `iid`.
pub open spec fn has_item(items: Seq<Item>, iid: int) -> bool {
    exists|i: int| 0 <= i < items.len() && (#[trigger] items[i]).id == iid
}

/// The index of the item row with key `iid`; meaningful only when `has_item`
/// holds (and then unique under well-formedness).
pub open spec fn item_idx(items: Seq<Item>, iid: int) -> int {
    choose|i: int| 0 <= i < items.len() && (#[trigger] items[i]).id == iid
}

/// The item row with key `iid`.
pub open spec fn item_at(items: Seq<Item>, iid: int) -> Item {
    items[item_idx(items, iid)]
}

/// The price of the item with key `iid`.
pub open spec fn price_of(items: Seq<Item>, iid: int) -> int {
    item_at(items, iid).price as int
}

/// Some order row carries the key `oid`.
pub open spec fn has_order(orders: Seq<Order>, oid: int) -> bool {
    exists|i: int| 0 <= i < orders.len() && (#[trigger] orders[i]).id == oid
}

/// The index of the order row with key `oid`; meaningful only when
/// `has_order` holds (and then unique under well-formedness).
pub open spec fn order_idx(orders: Seq<Order>, oid: int) -> int {
    choose|i: int| 0 <= i < orders.len() && (#[trigger] orders[i]).id == oid
}

/// The order row with key `oid`.
pub open spec fn order_at(orders: Seq<Order>, oid: int) -> Order {
    orders[order_idx(orders, oid)]
}

// ---------------------------------------------------------------------------
// Derived views of the rows
// ---------------------------------------------------------------------------

/// The order rows that belong to the table row `tid`, in store order.
pub open spec fn orders_for(orders: Seq<Order>, tid: int) -> Seq<Order>
    decreases orders.len(),
{
    if orders.len() == 0 {
        Seq::empty()
    } else if orders.last().table_id == tid {
        orders_for(orders.drop_last(), tid).push(orders.last())
    } else {
        orders_for(orders.drop_last(), tid)
    }
}

/// The occupied table rows, in store order.
pub open spec fn active_rows(tables: Seq<Table>) -> Seq<Table>
    decreases tables.len(),
{
    if tables.len() == 0 {
        Seq::empty()
    } else if tables.last().total == -1 {
        active_rows(tables.drop_last()).push(tables.last())
    } else {
        active_rows(tables.drop_last())
    }
}

/// The menu items handed back when a table's order rows are narrowed to one
/// item: that item, once per matching order row, in store order.
pub open spec fn items_for(items: Seq<Item>, orders: Seq<Order>, tid: int, iid: int) -> Seq<Item>
    decreases orders.len(),
{
    if orders.len() == 0 {
        Seq::empty()
    } else if orders.last().table_id == tid && orders.last().item_id == iid {
        items_for(items, orders.drop_last(), tid, iid).push(item_at(items, iid))
    } else {
        items_for(items, orders.drop_last(), tid, iid)
    }
}

/// The order total of the table row `tid`: the sum of `price * quantity` over
/// every order row that belongs to it, `0` when it has none.
pub open spec fn table_total(items: Seq<Item>, orders: Seq<Order>, tid: int) -> int
    decreases orders.len(),
{
    if orders.len() == 0 {
        0
    } else {
        table_total(items, orders.drop_last(), tid) + if orders.last().table_id == tid {
            price_of(items, orders.last().item_id as int) * orders.last().quantity
        } else {
            0
        }
    }
}

/// The sum of `price * quantity` over a list of order lines as it stands,
/// each line's item looked up by key.
pub open spec fn lines_total(items: Seq<Item>, lines: Seq<Order>) -> int
    decreases lines.len(),
{
    if lines.len() == 0 {
        0
    } else {
        lines_total(items, lines.drop_last()) + price_of(items, lines.last().item_id as int)
            * lines.last().quantity
    }
}

// ---------------------------------------------------------------------------
// Well-formedness
// ---------------------------------------------------------------------------

impl StoreModel {
    /// Every surrogate-key counter is in range.
    pub open spec fn counters_wf(self) -> bool {
        &&& 1 <= self.next_table_id <= MAX_ID as int
        &&& 1 <= self.next_item_id <= MAX_ID as int
        &&& 1 <= self.next_order_id <= MAX_ID as int
    }

    /// Table rows: keys are positive, below the counter and strictly
    /// increasing; `total` is `-1` or a computed total `>= 0`; and once a row
    /// for a table number is occupied, no later row carries that number — so
    /// at most one row per number is occupied, and the occupied row is the
    /// most recent one for its number.
    pub open spec fn tables_wf(self) -> bool {
        &&& forall|i: int|
            0 <= i < self.tables.len() ==> 1 <= (#[trigger] self.tables[i]).id
                < self.next_table_id
        &&& forall|i: int| 0 <= i < self.tables.len() ==> (#[trigger] self.tables[i]).total >= -1
        &&& forall|i: int, j: int|
            0 <= i < j < self.tables.len() ==> (#[trigger] self.tables[i]).id
                < (#[trigger] self.tables[j]).id
        &&& forall|i: int, j: int|
            0 <= i < j < self.tables.len() && (#[trigger] self.tables[i]).total == -1
                ==> self.tables[i].table_number != (#[trigger] self.tables[j]).table_number
    }

    /// Item rows: keys are positive, below the counter and strictly
    /// increasing; prices are never negative.
    pub open spec fn items_wf(self) -> bool {
        &&& forall|i: int|
            0 <= i < self.items.len() ==> 1 <= (#[trigger] self.items[i]).id < self.next_item_id
        &&& forall|i: int| 0 <= i < self.items.len() ==> (#[trigger] self.items[i]).price >= 0
        &&& forall|i: int, j: int|
            0 <= i < j < self.items.len() ==> (#[trigger] self.items[i]).id
                < (#[trigger] self.items[j]).id
    }

    /// Order rows: keys are positive, below the counter and strictly
    /// increasing; quantities are positive; and both references resolve to an
    /// existing row.
    pub open spec fn orders_wf(self) -> bool {
        &&& forall|i: int|
            0 <= i < self.orders.len() ==> 1 <= (#[trigger] self.orders[i]).id
                < self.next_order_id
        &&& forall|i: int| 0 <= i < self.orders.len() ==> (#[trigger] self.orders[i]).quantity >= 1
        &&& forall|i: int, j: int|
            0 <= i < j < self.orders.len() ==> (#[trigger] self.orders[i]).id
                < (#[trigger] self.orders[j]).id
        &&& forall|i: int|
            0 <= i < self.orders.len() ==> has_table_row(
                self.tables,
                (#[trigger] self.orders[i]).table_id as int,
            )
        &&& forall|i: int|
            0 <= i < self.orders.len() ==> has_item(
                self.items,
                (#[trigger] self.orders[i]).item_id as int,
            )
    }

    /// The store invariant: established by the empty store and preserved by
    /// every operation.
    pub open spec fn wf(self) -> bool {
        &&& self.counters_wf()
        &&& self.tables_wf()
        &&& self.items_wf()
        &&& self.orders_wf()
    }
}

// ---------------------------------------------------------------------------
// Transitions: check-in
// ---------------------------------------------------------------------------

/// Check-in succeeds exactly when no row for the number is occupied and a key
/// is still available.
pub open spec fn check_in_ok(s: StoreModel, nt: NewTable) -> bool {
    &&& !has_occupied(s.tables, nt.table_number as int)
    &&& s.next_table_id < MAX_ID as int
}

/// The row a successful check-in inserts: the next key, the given number and
/// time, occupied.
pub open spec fn check_in_row(s: StoreModel, nt: NewTable) -> Table {
    Table {
        id: s.next_table_id as i32,
        checked_in_time: nt.checked_in_time,
        table_number: nt.table_number,
        total: -1i32,
    }
}

/// The store after a check-in.
pub open spec fn check_in_state(s: StoreModel, nt: NewTable) -> StoreModel {
    if check_in_ok(s, nt) {
        StoreModel {
            tables: s.tables.push(check_in_row(s, nt)),
            items: s.items,
            orders: s.orders,
            next_table_id: s.next_table_id + 1,
            next_item_id: s.next_item_id,
            next_order_id: s.next_order_id,
        }
    } else {
        s
    }
}

/// What a check-in returns.
pub open spec fn check_in_result(s: StoreModel, nt: NewTable) -> Result<Table, ApiError> {
    if has_occupied(s.tables, nt.table_number as int) {
        Err(ApiError::Conflict)
    } else if s.next_table_id >= MAX_ID as int {
        Err(ApiError::Internal)
    } else {
        Ok(check_in_row(s, nt))
    }
}

// ---------------------------------------------------------------------------
// Transitions: checkout
// ---------------------------------------------------------------------------

/// The row `t` with its total written.
pub open spec fn closed_row(t: Table, v: i32) -> Table {
    Table { id: t.id, checked_in_time: t.checked_in_time, table_number: t.table_number, total: v }
}

/// The store after the conditional checkout write: `v` is written to the
/// occupied row for number `n` if there is one, and nowhere otherwise.
pub open spec fn checkout_write_state(s: StoreModel, n: int, v: i32) -> StoreModel {
    if has_occupied(s.tables, n) {
        let i = occupied_idx(s.tables, n);
        StoreModel {
            tables: s.tables.update(i, closed_row(s.tables[i], v)),
            items: s.items,
            orders: s.orders,
            next_table_id: s.next_table_id,
            next_item_id: s.next_item_id,
            next_order_id: s.next_order_id,
        }
    } else {
        s
    }
}

/// The total the checkout workflow computes for table number `n`: the total
/// of the occupied row's orders. Meaningful only when `has_occupied` holds.
pub open spec fn checkout_total(s: StoreModel, n: int) -> int {
    table_total(s.items, s.orders, s.tables[occupied_idx(s.tables, n)].id as int)
}

/// The store after the checkout workflow: the freshly computed total is
/// persisted on the occupied row; a second checkout, an unknown number, or a
/// total too large for its column leave the store unchanged.
pub open spec fn checkout_state(s: StoreModel, n: int) -> StoreModel {
    if has_occupied(s.tables, n) {
        let v = checkout_total(s, n);
        if 0 <= v <= MAX_ID as int {
            checkout_write_state(s, n, v as i32)
        } else {
            s
        }
    } else {
        s
    }
}

/// What the total computation returns: the total of the occupied row's
/// orders for number `n`, `NotFound` when no row for `n` is occupied, and
/// `Internal` when the total does not fit its column.
pub open spec fn order_total_result(s: StoreModel, n: int) -> Result<int, ApiError> {
    if !has_occupied(s.tables, n) {
        Err(ApiError::NotFound)
    } else {
        let v = checkout_total(s, n);
        if 0 <= v <= MAX_ID as int {
            Ok(v)
        } else {
            Err(ApiError::Internal)
        }
    }
}

/// What the checkout workflow returns: the computed total for an occupied
/// number; for a number whose rows are all checked out, the total already
/// persisted on the most recent of them; `NotFound` for an unknown number.
pub open spec fn checkout_result(s: StoreModel, n: int) -> Result<int, ApiError> {
    if has_occupied(s.tables, n) {
        let v = checkout_total(s, n);
        if 0 <= v <= MAX_ID as int {
            Ok(v)
        } else {
            Err(ApiError::Internal)
        }
    } else if has_number(s.tables, n) {
        Ok(s.tables[latest_idx(s.tables, n)].total as int)
    } else {
        Err(ApiError::NotFound)
    }
}

// ---------------------------------------------------------------------------
// Transitions: items
// ---------------------------------------------------------------------------

/// Item creation succeeds exactly when the price is not negative and a key is
/// still available.
pub open spec fn item_create_ok(s: StoreModel, ni: NewItem) -> bool {
    &&& ni.price >= 0
    &&& s.next_item_id < MAX_ID as int
}

/// The row a successful item creation inserts.
pub open spec fn item_create_row(s: StoreModel, ni: NewItem) -> Item {
    Item {
        id: s.next_item_id as i32,
        description: ni.description,
        estimated_minutes: ni.estimated_minutes,
        price: ni.price,
    }
}

/// The store after an item creation.
pub open spec fn item_create_state(s: StoreModel, ni: NewItem) -> StoreModel {
    if item_create_ok(s, ni) {
        StoreModel {
            tables: s.tables,
            items: s.items.push(item_create_row(s, ni)),
            orders: s.orders,
            next_table_id: s.next_table_id,
            next_item_id: s.next_item_id + 1,
            next_order_id: s.next_order_id,
        }
    } else {
        s
    }
}

/// What an item creation returns.
pub open spec fn item_create_result(s: StoreModel, ni: NewItem) -> Result<Item, ApiError> {
    if ni.price < 0 {
        Err(ApiError::ValidationError)
    } else if s.next_item_id >= MAX_ID as int {
        Err(ApiError::Internal)
    } else {
        Ok(item_create_row(s, ni))
    }
}

// ---------------------------------------------------------------------------
// Transitions: orders
// ---------------------------------------------------------------------------

/// Order creation succeeds exactly when the quantity is positive, both
/// references resolve, and a key is still available.
pub open spec fn order_create_ok(s: StoreModel, no: NewOrder) -> bool {
    &&& no.quantity >= 1
    &&& has_table_row(s.tables, no.table_id as int)
    &&& has_item(s.items, no.item_id as int)
    &&& s.next_order_id < MAX_ID as int
}

/// The row a successful order creation inserts.
pub open spec fn order_create_row(s: StoreModel, no: NewOrder) -> Order {
    Order {
        id: s.next_order_id as i32,
        published_at: no.published_at,
        quantity: no.quantity,
        item_id: no.item_id,
        table_id: no.table_id,
    }
}

/// The store after an order creation.
pub open spec fn order_create_state(s: StoreModel, no: NewOrder) -> StoreModel {
    if order_create_ok(s, no) {
        StoreModel {
            tables: s.tables,
            items: s.items,
            orders: s.orders.push(order_create_row(s, no)),
            next_table_id: s.next_table_id,
            next_item_id: s.next_item_id,
            next_order_id: s.next_order_id + 1,
        }
    } else {
        s
    }
}

/// What an order creation returns.
pub open spec fn order_create_result(s: StoreModel, no: NewOrder) -> Result<Order, ApiError> {
    if no.quantity < 1 {
        Err(ApiError::ValidationError)
    } else if !has_table_row(s.tables, no.table_id as int) {
        Err(ApiError::NotFound)
    } else if !has_item(s.items, no.item_id as int) {
        Err(ApiError::NotFound)
    } else if s.next_order_id >= MAX_ID as int {
        Err(ApiError::Internal)
    } else {
        Ok(order_create_row(s, no))
    }
}

/// The store after an unscoped order delete: the row with key `oid` is gone,
/// and nothing happens when no row carries it.
pub open spec fn order_delete_state(s: StoreModel, oid: int) -> StoreModel {
    if has_order(s.orders, oid) {
        StoreModel {
            tables: s.tables,
            items: s.items,
            orders: s.orders.remove(order_idx(s.orders, oid)),
            next_table_id: s.next_table_id,
            next_item_id: s.next_item_id,
            next_order_id: s.next_order_id,
        }
    } else {
        s
    }
}

/// A scoped delete succeeds exactly when number `n` resolves to an occupied
/// row and the order `oid` belongs to that row.
pub open spec fn table_order_delete_ok(s: StoreModel, n: int, oid: int) -> bool {
    &&& has_occupied(s.tables, n)
    &&& has_order(s.orders, oid)
    &&& order_at(s.orders, oid).table_id == s.tables[occupied_idx(s.tables, n)].id
}

/// The store after a scoped order delete.
pub open spec fn table_order_delete_state(s: StoreModel, n: int, oid: int) -> StoreModel {
    if table_order_delete_ok(s, n, oid) {
        StoreModel {
            tables: s.tables,
            items: s.items,
            orders: s.orders.remove(order_idx(s.orders, oid)),
            next_table_id: s.next_table_id,
            next_item_id: s.next_item_id,
            next_order_id: s.next_order_id,
        }
    } else {
        s
    }
}

/// What a scoped order delete returns.
pub open spec fn table_order_delete_result(s: StoreModel, n: int, oid: int) -> Result<
    (),
    ApiError,
> {
    if table_order_delete_ok(s, n, oid) {
        Ok(())
    } else {
        Err(ApiError::NotFound)
    }
}

// ---------------------------------------------------------------------------
// Transitions: batch order submission
// ---------------------------------------------------------------------------

/// The insert shape one batch line resolves to: the line's table number is
/// replaced by the occupied row's surrogate key. Meaningful only when
/// `has_occupied` holds for the line's number.
pub open spec fn line_new_order(s: StoreModel, req: OrderCreateRequest, now: String) -> NewOrder {
    NewOrder {
        item_id: req.item_id,
        table_id: s.tables[occupied_idx(s.tables, req.table_id as int)].id,
        published_at: now,
        quantity: req.quantity,
    }
}

/// What one batch line reports: `NotFound` when its number resolves to no
/// occupied row, and otherwise whatever creating the resolved order reports.
pub open spec fn line_result(s: StoreModel, req: OrderCreateRequest, now: String) -> Result<
    Order,
    ApiError,
> {
    if !has_occupied(s.tables, req.table_id as int) {
        Err(ApiError::NotFound)
    } else {
        order_create_result(s, line_new_order(s, req, now))
    }
}

/// The store after one batch line.
pub open spec fn line_state(s: StoreModel, req: OrderCreateRequest, now: String) -> StoreModel {
    if !has_occupied(s.tables, req.table_id as int) {
        s
    } else {
        order_create_state(s, line_new_order(s, req, now))
    }
}

/// The store after a whole batch, each line applied in turn to the store the
/// previous lines left.
pub open spec fn batch_state(s: StoreModel, reqs: Seq<OrderCreateRequest>, now: String) -> StoreModel
    decreases reqs.len(),
{
    if reqs.len() == 0 {
        s
    } else {
        line_state(batch_state(s, reqs.drop_last(), now), reqs.last(), now)
    }
}

/// The per-line reports of a whole batch, in submission order.
pub open spec fn batch_results(s: StoreModel, reqs: Seq<OrderCreateRequest>, now: String) -> Seq<
    Result<Order, ApiError>,
>
    decreases reqs.len(),
{
    if reqs.len() == 0 {
        Seq::empty()
    } else {
        batch_results(s, reqs.drop_last(), now).push(
            line_result(batch_state(s, reqs.drop_last(), now), reqs.last(), now),
        )
    }
}

// ---------------------------------------------------------------------------
// Result views
// ---------------------------------------------------------------------------

/// The mathematical reading of an executable total.
pub open spec fn total_result_view(r: Result<i32, ApiError>) -> Result<int, ApiError> {
    match r {
        Ok(v) => Ok(v as int),
        Err(e) => Err(e),
    }
}

} // verus!
