//! The store itself: the rows of the three entities together with their
//! surrogate-key counters, and the verified operations over them. Every
//! operation is proved against the transitions of [`crate::model`] and keeps
//! the store well-formed.

use vstd::prelude::*;

use crate::entities::{Item, NewItem, NewOrder, NewTable, Order, OrderCreateRequest, Table};
use crate::error::ApiError;
use crate::external::{now_rfc3339, random_estimate};
use crate::lemmas::{
    lemma_active_take_step, lemma_has_item_push, lemma_has_table_row_push,
    lemma_has_table_row_update, lemma_item_idx_is, lemma_items_for_take_step, lemma_latest_is,
    lemma_occupied_here, lemma_occupied_unique, lemma_order_idx_is, lemma_orders_for_take_step,
    lemma_order_create_state_wf, lemma_remove_order_wf, lemma_total_nonneg, lemma_total_take_le,
    lemma_total_take_step,
};
use crate::model::{
    active_rows, batch_results, batch_state, check_in_result, check_in_state, checkout_result,
    checkout_state, checkout_total, checkout_write_state, has_item, has_occupied, has_order,
    has_table_row, is_active_id, is_occupied_at, item_at, item_create_result, item_create_state,
    items_for, line_result, line_state, occupied_idx, order_at, order_create_result,
    order_create_state, order_delete_state, order_total_result, orders_for,
    table_order_delete_result, table_order_delete_state, total_result_view, StoreModel, MAX_ID,
};

verus! {

/// An in-memory relational store for the order-management service: one
/// growing row sequence per entity, keyed by counters that the store assigns.
pub struct Restaurant {
    tables: Vec<Table>,
    items: Vec<Item>,
    orders: Vec<Order>,
    next_table_id: i32,
    next_item_id: i32,
    next_order_id: i32,
}

impl View for Restaurant {
    type V = StoreModel;

    closed spec fn view(&self) -> StoreModel {
        StoreModel {
            tables: self.tables@,
            items: self.items@,
            orders: self.orders@,
            next_table_id: self.next_table_id as int,
            next_item_id: self.next_item_id as int,
            next_order_id: self.next_order_id as int,
        }
    }
}

impl Restaurant {
    /// An empty store: no rows, every counter at its first key.
    pub fn new() -> (r: Restaurant)
        ensures
            r@.wf(),
            r@.tables == Seq::<Table>::empty(),
            r@.items == Seq::<Item>::empty(),
            r@.orders == Seq::<Order>::empty(),
            r@.next_table_id == 1,
            r@.next_item_id == 1,
            r@.next_order_id == 1,
    {
        Restaurant {
            tables: Vec::new(),
            items: Vec::new(),
            orders: Vec::new(),
            next_table_id: 1,
            next_item_id: 1,
            next_order_id: 1,
        }
    }

    /// The index of the occupied row for table number `n`, scanning in store
    /// order.
    fn find_occupied(&self, n: i32) -> (r: Option<usize>)
        ensures
            r matches Some(i) ==> is_occupied_at(self@.tables, n as int, i as int),
            r is None ==> !has_occupied(self@.tables, n as int),
    {
        let mut i: usize = 0;
        while i < self.tables.len()
            invariant
                i <= self.tables.len(),
                forall|k: int| 0 <= k < i ==> !is_occupied_at(self@.tables, n as int, k),
            decreases self.tables.len() - i,
        {
            if self.tables[i].total == -1 && self.tables[i].table_number == n {
                return Some(i);
            }
            i = i + 1;
        }
        None
    }

    /// The index of the table row with surrogate key `tid`.
    fn find_table_row(&self, tid: i32) -> (r: Option<usize>)
        ensures
            r matches Some(i) ==> 0 <= i < self@.tables.len() && self@.tables[i as int].id == tid,
            r is None ==> !has_table_row(self@.tables, tid as int),
    {
        let mut i: usize = 0;
        while i < self.tables.len()
            invariant
                i <= self.tables.len(),
                forall|k: int| 0 <= k < i ==> (#[trigger] self@.tables[k]).id != tid,
            decreases self.tables.len() - i,
        {
            if self.tables[i].id == tid {
                return Some(i);
            }
            i = i + 1;
        }
        None
    }

    /// The greatest index whose row carries table number `n`: the most recent
    /// check-in for that number.
    fn find_latest(&self, n: i32) -> (r: Option<usize>)
        ensures
            r matches Some(i) ==> 0 <= i < self@.tables.len() && self@.tables[i as int].table_number
                == n && crate::model::latest_idx(self@.tables, n as int) == i as int,
            r is None ==> !crate::model::has_number(self@.tables, n as int),
    {
        let mut i: usize = self.tables.len();
        while i > 0
            invariant
                i <= self.tables.len(),
                forall|k: int|
                    i <= k < self@.tables.len() ==> (#[trigger] self@.tables[k]).table_number != n,
            decreases i,
        {
            i = i - 1;
            if self.tables[i].table_number == n {
                proof {
                    lemma_latest_is(self@.tables, n as int, i as int);
                }
                return Some(i);
            }
        }
        None
    }

    /// Check a table in: insert an occupied row for `nt.table_number`, unless
    /// one is already occupied.
    pub fn table_create(&mut self, nt: NewTable) -> (r: Result<Table, ApiError>)
        requires
            old(self)@.wf(),
        ensures
            final(self)@.wf(),
            final(self)@ == check_in_state(old(self)@, nt),
            r == check_in_result(old(self)@, nt),
    {
        if self.find_occupied(nt.table_number).is_some() {
            return Err(ApiError::Conflict);
        }
        if self.next_table_id >= MAX_ID {
            return Err(ApiError::Internal);
        }
        let ghost s0 = self@;
        let row = Table {
            id: self.next_table_id,
            checked_in_time: nt.checked_in_time,
            table_number: nt.table_number,
            total: -1,
        };
        let created = row.clone();
        self.tables.push(row);
        self.next_table_id = self.next_table_id + 1;
        proof {
            let s1 = self@;
            assert(created == crate::model::check_in_row(s0, nt));
            assert forall|i: int, j: int|
                0 <= i < j < s1.tables.len() && (#[trigger] s1.tables[i]).total == -1 implies s1
                .tables[i].table_number != (#[trigger] s1.tables[j]).table_number by {
                if j == s1.tables.len() - 1 {
                    if s1.tables[i].table_number == s1.tables[j].table_number {
                        assert(is_occupied_at(s0.tables, created.table_number as int, i));
                    }
                }
            }
            assert forall|k: int|
                0 <= k < s1.orders.len() implies has_table_row(
                s1.tables,
                (#[trigger] s1.orders[k]).table_id as int,
            ) by {
                lemma_has_table_row_push(
                    s0.tables,
                    s1.tables.last(),
                    s1.orders[k].table_id as int,
                );
            }
            assert(s1 =~= check_in_state(s0, nt));
        }
        Ok(created)
    }

    /// The occupied row for table number `n`; checked-out rows are not
    /// retrievable this way.
    pub fn table_get(&self, n: i32) -> (r: Result<Table, ApiError>)
        requires
            self@.wf(),
        ensures
            has_occupied(self@.tables, n as int) ==> r == Ok::<Table, ApiError>(
                self@.tables[occupied_idx(self@.tables, n as int)],
            ),
            !has_occupied(self@.tables, n as int) ==> r == Err::<Table, ApiError>(
                ApiError::NotFound,
            ),
    {
        match self.find_occupied(n) {
            Some(i) => {
                proof {
                    lemma_occupied_here(self@.tables, n as int);
                    lemma_occupied_unique(
                        self@,
                        n as int,
                        i as int,
                        occupied_idx(self@.tables, n as int),
                    );
                }
                Ok(self.tables[i].clone())
            },
            None => Err(ApiError::NotFound),
        }
    }

    /// Every table row, occupied or checked out, in store order.
    pub fn tables_all(&self) -> (r: Vec<Table>)
        ensures
            r@ == self@.tables,
    {
        let mut out: Vec<Table> = Vec::new();
        let mut i: usize = 0;
        while i < self.tables.len()
            invariant
                i <= self.tables.len(),
                out@ =~= self@.tables.take(i as int),
            decreases self.tables.len() - i,
        {
            out.push(self.tables[i].clone());
            i = i + 1;
        }
        proof {
            assert(self@.tables.take(self@.tables.len() as int) =~= self@.tables);
        }
        out
    }

    /// The index of the item row with key `iid`.
    fn find_item(&self, iid: i32) -> (r: Option<usize>)
        ensures
            r matches Some(i) ==> 0 <= i < self@.items.len() && self@.items[i as int].id == iid,
            r is None ==> !has_item(self@.items, iid as int),
    {
        let mut i: usize = 0;
        while i < self.items.len()
            invariant
                i <= self.items.len(),
                forall|k: int| 0 <= k < i ==> (#[trigger] self@.items[k]).id != iid,
            decreases self.items.len() - i,
        {
            if self.items[i].id == iid {
                return Some(i);
            }
            i = i + 1;
        }
        None
    }

    /// Create a menu item from an insert shape whose estimate is already
    /// chosen.
    pub fn item_create(&mut self, ni: NewItem) -> (r: Result<Item, ApiError>)
        requires
            old(self)@.wf(),
        ensures
            final(self)@.wf(),
            final(self)@ == item_create_state(old(self)@, ni),
            r == item_create_result(old(self)@, ni),
    {
        if ni.price < 0 {
            return Err(ApiError::ValidationError);
        }
        if self.next_item_id >= MAX_ID {
            return Err(ApiError::Internal);
        }
        let ghost s0 = self@;
        let row = Item {
            id: self.next_item_id,
            description: ni.description,
            estimated_minutes: ni.estimated_minutes,
            price: ni.price,
        };
        let created = row.clone();
        self.items.push(row);
        self.next_item_id = self.next_item_id + 1;
        proof {
            let s1 = self@;
            assert(created == crate::model::item_create_row(s0, ni));
            assert forall|k: int|
                0 <= k < s1.orders.len() implies has_item(
                s1.items,
                (#[trigger] s1.orders[k]).item_id as int,
            ) by {
                lemma_has_item_push(s0.items, s1.items.last(), s1.orders[k].item_id as int);
            }
            assert(s1 =~= item_create_state(s0, ni));
        }
        Ok(created)
    }

    /// Create a menu item as the service does: the preparation estimate is
    /// drawn at random, between 5 and 15 minutes.
    pub fn create_item(&mut self, description: String, price: i32) -> (r: Result<Item, ApiError>)
        requires
            old(self)@.wf(),
        ensures
            final(self)@.wf(),
            (r is Ok) <==> (price >= 0 && old(self)@.next_item_id < MAX_ID as int),
            r matches Ok(it) ==> ({
                &&& it.id as int == old(self)@.next_item_id
                &&& it.description == description
                &&& it.price == price
                &&& 5 <= it.estimated_minutes <= 15
                &&& final(self)@ == (StoreModel {
                    tables: old(self)@.tables,
                    items: old(self)@.items.push(it),
                    orders: old(self)@.orders,
                    next_table_id: old(self)@.next_table_id,
                    next_item_id: old(self)@.next_item_id + 1,
                    next_order_id: old(self)@.next_order_id,
                })
            }),
            r matches Err(e) ==> final(self)@ == old(self)@ && (e == ApiError::ValidationError
                <==> price < 0) && (e == ApiError::ValidationError || e == ApiError::Internal),
    {
        let estimated_minutes = random_estimate();
        self.item_create(NewItem { description, estimated_minutes, price })
    }

    /// The item row with key `iid`.
    pub fn item_get(&self, iid: i32) -> (r: Result<Item, ApiError>)
        requires
            self@.wf(),
        ensures
            has_item(self@.items, iid as int) ==> r == Ok::<Item, ApiError>(
                item_at(self@.items, iid as int),
            ),
            !has_item(self@.items, iid as int) ==> r == Err::<Item, ApiError>(ApiError::NotFound),
    {
        match self.find_item(iid) {
            Some(i) => {
                proof {
                    lemma_item_idx_is(self@, iid as int, i as int);
                }
                Ok(self.items[i].clone())
            },
            None => Err(ApiError::NotFound),
        }
    }

    /// Every menu item, in store order.
    pub fn items_all(&self) -> (r: Vec<Item>)
        ensures
            r@ == self@.items,
    {
        let mut out: Vec<Item> = Vec::new();
        let mut i: usize = 0;
        while i < self.items.len()
            invariant
                i <= self.items.len(),
                out@ =~= self@.items.take(i as int),
            decreases self.items.len() - i,
        {
            out.push(self.items[i].clone());
            i = i + 1;
        }
        proof {
            assert(self@.items.take(self@.items.len() as int) =~= self@.items);
        }
        out
    }

    /// The conditional checkout write: `total` is written to the occupied row
    /// for number `n` if there is one; writing to no row still succeeds. A
    /// negative total is rejected before anything is looked at.
    pub fn table_checkout(&mut self, n: i32, total: i32) -> (r: Result<(), ApiError>)
        requires
            old(self)@.wf(),
        ensures
            final(self)@.wf(),
            total < 0 ==> r == Err::<(), ApiError>(ApiError::ValidationError) && final(self)@
                == old(self)@,
            total >= 0 ==> r == Ok::<(), ApiError>(()) && final(self)@ == checkout_write_state(
                old(self)@,
                n as int,
                total,
            ),
    {
        if total < 0 {
            return Err(ApiError::ValidationError);
        }
        let ghost s0 = self@;
        match self.find_occupied(n) {
            None => Ok(()),
            Some(i) => {
                proof {
                    lemma_occupied_here(s0.tables, n as int);
                    lemma_occupied_unique(s0, n as int, i as int, occupied_idx(s0.tables, n as int));
                }
                self.tables[i].total = total;
                proof {
                    let s1 = self@;
                    assert(s1.tables == s0.tables.update(
                        i as int,
                        crate::model::closed_row(s0.tables[i as int], total),
                    ));
                    assert forall|k: int|
                        0 <= k < s1.orders.len() implies has_table_row(
                        s1.tables,
                        (#[trigger] s1.orders[k]).table_id as int,
                    ) by {
                        assert(s1.orders[k] == s0.orders[k]);
                        assert(has_table_row(s0.tables, s0.orders[k].table_id as int));
                        lemma_has_table_row_update(
                            s0.tables,
                            i as int,
                            s1.tables[i as int],
                            s1.orders[k].table_id as int,
                        );
                    }
                    assert(s1 =~= checkout_write_state(s0, n as int, total));
                }
                Ok(())
            },
        }
    }

    /// The order total of the occupied row for table number `n`: the sum of
    /// `price * quantity` over its order rows, `0` when it has none.
    pub fn order_total(&self, n: i32) -> (r: Result<i32, ApiError>)
        requires
            self@.wf(),
        ensures
            total_result_view(r) == order_total_result(self@, n as int),
    {
        let idx = match self.find_occupied(n) {
            None => {
                return Err(ApiError::NotFound);
            },
            Some(i) => i,
        };
        proof {
            lemma_occupied_here(self@.tables, n as int);
            lemma_occupied_unique(self@, n as int, idx as int, occupied_idx(self@.tables, n as int));
        }
        let tid = self.tables[idx].id;
        let mut acc: i64 = 0;
        let mut i: usize = 0;
        while i < self.orders.len()
            invariant
                self@.wf(),
                i <= self.orders.len(),
                0 <= acc <= MAX_ID as i64,
                has_occupied(self@.tables, n as int),
                tid == self@.tables[occupied_idx(self@.tables, n as int)].id,
                acc as int == crate::model::table_total(
                    self@.items,
                    self@.orders.take(i as int),
                    tid as int,
                ),
            decreases self.orders.len() - i,
        {
            proof {
                lemma_total_take_step(self@.items, self@.orders, tid as int, i as int);
            }
            if self.orders[i].table_id == tid {
                let item_pos = match self.find_item(self.orders[i].item_id) {
                    Some(j) => j,
                    None => {
                        proof {
                            assert(has_item(self@.items, self@.orders[i as int].item_id as int));
                            assert(false);
                        }
                        return Err(ApiError::Internal);
                    },
                };
                proof {
                    lemma_item_idx_is(self@, self@.orders[i as int].item_id as int, item_pos as int);
                }
                let price = self.items[item_pos].price;
                let quantity = self.orders[i].quantity;
                proof {
                    assert(0 <= price as int * quantity as int <= 0x7fff_ffffint
                        * 0x7fff_ffffint) by (nonlinear_arith)
                        requires
                            0 <= price as int <= 0x7fff_ffffint,
                            1 <= quantity as int <= 0x7fff_ffffint,
                    ;
                }
                let contribution = (price as i64) * (quantity as i64);
                acc = acc + contribution;
                if acc > MAX_ID as i64 {
                    proof {
                        lemma_total_take_le(self@.items, self@.orders, tid as int, i + 1 as int);
                    }
                    return Err(ApiError::Internal);
                }
            }
            i = i + 1;
        }
        proof {
            assert(self@.orders.take(self@.orders.len() as int) =~= self@.orders);
        }
        Ok(acc as i32)
    }

    /// The checkout workflow, atomically: compute the occupied row's total,
    /// persist it on that row, and return it. Checking out a number whose
    /// rows are all checked out is a no-op that reports the total already
    /// persisted on the most recent of them; an unknown number is refused.
    pub fn checkout_table(&mut self, n: i32) -> (r: Result<i32, ApiError>)
        requires
            old(self)@.wf(),
        ensures
            final(self)@.wf(),
            final(self)@ == checkout_state(old(self)@, n as int),
            total_result_view(r) == checkout_result(old(self)@, n as int),
    {
        let ghost s0 = self@;
        match self.order_total(n) {
            Ok(v) => {
                proof {
                    lemma_total_nonneg(s0, s0.tables[occupied_idx(s0.tables, n as int)].id as int);
                }
                let write = self.table_checkout(n, v);
                proof {
                    assert(write == Ok::<(), ApiError>(()));
                }
                Ok(v)
            },
            Err(e) => {
                match e {
                    ApiError::NotFound => {
                        match self.find_latest(n) {
                            Some(i) => {
                                proof {
                                    assert(crate::model::has_number(s0.tables, n as int));
                                }
                                Ok(self.tables[i].total)
                            },
                            None => Err(ApiError::NotFound),
                        }
                    },
                    _ => {
                        proof {
                            assert(e == ApiError::Internal);
                        }
                        Err(e)
                    },
                }
            },
        }
    }

    /// The index of the order row with key `oid`.
    fn find_order(&self, oid: i32) -> (r: Option<usize>)
        ensures
            r matches Some(i) ==> 0 <= i < self@.orders.len() && self@.orders[i as int].id == oid,
            r is None ==> !has_order(self@.orders, oid as int),
    {
        let mut i: usize = 0;
        while i < self.orders.len()
            invariant
                i <= self.orders.len(),
                forall|k: int| 0 <= k < i ==> (#[trigger] self@.orders[k]).id != oid,
            decreases self.orders.len() - i,
        {
            if self.orders[i].id == oid {
                return Some(i);
            }
            i = i + 1;
        }
        None
    }

    /// Whether the table row with surrogate key `tid` exists and is occupied.
    fn is_active_row(&self, tid: i32) -> (r: bool)
        ensures
            r == is_active_id(self@.tables, tid as int),
    {
        let mut i: usize = 0;
        while i < self.tables.len()
            invariant
                i <= self.tables.len(),
                forall|k: int|
                    0 <= k < i ==> !((#[trigger] self@.tables[k]).id == tid && self@.tables[k].total
                        == -1),
            decreases self.tables.len() - i,
        {
            if self.tables[i].id == tid && self.tables[i].total == -1 {
                return true;
            }
            i = i + 1;
        }
        false
    }

    /// Create an order line from an insert shape whose table reference is
    /// already resolved to a surrogate key.
    pub fn order_create(&mut self, no: NewOrder) -> (r: Result<Order, ApiError>)
        requires
            old(self)@.wf(),
        ensures
            final(self)@.wf(),
            final(self)@ == order_create_state(old(self)@, no),
            r == order_create_result(old(self)@, no),
    {
        if no.quantity < 1 {
            return Err(ApiError::ValidationError);
        }
        match self.find_table_row(no.table_id) {
            None => {
                return Err(ApiError::NotFound);
            },
            Some(ti) => {
                proof {
                    assert(has_table_row(self@.tables, no.table_id as int));
                }
            },
        }
        match self.find_item(no.item_id) {
            None => {
                return Err(ApiError::NotFound);
            },
            Some(ii) => {
                proof {
                    assert(has_item(self@.items, no.item_id as int));
                }
            },
        }
        if self.next_order_id >= MAX_ID {
            return Err(ApiError::Internal);
        }
        let ghost s0 = self@;
        let row = Order {
            id: self.next_order_id,
            published_at: no.published_at,
            quantity: no.quantity,
            item_id: no.item_id,
            table_id: no.table_id,
        };
        let created = row.clone();
        self.orders.push(row);
        self.next_order_id = self.next_order_id + 1;
        proof {
            assert(created == crate::model::order_create_row(s0, no));
            assert(self@ =~= order_create_state(s0, no));
            lemma_order_create_state_wf(s0, no);
        }
        Ok(created)
    }

    /// Delete an order line by key alone; deleting an absent key is a no-op,
    /// as the unscoped delete of the service is.
    pub fn order_delete(&mut self, oid: i32)
        requires
            old(self)@.wf(),
        ensures
            final(self)@.wf(),
            final(self)@ == order_delete_state(old(self)@, oid as int),
    {
        let ghost s0 = self@;
        match self.find_order(oid) {
            None => {},
            Some(i) => {
                proof {
                    lemma_order_idx_is(s0, oid as int, i as int);
                    assert(has_order(s0.orders, oid as int));
                }
                self.orders.remove(i);
                proof {
                    lemma_remove_order_wf(s0, self@, i as int);
                    assert(self@ =~= order_delete_state(s0, oid as int));
                }
            },
        }
    }

    /// Delete the order `oid` only if it belongs to the occupied row for
    /// table number `n`; an order under any other table reports `NotFound`
    /// even though the key exists.
    pub fn delete_table_order(&mut self, n: i32, oid: i32) -> (r: Result<(), ApiError>)
        requires
            old(self)@.wf(),
        ensures
            final(self)@.wf(),
            final(self)@ == table_order_delete_state(old(self)@, n as int, oid as int),
            r == table_order_delete_result(old(self)@, n as int, oid as int),
    {
        let ghost s0 = self@;
        let ti = match self.find_occupied(n) {
            None => {
                return Err(ApiError::NotFound);
            },
            Some(t) => t,
        };
        proof {
            lemma_occupied_here(s0.tables, n as int);
            lemma_occupied_unique(s0, n as int, ti as int, occupied_idx(s0.tables, n as int));
        }
        let tid = self.tables[ti].id;
        let oi = match self.find_order(oid) {
            None => {
                return Err(ApiError::NotFound);
            },
            Some(t) => t,
        };
        proof {
            lemma_order_idx_is(s0, oid as int, oi as int);
        }
        if self.orders[oi].table_id != tid {
            return Err(ApiError::NotFound);
        }
        self.orders.remove(oi);
        proof {
            lemma_remove_order_wf(s0, self@, oi as int);
            assert(self@ =~= table_order_delete_state(s0, n as int, oid as int));
        }
        Ok(())
    }

    /// Every order line, in store order.
    pub fn orders_all(&self) -> (r: Vec<Order>)
        ensures
            r@ == self@.orders,
    {
        let mut out: Vec<Order> = Vec::new();
        let mut i: usize = 0;
        while i < self.orders.len()
            invariant
                i <= self.orders.len(),
                out@ =~= self@.orders.take(i as int),
            decreases self.orders.len() - i,
        {
            out.push(self.orders[i].clone());
            i = i + 1;
        }
        proof {
            assert(self@.orders.take(self@.orders.len() as int) =~= self@.orders);
        }
        out
    }

    /// The order line with key `oid`, but only while its table is occupied:
    /// orders of checked-out tables are invisible to this lookup.
    pub fn order_find(&self, oid: i32) -> (r: Vec<Order>)
        requires
            self@.wf(),
        ensures
            (has_order(self@.orders, oid as int) && is_active_id(
                self@.tables,
                order_at(self@.orders, oid as int).table_id as int,
            )) ==> r@ == seq![order_at(self@.orders, oid as int)],
            !(has_order(self@.orders, oid as int) && is_active_id(
                self@.tables,
                order_at(self@.orders, oid as int).table_id as int,
            )) ==> r@ == Seq::<Order>::empty(),
    {
        let mut out: Vec<Order> = Vec::new();
        match self.find_order(oid) {
            None => {},
            Some(i) => {
                proof {
                    lemma_order_idx_is(self@, oid as int, i as int);
                }
                if self.is_active_row(self.orders[i].table_id) {
                    out.push(self.orders[i].clone());
                    proof {
                        assert(out@ =~= seq![order_at(self@.orders, oid as int)]);
                    }
                }
            },
        }
        out
    }

    /// Every order line of the occupied row for table number `n`, in store
    /// order.
    pub fn orders_for_table(&self, n: i32) -> (r: Result<Vec<Order>, ApiError>)
        requires
            self@.wf(),
        ensures
            !has_occupied(self@.tables, n as int) ==> r == Err::<Vec<Order>, ApiError>(
                ApiError::NotFound,
            ),
            has_occupied(self@.tables, n as int) ==> (r matches Ok(v) && v@ == orders_for(
                self@.orders,
                self@.tables[occupied_idx(self@.tables, n as int)].id as int,
            )),
    {
        let ti = match self.find_occupied(n) {
            None => {
                return Err(ApiError::NotFound);
            },
            Some(t) => t,
        };
        proof {
            lemma_occupied_here(self@.tables, n as int);
            lemma_occupied_unique(self@, n as int, ti as int, occupied_idx(self@.tables, n as int));
        }
        let tid = self.tables[ti].id;
        let mut out: Vec<Order> = Vec::new();
        let mut i: usize = 0;
        while i < self.orders.len()
            invariant
                i <= self.orders.len(),
                out@ == orders_for(self@.orders.take(i as int), tid as int),
            decreases self.orders.len() - i,
        {
            proof {
                lemma_orders_for_take_step(self@.orders, tid as int, i as int);
            }
            if self.orders[i].table_id == tid {
                out.push(self.orders[i].clone());
            }
            i = i + 1;
        }
        proof {
            assert(self@.orders.take(self@.orders.len() as int) =~= self@.orders);
        }
        Ok(out)
    }

    /// Among the orders of the occupied row for table number `n`, the one
    /// with key `oid`, if it is there.
    pub fn order_for_table(&self, n: i32, oid: i32) -> (r: Result<Vec<Order>, ApiError>)
        requires
            self@.wf(),
        ensures
            !has_occupied(self@.tables, n as int) ==> r == Err::<Vec<Order>, ApiError>(
                ApiError::NotFound,
            ),
            has_occupied(self@.tables, n as int) ==> (r matches Ok(v) && v@ == (if has_order(
                self@.orders,
                oid as int,
            ) && order_at(self@.orders, oid as int).table_id == self@.tables[occupied_idx(
                self@.tables,
                n as int,
            )].id {
                seq![order_at(self@.orders, oid as int)]
            } else {
                Seq::<Order>::empty()
            })),
    {
        let ti = match self.find_occupied(n) {
            None => {
                return Err(ApiError::NotFound);
            },
            Some(t) => t,
        };
        proof {
            lemma_occupied_here(self@.tables, n as int);
            lemma_occupied_unique(self@, n as int, ti as int, occupied_idx(self@.tables, n as int));
        }
        let tid = self.tables[ti].id;
        let mut out: Vec<Order> = Vec::new();
        match self.find_order(oid) {
            None => {},
            Some(oi) => {
                proof {
                    lemma_order_idx_is(self@, oid as int, oi as int);
                }
                if self.orders[oi].table_id == tid {
                    out.push(self.orders[oi].clone());
                    proof {
                        assert(out@ =~= seq![order_at(self@.orders, oid as int)]);
                    }
                }
            },
        }
        Ok(out)
    }

    /// Among the orders of the occupied row for table number `n`, those for
    /// the item `iid`, each resolved to its menu item: that item once per
    /// matching order line.
    pub fn items_for_table(&self, n: i32, iid: i32) -> (r: Result<Vec<Item>, ApiError>)
        requires
            self@.wf(),
        ensures
            !has_occupied(self@.tables, n as int) ==> r == Err::<Vec<Item>, ApiError>(
                ApiError::NotFound,
            ),
            has_occupied(self@.tables, n as int) ==> (r matches Ok(v) && v@ == items_for(
                self@.items,
                self@.orders,
                self@.tables[occupied_idx(self@.tables, n as int)].id as int,
                iid as int,
            )),
    {
        let ti = match self.find_occupied(n) {
            None => {
                return Err(ApiError::NotFound);
            },
            Some(t) => t,
        };
        proof {
            lemma_occupied_here(self@.tables, n as int);
            lemma_occupied_unique(self@, n as int, ti as int, occupied_idx(self@.tables, n as int));
        }
        let tid = self.tables[ti].id;
        let mut out: Vec<Item> = Vec::new();
        let mut i: usize = 0;
        while i < self.orders.len()
            invariant
                self@.wf(),
                i <= self.orders.len(),
                out@ == items_for(self@.items, self@.orders.take(i as int), tid as int, iid as int),
            decreases self.orders.len() - i,
        {
            proof {
                lemma_items_for_take_step(
                    self@.items,
                    self@.orders,
                    tid as int,
                    iid as int,
                    i as int,
                );
            }
            if self.orders[i].table_id == tid && self.orders[i].item_id == iid {
                let item_pos = match self.find_item(self.orders[i].item_id) {
                    Some(j) => j,
                    None => {
                        proof {
                            assert(has_item(self@.items, self@.orders[i as int].item_id as int));
                            assert(false);
                        }
                        return Err(ApiError::Internal);
                    },
                };
                proof {
                    lemma_item_idx_is(self@, self@.orders[i as int].item_id as int, item_pos as int);
                }
                out.push(self.items[item_pos].clone());
            }
            i = i + 1;
        }
        proof {
            assert(self@.orders.take(self@.orders.len() as int) =~= self@.orders);
        }
        Ok(out)
    }

    /// Submit a batch of order lines. Each line resolves its table number
    /// and is inserted on its own: a failing line is reported in its place
    /// in the result and rolls nothing back.
    pub fn submit_orders(&mut self, reqs: &Vec<OrderCreateRequest>, published_at: &String) -> (r:
        Vec<Result<Order, ApiError>>)
        requires
            old(self)@.wf(),
        ensures
            final(self)@.wf(),
            final(self)@ == batch_state(old(self)@, reqs@, *published_at),
            r@ == batch_results(old(self)@, reqs@, *published_at),
    {
        let ghost s0 = self@;
        let ghost now = *published_at;
        let mut out: Vec<Result<Order, ApiError>> = Vec::new();
        let mut i: usize = 0;
        while i < reqs.len()
            invariant
                self@.wf(),
                i <= reqs.len(),
                now == *published_at,
                self@ == batch_state(s0, reqs@.take(i as int), now),
                out@ == batch_results(s0, reqs@.take(i as int), now),
            decreases reqs.len() - i,
        {
            let ghost sc = self@;
            proof {
                assert(reqs@.take(i + 1 as int).drop_last() =~= reqs@.take(i as int));
                assert(reqs@.take(i + 1 as int).last() == reqs@[i as int]);
            }
            let line = match self.find_occupied(reqs[i].table_id) {
                None => Err(ApiError::NotFound),
                Some(ti) => {
                    proof {
                        lemma_occupied_here(sc.tables, reqs@[i as int].table_id as int);
                        lemma_occupied_unique(
                            sc,
                            reqs@[i as int].table_id as int,
                            ti as int,
                            occupied_idx(sc.tables, reqs@[i as int].table_id as int),
                        );
                    }
                    let tid = self.tables[ti].id;
                    let stamp = published_at.clone();
                    proof {
                        assert(stamp == now);
                    }
                    let no = NewOrder {
                        item_id: reqs[i].item_id,
                        table_id: tid,
                        published_at: stamp,
                        quantity: reqs[i].quantity,
                    };
                    proof {
                        assert(no == crate::model::line_new_order(sc, reqs@[i as int], now));
                    }
                    self.order_create(no)
                },
            };
            proof {
                assert(self@ == line_state(sc, reqs@[i as int], now));
                assert(line == line_result(sc, reqs@[i as int], now));
            }
            out.push(line);
            i = i + 1;
        }
        proof {
            assert(reqs@.take(reqs@.len() as int) =~= reqs@);
        }
        out
    }

    /// Submit a batch of order lines stamped with the current time.
    pub fn submit_orders_now(&mut self, reqs: &Vec<OrderCreateRequest>) -> (r: Vec<
        Result<Order, ApiError>,
    >)
        requires
            old(self)@.wf(),
        ensures
            final(self)@.wf(),
            exists|ts: String|
                final(self)@ == #[trigger] batch_state(old(self)@, reqs@, ts) && r@ == batch_results(
                    old(self)@,
                    reqs@,
                    ts,
                ),
    {
        let published_at = now_rfc3339();
        let out = self.submit_orders(reqs, &published_at);
        proof {
            assert(self@ == batch_state(old(self)@, reqs@, published_at));
        }
        out
    }

    /// Check a table in as the service does: the row is stamped with the
    /// current time.
    pub fn check_in(&mut self, table_number: i32) -> (r: Result<Table, ApiError>)
        requires
            old(self)@.wf(),
        ensures
            final(self)@.wf(),
            (r is Ok) <==> (!has_occupied(old(self)@.tables, table_number as int) && old(
                self,
            )@.next_table_id < MAX_ID as int),
            r matches Ok(t) ==> ({
                &&& t.id as int == old(self)@.next_table_id
                &&& t.table_number == table_number
                &&& t.total == -1
                &&& final(self)@ == (StoreModel {
                    tables: old(self)@.tables.push(t),
                    items: old(self)@.items,
                    orders: old(self)@.orders,
                    next_table_id: old(self)@.next_table_id + 1,
                    next_item_id: old(self)@.next_item_id,
                    next_order_id: old(self)@.next_order_id,
                })
            }),
            r matches Err(e) ==> final(self)@ == old(self)@ && (e == ApiError::Conflict
                <==> has_occupied(old(self)@.tables, table_number as int)) && (e
                == ApiError::Conflict || e == ApiError::Internal),
    {
        let checked_in_time = now_rfc3339();
        self.table_create(NewTable { checked_in_time, table_number })
    }

    /// The occupied table rows, in store order.
    pub fn active_tables(&self) -> (r: Vec<Table>)
        ensures
            r@ == active_rows(self@.tables),
    {
        let mut out: Vec<Table> = Vec::new();
        let mut i: usize = 0;
        while i < self.tables.len()
            invariant
                i <= self.tables.len(),
                out@ == active_rows(self@.tables.take(i as int)),
            decreases self.tables.len() - i,
        {
            proof {
                lemma_active_take_step(self@.tables, i as int);
            }
            if self.tables[i].total == -1 {
                out.push(self.tables[i].clone());
            }
            i = i + 1;
        }
        proof {
            assert(self@.tables.take(self@.tables.len() as int) =~= self@.tables);
        }
        out
    }
}

} // verus!
