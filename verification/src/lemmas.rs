//! Supporting proofs about the model: what the chosen lookup indexes satisfy,
//! how the recursive row views unfold along a scan, and bounds on order
//! totals.

use vstd::prelude::*;

use crate::entities::{Item, NewOrder, Order, Table};
use crate::model::{order_create_ok, order_create_row, order_create_state};
use crate::model::{
    active_rows, has_item, has_number, has_occupied, has_order, has_table_row, is_occupied_at,
    item_at, item_idx, items_for, latest_idx, occupied_idx, order_idx, orders_for, price_of,
    table_total, StoreModel,
};

verus! {

// ---------------------------------------------------------------------------
// Lookup indexes
// ---------------------------------------------------------------------------

/// The chosen occupied index satisfies its defining property.
pub proof fn lemma_occupied_here(tables: Seq<Table>, n: int)
    requires
        has_occupied(tables, n),
    ensures
        is_occupied_at(tables, n, occupied_idx(tables, n)),
{
}

/// Under the table invariant, at most one row per number is occupied.
pub proof fn lemma_occupied_unique(s: StoreModel, n: int, i: int, j: int)
    requires
        s.tables_wf(),
        is_occupied_at(s.tables, n, i),
        is_occupied_at(s.tables, n, j),
    ensures
        i == j,
{
    if i < j {
        assert(s.tables[i].table_number != s.tables[j].table_number);
    } else if j < i {
        assert(s.tables[j].table_number != s.tables[i].table_number);
    }
}

/// The chosen item index satisfies its defining property.
pub proof fn lemma_item_here(items: Seq<Item>, iid: int)
    requires
        has_item(items, iid),
    ensures
        0 <= item_idx(items, iid) < items.len(),
        items[item_idx(items, iid)].id == iid,
{
}

/// Under the item invariant, keys are unique, so any matching index is the
/// chosen one.
pub proof fn lemma_item_idx_is(s: StoreModel, iid: int, i: int)
    requires
        s.items_wf(),
        0 <= i < s.items.len(),
        s.items[i].id == iid,
    ensures
        item_idx(s.items, iid) == i,
{
    assert(has_item(s.items, iid));
    let j = item_idx(s.items, iid);
    if i < j {
        assert(s.items[i].id < s.items[j].id);
    } else if j < i {
        assert(s.items[j].id < s.items[i].id);
    }
}

/// Under the order invariant, keys are unique, so any matching index is the
/// chosen one.
pub proof fn lemma_order_idx_is(s: StoreModel, oid: int, i: int)
    requires
        s.orders_wf(),
        0 <= i < s.orders.len(),
        s.orders[i].id == oid,
    ensures
        order_idx(s.orders, oid) == i,
{
    assert(has_order(s.orders, oid));
    let j = order_idx(s.orders, oid);
    if i < j {
        assert(s.orders[i].id < s.orders[j].id);
    } else if j < i {
        assert(s.orders[j].id < s.orders[i].id);
    }
}

// ---------------------------------------------------------------------------
// The most recent row for a number
// ---------------------------------------------------------------------------

/// What `latest_idx` computes: the greatest matching index when one exists,
/// `-1` otherwise.
pub proof fn lemma_latest_char(tables: Seq<Table>, n: int)
    ensures
        has_number(tables, n) ==> {
            let l = latest_idx(tables, n);
            &&& 0 <= l < tables.len()
            &&& tables[l].table_number == n
            &&& forall|j: int| l < j < tables.len() ==> (#[trigger] tables[j]).table_number != n
        },
        !has_number(tables, n) ==> latest_idx(tables, n) == -1,
    decreases tables.len(),
{
    if tables.len() == 0 {
    } else if tables.last().table_number == n {
        assert(tables[tables.len() - 1].table_number == n);
        assert(has_number(tables, n));
    } else {
        let prefix = tables.drop_last();
        lemma_latest_char(prefix, n);
        if has_number(prefix, n) {
            let w = choose|i: int| 0 <= i < prefix.len() && (#[trigger] prefix[i]).table_number
                == n;
            assert(tables[w].table_number == n);
            assert(has_number(tables, n));
            let l = latest_idx(prefix, n);
            assert(tables[l].table_number == n);
            assert forall|j: int| l < j < tables.len() implies (#[trigger] tables[j]).table_number
                != n by {
                if j < tables.len() - 1 {
                    assert(prefix[j] == tables[j]);
                }
            }
        } else {
            assert forall|w: int| 0 <= w < tables.len() implies (#[trigger] tables[w]).table_number
                != n by {
                if w < tables.len() - 1 {
                    if tables[w].table_number == n {
                        assert(prefix[w].table_number == n);
                        assert(has_number(prefix, n));
                    }
                }
            }
            assert(!has_number(tables, n));
        }
    }
}

/// An index that matches and has no later match is the latest one.
pub proof fn lemma_latest_is(tables: Seq<Table>, n: int, i: int)
    requires
        0 <= i < tables.len(),
        tables[i].table_number == n,
        forall|j: int| i < j < tables.len() ==> (#[trigger] tables[j]).table_number != n,
    ensures
        latest_idx(tables, n) == i,
{
    assert(has_number(tables, n));
    lemma_latest_char(tables, n);
    let l = latest_idx(tables, n);
    if l < i {
        assert(tables[i].table_number != n);
    } else if i < l {
        assert(tables[l].table_number != n);
    }
}

// ---------------------------------------------------------------------------
// Totals
// ---------------------------------------------------------------------------

/// With non-negative prices, resolvable items and positive quantities, every
/// total is non-negative.
pub proof fn lemma_total_nonneg_rec(items: Seq<Item>, orders: Seq<Order>, tid: int)
    requires
        forall|k: int| 0 <= k < orders.len() ==> (#[trigger] orders[k]).quantity >= 1,
        forall|k: int|
            0 <= k < orders.len() ==> has_item(items, (#[trigger] orders[k]).item_id as int),
        forall|i: int| 0 <= i < items.len() ==> (#[trigger] items[i]).price >= 0,
    ensures
        table_total(items, orders, tid) >= 0,
    decreases orders.len(),
{
    if orders.len() > 0 {
        lemma_total_nonneg_rec(items, orders.drop_last(), tid);
        let o = orders.last();
        if o.table_id == tid {
            assert(has_item(items, o.item_id as int));
            lemma_item_here(items, o.item_id as int);
            let p = price_of(items, o.item_id as int);
            assert(p >= 0);
            assert(p * o.quantity >= 0) by (nonlinear_arith)
                requires
                    p >= 0,
                    o.quantity >= 1,
            ;
        }
    }
}

/// The same, packaged for a well-formed store.
pub proof fn lemma_total_nonneg(s: StoreModel, tid: int)
    requires
        s.wf(),
    ensures
        table_total(s.items, s.orders, tid) >= 0,
{
    lemma_total_nonneg_rec(s.items, s.orders, tid);
}

/// Under the same bounds, a prefix of the order rows never sums to more than
/// all of them: contributions only accumulate.
pub proof fn lemma_total_take_le(items: Seq<Item>, orders: Seq<Order>, tid: int, k: int)
    requires
        forall|m: int| 0 <= m < orders.len() ==> (#[trigger] orders[m]).quantity >= 1,
        forall|m: int|
            0 <= m < orders.len() ==> has_item(items, (#[trigger] orders[m]).item_id as int),
        forall|i: int| 0 <= i < items.len() ==> (#[trigger] items[i]).price >= 0,
        0 <= k <= orders.len(),
    ensures
        table_total(items, orders.take(k), tid) <= table_total(items, orders, tid),
    decreases orders.len(),
{
    if k == orders.len() {
        assert(orders.take(k) =~= orders);
    } else {
        let prefix = orders.drop_last();
        lemma_total_take_le(items, prefix, tid, k);
        assert(prefix.take(k) =~= orders.take(k));
        let o = orders.last();
        if o.table_id == tid {
            assert(has_item(items, o.item_id as int));
            lemma_item_here(items, o.item_id as int);
            let p = price_of(items, o.item_id as int);
            assert(p * o.quantity >= 0) by (nonlinear_arith)
                requires
                    p >= 0,
                    o.quantity >= 1,
            ;
        }
    }
}

/// How the total of a prefix grows when one more order row is taken in.
pub proof fn lemma_total_take_step(items: Seq<Item>, orders: Seq<Order>, tid: int, i: int)
    requires
        0 <= i < orders.len(),
    ensures
        table_total(items, orders.take(i + 1), tid) == table_total(items, orders.take(i), tid)
            + if orders[i].table_id == tid {
            price_of(items, orders[i].item_id as int) * orders[i].quantity
        } else {
            0
        },
{
    assert(orders.take(i + 1).drop_last() =~= orders.take(i));
    assert(orders.take(i + 1).last() == orders[i]);
}

// ---------------------------------------------------------------------------
// Row views along a scan
// ---------------------------------------------------------------------------

/// How the orders of a table grow when one more order row is scanned.
pub proof fn lemma_orders_for_take_step(orders: Seq<Order>, tid: int, i: int)
    requires
        0 <= i < orders.len(),
    ensures
        orders_for(orders.take(i + 1), tid) == if orders[i].table_id == tid {
            orders_for(orders.take(i), tid).push(orders[i])
        } else {
            orders_for(orders.take(i), tid)
        },
{
    assert(orders.take(i + 1).drop_last() =~= orders.take(i));
    assert(orders.take(i + 1).last() == orders[i]);
}

/// How the occupied rows grow when one more table row is scanned.
pub proof fn lemma_active_take_step(tables: Seq<Table>, i: int)
    requires
        0 <= i < tables.len(),
    ensures
        active_rows(tables.take(i + 1)) == if tables[i].total == -1 {
            active_rows(tables.take(i)).push(tables[i])
        } else {
            active_rows(tables.take(i))
        },
{
    assert(tables.take(i + 1).drop_last() =~= tables.take(i));
    assert(tables.take(i + 1).last() == tables[i]);
}

/// How the narrowed items of a table grow when one more order row is
/// scanned.
pub proof fn lemma_items_for_take_step(
    items: Seq<Item>,
    orders: Seq<Order>,
    tid: int,
    iid: int,
    i: int,
)
    requires
        0 <= i < orders.len(),
    ensures
        items_for(items, orders.take(i + 1), tid, iid) == if orders[i].table_id == tid
            && orders[i].item_id == iid {
            items_for(items, orders.take(i), tid, iid).push(item_at(items, iid))
        } else {
            items_for(items, orders.take(i), tid, iid)
        },
{
    assert(orders.take(i + 1).drop_last() =~= orders.take(i));
    assert(orders.take(i + 1).last() == orders[i]);
}

/// Creating one order row keeps the store well-formed.
pub proof fn lemma_order_create_state_wf(s: StoreModel, no: NewOrder)
    requires
        s.wf(),
    ensures
        order_create_state(s, no).wf(),
{
    if order_create_ok(s, no) {
        let s1 = order_create_state(s, no);
        let row = order_create_row(s, no);
        assert forall|k: int| 0 <= k < s1.orders.len() implies {
            &&& 1 <= (#[trigger] s1.orders[k]).id < s1.next_order_id
            &&& s1.orders[k].quantity >= 1
            &&& has_table_row(s1.tables, s1.orders[k].table_id as int)
            &&& has_item(s1.items, s1.orders[k].item_id as int)
        } by {
            if k < s1.orders.len() - 1 {
                assert(s1.orders[k] == s.orders[k]);
            } else {
                assert(s1.orders[k] == row);
            }
        }
        assert forall|i: int, j: int|
            0 <= i < j < s1.orders.len() implies (#[trigger] s1.orders[i]).id
            < (#[trigger] s1.orders[j]).id by {
            assert(s1.orders[i] == s.orders[i]);
            if j < s1.orders.len() - 1 {
                assert(s1.orders[j] == s.orders[j]);
            } else {
                assert(s1.orders[j] == row);
            }
        }
    }
}

/// Removing one order row keeps the store well-formed.
pub proof fn lemma_remove_order_wf(s0: StoreModel, s1: StoreModel, k: int)
    requires
        s0.wf(),
        0 <= k < s0.orders.len(),
        s1.tables == s0.tables,
        s1.items == s0.items,
        s1.orders == s0.orders.remove(k),
        s1.next_table_id == s0.next_table_id,
        s1.next_item_id == s0.next_item_id,
        s1.next_order_id == s0.next_order_id,
    ensures
        s1.wf(),
{
    s0.orders.remove_ensures(k);
    assert forall|i: int| 0 <= i < s1.orders.len() implies {
        &&& 1 <= (#[trigger] s1.orders[i]).id < s1.next_order_id
        &&& s1.orders[i].quantity >= 1
        &&& has_table_row(s1.tables, s1.orders[i].table_id as int)
        &&& has_item(s1.items, s1.orders[i].item_id as int)
    } by {
        if i < k {
            assert(s1.orders[i] == s0.orders[i]);
        } else {
            assert(s1.orders[i] == s0.orders[i + 1]);
        }
    }
    assert forall|i: int, j: int| 0 <= i < j < s1.orders.len() implies (#[trigger] s1.orders[i]).id
        < (#[trigger] s1.orders[j]).id by {
        if i < k {
            assert(s1.orders[i] == s0.orders[i]);
        } else {
            assert(s1.orders[i] == s0.orders[i + 1]);
        }
        if j < k {
            assert(s1.orders[j] == s0.orders[j]);
        } else {
            assert(s1.orders[j] == s0.orders[j + 1]);
        }
    }
}

// ---------------------------------------------------------------------------
// Reference resolution survives growth
// ---------------------------------------------------------------------------

/// A table reference that resolves keeps resolving after a row is appended.
pub proof fn lemma_has_table_row_push(tables: Seq<Table>, t: Table, tid: int)
    requires
        has_table_row(tables, tid),
    ensures
        has_table_row(tables.push(t), tid),
{
    let w = choose|i: int| 0 <= i < tables.len() && (#[trigger] tables[i]).id == tid;
    assert(tables.push(t)[w] == tables[w]);
}

/// A table reference that resolves keeps resolving after a row is replaced
/// by one with the same key.
pub proof fn lemma_has_table_row_update(tables: Seq<Table>, j: int, t: Table, tid: int)
    requires
        has_table_row(tables, tid),
        0 <= j < tables.len(),
        t.id == tables[j].id,
    ensures
        has_table_row(tables.update(j, t), tid),
{
    let w = choose|i: int| 0 <= i < tables.len() && (#[trigger] tables[i]).id == tid;
    if w == j {
        assert(tables.update(j, t)[w].id == tid);
    } else {
        assert(tables.update(j, t)[w] == tables[w]);
    }
}

/// An item reference that resolves keeps resolving after a row is appended.
pub proof fn lemma_has_item_push(items: Seq<Item>, it: Item, iid: int)
    requires
        has_item(items, iid),
    ensures
        has_item(items.push(it), iid),
{
    let w = choose|i: int| 0 <= i < items.len() && (#[trigger] items[i]).id == iid;
    assert(items.push(it)[w] == items[w]);
}

} // verus!
