//! The consistency guarantees of the store, stated and proved once over the
//! model, so that they hold of every state the operations can reach.

use vstd::prelude::*;

use crate::entities::{Item, Order, OrderCreateRequest};
use crate::error::ApiError;
use crate::lemmas::{
    lemma_occupied_here, lemma_occupied_unique, lemma_order_create_state_wf, lemma_total_nonneg,
};
use crate::model::{
    batch_results, batch_state, checkout_result, checkout_state, checkout_total,
    checkout_write_state, has_item, has_occupied, is_occupied_at, latest_idx, line_new_order,
    line_result, line_state, lines_total, occupied_idx, order_create_ok, order_create_result,
    order_create_row, order_create_state, orders_for, table_total, StoreModel, MAX_ID,
};

verus! {

/// Occupancy uniqueness: in a well-formed store — and every store the
/// operations can reach is one — at most one table row per table number is
/// occupied, whatever sequence of check-ins produced the state.
pub proof fn lemma_occupancy_unique(s: StoreModel, n: int, i: int, j: int)
    requires
        s.wf(),
        is_occupied_at(s.tables, n, i),
        is_occupied_at(s.tables, n, j),
    ensures
        i == j,
{
    lemma_occupied_unique(s, n, i, j);
}

/// Checkout idempotence: checking a table number out twice leaves the store
/// exactly as one checkout left it, and the second call reports the same
/// result as the first — the persisted total is written once and never
/// altered.
pub proof fn lemma_checkout_idempotent(s: StoreModel, n: int)
    requires
        s.wf(),
    ensures
        checkout_state(checkout_state(s, n), n) == checkout_state(s, n),
        checkout_result(checkout_state(s, n), n) == checkout_result(s, n),
{
    if has_occupied(s.tables, n) {
        lemma_occupied_here(s.tables, n);
        let i = occupied_idx(s.tables, n);
        let tid = s.tables[i].id as int;
        let v = checkout_total(s, n);
        lemma_total_nonneg(s, tid);
        if v <= MAX_ID as int {
            let s1 = checkout_state(s, n);
            assert(s1 == checkout_write_state(s, n, v as i32));
            assert(s1.tables[i].total == v as i32);
            assert forall|k: int| !is_occupied_at(s1.tables, n, k) by {
                if is_occupied_at(s1.tables, n, k) {
                    if k != i {
                        assert(s1.tables[k] == s.tables[k]);
                        assert(is_occupied_at(s.tables, n, k));
                        lemma_occupied_unique(s, n, k, i);
                    }
                }
            }
            assert(!has_occupied(s1.tables, n));
            assert(s1.tables[i].table_number == n);
            assert(crate::model::has_number(s1.tables, n));
            assert forall|j: int| i < j < s1.tables.len() implies (#[trigger] s1.tables[j]).table_number
                != n by {
                assert(s1.tables[j] == s.tables[j]);
                assert(s.tables[i].total == -1);
            }
            crate::lemmas::lemma_latest_is(s1.tables, n, i);
            assert(checkout_state(s1, n) == s1);
            assert(checkout_result(s1, n) == Ok::<int, ApiError>(s1.tables[i].total as int));
            assert(s1.tables[i].total as int == v);
        }
    }
}

/// Total correctness: the total a table row checks out with is the sum of
/// `price * quantity` over exactly the order lines that belong to it — the
/// same lines a read of the table's orders returns.
pub proof fn lemma_total_is_sum_of_table_lines(items: Seq<Item>, orders: Seq<Order>, tid: int)
    ensures
        table_total(items, orders, tid) == lines_total(items, orders_for(orders, tid)),
    decreases orders.len(),
{
    if orders.len() > 0 {
        lemma_total_is_sum_of_table_lines(items, orders.drop_last(), tid);
        let o = orders.last();
        if o.table_id == tid {
            let pre = orders_for(orders.drop_last(), tid);
            assert(orders_for(orders, tid) == pre.push(o));
            assert(pre.push(o).drop_last() =~= pre);
            assert(pre.push(o).last() == o);
        }
    }
}

/// A table with no order rows totals zero.
pub proof fn lemma_total_no_orders(items: Seq<Item>, orders: Seq<Order>, tid: int)
    requires
        forall|k: int| 0 <= k < orders.len() ==> (#[trigger] orders[k]).table_id != tid,
    ensures
        table_total(items, orders, tid) == 0,
    decreases orders.len(),
{
    if orders.len() > 0 {
        lemma_total_no_orders(items, orders.drop_last(), tid);
    }
}

/// What a batch leaves untouched: the tables and items it ran against, the
/// other counters, and every order row that was already there; the order
/// counter advances at most one step per line, and the store stays
/// well-formed.
pub proof fn lemma_batch_frame(s: StoreModel, reqs: Seq<OrderCreateRequest>, now: String)
    requires
        s.wf(),
    ensures
        batch_state(s, reqs, now).wf(),
        batch_state(s, reqs, now).tables == s.tables,
        batch_state(s, reqs, now).items == s.items,
        batch_state(s, reqs, now).next_table_id == s.next_table_id,
        batch_state(s, reqs, now).next_item_id == s.next_item_id,
        s.next_order_id <= batch_state(s, reqs, now).next_order_id <= s.next_order_id
            + reqs.len(),
        s.orders.is_prefix_of(batch_state(s, reqs, now).orders),
    decreases reqs.len(),
{
    if reqs.len() > 0 {
        let pre = reqs.drop_last();
        lemma_batch_frame(s, pre, now);
        let b0 = batch_state(s, pre, now);
        let q = reqs.last();
        if has_occupied(b0.tables, q.table_id as int) {
            lemma_order_create_state_wf(b0, line_new_order(b0, q, now));
            let b1 = line_state(b0, q, now);
            if order_create_ok(b0, line_new_order(b0, q, now)) {
                assert(b1.orders == b0.orders.push(order_create_row(b0, line_new_order(b0, q, now))));
                assert forall|k: int| 0 <= k < s.orders.len() implies s.orders[k] == b1.orders[k] by {
                    assert(b0.orders[k] == s.orders[k]);
                    assert(b1.orders[k] == b0.orders[k]);
                }
            }
        }
    }
}

/// Batch partial success: each line of a batch succeeds or fails on its own
/// account — it fails exactly when its table number is not occupied, its
/// item does not exist, or its quantity is not positive — and every
/// successful line's order row is in the final store, whatever became of the
/// lines around it. (Stated for batches the key space can still absorb.)
pub proof fn lemma_batch_partial_success(s: StoreModel, reqs: Seq<OrderCreateRequest>, now: String)
    requires
        s.wf(),
        s.next_order_id + reqs.len() <= MAX_ID as int,
    ensures
        batch_results(s, reqs, now).len() == reqs.len(),
        forall|k: int|
            0 <= k < reqs.len() ==> ((#[trigger] batch_results(s, reqs, now)[k]) is Ok <==> ({
                &&& reqs[k].quantity >= 1
                &&& has_occupied(s.tables, reqs[k].table_id as int)
                &&& has_item(s.items, reqs[k].item_id as int)
            })),
        forall|k: int|
            0 <= k < reqs.len() && (#[trigger] batch_results(s, reqs, now)[k]) is Ok
                ==> batch_state(s, reqs, now).orders.contains(batch_results(s, reqs, now)[k]->Ok_0),
    decreases reqs.len(),
{
    if reqs.len() > 0 {
        let pre = reqs.drop_last();
        lemma_batch_partial_success(s, pre, now);
        lemma_batch_frame(s, pre, now);
        let b0 = batch_state(s, pre, now);
        let q = reqs.last();
        let rs = batch_results(s, reqs, now);
        let last = line_result(b0, q, now);
        assert(rs == batch_results(s, pre, now).push(last));
        let b1 = batch_state(s, reqs, now);
        assert(b1 == line_state(b0, q, now));

        // The last line's conditions read the same in `s` and in `b0`.
        assert(last is Ok <==> {
            &&& q.quantity >= 1
            &&& has_occupied(s.tables, q.table_id as int)
            &&& has_item(s.items, q.item_id as int)
        }) by {
            if has_occupied(b0.tables, q.table_id as int) {
                let no = line_new_order(b0, q, now);
                assert(b0.next_order_id < MAX_ID as int);
                lemma_occupied_here(b0.tables, q.table_id as int);
                assert(crate::model::has_table_row(b0.tables, no.table_id as int));
            }
        }

        // Earlier lines keep their reports and their persisted rows.
        assert forall|k: int| 0 <= k < pre.len() implies rs[k] == batch_results(s, pre, now)[k]
            && reqs[k] == pre[k] by {}
        assert forall|k: int|
            0 <= k < reqs.len() && (#[trigger] rs[k]) is Ok implies b1.orders.contains(
            rs[k]->Ok_0,
        ) by {
            if k < pre.len() {
                let o = rs[k]->Ok_0;
                assert(batch_state(s, pre, now).orders.contains(o));
                let w = choose|w: int| 0 <= w < b0.orders.len() && b0.orders[w] == o;
                if b1.orders != b0.orders {
                    assert(b1.orders[w] == b0.orders[w]);
                }
                assert(b1.orders[w] == o);
            } else {
                let no = line_new_order(b0, q, now);
                assert(last == order_create_result(b0, no));
                assert(order_create_ok(b0, no));
                let row = order_create_row(b0, no);
                assert(b1.orders.last() == row);
                assert(b1.orders.contains(row));
            }
        }
    }
}

} // verus!
