//! Persisted record shapes: tables, menu items and order lines, together with
//! the insert-only shapes that carry the fields a row has before the store
//! assigns its surrogate key.

use vstd::prelude::*;

verus! {

/// A table row. A row is created at check-in with `total == -1` (occupied) and
/// is mutated once, at checkout, when its order total (always `>= 0`) is
/// written; rows are never deleted.
#[derive(Debug)]
pub struct Table {
    pub id: i32,
    pub checked_in_time: String,
    pub table_number: i32,
    pub total: i32,
}

/// A menu item. Immutable once created; `price` is in the minor currency unit
/// and `estimated_minutes` is informational.
#[derive(Debug)]
pub struct Item {
    pub id: i32,
    pub description: String,
    pub estimated_minutes: i32,
    pub price: i32,
}

/// One order line: `quantity` units of the item `item_id`, ordered by the
/// table row `table_id`.
#[derive(Debug)]
pub struct Order {
    pub id: i32,
    pub published_at: String,
    pub quantity: i32,
    pub item_id: i32,
    pub table_id: i32,
}

/// The fields of a table row before check-in assigns its key; the store itself
/// sets `total` to `-1` on insert.
#[derive(Debug)]
pub struct NewTable {
    pub checked_in_time: String,
    pub table_number: i32,
}

/// The fields of a menu item before creation assigns its key.
#[derive(Debug)]
pub struct NewItem {
    pub description: String,
    pub estimated_minutes: i32,
    pub price: i32,
}

/// The fields of an order line before creation assigns its key. `table_id`
/// here is the surrogate key of a table row, already resolved from the
/// client-supplied table number.
#[derive(Debug)]
pub struct NewOrder {
    pub item_id: i32,
    pub table_id: i32,
    pub published_at: String,
    pub quantity: i32,
}

/// One line of a batch order submission, as a client sends it: `table_id`
/// carries the table number, not a surrogate key, and is resolved against the
/// occupied tables when the batch runs.
#[derive(Debug)]
pub struct OrderCreateRequest {
    pub item_id: i32,
    pub table_id: i32,
    pub quantity: i32,
}

impl Clone for Table {
    fn clone(&self) -> (r: Self)
        ensures
            r == *self,
    {
        Table {
            id: self.id,
            checked_in_time: self.checked_in_time.clone(),
            table_number: self.table_number,
            total: self.total,
        }
    }
}

impl Clone for Item {
    fn clone(&self) -> (r: Self)
        ensures
            r == *self,
    {
        Item {
            id: self.id,
            description: self.description.clone(),
            estimated_minutes: self.estimated_minutes,
            price: self.price,
        }
    }
}

impl Clone for Order {
    fn clone(&self) -> (r: Self)
        ensures
            r == *self,
    {
        Order {
            id: self.id,
            published_at: self.published_at.clone(),
            quantity: self.quantity,
            item_id: self.item_id,
            table_id: self.table_id,
        }
    }
}

impl Clone for OrderCreateRequest {
    fn clone(&self) -> (r: Self)
        ensures
            r == *self,
    {
        OrderCreateRequest { item_id: self.item_id, table_id: self.table_id, quantity: self.quantity }
    }
}

} // verus!
