//! The closed taxonomy of service failures.

use vstd::prelude::*;

verus! {

/// Every way a store operation can fail.
///
/// - `NotFound`: a lookup by id or table number matched no row.
/// - `Conflict`: a check-in was attempted for a table number that is already
///   occupied.
/// - `ValidationError`: a request carried an invalid field (a non-positive
///   quantity, a negative price or total).
/// - `StorageUnavailable`: the backing store could not be reached.
/// - `Internal`: an unexpected failure, such as an order total or a surrogate
///   key that no longer fits in its column.
#[derive(Clone, Copy, Debug, PartialEq, Eq, Structural)]
pub enum ApiError {
    NotFound,
    Conflict,
    ValidationError,
    StorageUnavailable,
    Internal,
}

} // verus!
