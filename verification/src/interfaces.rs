//! The abstraction a caller programs against when an operation is packaged
//! as a self-contained unit of application work.

use vstd::prelude::*;

use crate::error::ApiError;

verus! {

/// One unit of application work: executed against whatever state the
/// implementor carries, producing a value of the use case's type or an error
/// of the service taxonomy.
pub trait AbstractUseCase<T> {
    fn execute(&self) -> Result<T, ApiError>;
}

} // verus!
