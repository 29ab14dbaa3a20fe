//! The outcome of an operation as it is handed to the caller.

use crate::error::GenericError;
use vstd::prelude::*;

verus! {

/// Either the value that the operation produced, under `Ok`, or the reason it
/// was refused, under `Err`.
pub type ResponseResult<T> = Result<T, GenericError>;

} // verus!
