//! What the contract learns from the chain it runs on: the time. It is read
//! through `near_sdk::env`, and nothing is proved of it. Who is calling is for
//! the caller of the library to say: every operation takes the account.

use vstd::prelude::*;

verus! {

/// The time of the current block in nanoseconds, as `near_sdk::env::block_timestamp`
/// reports it. It depends on the block that is being produced, so nothing is
/// claimed of the result.
#[verifier::external_body]
pub(crate) fn block_timestamp() -> (now: u64) {
    near_sdk::env::block_timestamp()
}

} // verus!
