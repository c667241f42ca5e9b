//! Storage-staking figures: what a registration must reserve.
//!
//! The host charges rent per byte of stored state; the engine only
//! computes the resulting bounds from the per-byte cost and the
//! footprint of the longest possible account record, both supplied by
//! the host layer.

use vstd::prelude::*;

verus! {

/// What an account has reserved for its storage footprint.
#[derive(Clone, Copy, Debug, PartialEq, Eq, Structural)]
pub struct StorageBalance {
    pub total: u128,
    pub available: u128,
}

/// The least and greatest deposit a registration may reserve. Both
/// bounds coincide here: every account reserves exactly the footprint
/// of the longest possible record.
#[derive(Clone, Copy, Debug, PartialEq, Eq, Structural)]
pub struct StorageBalanceBounds {
    pub min: u128,
    pub max: Option<u128>,
}

/// The deposit bounds for registering one account: the per-byte cost
/// times the footprint of the longest possible account record,
/// saturating at the top of the unsigned 128-bit range.
pub fn storage_balance_bounds(byte_cost: u128, bytes_for_longest_account_id: u64) -> (r:
    StorageBalanceBounds)
    ensures
        byte_cost * bytes_for_longest_account_id <= u128::MAX ==> r.min == byte_cost
            * bytes_for_longest_account_id,
        byte_cost * bytes_for_longest_account_id > u128::MAX ==> r.min == u128::MAX,
        r.max == Some(r.min),
{
    let min = saturating_mul(byte_cost, bytes_for_longest_account_id as u128);
    StorageBalanceBounds { min, max: Some(min) }
}

/// The storage balance reported for one account: the required minimum
/// when it is registered, nothing otherwise.
pub fn storage_balance_of(registered: bool, required_min: u128) -> (r: Option<StorageBalance>)
    ensures
        registered ==> r == Some(StorageBalance { total: required_min, available: 0u128 }),
        !registered ==> r is None,
{
    if registered {
        Some(StorageBalance { total: required_min, available: 0 })
    } else {
        None
    }
}

/// `a * b`, clamped to the top of the unsigned 128-bit range.
fn saturating_mul(a: u128, b: u128) -> (r: u128)
    ensures
        a * b <= u128::MAX ==> r == a * b,
        a * b > u128::MAX ==> r == u128::MAX,
{
    match a.checked_mul(b) {
        Some(v) => v,
        None => u128::MAX,
    }
}

} // verus!
