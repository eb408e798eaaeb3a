//! Resolution of a mint origin into a destination account.

use vstd::prelude::*;

verus! {

/// A capability that resolves the origin of a mint request into the account
/// to credit. `get_account` returns exactly `spec_account` of the origin.
pub trait AccountIdProvider {
    type AccountId;

    /// The resolution policy itself.
    spec fn spec_account(origin: Self::AccountId) -> Self::AccountId;

    /// Resolves `origin` to the destination account.
    fn get_account(origin: Self::AccountId) -> (r: Self::AccountId)
        ensures
            r == Self::spec_account(origin),
    ;
}

/// The reference resolution policy: the destination is the origin itself.
pub struct MyAccountIdProvider;

impl AccountIdProvider for MyAccountIdProvider {
    type AccountId = u32;

    open spec fn spec_account(origin: u32) -> u32 {
        origin
    }

    fn get_account(origin: u32) -> (r: u32) {
        origin
    }
}

} // verus!
