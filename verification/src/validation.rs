//! Address validation as an injected capability.
//!
//! The ledger never decides for itself which addresses are acceptable: it
//! consults an [`AddressValidation`] capability chosen at construction time,
//! so a real policy (checksum, length, character set) can be substituted
//! without touching any caller.

use vstd::prelude::*;
use vstd::string::StrSliceExecFns;

verus! {

/// A stateless capability that decides whether a string is an acceptable
/// ledger address. Validation is a pure, total function over the address's
/// characters: `is_valid_address` returns exactly `spec_valid` of the
/// address, for every input, including the empty string.
pub trait AddressValidation: Sized {
    /// The policy itself: which character sequences are acceptable addresses.
    spec fn spec_valid(&self, address: Seq<char>) -> bool;

    /// Decides whether `address` is acceptable. Pure and side-effect-free;
    /// never fails.
    fn is_valid_address(&self, address: &str) -> (b: bool)
        ensures
            b == self.spec_valid(address@),
    ;
}

/// The permissive reference policy: every string is an acceptable address.
pub struct AcceptAllValidator;

impl AddressValidation for AcceptAllValidator {
    open spec fn spec_valid(&self, address: Seq<char>) -> bool {
        true
    }

    fn is_valid_address(&self, address: &str) -> (b: bool) {
        true
    }
}

/// A stricter policy for exercising rejection paths: accepts exactly the
/// non-empty strings.
pub struct NonEmptyValidator;

impl AddressValidation for NonEmptyValidator {
    open spec fn spec_valid(&self, address: Seq<char>) -> bool {
        address.len() > 0
    }

    fn is_valid_address(&self, address: &str) -> (b: bool) {
        !address.is_empty()
    }
}

/// A length-limit policy: accepts exactly the addresses of at most
/// `max_len` characters.
pub struct MaxLenValidator {
    /// The largest acceptable address length, in characters.
    pub max_len: usize,
}

impl AddressValidation for MaxLenValidator {
    open spec fn spec_valid(&self, address: Seq<char>) -> bool {
        address.len() <= self.max_len
    }

    fn is_valid_address(&self, address: &str) -> (b: bool) {
        address.unicode_len() <= self.max_len
    }
}

} // verus!
