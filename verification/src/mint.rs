//! The minting capability.
//!
//! [`BalanceInterface`] is a one-method capability that credits an account
//! through some backend; [`DirectMintRuntime`] is the reference backend,
//! which performs the credit synchronously against a [`Ledger`], additively:
//! the new balance is the old balance plus the minted amount, never an
//! overwrite.

use vstd::prelude::*;
use crate::digits::decimal_of;
use crate::digits::decimal_string;
use crate::ledger::Ledger;
use crate::ledger::balance_in;
use crate::validation::AddressValidation;

verus! {

/// The balance type used by the reference runtime.
pub type BalanceOf = u64;

/// The ledger address a minting account identifier resolves to: its decimal
/// string.
pub open spec fn address_of_account(id: u32) -> Seq<char> {
    decimal_of(id as nat)
}

/// A capability that credits `amount` to the account `to` through some
/// backend.
///
/// The contract is exact: `mint_ok` says on which requests the backend owes
/// success, `mint_post` pins the successful backend state, and `mint_err`
/// pins the message reported otherwise. A failed mint never changes the
/// backend.
pub trait BalanceInterface: Sized {
    type AccountId;

    type Balance;

    /// The backend's internal invariant.
    spec fn wf(&self) -> bool;

    /// Whether the backend accepts this credit request.
    spec fn mint_ok(&self, to: Self::AccountId, amount: Self::Balance) -> bool;

    /// How a successful credit changes the backend.
    spec fn mint_post(&self, post: Self, to: Self::AccountId, amount: Self::Balance) -> bool;

    /// The message reported for a refused credit request.
    spec fn mint_err(&self, to: Self::AccountId, amount: Self::Balance) -> Seq<char>;

    /// Credits `amount` to the account `to`. One synchronous attempt; no
    /// retries. Succeeds exactly on the requests `mint_ok` accepts, and on
    /// failure reports `mint_err` and leaves the backend unchanged.
    fn mint_to_account(&mut self, to: Self::AccountId, amount: Self::Balance) -> (r: Result<
        (),
        &'static str,
    >)
        requires
            old(self).wf(),
        ensures
            final(self).wf(),
            old(self).mint_ok(to, amount) ==> r == Ok::<(), &'static str>(()) && old(self).mint_post(
                *final(self),
                to,
                amount,
            ),
            !old(self).mint_ok(to, amount) ==> (r matches Err(m) && m@ == old(self).mint_err(
                to,
                amount,
            )) && *final(self) == *old(self),
    ;
}

/// The reference minting backend: credits the ledger directly and
/// synchronously. The destination account is addressed by its decimal
/// string.
pub struct DirectMintRuntime<V: AddressValidation> {
    /// The ledger this backend credits.
    pub ledger: Ledger<V>,
}

impl<V: AddressValidation> BalanceInterface for DirectMintRuntime<V> {
    type AccountId = u32;

    type Balance = BalanceOf;

    open spec fn wf(&self) -> bool {
        self.ledger.wf()
    }

    /// A credit is accepted when the validator accepts the destination
    /// address and the new balance still fits in the balance type.
    open spec fn mint_ok(&self, to: u32, amount: BalanceOf) -> bool {
        &&& self.ledger.accepts(address_of_account(to))
        &&& balance_in(self.ledger@, address_of_account(to)) + amount <= u64::MAX
    }

    /// A successful credit adds `amount` to the destination's balance and
    /// changes nothing else.
    open spec fn mint_post(&self, post: Self, to: u32, amount: BalanceOf) -> bool {
        &&& post.ledger@ == self.ledger@.insert(
            address_of_account(to),
            (balance_in(self.ledger@, address_of_account(to)) + amount) as u64,
        )
        &&& post.ledger.spec_validator() == self.ledger.spec_validator()
    }

    open spec fn mint_err(&self, to: u32, amount: BalanceOf) -> Seq<char> {
        if !self.ledger.accepts(address_of_account(to)) {
            "invalid address"@
        } else {
            "balance overflow"@
        }
    }

    fn mint_to_account(&mut self, to: u32, amount: BalanceOf) -> (r: Result<(), &'static str>) {
        let address = decimal_string(to);
        let current = match self.ledger.balance(address.as_str()) {
            Ok(v) => v,
            Err(_) => {
                return Err("invalid address");
            },
        };
        if amount > u64::MAX - current {
            return Err("balance overflow");
        }
        let _ = self.ledger.set_balance(address, current + amount);
        Ok(())
    }
}

/// Credits `amount` to the account `to` through the backend `T`, under the
/// backend's own contract.
pub fn mint_to_account<T: BalanceInterface>(
    backend: &mut T,
    to: T::AccountId,
    amount: T::Balance,
) -> (r: Result<(), &'static str>)
    requires
        old(backend).wf(),
    ensures
        final(backend).wf(),
        old(backend).mint_ok(to, amount) ==> r == Ok::<(), &'static str>(()) && old(
            backend,
        ).mint_post(*final(backend), to, amount),
        !old(backend).mint_ok(to, amount) ==> (r matches Err(m) && m@ == old(backend).mint_err(
            to,
            amount,
        )) && *final(backend) == *old(backend),
{
    backend.mint_to_account(to, amount)
}

/// Law: a credit whose destination the validator rejects is refused with
/// the validation message; by the minting contract the backend, and so the
/// ledger, is then left unchanged.
pub proof fn lemma_mint_rejected<V: AddressValidation>(
    s: DirectMintRuntime<V>,
    to: u32,
    amount: BalanceOf,
)
    requires
        !s.ledger.accepts(address_of_account(to)),
    ensures
        !s.mint_ok(to, amount),
        s.mint_err(to, amount) == "invalid address"@,
{
}

/// Law: minting is additive. Crediting `m1` and then `m2` to one account
/// leaves that account's balance exactly `m1 + m2` above where it started,
/// while an absolute `set_balance` would have overwritten it.
pub proof fn lemma_mint_additive<V: AddressValidation>(
    s0: DirectMintRuntime<V>,
    s1: DirectMintRuntime<V>,
    s2: DirectMintRuntime<V>,
    to: u32,
    m1: BalanceOf,
    m2: BalanceOf,
)
    requires
        s0.mint_ok(to, m1),
        s0.mint_post(s1, to, m1),
        s1.mint_ok(to, m2),
        s1.mint_post(s2, to, m2),
    ensures
        balance_in(s2.ledger@, address_of_account(to)) == balance_in(
            s0.ledger@,
            address_of_account(to),
        ) + m1 + m2,
{
    let a = address_of_account(to);
    let b0 = balance_in(s0.ledger@, a);
    assert(balance_in(s1.ledger@, a) == b0 + m1);
    assert(balance_in(s2.ledger@, a) == b0 + m1 + m2);
}

} // verus!
