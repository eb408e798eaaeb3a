//! One mint request, end to end.
//!
//! The orchestrator resolves an origin into a destination account, checks
//! that an amount was obtained, and invokes the minting backend. Obtaining
//! the origin and the amount may involve suspension or I/O, so the host
//! performs those steps and hands the results in as plain values; the
//! decision logic here is what is verified.

use vstd::prelude::*;
use crate::account::AccountIdProvider;
use crate::mint::BalanceInterface;

verus! {

/// Why a mint attempt failed.
#[derive(Clone, Copy, Debug, PartialEq, Eq)]
pub enum MintError {
    /// The backend refused the credit; carries the backend's message.
    /// Recoverable: the backend was left unchanged, and no retry is made.
    BackendFailure(&'static str),
    /// The external amount source yielded no amount. Fatal for this mint
    /// attempt: the backend is never invoked.
    AmountUnavailable,
}

/// Glues one mint request end to end. Stateless: every invocation is
/// independent, and invoking it twice with the same inputs mints twice.
pub struct MintOrchestrator;

impl MintOrchestrator {
    /// Runs one mint attempt: resolves `origin` through the provider `P`,
    /// then credits the resolved account with `amount` through `backend`.
    ///
    /// If no amount was obtained, fails with
    /// [`MintError::AmountUnavailable`] without invoking the backend. A
    /// backend refusal is propagated as [`MintError::BackendFailure`] with
    /// the backend's message. The backend changes exactly on success, and
    /// then as its own minting contract says.
    pub fn run_once<P, B>(
        backend: &mut B,
        origin: P::AccountId,
        amount: Option<B::Balance>,
    ) -> (r: Result<(), MintError>) where
        P: AccountIdProvider,
        B: BalanceInterface<AccountId = P::AccountId>,

        requires
            old(backend).wf(),
        ensures
            final(backend).wf(),
            amount is None ==> r == Err::<(), MintError>(MintError::AmountUnavailable)
                && *final(backend) == *old(backend),
            amount matches Some(m) ==> ({
                let to = P::spec_account(origin);
                &&& old(backend).mint_ok(to, m) ==> r == Ok::<(), MintError>(())
                    && old(backend).mint_post(*final(backend), to, m)
                &&& !old(backend).mint_ok(to, m) ==> (r matches Err(
                    MintError::BackendFailure(msg),
                ) && msg@ == old(backend).mint_err(to, m)) && *final(backend) == *old(backend)
            }),
    {
        match amount {
            None => Err(MintError::AmountUnavailable),
            Some(m) => {
                let to = P::get_account(origin);
                match backend.mint_to_account(to, m) {
                    Ok(()) => Ok(()),
                    Err(msg) => Err(MintError::BackendFailure(msg)),
                }
            },
        }
    }
}

} // verus!
