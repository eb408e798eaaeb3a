use mint_ledger::AcceptAllValidator;
use mint_ledger::AccountIdProvider;
use mint_ledger::BalanceInterface;
use mint_ledger::DirectMintRuntime;
use mint_ledger::Ledger;
use mint_ledger::MaxLenValidator;
use mint_ledger::MintError;
use mint_ledger::MintOrchestrator;
use mint_ledger::MyAccountIdProvider;
use mint_ledger::mint_to_account;

#[test]
fn minting_credits_the_decimal_address() {
    let mut rt = DirectMintRuntime {
        ledger: Ledger::new(AcceptAllValidator),
    };
    assert_eq!(rt.mint_to_account(7, 250), Ok(()));
    assert_eq!(rt.ledger.balance("7"), Ok(250));
}

#[test]
fn repeated_mint_is_additive() {
    let mut rt = DirectMintRuntime {
        ledger: Ledger::new(AcceptAllValidator),
    };
    assert_eq!(rt.mint_to_account(7, 10), Ok(()));
    assert_eq!(rt.mint_to_account(7, 32), Ok(()));
    assert_eq!(rt.ledger.balance("7"), Ok(42));
}

#[test]
fn mint_to_rejected_destination_fails_and_preserves_ledger() {
    // Addresses may be at most two characters long, so account 1000
    // resolves to the rejected address "1000".
    let mut rt = DirectMintRuntime {
        ledger: Ledger::new(MaxLenValidator { max_len: 2 }),
    };
    assert_eq!(rt.mint_to_account(42, 5), Ok(()));
    assert_eq!(rt.mint_to_account(1000, 5), Err("invalid address"));
    assert_eq!(rt.ledger.balance("42"), Ok(5));
    assert_eq!(rt.ledger.balance("10"), Ok(0));
}

#[test]
fn mint_overflow_fails_and_preserves_balance() {
    let mut rt = DirectMintRuntime {
        ledger: Ledger::new(AcceptAllValidator),
    };
    assert_eq!(rt.mint_to_account(1, u64::MAX - 1), Ok(()));
    assert_eq!(rt.mint_to_account(1, 2), Err("balance overflow"));
    assert_eq!(rt.ledger.balance("1"), Ok(u64::MAX - 1));
    // A credit that exactly reaches the maximum is still accepted.
    assert_eq!(rt.mint_to_account(1, 1), Ok(()));
    assert_eq!(rt.ledger.balance("1"), Ok(u64::MAX));
}

#[test]
fn free_mint_function_forwards_to_the_backend() {
    let mut rt = DirectMintRuntime {
        ledger: Ledger::new(AcceptAllValidator),
    };
    assert_eq!(mint_to_account(&mut rt, 3, 12), Ok(()));
    assert_eq!(rt.ledger.balance("3"), Ok(12));
}

#[test]
fn account_id_provider_is_identity() {
    assert_eq!(MyAccountIdProvider::get_account(1), 1);
    assert_eq!(MyAccountIdProvider::get_account(u32::MAX), u32::MAX);
}

#[test]
fn orchestrator_mints_amount_to_resolved_account() {
    let mut rt = DirectMintRuntime {
        ledger: Ledger::new(AcceptAllValidator),
    };
    let r = MintOrchestrator::run_once::<MyAccountIdProvider, _>(&mut rt, 1, Some(1000));
    assert_eq!(r, Ok(()));
    assert_eq!(rt.ledger.balance("1"), Ok(1000));
}

#[test]
fn orchestrator_without_amount_aborts_and_leaves_ledger() {
    let mut rt = DirectMintRuntime {
        ledger: Ledger::new(AcceptAllValidator),
    };
    let r = MintOrchestrator::run_once::<MyAccountIdProvider, _>(&mut rt, 1, None);
    assert_eq!(r, Err(MintError::AmountUnavailable));
    assert_eq!(rt.ledger.balance("1"), Ok(0));
}

#[test]
fn orchestrator_reports_backend_failure() {
    let mut rt = DirectMintRuntime {
        ledger: Ledger::new(MaxLenValidator { max_len: 1 }),
    };
    let r = MintOrchestrator::run_once::<MyAccountIdProvider, _>(&mut rt, 10, Some(5));
    assert_eq!(r, Err(MintError::BackendFailure("invalid address")));
    assert_eq!(rt.ledger.balance("1"), Ok(0));
}
