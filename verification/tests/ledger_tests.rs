use mint_ledger::AcceptAllValidator;
use mint_ledger::AddressValidation;
use mint_ledger::BalanceError;
use mint_ledger::Ledger;
use mint_ledger::MaxLenValidator;
use mint_ledger::NonEmptyValidator;
use mint_ledger::decimal_string;

#[test]
fn set_then_balance_returns_value() {
    let mut l = Ledger::new(AcceptAllValidator);
    assert_eq!(l.set_balance(String::from("alice"), 42), Ok(()));
    assert_eq!(l.balance("alice"), Ok(42));
}

#[test]
fn unwritten_address_reads_zero() {
    let l = Ledger::new(AcceptAllValidator);
    assert_eq!(l.balance("never-written"), Ok(0));
    assert_eq!(l.balance(""), Ok(0));
}

#[test]
fn write_elsewhere_keeps_unwritten_address_zero() {
    let mut l = Ledger::new(AcceptAllValidator);
    assert_eq!(l.set_balance(String::from("alice"), 42), Ok(()));
    assert_eq!(l.balance("bob"), Ok(0));
}

#[test]
fn rejected_address_set_fails_and_mapping_is_unchanged() {
    let mut l = Ledger::new(NonEmptyValidator);
    assert_eq!(l.set_balance(String::from("alice"), 7), Ok(()));
    assert_eq!(
        l.set_balance(String::from(""), 5),
        Err(BalanceError::InvalidAddress)
    );
    // The earlier binding is untouched by the failed write.
    assert_eq!(l.balance("alice"), Ok(7));
}

#[test]
fn rejected_address_balance_fails() {
    let l = Ledger::new(NonEmptyValidator);
    assert_eq!(l.balance(""), Err(BalanceError::InvalidAddress));
}

#[test]
fn overwrite_keeps_second_value() {
    let mut l = Ledger::new(AcceptAllValidator);
    assert_eq!(l.set_balance(String::from("alice"), 1), Ok(()));
    assert_eq!(l.set_balance(String::from("alice"), 2), Ok(()));
    assert_eq!(l.balance("alice"), Ok(2));
}

#[test]
fn set_to_zero_reads_like_absent() {
    let mut l = Ledger::new(AcceptAllValidator);
    assert_eq!(l.set_balance(String::from("alice"), 9), Ok(()));
    assert_eq!(l.set_balance(String::from("alice"), 0), Ok(()));
    assert_eq!(l.balance("alice"), Ok(0));
}

#[test]
fn largest_balance_is_stored_exactly() {
    let mut l = Ledger::new(AcceptAllValidator);
    assert_eq!(l.set_balance(String::from("alice"), u64::MAX), Ok(()));
    assert_eq!(l.balance("alice"), Ok(u64::MAX));
}

#[test]
fn accept_all_validator_accepts_everything() {
    let v = AcceptAllValidator;
    assert!(v.is_valid_address(""));
    assert!(v.is_valid_address("anything at all"));
}

#[test]
fn non_empty_validator_rejects_only_empty() {
    let v = NonEmptyValidator;
    assert!(!v.is_valid_address(""));
    assert!(v.is_valid_address("x"));
}

#[test]
fn max_len_validator_accepts_up_to_the_bound() {
    let v = MaxLenValidator { max_len: 3 };
    assert!(v.is_valid_address(""));
    assert!(v.is_valid_address("abc"));
    assert!(!v.is_valid_address("abcd"));
}

#[test]
fn decimal_string_renders_exact_digits() {
    assert_eq!(decimal_string(0), "0");
    assert_eq!(decimal_string(7), "7");
    assert_eq!(decimal_string(10), "10");
    assert_eq!(decimal_string(1000), "1000");
    assert_eq!(decimal_string(u32::MAX), "4294967295");
}
