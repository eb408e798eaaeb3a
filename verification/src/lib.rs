//! A minimal account ledger: addresses map to unsigned balances, every read
//! and write passes through a pluggable address validator, and a pluggable
//! minting capability credits balances from an external trigger.

pub mod account;
pub mod digits;
pub mod ledger;
pub mod mint;
pub mod orchestrator;
pub mod validation;

pub use account::AccountIdProvider;
pub use account::MyAccountIdProvider;
pub use digits::decimal_string;
pub use ledger::BalanceError;
pub use ledger::Ledger;
pub use mint::BalanceInterface;
pub use mint::BalanceOf;
pub use mint::DirectMintRuntime;
pub use mint::mint_to_account;
pub use orchestrator::MintError;
pub use orchestrator::MintOrchestrator;
pub use validation::AcceptAllValidator;
pub use validation::AddressValidation;
pub use validation::MaxLenValidator;
pub use validation::NonEmptyValidator;
