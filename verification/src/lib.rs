pub mod account;
pub mod delegation;
pub mod error;
pub mod identity;
pub mod instruction;
pub mod processor;
pub mod relationship;
pub mod sdk;
pub mod slashing;
pub mod token_account;
