//! A two-party asset swap held in escrow.
//!
//! An initializer locks an amount of one asset in a custody vault and names
//! the amount of another asset wanted in return. A taker completes the swap,
//! or the initializer cancels it and takes the locked asset back.
//!
//! - `identity`: the addresses of accounts and parties.
//! - `error`: why a request is refused.
//! - `token`: token accounts, and transfer, change of authority and closing.
//! - `authority`: the keyless authority that holds the vaults.
//! - `record`: the record of an offer, and the offer with its vault.
//! - `ledger`: the accounts of the parties and the open offers.
//! - `escrow`: the requests and the three operations.
//! - `laws`: what holds of the operations taken together.

pub mod identity;
pub mod error;
pub mod token;
pub mod authority;
pub mod record;
pub mod ledger;
pub mod escrow;
pub mod laws;
