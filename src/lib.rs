//! Custodial exchange protocols over a token ledger: a two-party escrow swap
//! and flash loans whose repayment is enforced inside one transaction.

pub mod bytes;
pub mod ledger;
pub mod escrow;
pub mod batch_loan;
pub mod introspect;
pub mod flash_loan;
pub mod vault;
pub mod seeds;
