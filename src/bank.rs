//! The ledger itself: payments, refunds and the account service they rely on.
pub mod accounts;
pub mod ledger;
pub mod payments;
pub mod refunds;
pub mod stamps;
