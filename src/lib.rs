//! A payment ledger: payments are authorised against an account service and
//! recorded, and refunds are applied against them without ever refunding more
//! than was paid.
pub mod bank;
pub mod bank_web;
