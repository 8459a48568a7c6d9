use vstd::prelude::*;

pub mod payments;
pub mod refunds;

verus! {

/// The HTTP status codes the ledger's answers are given with.
pub const OK: u16 = 200;

pub const CREATED: u16 = 201;

pub const NO_CONTENT: u16 = 204;

pub const BAD_REQUEST: u16 = 400;

pub const PAYMENT_REQUIRED: u16 = 402;

pub const FORBIDDEN: u16 = 403;

pub const NOT_FOUND: u16 = 404;

pub const UNPROCESSABLE_ENTITY: u16 = 422;

pub const INTERNAL_SERVER_ERROR: u16 = 500;

pub const SERVICE_UNAVAILABLE: u16 = 503;

/// A server error is any code from 500 to 599.
pub open spec fn server_error(code: u16) -> bool {
    500 <= code <= 599
}

/// Whether `code` reports a failure on the server's side.
pub fn is_server_error(code: u16) -> (r: bool)
    ensures
        r == server_error(code),
{
    500 <= code && code <= 599
}

} // verus!
