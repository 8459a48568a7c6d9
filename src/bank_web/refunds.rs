use vstd::prelude::*;

use crate::bank::ledger::{refund_id_taken, Ledger};
use crate::bank::refunds::{self as ledger_refunds, refund_created_as_stated, CreateError, Refund};
use crate::bank_web::{CREATED, INTERNAL_SERVER_ERROR, NOT_FOUND, OK, UNPROCESSABLE_ENTITY};

verus! {

/// A refund as a caller asks for it.
#[derive(Debug, Clone, Copy, PartialEq, Eq, Structural)]
pub struct RequestData {
    pub amount: i32,
}

#[derive(Debug, Clone, Copy, PartialEq, Eq, Structural)]
pub struct RequestBody {
    pub refund: RequestData,
}

/// A refund as a caller is shown it. A refund that was not applied is shown
/// with the id 0.
#[derive(Debug, Clone, Copy, PartialEq, Eq, Structural)]
pub struct ResponseData {
    pub id: u128,
    pub amount: i32,
    pub payment_id: u128,
}

#[derive(Debug, Clone, Copy, PartialEq, Eq, Structural)]
pub struct ResponseBody {
    pub data: ResponseData,
}

/// The status code each failure to apply a refund is answered with.
pub open spec fn refund_status_code_of(e: CreateError) -> u16 {
    match e {
        CreateError::PaymentNotFound => NOT_FOUND,
        CreateError::ExcessiveAmount => UNPROCESSABLE_ENTITY,
        CreateError::Database(_) => INTERNAL_SERVER_ERROR,
    }
}

/// Maps a failure to apply a refund to its status code.
pub fn status_from_error(e: CreateError) -> (r: u16)
    ensures
        r == refund_status_code_of(e),
{
    match e {
        CreateError::PaymentNotFound => NOT_FOUND,
        CreateError::ExcessiveAmount => UNPROCESSABLE_ENTITY,
        CreateError::Database(_) => INTERNAL_SERVER_ERROR,
    }
}

/// `response` answers a request to refund `amount` of payment `payment_id`
/// whose outcome was `result`.
pub open spec fn answers(
    response: (u16, ResponseBody),
    result: Result<Refund, CreateError>,
    payment_id: u128,
    amount: i32,
) -> bool {
    match result {
        Ok(f) => response == (
            CREATED,
            ResponseBody { data: ResponseData { id: f.id, amount: f.amount, payment_id } },
        ),
        Err(e) => response == (
            refund_status_code_of(e),
            ResponseBody { data: ResponseData { id: 0, amount, payment_id } },
        ),
    }
}

/// Answers a request to refund part or all of payment `payment_id`.
pub fn post(ledger: &mut Ledger, payment_id: u128, body: RequestBody) -> (r: (u16, ResponseBody))
    requires
        old(ledger).wf(),
    ensures
        final(ledger).wf(),
        exists|result: Result<Refund, CreateError>|
            {
                &&& answers(r, result, payment_id, body.refund.amount)
                &&& refund_created_as_stated(
                    old(ledger).payments(),
                    old(ledger).refunds(),
                    final(ledger).payments(),
                    final(ledger).refunds(),
                    result,
                    payment_id,
                    body.refund.amount,
                )
            },
{
    let amount = body.refund.amount;
    let result = ledger_refunds::create(ledger, payment_id, amount);
    let r = match result {
        Ok(refund) => (
            CREATED,
            ResponseBody { data: ResponseData { id: refund.id, amount: refund.amount, payment_id } },
        ),
        Err(e) => (
            status_from_error(e),
            ResponseBody { data: ResponseData { id: 0, amount, payment_id } },
        ),
    };
    assert(answers(r, result, payment_id, amount));
    r
}

/// Answers a request for refund `refund_id` of payment `payment_id`: `OK` with
/// it, or `NOT_FOUND` when there is no such refund of that payment.
pub fn get(ledger: &Ledger, payment_id: u128, refund_id: u128) -> (r: (u16, Option<ResponseBody>))
    requires
        ledger.wf(),
    ensures
        match r.1 {
            Some(body) => {
                &&& r.0 == OK
                &&& body.data.id == refund_id
                &&& body.data.payment_id == payment_id
                &&& exists|k: int|
                    0 <= k < ledger.refunds().len() && #[trigger] ledger.refunds()[k] == Refund {
                        id: refund_id,
                        payment_id,
                        amount: body.data.amount,
                        ..ledger.refunds()[k]
                    }
            },
            None => {
                &&& r.0 == NOT_FOUND
                &&& forall|k: int|
                    0 <= k < ledger.refunds().len() && #[trigger] ledger.refunds()[k].id == refund_id
                        ==> ledger.refunds()[k].payment_id != payment_id
            },
        },
{
    match ledger_refunds::get(ledger, refund_id) {
        Ok(refund) => {
            if refund.payment_id == payment_id {
                (
                    OK,
                    Some(
                        ResponseBody {
                            data: ResponseData { id: refund.id, amount: refund.amount, payment_id },
                        },
                    ),
                )
            } else {
                (NOT_FOUND, None)
            }
        },
        Err(_) => (NOT_FOUND, None),
    }
}

} // verus!
