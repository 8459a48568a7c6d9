use vstd::prelude::*;

use crate::bank::ledger::{
    payments_after_refund, refund_allowed, refund_id_taken, refund_outcome, Ledger, StoreError,
};
use crate::bank::payments::Payment;
use crate::bank::stamps::{new_id, now};

verus! {

/// A refund, always tied to one payment.
///
/// Several refunds may be applied against the same payment, each for part of
/// its amount, but the refunds of a payment never add up to more than it. A
/// recorded refund is effective: the bank's client has the money credited.
#[derive(Debug, Clone, Copy, PartialEq, Eq, Structural)]
pub struct Refund {
    pub id: u128,
    pub payment_id: u128,
    pub amount: i32,
    pub inserted_at: i64,
    pub updated_at: i64,
}

/// Why a refund could not be applied.
#[derive(Debug, Clone, Copy, PartialEq, Eq, Structural)]
pub enum CreateError {
    /// No approved payment has this id: a missing payment and one that cannot
    /// be refunded are not told apart.
    PaymentNotFound,
    /// The refund would take the refunded amount past the payment's amount.
    ExcessiveAmount,
    /// Any other refusal of the store.
    Database(StoreError),
}

/// What is known of a refund's application, whatever id it was given: the
/// ledger before and after, and the result.
pub open spec fn refund_created_as_stated(
    payments: Seq<Payment>,
    refunds: Seq<Refund>,
    payments_after: Seq<Payment>,
    refunds_after: Seq<Refund>,
    r: Result<Refund, CreateError>,
    payment_id: u128,
    amount: i32,
) -> bool {
    match r {
        Ok(f) => {
            &&& f.id != 0
            &&& f.payment_id == payment_id
            &&& f.amount == amount
            &&& f.inserted_at == f.updated_at
            &&& refund_outcome(payments, refunds, f.id, payment_id, amount) is Ok
            &&& refunds_after == refunds.push(f)
            &&& payments_after == payments_after_refund(payments, payment_id, amount)
        },
        Err(e) => {
            &&& payments_after == payments
            &&& refunds_after == refunds
            &&& match e {
                // the refund passed every check on the payment, and the id drawn
                // at random is one that a recorded refund already has
                CreateError::Database(StoreError::UniqueViolation(_)) => {
                    &&& refund_allowed(payments, payment_id, amount)
                    &&& exists|id: u128|
                        refund_outcome(payments, refunds, id, payment_id, amount) == Err::<
                            (),
                            CreateError,
                        >(e)
                },
                _ => forall|id: u128|
                    refund_outcome(payments, refunds, id, payment_id, amount) == Err::<
                        (),
                        CreateError,
                    >(e),
            }
        },
    }
}

/// Applies a refund of `amount` against payment `payment_id`, under a fresh id
/// and stamped with the current time.
///
/// The refund is recorded and the payment's refunded amount raised in one
/// step, or nothing changes: a missing or unapproved payment is
/// `PaymentNotFound`, and a refund past the payment's amount `ExcessiveAmount`.
pub fn create(ledger: &mut Ledger, payment_id: u128, amount: i32) -> (r: Result<
    Refund,
    CreateError,
>)
    requires
        old(ledger).wf(),
    ensures
        final(ledger).wf(),
        refund_created_as_stated(
            old(ledger).payments(),
            old(ledger).refunds(),
            final(ledger).payments(),
            final(ledger).refunds(),
            r,
            payment_id,
            amount,
        ),
{
    let id = new_id();
    let at = now();
    let r = ledger.refund(id, payment_id, amount, at);
    assert(r is Err ==> refund_outcome(
        old(ledger).payments(),
        old(ledger).refunds(),
        id,
        payment_id,
        amount,
    ) == Err::<(), CreateError>(r->Err_0));
    r
}

/// Looks a refund up by its id; a missing one is `RowNotFound`.
pub fn get(ledger: &Ledger, id: u128) -> (r: Result<Refund, StoreError>)
    requires
        ledger.wf(),
    ensures
        match r {
            Ok(f) => {
                &&& f.id == id
                &&& ledger.refunds().contains(f)
                &&& forall|k: int|
                    0 <= k < ledger.refunds().len() && #[trigger] ledger.refunds()[k].id == id
                        ==> ledger.refunds()[k] == f
            },
            Err(e) => e == StoreError::RowNotFound && !refund_id_taken(ledger.refunds(), id),
        },
{
    ledger.find_refund(id)
}

} // verus!
