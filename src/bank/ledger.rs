use vstd::prelude::*;

use crate::bank::payments::{Payment, Status};
use crate::bank::refunds::{CreateError as RefundError, Refund, refund_created_as_stated};

verus! {

/// The constraints the ledger enforces on what it records.
#[derive(Debug, Clone, Copy, PartialEq, Eq, Structural)]
pub enum Constraint {
    /// Payment ids are unique.
    PaymentsPkey,
    /// Card numbers are unique across payments.
    PaymentsCardNumberIndex,
    /// A payment's amount is positive.
    PaymentsAmountCheck,
    /// Refund ids are unique.
    RefundsPkey,
    /// A refund's amount is positive.
    RefundsAmountCheck,
}

/// A refusal of the ledger's store, with the constraint it came from.
#[derive(Debug, Clone, Copy, PartialEq, Eq, Structural)]
pub enum StoreError {
    RowNotFound,
    UniqueViolation(Constraint),
    CheckViolation(Constraint),
}

/// The payments and refunds recorded so far.
///
/// Every method takes the whole ledger, shared or exclusive, so the changes
/// that a refund makes (a refund row and the payment's refunded amount) happen
/// at once, and refunds against one payment are applied one after the other.
/// A refund reads the payment, checks it, then writes both changes under the
/// same exclusive borrow: no other request can come between the check and the
/// write.
pub struct Ledger {
    payments: Vec<Payment>,
    refunds: Vec<Refund>,
}

pub open spec fn card_taken(payments: Seq<Payment>, card_number: Seq<char>) -> bool {
    exists|i: int| 0 <= i < payments.len() && #[trigger] payments[i].card_number@ == card_number
}

pub open spec fn payment_id_taken(payments: Seq<Payment>, id: u128) -> bool {
    exists|i: int| 0 <= i < payments.len() && #[trigger] payments[i].id == id
}

pub open spec fn refund_id_taken(refunds: Seq<Refund>, id: u128) -> bool {
    exists|k: int| 0 <= k < refunds.len() && #[trigger] refunds[k].id == id
}

pub open spec fn has_approved_payment(payments: Seq<Payment>, id: u128) -> bool {
    exists|i: int|
        0 <= i < payments.len() && #[trigger] payments[i].id == id && payments[i].status
            == Status::Approved
}

/// Whether an approved payment with this id can take a further refund of `amount`.
pub open spec fn refund_fits(payments: Seq<Payment>, id: u128, amount: int) -> bool {
    exists|i: int|
        0 <= i < payments.len() && #[trigger] payments[i].id == id && payments[i].status
            == Status::Approved && payments[i].refunded_amount + amount <= payments[i].amount
}

/// A payment's amount is positive and its refunded amount lies between zero
/// and it.
pub open spec fn within_amount(p: Payment) -> bool {
    p.amount > 0 && 0 <= p.refunded_amount <= p.amount
}

/// A refund's amount is positive and it stands against an approved payment.
pub open spec fn backed_refund(payments: Seq<Payment>, r: Refund) -> bool {
    r.amount > 0 && has_approved_payment(payments, r.payment_id)
}

/// A refund of `amount` against payment `id` passes every check on the payment.
pub open spec fn refund_allowed(payments: Seq<Payment>, id: u128, amount: i32) -> bool {
    amount > 0 && refund_fits(payments, id, amount as int)
}

/// The sum of the amounts of the refunds against payment `id`.
pub open spec fn refund_total(refunds: Seq<Refund>, id: u128) -> int
    decreases refunds.len(),
{
    if refunds.len() == 0 {
        0
    } else {
        refund_total(refunds.drop_last(), id) + if refunds.last().payment_id == id {
            refunds.last().amount as int
        } else {
            0
        }
    }
}

/// The constraint a new payment breaks, if any, in the order they are checked.
pub open spec fn payment_insert_error(
    payments: Seq<Payment>,
    id: u128,
    amount: i32,
    card_number: Seq<char>,
) -> Option<StoreError> {
    if amount <= 0 {
        Some(StoreError::CheckViolation(Constraint::PaymentsAmountCheck))
    } else if card_taken(payments, card_number) {
        Some(StoreError::UniqueViolation(Constraint::PaymentsCardNumberIndex))
    } else if payment_id_taken(payments, id) {
        Some(StoreError::UniqueViolation(Constraint::PaymentsPkey))
    } else {
        None
    }
}

/// `p` is the payment recorded from these values, with nothing refunded yet.
pub open spec fn is_new_payment(
    p: Payment,
    id: u128,
    amount: i32,
    card_number: Seq<char>,
    status: Status,
    now: i64,
) -> bool {
    &&& p.id == id
    &&& p.amount == amount
    &&& p.refunded_amount == 0
    &&& p.card_number@ == card_number
    &&& p.status == status
    &&& p.inserted_at == now
    &&& p.updated_at == now
}

/// The outcome of a refund of `amount` against payment `payment_id`, in the
/// order the checks are made.
pub open spec fn refund_outcome(
    payments: Seq<Payment>,
    refunds: Seq<Refund>,
    refund_id: u128,
    payment_id: u128,
    amount: i32,
) -> Result<(), RefundError> {
    if amount <= 0 {
        Err(RefundError::Database(StoreError::CheckViolation(Constraint::RefundsAmountCheck)))
    } else if !has_approved_payment(payments, payment_id) {
        Err(RefundError::PaymentNotFound)
    } else if !refund_fits(payments, payment_id, amount as int) {
        Err(RefundError::ExcessiveAmount)
    } else if refund_id_taken(refunds, refund_id) {
        Err(RefundError::Database(StoreError::UniqueViolation(Constraint::RefundsPkey)))
    } else {
        Ok(())
    }
}

/// Payment `p` after a refund of `amount`: only the refunded amount moves.
pub open spec fn after_refund(p: Payment, amount: i32) -> Payment {
    Payment { refunded_amount: (p.refunded_amount + amount) as i32, ..p }
}

/// The payments after a refund of `amount` against payment `id`.
pub open spec fn payments_after_refund(payments: Seq<Payment>, id: u128, amount: i32) -> Seq<
    Payment,
> {
    payments.map_values(|p: Payment| if p.id == id { after_refund(p, amount) } else { p })
}

proof fn lemma_refund_total_push(refunds: Seq<Refund>, r: Refund, id: u128)
    ensures
        refund_total(refunds.push(r), id) == refund_total(refunds, id) + if r.payment_id == id {
            r.amount as int
        } else {
            0
        },
{
    assert(refunds.push(r).drop_last() =~= refunds);
}

proof fn lemma_refund_total_none(refunds: Seq<Refund>, id: u128)
    requires
        forall|k: int| 0 <= k < refunds.len() ==> #[trigger] refunds[k].payment_id != id,
    ensures
        refund_total(refunds, id) == 0,
    decreases refunds.len(),
{
    if refunds.len() > 0 {
        lemma_refund_total_none(refunds.drop_last(), id);
    }
}

fn copy_payment(p: &Payment) -> (r: Payment)
    ensures
        r == *p,
{
    Payment {
        id: p.id,
        amount: p.amount,
        refunded_amount: p.refunded_amount,
        card_number: p.card_number.clone(),
        status: p.status,
        inserted_at: p.inserted_at,
        updated_at: p.updated_at,
    }
}

impl Ledger {
    pub closed spec fn payments(&self) -> Seq<Payment> {
        self.payments@
    }

    pub closed spec fn refunds(&self) -> Seq<Refund> {
        self.refunds@
    }

    /// What the ledger keeps true of everything it holds: amounts positive and
    /// never refunded past, ids and card numbers unique, every refund against
    /// an approved payment, and each payment's refunded amount the sum of its
    /// refunds.
    pub closed spec fn wf(&self) -> bool {
        let ps = self.payments@;
        let rs = self.refunds@;
        &&& forall|i: int|
            0 <= i < ps.len() ==> within_amount(#[trigger] ps[i])
        &&& forall|i: int, j: int|
            0 <= i < ps.len() && 0 <= j < ps.len() && i != j ==> #[trigger] ps[i].id
                != #[trigger] ps[j].id && ps[i].card_number@ != ps[j].card_number@
        &&& forall|i: int|
            0 <= i < ps.len() ==> refund_total(rs, #[trigger] ps[i].id) == ps[i].refunded_amount
        &&& forall|k: int|
            0 <= k < rs.len() ==> backed_refund(ps, #[trigger] rs[k])
        &&& forall|k: int, l: int|
            0 <= k < rs.len() && 0 <= l < rs.len() && k != l ==> #[trigger] rs[k].id
                != #[trigger] rs[l].id
    }

    /// An empty ledger.
    pub fn new() -> (r: Ledger)
        ensures
            r.wf(),
            r.payments() == Seq::<Payment>::empty(),
            r.refunds() == Seq::<Refund>::empty(),
    {
        Ledger { payments: Vec::new(), refunds: Vec::new() }
    }

    fn holds_card_number(&self, card_number: &String) -> (r: bool)
        ensures
            r == card_taken(self.payments(), card_number@),
    {
        let mut i: usize = 0;
        while i < self.payments.len()
            invariant
                0 <= i <= self.payments@.len(),
                forall|j: int| 0 <= j < i ==> self.payments@[j].card_number@ != card_number@,
            decreases self.payments@.len() - i,
        {
            if self.payments[i].card_number == *card_number {
                return true;
            }
            i = i + 1;
        }
        false
    }

    fn payment_index(&self, id: u128) -> (r: Option<usize>)
        ensures
            match r {
                Some(i) => i < self.payments().len() && self.payments()[i as int].id == id,
                None => !payment_id_taken(self.payments(), id),
            },
    {
        let mut i: usize = 0;
        while i < self.payments.len()
            invariant
                0 <= i <= self.payments@.len(),
                forall|j: int| 0 <= j < i ==> self.payments@[j].id != id,
            decreases self.payments@.len() - i,
        {
            if self.payments[i].id == id {
                return Some(i);
            }
            i = i + 1;
        }
        None
    }

    fn refund_index(&self, id: u128) -> (r: Option<usize>)
        ensures
            match r {
                Some(k) => k < self.refunds().len() && self.refunds()[k as int].id == id,
                None => !refund_id_taken(self.refunds(), id),
            },
    {
        let mut k: usize = 0;
        while k < self.refunds.len()
            invariant
                0 <= k <= self.refunds@.len(),
                forall|j: int| 0 <= j < k ==> self.refunds@[j].id != id,
            decreases self.refunds@.len() - k,
        {
            if self.refunds[k].id == id {
                return Some(k);
            }
            k = k + 1;
        }
        None
    }

    /// Records a new payment, unless it breaks one of the payment constraints.
    pub fn insert_payment(
        &mut self,
        id: u128,
        amount: i32,
        card_number: &str,
        status: Status,
        now: i64,
    ) -> (r: Result<Payment, StoreError>)
        requires
            old(self).wf(),
        ensures
            final(self).wf(),
            final(self).refunds() == old(self).refunds(),
            match payment_insert_error(old(self).payments(), id, amount, card_number@) {
                Some(e) => {
                    &&& r == Err::<Payment, StoreError>(e)
                    &&& final(self).payments() == old(self).payments()
                },
                None => {
                    &&& r is Ok
                    &&& is_new_payment(r->Ok_0, id, amount, card_number@, status, now)
                    &&& final(self).payments() == old(self).payments().push(r->Ok_0)
                },
            },
    {
        if amount <= 0 {
            return Err(StoreError::CheckViolation(Constraint::PaymentsAmountCheck));
        }
        let card = card_number.to_owned();
        if self.holds_card_number(&card) {
            return Err(StoreError::UniqueViolation(Constraint::PaymentsCardNumberIndex));
        }
        if self.payment_index(id).is_some() {
            return Err(StoreError::UniqueViolation(Constraint::PaymentsPkey));
        }
        let payment = Payment {
            id,
            amount,
            refunded_amount: 0,
            card_number: card,
            status,
            inserted_at: now,
            updated_at: now,
        };
        let recorded = copy_payment(&payment);
        proof {
            assert forall|k: int| 0 <= k < self.refunds@.len() implies #[trigger] self.refunds@[k].payment_id != id by {
                assert(has_approved_payment(self.payments@, self.refunds@[k].payment_id));
            }
            lemma_refund_total_none(self.refunds@, id);
        }
        let ghost ps = self.payments@;
        self.payments.push(payment);
        proof {
            assert(self.payments@ == ps.push(recorded));
            assert forall|k: int| 0 <= k < self.refunds@.len() implies has_approved_payment(
                self.payments@,
                #[trigger] self.refunds@[k].payment_id,
            ) by {
                assert(has_approved_payment(ps, self.refunds@[k].payment_id));
                let i = choose|i: int|
                    0 <= i < ps.len() && #[trigger] ps[i].id == self.refunds@[k].payment_id
                        && ps[i].status == Status::Approved;
                assert(self.payments@[i] == ps[i]);
                assert(self.payments@[i].id == self.refunds@[k].payment_id);
            }
        }
        Ok(recorded)
    }

    /// Applies a refund of `amount` against payment `payment_id` in one step:
    /// the refund is recorded and the payment's refunded amount raised by it,
    /// or nothing changes.
    pub fn refund(&mut self, refund_id: u128, payment_id: u128, amount: i32, now: i64) -> (r:
        Result<Refund, RefundError>)
        requires
            old(self).wf(),
        ensures
            final(self).wf(),
            match refund_outcome(
                old(self).payments(),
                old(self).refunds(),
                refund_id,
                payment_id,
                amount,
            ) {
                Err(e) => {
                    &&& r == Err::<Refund, RefundError>(e)
                    &&& final(self).payments() == old(self).payments()
                    &&& final(self).refunds() == old(self).refunds()
                },
                Ok(_) => {
                    &&& r == Ok::<Refund, RefundError>(
                        Refund { id: refund_id, payment_id, amount, inserted_at: now, updated_at: now },
                    )
                    &&& final(self).refunds() == old(self).refunds().push(r->Ok_0)
                    &&& final(self).payments() == payments_after_refund(old(self).payments(), payment_id, amount)
                },
            },
    {
        if amount <= 0 {
            return Err(
                RefundError::Database(StoreError::CheckViolation(Constraint::RefundsAmountCheck)),
            );
        }
        let i = match self.payment_index(payment_id) {
            Some(i) => i,
            None => {
                return Err(RefundError::PaymentNotFound);
            },
        };
        let status = self.payments[i].status;
        let paid = self.payments[i].amount;
        let refunded = self.payments[i].refunded_amount;
        proof {
            assert(within_amount(self.payments@[i as int]));
            assert forall|j: int| 0 <= j < self.payments@.len() && j != i implies #[trigger] self.payments@[j].id != payment_id by {
                assert(self.payments@[j].id != self.payments@[i as int].id);
            }
        }
        if status != Status::Approved {
            return Err(RefundError::PaymentNotFound);
        }
        if amount > paid - refunded {
            return Err(RefundError::ExcessiveAmount);
        }
        if self.refund_index(refund_id).is_some() {
            return Err(
                RefundError::Database(StoreError::UniqueViolation(Constraint::RefundsPkey)),
            );
        }
        let refund = Refund {
            id: refund_id,
            payment_id,
            amount,
            inserted_at: now,
            updated_at: now,
        };
        let ghost ps = self.payments@;
        let ghost rs = self.refunds@;
        self.payments[i].refunded_amount = refunded + amount;
        self.refunds.push(refund);
        proof {
            assert(self.refunds@ == rs.push(refund));
            assert(self.payments@ =~= payments_after_refund(ps, payment_id, amount));
            assert forall|j: int| 0 <= j < ps.len() implies #[trigger] self.payments@[j].id
                == ps[j].id && self.payments@[j].status == ps[j].status
                && self.payments@[j].card_number == ps[j].card_number by {}
            assert forall|j: int| 0 <= j < self.payments@.len() implies refund_total(
                self.refunds@,
                #[trigger] self.payments@[j].id,
            ) == self.payments@[j].refunded_amount by {
                lemma_refund_total_push(rs, refund, ps[j].id);
            }
            assert forall|k: int| 0 <= k < self.refunds@.len() implies backed_refund(
                self.payments@,
                #[trigger] self.refunds@[k],
            ) by {
                if k < rs.len() {
                    assert(backed_refund(ps, rs[k]));
                    let j = choose|j: int|
                        0 <= j < ps.len() && #[trigger] ps[j].id == rs[k].payment_id
                            && ps[j].status == Status::Approved;
                    assert(self.payments@[j].id == rs[k].payment_id);
                } else {
                    assert(self.payments@[i as int].id == payment_id);
                }
            }
        }
        Ok(refund)
    }

    /// How many payments are recorded.
    pub fn payment_count(&self) -> (r: usize)
        ensures
            r == self.payments().len(),
    {
        self.payments.len()
    }

    /// How many refunds are recorded.
    pub fn refund_count(&self) -> (r: usize)
        ensures
            r == self.refunds().len(),
    {
        self.refunds.len()
    }

    /// Looks a payment up by its id.
    pub fn find_payment(&self, id: u128) -> (r: Result<Payment, StoreError>)
        requires
            self.wf(),
        ensures
            match r {
                Ok(p) => {
                    &&& p.id == id
                    &&& self.payments().contains(p)
                    &&& forall|i: int|
                        0 <= i < self.payments().len() && #[trigger] self.payments()[i].id == id
                            ==> self.payments()[i] == p
                },
                Err(e) => e == StoreError::RowNotFound && !payment_id_taken(self.payments(), id),
            },
    {
        match self.payment_index(id) {
            Some(i) => Ok(copy_payment(&self.payments[i])),
            None => Err(StoreError::RowNotFound),
        }
    }

    /// Looks a refund up by its id.
    pub fn find_refund(&self, id: u128) -> (r: Result<Refund, StoreError>)
        requires
            self.wf(),
        ensures
            match r {
                Ok(f) => {
                    &&& f.id == id
                    &&& self.refunds().contains(f)
                    &&& forall|k: int|
                        0 <= k < self.refunds().len() && #[trigger] self.refunds()[k].id == id
                            ==> self.refunds()[k] == f
                },
                Err(e) => e == StoreError::RowNotFound && !refund_id_taken(self.refunds(), id),
            },
    {
        match self.refund_index(id) {
            Some(k) => Ok(self.refunds[k]),
            None => Err(StoreError::RowNotFound),
        }
    }
}

/// In a well-formed ledger every payment's amount is positive, its refunded
/// amount lies between zero and its amount, and the refunds against it add up to exactly its refunded
/// amount: together they never exceed what was paid.
pub proof fn lemma_refunds_within_amount(ledger: &Ledger, i: int)
    requires
        ledger.wf(),
        0 <= i < ledger.payments().len(),
    ensures
        ledger.payments()[i].amount > 0,
        0 <= ledger.payments()[i].refunded_amount <= ledger.payments()[i].amount,
        refund_total(ledger.refunds(), ledger.payments()[i].id)
            == ledger.payments()[i].refunded_amount,
        refund_total(ledger.refunds(), ledger.payments()[i].id) <= ledger.payments()[i].amount,
{
    assert(within_amount(ledger.payments@[i]));
}

/// A refund against an id that no payment has and one against a payment that
/// is not approved fail the same way: `PaymentNotFound`.
pub proof fn lemma_missing_and_unapproved_alike(
    ledger: &Ledger,
    missing: u128,
    unapproved: int,
    refund_id: u128,
    amount: i32,
)
    requires
        ledger.wf(),
        !payment_id_taken(ledger.payments(), missing),
        0 <= unapproved < ledger.payments().len(),
        ledger.payments()[unapproved].status != Status::Approved,
        amount > 0,
    ensures
        refund_outcome(ledger.payments(), ledger.refunds(), refund_id, missing, amount) == Err::<
            (),
            RefundError,
        >(RefundError::PaymentNotFound),
        refund_outcome(
            ledger.payments(),
            ledger.refunds(),
            refund_id,
            ledger.payments()[unapproved].id,
            amount,
        ) == Err::<(), RefundError>(RefundError::PaymentNotFound),
{
    let ps = ledger.payments@;
    assert forall|j: int| 0 <= j < ps.len() && #[trigger] ps[j].id == ps[unapproved].id implies ps[j].status
        != Status::Approved by {
        if j != unapproved {
            assert(ps[j].id != ps[unapproved].id);
        }
    }
}

/// Of two refunds against one approved payment of a ledger that holds no
/// refund yet, made one after the other, where the first fits in what is left
/// of the payment and the two together do not: the first is applied, the
/// second is refused as excessive, and the payment's refunded amount grows by
/// the first alone.
pub proof fn lemma_second_refund_past_amount_refused(
    l0: &Ledger,
    l1: &Ledger,
    l2: &Ledger,
    i: int,
    first: Result<Refund, RefundError>,
    second: Result<Refund, RefundError>,
    first_amount: i32,
    second_amount: i32,
)
    requires
        l0.wf(),
        l0.refunds().len() == 0,
        0 <= i < l0.payments().len(),
        l0.payments()[i].status == Status::Approved,
        first_amount > 0,
        second_amount > 0,
        l0.payments()[i].refunded_amount + first_amount <= l0.payments()[i].amount,
        l0.payments()[i].refunded_amount + first_amount + second_amount > l0.payments()[i].amount,
        refund_created_as_stated(
            l0.payments(),
            l0.refunds(),
            l1.payments(),
            l1.refunds(),
            first,
            l0.payments()[i].id,
            first_amount,
        ),
        refund_created_as_stated(
            l1.payments(),
            l1.refunds(),
            l2.payments(),
            l2.refunds(),
            second,
            l0.payments()[i].id,
            second_amount,
        ),
    ensures
        first is Ok,
        first->Ok_0.amount == first_amount,
        second == Err::<Refund, RefundError>(RefundError::ExcessiveAmount),
        l2.refunds() == seq![first->Ok_0],
        l2.payments()[i].refunded_amount == l0.payments()[i].refunded_amount + first_amount,
{
    let ps = l0.payments@;
    let pid = ps[i].id;
    assert(has_approved_payment(ps, pid));
    assert(refund_fits(ps, pid, first_amount as int));
    assert forall|id: u128| refund_outcome(ps, l0.refunds@, id, pid, first_amount) is Ok by {}
    if first is Err {
        let e = first->Err_0;
        if e is Database && e->Database_0 is UniqueViolation {
            let id = choose|id: u128|
                refund_outcome(ps, l0.refunds@, id, pid, first_amount) == Err::<(), RefundError>(e);
            assert(refund_outcome(ps, l0.refunds@, id, pid, first_amount) is Ok);
        } else {
            assert(refund_outcome(ps, l0.refunds@, 0, pid, first_amount) == Err::<(), RefundError>(e));
        }
    }
    let ps1 = l1.payments();
    assert(ps1 == payments_after_refund(ps, pid, first_amount));
    assert(ps1[i].refunded_amount == ps[i].refunded_amount + first_amount);
    assert forall|j: int| 0 <= j < ps1.len() && #[trigger] ps1[j].id == pid implies j == i by {
        if j != i {
            assert(ps[j].id != ps[i].id);
        }
    }
    assert(has_approved_payment(ps1, pid)) by {
        assert(ps1[i].id == pid);
    }
    assert(!refund_fits(ps1, pid, second_amount as int));
    assert forall|id: u128|
        refund_outcome(ps1, l1.refunds(), id, pid, second_amount) == Err::<(), RefundError>(
            RefundError::ExcessiveAmount,
        ) by {}
    if second is Ok {
        assert(refund_outcome(ps1, l1.refunds(), second->Ok_0.id, pid, second_amount) is Ok);
    } else {
        let e = second->Err_0;
        if e is Database && e->Database_0 is UniqueViolation {
            assert(!refund_allowed(ps1, pid, second_amount));
        } else {
            assert(refund_outcome(ps1, l1.refunds(), 0, pid, second_amount) == Err::<(), RefundError>(e));
        }
    }
    assert(l2.refunds() =~= seq![first->Ok_0]);
}

/// The amount that a run of refund requests (payment id and amount each), with
/// the results they got, applied to payment `id`: the amounts of those against
/// it that succeeded.
pub open spec fn applied_refunds(
    requests: Seq<(u128, i32)>,
    results: Seq<Result<Refund, RefundError>>,
    id: u128,
) -> int
    decreases requests.len(),
{
    if requests.len() == 0 || results.len() < requests.len() {
        0
    } else {
        let k = requests.len() - 1;
        applied_refunds(requests.drop_last(), results.subrange(0, k), id) + if results[k] is Ok
            && requests[k].0 == id {
            requests[k].1 as int
        } else {
            0
        }
    }
}

/// However many refund requests are served one after another, each payment's
/// refunded amount grows by exactly the amounts of the requests against it that
/// succeeded, equals the sum of its refunds, and never passes its amount.
/// `ledgers[k]` is the ledger before request `k` and `ledgers[k + 1]` after it.
pub proof fn lemma_refund_run(
    ledgers: Seq<Ledger>,
    requests: Seq<(u128, i32)>,
    results: Seq<Result<Refund, RefundError>>,
    i: int,
)
    requires
        ledgers.len() == requests.len() + 1,
        results.len() == requests.len(),
        forall|k: int| 0 <= k < ledgers.len() ==> (#[trigger] ledgers[k]).wf(),
        forall|k: int|
            0 <= k < requests.len() ==> refund_created_as_stated(
                (#[trigger] ledgers[k]).payments(),
                ledgers[k].refunds(),
                ledgers[k + 1].payments(),
                ledgers[k + 1].refunds(),
                results[k],
                requests[k].0,
                requests[k].1,
            ),
        0 <= i < ledgers[0].payments().len(),
    ensures
        ledgers.last().payments().len() == ledgers[0].payments().len(),
        ledgers.last().payments()[i].id == ledgers[0].payments()[i].id,
        ledgers.last().payments()[i].refunded_amount == ledgers[0].payments()[i].refunded_amount
            + applied_refunds(requests, results, ledgers[0].payments()[i].id),
        refund_total(ledgers.last().refunds(), ledgers[0].payments()[i].id)
            == ledgers.last().payments()[i].refunded_amount,
        0 <= ledgers.last().payments()[i].refunded_amount <= ledgers.last().payments()[i].amount,
    decreases requests.len(),
{
    let n = requests.len() as int;
    let pid = ledgers[0].payments()[i].id;
    if n > 0 {
        let k = n - 1;
        let prefix = ledgers.drop_last();
        assert forall|j: int| 0 <= j < prefix.len() implies (#[trigger] prefix[j]).wf() by {
            assert(prefix[j] == ledgers[j]);
        }
        assert forall|j: int| 0 <= j < requests.drop_last().len() implies refund_created_as_stated(
            (#[trigger] prefix[j]).payments(),
            prefix[j].refunds(),
            prefix[j + 1].payments(),
            prefix[j + 1].refunds(),
            results.subrange(0, k)[j],
            requests.drop_last()[j].0,
            requests.drop_last()[j].1,
        ) by {
            assert(prefix[j] == ledgers[j]);
            assert(prefix[j + 1] == ledgers[j + 1]);
            assert(refund_created_as_stated(
                ledgers[j].payments(),
                ledgers[j].refunds(),
                ledgers[j + 1].payments(),
                ledgers[j + 1].refunds(),
                results[j],
                requests[j].0,
                requests[j].1,
            ));
        }
        lemma_refund_run(prefix, requests.drop_last(), results.subrange(0, k), i);
        assert(prefix.last() == ledgers[k]);
        let before = ledgers[k];
        let after = ledgers[n];
        assert(after == ledgers.last());
        assert(before.wf());
        assert(after.wf());
        assert(refund_created_as_stated(
            before.payments(),
            before.refunds(),
            after.payments(),
            after.refunds(),
            results[k],
            requests[k].0,
            requests[k].1,
        ));
        assert(within_amount(after.payments@[i]));
    } else {
        assert(within_amount(ledgers[0].payments@[i]));
    }
}

} // verus!
