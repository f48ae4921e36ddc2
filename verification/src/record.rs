//! The loan record: the durable entity describing one lender/borrower
//! agreement, together with its well-formedness invariant and the pure
//! transition functions the lifecycle engine commits.

use vstd::prelude::*;
use crate::identity::Identity;

verus! {

/// One loan agreement, as persisted under its derived storage key.
#[derive(Clone, Copy, Debug)]
pub struct LoanAccount {
    /// The party that extends the principal.
    pub lender: Identity,
    /// The party that receives the principal and repays it.
    pub borrower: Identity,
    /// The amount owed at creation.
    pub principal: u64,
    /// Interest-rate indicator; stored for the parties, consumed by no
    /// computation here.
    pub rate: u16,
    /// Cumulative amount repaid so far.
    pub paid_amount: u64,
    /// Host-clock timestamp at creation; immutable thereafter.
    pub start_time: u64,
    /// Agreed term, in the same unit as `start_time`; stored, not enforced.
    pub duration: u32,
    /// True while repayment is outstanding; false once closed (terminal).
    pub is_active: bool,
    /// True once the principal has been transferred to the borrower.
    pub is_funded: bool,
}

impl LoanAccount {
    /// The record invariant: the repaid total never passes the principal,
    /// and a closed record is exactly a fully repaid one.
    pub open spec fn wf(self) -> bool {
        &&& self.paid_amount <= self.principal
        &&& (!self.is_active ==> self.paid_amount == self.principal)
    }

    /// The record as created: nothing repaid, open, unfunded.
    pub open spec fn fresh(
        lender: Identity,
        borrower: Identity,
        principal: u64,
        rate: u16,
        duration: u32,
        start_time: u64,
    ) -> LoanAccount {
        LoanAccount {
            lender: lender,
            borrower: borrower,
            principal: principal,
            rate: rate,
            paid_amount: 0,
            start_time: start_time,
            duration: duration,
            is_active: true,
            is_funded: false,
        }
    }

    /// A repayment of `amount` is acceptable on this record: positive, and
    /// it keeps the repaid total within the principal.
    pub open spec fn valid_payment(self, amount: u64) -> bool {
        &&& self.is_active
        &&& 0 < amount
        &&& self.paid_amount + amount <= self.principal
    }

    /// The record after a valid repayment of `amount` commits: the total
    /// grows by `amount`, and the record closes exactly when the total
    /// first reaches the principal.
    pub open spec fn after_payment(self, amount: u64) -> LoanAccount {
        LoanAccount {
            paid_amount: (self.paid_amount + amount) as u64,
            is_active: self.paid_amount + amount < self.principal,
            ..self
        }
    }

    /// The record after the principal transfer settles.
    pub open spec fn after_funding(self) -> LoanAccount {
        LoanAccount { is_funded: true, ..self }
    }

    /// A valid repayment preserves the record invariant, and closes the
    /// record exactly when it completes repayment of the principal.
    pub proof fn lemma_after_payment_wf(self, amount: u64)
        requires
            self.wf(),
            self.valid_payment(amount),
        ensures
            self.after_payment(amount).wf(),
            self.after_payment(amount).is_active <==> self.paid_amount + amount < self.principal,
            self.after_payment(amount).paid_amount == self.paid_amount + amount,
    {
    }
}

} // verus!
