//! The host ledger and the loan lifecycle engine: native balances and loan
//! records as key-addressed stores, advanced only by the three lifecycle
//! operations, each committing atomically or leaving every row unchanged.

use vstd::prelude::*;
use crate::address::{derive_loan_address, loan_pda, LoanAddress};
use crate::errors::LoanError;
use crate::identity::Identity;
use crate::record::LoanAccount;
use crate::table::Table;

verus! {

/// Whether the balance table `bm` can settle a movement of `amount` from
/// `from` to `to`: both accounts exist, the debtor covers the amount, and
/// the creditor's balance can take the credit.
pub open spec fn can_transfer(
    bm: Map<Seq<u8>, u64>,
    from: Seq<u8>,
    to: Seq<u8>,
    amount: u64,
) -> bool {
    &&& bm.contains_key(from)
    &&& bm.contains_key(to)
    &&& amount <= bm[from]
    &&& (from != to ==> bm[to] + amount <= u64::MAX)
}

/// The balance table after that movement settles: the debtor loses exactly
/// `amount`, the creditor gains exactly `amount`, every other row is kept.
pub open spec fn transferred(
    bm: Map<Seq<u8>, u64>,
    from: Seq<u8>,
    to: Seq<u8>,
    amount: u64,
) -> Map<Seq<u8>, u64> {
    if from == to {
        bm
    } else {
        bm.insert(from, (bm[from] - amount) as u64).insert(to, (bm[to] + amount) as u64)
    }
}

/// The host ledger: the deployment-time program identity, the native
/// balance rows and the loan records, each keyed by a 32-byte key.
pub struct Ledger {
    program_id: Identity,
    balances: Table<u64>,
    loans: Table<LoanAccount>,
}

impl Ledger {
    /// The native balance rows, keyed by account identity.
    pub closed spec fn balance_map(&self) -> Map<Seq<u8>, u64> {
        self.balances@
    }

    /// The loan records, keyed by their derived storage key.
    pub closed spec fn loan_map(&self) -> Map<Seq<u8>, LoanAccount> {
        self.loans@
    }

    /// The identity the program was deployed under; read-only at runtime.
    pub closed spec fn program(&self) -> Seq<u8> {
        self.program_id@
    }

    /// The ledger invariant: both stores are key-unique and every stored
    /// loan record satisfies the record invariant.
    pub closed spec fn wf(&self) -> bool {
        &&& self.balances.wf()
        &&& self.loans.wf()
        &&& forall|k: Seq<u8>| #[trigger]
            self.loans@.contains_key(k) ==> self.loans@[k].wf()
    }

    /// Every record held by a well-formed ledger satisfies the record
    /// invariant: the repaid total never passes the principal, and a
    /// closed record is exactly a fully repaid one.
    pub proof fn lemma_records_wf(&self, key: Seq<u8>)
        requires
            self.wf(),
            self.loan_map().contains_key(key),
        ensures
            self.loan_map()[key].wf(),
    {
    }

    /// An empty ledger for the program deployed under `program_id`.
    pub fn new(program_id: &Identity) -> (r: Ledger)
        ensures
            r.wf(),
            r.program() == program_id@,
            r.balance_map() == Map::<Seq<u8>, u64>::empty(),
            r.loan_map() == Map::<Seq<u8>, LoanAccount>::empty(),
    {
        Ledger {
            program_id: *program_id,
            balances: Table::new(),
            loans: Table::new(),
        }
    }

    /// Credit `amount` of native value to `who`, opening the account at
    /// zero when it is absent; fails only when the credit would overflow
    /// the 64-bit balance, and then changes nothing.
    pub fn deposit(&mut self, who: &Identity, amount: u64) -> (r: Result<(), LoanError>)
        requires
            old(self).wf(),
        ensures
            final(self).wf(),
            final(self).program() == old(self).program(),
            final(self).loan_map() == old(self).loan_map(),
            ({
                let prev: u64 = if old(self).balance_map().contains_key(who@) {
                    old(self).balance_map()[who@]
                } else {
                    0u64
                };
                &&& (r is Ok <==> prev + amount <= u64::MAX)
                &&& (r is Ok ==> final(self).balance_map() == old(self).balance_map().insert(
                    who@,
                    (prev + amount) as u64,
                ))
                &&& (r is Err ==> r == Err::<(), LoanError>(LoanError::TransferFailed)
                    && final(self).balance_map() == old(self).balance_map())
            }),
    {
        let prev: u64 = match self.balances.get(who) {
            Some(b) => b,
            None => 0,
        };
        if amount > u64::MAX - prev {
            return Err(LoanError::TransferFailed);
        }
        self.balances.put(who, prev + amount);
        Ok(())
    }

    /// The native balance of `who`, or `None` for an absent account.
    pub fn balance_of(&self, who: &Identity) -> (r: Option<u64>)
        requires
            self.wf(),
        ensures
            match r {
                Some(b) => self.balance_map().contains_key(who@) && self.balance_map()[who@] == b,
                None => !self.balance_map().contains_key(who@),
            },
    {
        self.balances.get(who)
    }

    /// The loan record under `loan_key`, or `None` for an absent record.
    pub fn get_loan(&self, loan_key: &Identity) -> (r: Option<LoanAccount>)
        requires
            self.wf(),
        ensures
            match r {
                Some(rec) => self.loan_map().contains_key(loan_key@) && self.loan_map()[loan_key@]
                    == rec,
                None => !self.loan_map().contains_key(loan_key@),
            },
    {
        self.loans.get(loan_key)
    }

    /// Atomically move `amount` of native value from `from` to `to`: on
    /// success exactly the two balances change, by exactly `amount`; on any
    /// failure no row changes and the caller learns only that the
    /// settlement primitive failed.
    pub fn transfer(&mut self, from: &Identity, to: &Identity, amount: u64) -> (r: Result<
        (),
        LoanError,
    >)
        requires
            old(self).wf(),
        ensures
            final(self).wf(),
            final(self).program() == old(self).program(),
            final(self).loan_map() == old(self).loan_map(),
            r is Ok <==> can_transfer(old(self).balance_map(), from@, to@, amount),
            r is Ok ==> final(self).balance_map() == transferred(
                old(self).balance_map(),
                from@,
                to@,
                amount,
            ),
            r is Err ==> r == Err::<(), LoanError>(LoanError::TransferFailed)
                && final(self).balance_map() == old(self).balance_map(),
    {
        let from_balance: u64 = match self.balances.get(from) {
            Some(b) => b,
            None => {
                return Err(LoanError::TransferFailed);
            },
        };
        let to_balance: u64 = match self.balances.get(to) {
            Some(b) => b,
            None => {
                return Err(LoanError::TransferFailed);
            },
        };
        if amount > from_balance {
            return Err(LoanError::TransferFailed);
        }
        if from.same_as(to) {
            return Ok(());
        }
        if amount > u64::MAX - to_balance {
            return Err(LoanError::TransferFailed);
        }
        self.balances.put(from, from_balance - amount);
        self.balances.put(to, to_balance + amount);
        proof {
            assert(self.balances@ =~= transferred(old(self).balance_map(), from@, to@, amount));
        }
        Ok(())
    }

    /// Create the loan record for `lender` and `borrower` under the key
    /// derived from their identities and `timestamp`. The caller must have
    /// signed as the lender, and the key must not already be occupied; the
    /// new record starts with nothing repaid, open, and unfunded.
    pub fn create_loan(
        &mut self,
        signer: &Identity,
        lender: &Identity,
        borrower: &Identity,
        principal: u64,
        rate: u16,
        duration: u32,
        timestamp: u64,
    ) -> (r: Result<LoanAddress, LoanError>)
        requires
            old(self).wf(),
        ensures
            final(self).wf(),
            final(self).program() == old(self).program(),
            final(self).balance_map() == old(self).balance_map(),
            ({
                let d = loan_pda(old(self).program(), lender@, borrower@, timestamp);
                &&& (r is Ok <==> signer@ == lender@ && (d matches Some(p) && !old(
                    self,
                ).loan_map().contains_key(p.0)))
                &&& (r matches Ok(a) ==> Some((a.address@, a.bump)) == d && final(self).loan_map()
                    == old(self).loan_map().insert(
                    a.address@,
                    LoanAccount::fresh(*lender, *borrower, principal, rate, duration, timestamp),
                ))
                &&& (r == Err::<LoanAddress, LoanError>(LoanError::Unauthorized) <==> signer@
                    != lender@)
                &&& (r == Err::<LoanAddress, LoanError>(LoanError::DerivationFailure) <==> signer@
                    == lender@ && d is None)
                &&& (r == Err::<LoanAddress, LoanError>(LoanError::KeyCollision) <==> signer@
                    == lender@ && (d matches Some(p) && old(self).loan_map().contains_key(p.0)))
                &&& (r is Err ==> final(self).loan_map() == old(self).loan_map())
            }),
    {
        if !signer.same_as(lender) {
            return Err(LoanError::Unauthorized);
        }
        let addr = match derive_loan_address(&self.program_id, lender, borrower, timestamp) {
            Some(a) => a,
            None => {
                return Err(LoanError::DerivationFailure);
            },
        };
        if self.loans.contains(&addr.address) {
            return Err(LoanError::KeyCollision);
        }
        let record = LoanAccount {
            lender: *lender,
            borrower: *borrower,
            principal: principal,
            rate: rate,
            paid_amount: 0,
            start_time: timestamp,
            duration: duration,
            is_active: true,
            is_funded: false,
        };
        self.loans.put(&addr.address, record);
        Ok(addr)
    }

    /// Move the principal from the stored lender to the stored borrower
    /// and mark the record funded, atomically: if the transfer fails, no
    /// row changes. The caller must have signed as the stored lender, the
    /// supplied account references must match the stored identities, the
    /// record must not already be funded, and must still be active.
    pub fn fund_loan(
        &mut self,
        loan_key: &Identity,
        signer: &Identity,
        lender: &Identity,
        borrower: &Identity,
    ) -> (r: Result<(), LoanError>)
        requires
            old(self).wf(),
        ensures
            final(self).wf(),
            final(self).program() == old(self).program(),
            ({
                let m = old(self).loan_map();
                let bm = old(self).balance_map();
                &&& (r == Err::<(), LoanError>(LoanError::RecordNotFound) <==> !m.contains_key(
                    loan_key@,
                ))
                &&& (m.contains_key(loan_key@) ==> ({
                    let rec = m[loan_key@];
                    let auth = signer@ == rec.lender@;
                    let refs = lender@ == rec.lender@ && borrower@ == rec.borrower@;
                    let movable = can_transfer(bm, rec.lender@, rec.borrower@, rec.principal);
                    &&& (r == Err::<(), LoanError>(LoanError::Unauthorized) <==> !auth)
                    &&& (r == Err::<(), LoanError>(LoanError::AccountMismatch) <==> auth && !refs)
                    &&& (r == Err::<(), LoanError>(LoanError::AlreadyFunded) <==> auth && refs
                        && rec.is_funded)
                    &&& (r == Err::<(), LoanError>(LoanError::LoanNotActive) <==> auth && refs
                        && !rec.is_funded && !rec.is_active)
                    &&& (r == Err::<(), LoanError>(LoanError::TransferFailed) <==> auth && refs
                        && !rec.is_funded && rec.is_active && !movable)
                    &&& (r is Ok <==> auth && refs && !rec.is_funded && rec.is_active && movable)
                    &&& (r is Ok ==> final(self).loan_map() == m.insert(
                        loan_key@,
                        rec.after_funding(),
                    ) && final(self).balance_map() == transferred(
                        bm,
                        rec.lender@,
                        rec.borrower@,
                        rec.principal,
                    ))
                }))
                &&& (r is Err ==> final(self).loan_map() == m && final(self).balance_map() == bm)
            }),
    {
        let record = match self.loans.get(loan_key) {
            Some(rec) => rec,
            None => {
                return Err(LoanError::RecordNotFound);
            },
        };
        if !signer.same_as(&record.lender) {
            return Err(LoanError::Unauthorized);
        }
        if !lender.same_as(&record.lender) || !borrower.same_as(&record.borrower) {
            return Err(LoanError::AccountMismatch);
        }
        if record.is_funded {
            return Err(LoanError::AlreadyFunded);
        }
        if !record.is_active {
            return Err(LoanError::LoanNotActive);
        }
        match self.transfer(&record.lender, &record.borrower, record.principal) {
            Ok(()) => {},
            Err(e) => {
                return Err(e);
            },
        }
        let updated = LoanAccount { is_funded: true, ..record };
        self.loans.put(loan_key, updated);
        Ok(())
    }

    /// Move a repayment from the stored borrower to the stored lender and
    /// add it to the repaid total, atomically; the record closes exactly
    /// when the total first reaches the principal. The caller must have
    /// signed as the stored borrower, the supplied lender reference must
    /// match the stored identity, the record must be active, and the
    /// payment must be positive, must not overflow the 64-bit total, and
    /// must not push the total past the principal.
    pub fn make_payment(
        &mut self,
        loan_key: &Identity,
        signer: &Identity,
        lender: &Identity,
        payment_amount: u64,
    ) -> (r: Result<(), LoanError>)
        requires
            old(self).wf(),
        ensures
            final(self).wf(),
            final(self).program() == old(self).program(),
            ({
                let m = old(self).loan_map();
                let bm = old(self).balance_map();
                &&& (r == Err::<(), LoanError>(LoanError::RecordNotFound) <==> !m.contains_key(
                    loan_key@,
                ))
                &&& (m.contains_key(loan_key@) ==> ({
                    let rec = m[loan_key@];
                    let auth = signer@ == rec.borrower@;
                    let refs = lender@ == rec.lender@;
                    let total = rec.paid_amount + payment_amount;
                    let movable = can_transfer(bm, rec.borrower@, rec.lender@, payment_amount);
                    &&& (r == Err::<(), LoanError>(LoanError::InvalidBorrower) <==> !auth)
                    &&& (r == Err::<(), LoanError>(LoanError::AccountMismatch) <==> auth && !refs)
                    &&& (r == Err::<(), LoanError>(LoanError::LoanNotActive) <==> auth && refs
                        && !rec.is_active)
                    &&& (r == Err::<(), LoanError>(LoanError::CalculationError) <==> auth && refs
                        && rec.is_active && payment_amount > 0 && total > u64::MAX)
                    &&& (r == Err::<(), LoanError>(LoanError::InvalidPaymentAmount) <==> auth
                        && refs && rec.is_active && (payment_amount == 0 || (total <= u64::MAX
                        && total > rec.principal)))
                    &&& (r == Err::<(), LoanError>(LoanError::TransferFailed) <==> auth && refs
                        && rec.valid_payment(payment_amount) && !movable)
                    &&& (r is Ok <==> auth && refs && rec.valid_payment(payment_amount) && movable)
                    &&& (r is Ok ==> final(self).loan_map() == m.insert(
                        loan_key@,
                        rec.after_payment(payment_amount),
                    ) && final(self).balance_map() == transferred(
                        bm,
                        rec.borrower@,
                        rec.lender@,
                        payment_amount,
                    ))
                }))
                &&& (r is Err ==> final(self).loan_map() == m && final(self).balance_map() == bm)
            }),
    {
        let record = match self.loans.get(loan_key) {
            Some(rec) => rec,
            None => {
                return Err(LoanError::RecordNotFound);
            },
        };
        if !signer.same_as(&record.borrower) {
            return Err(LoanError::InvalidBorrower);
        }
        if !lender.same_as(&record.lender) {
            return Err(LoanError::AccountMismatch);
        }
        if !record.is_active {
            return Err(LoanError::LoanNotActive);
        }
        if payment_amount == 0 {
            return Err(LoanError::InvalidPaymentAmount);
        }
        let total = match record.paid_amount.checked_add(payment_amount) {
            Some(t) => t,
            None => {
                return Err(LoanError::CalculationError);
            },
        };
        if total > record.principal {
            return Err(LoanError::InvalidPaymentAmount);
        }
        match self.transfer(&record.borrower, &record.lender, payment_amount) {
            Ok(()) => {},
            Err(e) => {
                return Err(e);
            },
        }
        let updated = LoanAccount {
            paid_amount: total,
            is_active: total < record.principal,
            ..record
        };
        self.loans.put(loan_key, updated);
        Ok(())
    }
}

} // verus!
