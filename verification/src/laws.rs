//! Properties of repayment runs: a run of repayments that sums exactly to
//! the outstanding principal closes the record on its final step and on no
//! earlier one.

use vstd::prelude::*;
use crate::record::LoanAccount;

verus! {

/// The sum of a sequence of repayment amounts.
pub open spec fn payments_total(amounts: Seq<u64>) -> int
    decreases amounts.len(),
{
    if amounts.len() == 0 {
        0
    } else {
        amounts[0] + payments_total(amounts.drop_first())
    }
}

/// The record after the repayments in `amounts` commit in order.
pub open spec fn apply_payments(rec: LoanAccount, amounts: Seq<u64>) -> LoanAccount
    decreases amounts.len(),
{
    if amounts.len() == 0 {
        rec
    } else {
        apply_payments(rec.after_payment(amounts[0]), amounts.drop_first())
    }
}

proof fn lemma_total_nonneg(amounts: Seq<u64>)
    requires
        forall|i: int| 0 <= i < amounts.len() ==> amounts[i] > 0,
    ensures
        payments_total(amounts) >= 0,
    decreases amounts.len(),
{
    if amounts.len() > 0 {
        assert(forall|i: int|
            0 <= i < amounts.drop_first().len() ==> amounts.drop_first()[i] > 0);
        lemma_total_nonneg(amounts.drop_first());
    }
}

/// A closed record never reopens: once the repaid total has reached the
/// principal, no repayment, of any amount, makes the record active again.
pub proof fn lemma_closed_record_stays_closed(rec: LoanAccount, amount: u64)
    requires
        rec.wf(),
        !rec.is_active,
    ensures
        !rec.after_payment(amount).is_active,
{
}

/// A run of repayments whose amounts sum exactly to the outstanding
/// principal closes the record exactly once, on the final repayment: each
/// repayment is accepted by the record it meets, the record is still open
/// when every repayment but the last arrives, and the last one brings the
/// repaid total to the principal and closes the record.
pub proof fn lemma_exact_repayment_closes_once(rec: LoanAccount, amounts: Seq<u64>)
    requires
        rec.wf(),
        rec.is_active,
        amounts.len() > 0,
        forall|i: int| 0 <= i < amounts.len() ==> amounts[i] > 0,
        rec.paid_amount + payments_total(amounts) == rec.principal,
    ensures
        forall|i: int|
            0 <= i < amounts.len() ==> (#[trigger] apply_payments(
                rec,
                amounts.take(i),
            )).valid_payment(amounts[i]),
        forall|i: int|
            0 <= i < amounts.len() ==> ((#[trigger] apply_payments(
                rec,
                amounts.take(i + 1),
            )).is_active <==> i + 1 < amounts.len()),
        apply_payments(rec, amounts).paid_amount == rec.principal,
        !apply_payments(rec, amounts).is_active,
    decreases amounts.len(),
{
    let a0 = amounts[0];
    let rest = amounts.drop_first();
    assert(forall|i: int| 0 <= i < rest.len() ==> rest[i] > 0);
    lemma_total_nonneg(rest);
    assert(amounts.take(0) =~= Seq::<u64>::empty());
    assert(rec.valid_payment(a0));
    let rec1 = rec.after_payment(a0);
    rec.lemma_after_payment_wf(a0);
    if amounts.len() == 1 {
        assert(amounts.take(1) =~= amounts);
        assert(apply_payments(rec1, rest) == rec1);
        assert(apply_payments(rec, amounts) == rec1);
        assert(rec1.paid_amount == rec.principal);
        assert(!rec1.is_active);
    } else {
        assert(forall|i: int|
            0 <= i < rest.drop_first().len() ==> rest.drop_first()[i] > 0);
        lemma_total_nonneg(rest.drop_first());
        assert(payments_total(rest) > 0);
        assert(rec1.is_active);
        lemma_exact_repayment_closes_once(rec1, rest);
        assert forall|i: int| 1 <= i <= amounts.len() implies apply_payments(
            rec,
            #[trigger] amounts.take(i),
        ) == apply_payments(rec1, rest.take(i - 1)) by {
            assert(amounts.take(i).drop_first() =~= rest.take(i - 1));
            assert(amounts.take(i)[0] == a0);
            assert(apply_payments(rec, amounts.take(i)) == apply_payments(
                rec.after_payment(a0),
                amounts.take(i).drop_first(),
            ));
        }
        assert(amounts.take(amounts.len() as int) =~= amounts);
        assert(rest.take(rest.len() as int) =~= rest);
        assert forall|i: int| 0 <= i < amounts.len() implies (#[trigger] apply_payments(
            rec,
            amounts.take(i),
        )).valid_payment(amounts[i]) by {
            if i > 0 {
                assert(apply_payments(rec, amounts.take(i)) == apply_payments(
                    rec1,
                    rest.take(i - 1),
                ));
                assert(apply_payments(rec1, rest.take(i - 1)).valid_payment(rest[i - 1]));
            }
        }
        assert forall|i: int| 0 <= i < amounts.len() implies ((#[trigger] apply_payments(
            rec,
            amounts.take(i + 1),
        )).is_active <==> i + 1 < amounts.len()) by {
            assert(apply_payments(rec, amounts.take(i + 1)) == apply_payments(
                rec1,
                rest.take(i),
            ));
            if i == 0 {
                assert(rest.take(0) =~= Seq::<u64>::empty());
                assert(apply_payments(rec1, rest.take(0)) == rec1);
            } else {
                assert(apply_payments(rec1, rest.take((i - 1) + 1)).is_active <==> (i - 1) + 1
                    < rest.len());
            }
        }
        assert(apply_payments(rec, amounts) == apply_payments(rec1, rest));
    }
}

} // verus!
