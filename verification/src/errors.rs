//! The error taxonomy of the loan ledger. Every operation either fully
//! commits or aborts with one of these kinds; callers can distinguish them
//! programmatically.

use vstd::prelude::*;

verus! {

/// Why a lifecycle operation was rejected. Each operation's contract states
/// exactly which inputs produce which kind; on any error the ledger is left
/// unchanged.
#[derive(Clone, Copy, Debug, PartialEq, Eq, Structural)]
pub enum LoanError {
    /// The loan has been closed (or was never active); no further
    /// repayment or funding is accepted.
    LoanNotActive,
    /// A repayment was zero, or would push the repaid total past the
    /// principal.
    InvalidPaymentAmount,
    /// The repaid total would overflow the 64-bit bookkeeping range.
    CalculationError,
    /// The repayment was signed by an identity other than the stored
    /// borrower.
    InvalidBorrower,
    /// The loan's principal has already been transferred to the borrower.
    AlreadyFunded,
    /// A record already sits under the derived storage key.
    KeyCollision,
    /// The caller's signature does not match the role the operation
    /// requires.
    Unauthorized,
    /// A supplied account reference does not match the record's stored
    /// identity.
    AccountMismatch,
    /// The value-transfer primitive failed (missing account, insufficient
    /// balance, or a balance that cannot take the credit).
    TransferFailed,
    /// No loan record sits under the given storage key.
    RecordNotFound,
    /// The host's address derivation found no usable storage key for the
    /// seed tuple.
    DerivationFailure,
}

} // verus!
