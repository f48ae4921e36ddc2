//! Deterministic storage-key derivation: maps the seed tuple
//! ("loan", lender, borrower, creation timestamp) under the deployed
//! program identity to a unique storage key and its authority witness,
//! delegated to the host's program-address derivation.

use vstd::prelude::*;
use vstd::bytes::*;
use crate::identity::Identity;
use anchor_lang::solana_program::pubkey::Pubkey;

verus! {

/// The seed prefix naming the loan-record family: the bytes of `"loan"`.
pub open spec fn loan_seed_spec() -> Seq<u8> {
    seq![108u8, 111u8, 97u8, 110u8]
}

/// What the host's program-address derivation returns for a tuple of four
/// seeds under `program`: the derived storage key with its bump witness, or
/// nothing when no bump byte yields a usable key. A pure function of the
/// seeds and the program identity.
pub uninterp spec fn pda_of(
    prefix: Seq<u8>,
    lender: Seq<u8>,
    borrower: Seq<u8>,
    timestamp: Seq<u8>,
    program: Seq<u8>,
) -> Option<(Seq<u8>, u8)>;

/// The derived key and witness for a loan of `lender` and `borrower`
/// created at `timestamp` under `program`.
pub open spec fn loan_pda(
    program: Seq<u8>,
    lender: Seq<u8>,
    borrower: Seq<u8>,
    timestamp: u64,
) -> Option<(Seq<u8>, u8)> {
    pda_of(loan_seed_spec(), lender, borrower, spec_u64_to_le_bytes(timestamp), program)
}

/// A derived storage key together with its authority witness.
#[derive(Clone, Copy, Debug)]
pub struct LoanAddress {
    /// The 32-byte storage key the record sits under.
    pub address: Identity,
    /// The bump byte proving the key's legitimacy to the storage layer.
    pub bump: u8,
}

/// Relies on `Address::derive_program_address` of solana-address (the type
/// anchor_lang re-exports as `Pubkey`): for a fixed tuple of four seeds it
/// is a pure function of the seeds and the program id, searching bump bytes
/// downward from 255 for an off-curve SHA-256 image, and returning `None`
/// exactly when no bump yields one or a seed is over the host's length cap.
#[verifier::external_body]
fn derive_program_address_raw(
    prefix: &Vec<u8>,
    lender: &Identity,
    borrower: &Identity,
    timestamp: &Vec<u8>,
    program: &Identity,
) -> (r: Option<(Identity, u8)>)
    ensures
        r is Some <==> pda_of(prefix@, lender@, borrower@, timestamp@, program@) is Some,
        (r matches Some(p) ==> Some((p.0@, p.1)) == pda_of(
            prefix@,
            lender@,
            borrower@,
            timestamp@,
            program@,
        )),
{
    let seeds: [&[u8]; 4] = [
        prefix.as_slice(),
        &lender.bytes,
        &borrower.bytes,
        timestamp.as_slice(),
    ];
    let pid = Pubkey::new_from_array(program.bytes);
    Pubkey::derive_program_address(&seeds, &pid)
        .map(|(a, bump)| (Identity { bytes: a.to_bytes() }, bump))
}

/// The `"loan"` seed prefix as stored bytes.
fn loan_seed() -> (r: Vec<u8>)
    ensures
        r@ == loan_seed_spec(),
{
    let mut v: Vec<u8> = Vec::new();
    v.push(108);
    v.push(111);
    v.push(97);
    v.push(110);
    proof {
        assert(v@ =~= loan_seed_spec());
    }
    v
}

/// Derive the storage key and authority witness for the loan of `lender`
/// and `borrower` created at `timestamp` under the deployed `program`:
/// deterministic, reproducible by any party holding the same inputs.
pub fn derive_loan_address(
    program: &Identity,
    lender: &Identity,
    borrower: &Identity,
    timestamp: u64,
) -> (r: Option<LoanAddress>)
    ensures
        r is Some <==> loan_pda(program@, lender@, borrower@, timestamp) is Some,
        (r matches Some(a) ==> Some((a.address@, a.bump)) == loan_pda(
            program@,
            lender@,
            borrower@,
            timestamp,
        )),
{
    let prefix = loan_seed();
    let ts = u64_to_le_bytes(timestamp);
    match derive_program_address_raw(&prefix, lender, borrower, &ts, program) {
        Some(p) => Some(LoanAddress { address: p.0, bump: p.1 }),
        None => None,
    }
}

} // verus!
