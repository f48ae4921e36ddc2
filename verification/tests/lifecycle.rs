use sol_backend::errors::LoanError;
use sol_backend::identity::Identity;
use sol_backend::ledger::Ledger;

fn id(tag: u8) -> Identity {
    let mut bytes = [0u8; 32];
    bytes[0] = tag;
    bytes[31] = tag.wrapping_mul(3);
    Identity::new(bytes)
}

fn program() -> Identity {
    id(9)
}

#[test]
fn create_loan_starts_unpaid_active_unfunded() {
    let mut ledger = Ledger::new(&program());
    let lender = id(1);
    let borrower = id(2);
    let addr = ledger
        .create_loan(&lender, &lender, &borrower, 1000, 500, 2_592_000, 77)
        .expect("creation by the lender under a fresh key succeeds");
    let rec = ledger.get_loan(&addr.address).expect("the record is stored");
    assert_eq!(rec.paid_amount, 0);
    assert!(rec.is_active);
    assert!(!rec.is_funded);
    assert_eq!(rec.principal, 1000);
    assert_eq!(rec.rate, 500);
    assert_eq!(rec.duration, 2_592_000);
    assert_eq!(rec.start_time, 77);
    assert_eq!(rec.lender.bytes, lender.bytes);
    assert_eq!(rec.borrower.bytes, borrower.bytes);
}

#[test]
fn create_loan_requires_lender_signature() {
    let mut ledger = Ledger::new(&program());
    let lender = id(1);
    let borrower = id(2);
    let r = ledger.create_loan(&borrower, &lender, &borrower, 1000, 500, 2_592_000, 77);
    assert_eq!(r.unwrap_err(), LoanError::Unauthorized);
    assert!(ledger.get_loan(&lender).is_none());
}

#[test]
fn create_loan_rejects_occupied_key() {
    let mut ledger = Ledger::new(&program());
    let lender = id(1);
    let borrower = id(2);
    ledger
        .create_loan(&lender, &lender, &borrower, 1000, 500, 2_592_000, 77)
        .unwrap();
    let r = ledger.create_loan(&lender, &lender, &borrower, 2000, 100, 10, 77);
    assert_eq!(r.unwrap_err(), LoanError::KeyCollision);
}

#[test]
fn derived_keys_separate_distinct_tuples() {
    let mut ledger = Ledger::new(&program());
    let lender = id(1);
    let a = ledger
        .create_loan(&lender, &lender, &id(2), 1000, 500, 2_592_000, 77)
        .unwrap();
    let b = ledger
        .create_loan(&lender, &lender, &id(3), 1000, 500, 2_592_000, 77)
        .unwrap();
    let c = ledger
        .create_loan(&lender, &lender, &id(2), 1000, 500, 2_592_000, 78)
        .unwrap();
    assert_ne!(a.address.bytes, b.address.bytes);
    assert_ne!(a.address.bytes, c.address.bytes);
    assert_ne!(a.address.bytes, lender.bytes);
}

#[test]
fn derivation_is_deterministic() {
    let p = program();
    let first = sol_backend::address::derive_loan_address(&p, &id(1), &id(2), 77).unwrap();
    let again = sol_backend::address::derive_loan_address(&p, &id(1), &id(2), 77).unwrap();
    assert_eq!(first.address.bytes, again.address.bytes);
    assert_eq!(first.bump, again.bump);
}

#[test]
fn fund_loan_moves_principal_and_sets_flag() {
    let mut ledger = Ledger::new(&program());
    let lender = id(1);
    let borrower = id(2);
    ledger.deposit(&lender, 5000).unwrap();
    ledger.deposit(&borrower, 0).unwrap();
    let addr = ledger
        .create_loan(&lender, &lender, &borrower, 1000, 500, 2_592_000, 77)
        .unwrap();
    ledger
        .fund_loan(&addr.address, &lender, &lender, &borrower)
        .expect("an active, unfunded loan with a covered principal funds");
    assert_eq!(ledger.balance_of(&lender), Some(4000));
    assert_eq!(ledger.balance_of(&borrower), Some(1000));
    let rec = ledger.get_loan(&addr.address).unwrap();
    assert!(rec.is_funded);
    assert!(rec.is_active);
}

#[test]
fn fund_loan_twice_fails_already_funded_unchanged() {
    let mut ledger = Ledger::new(&program());
    let lender = id(1);
    let borrower = id(2);
    ledger.deposit(&lender, 5000).unwrap();
    ledger.deposit(&borrower, 0).unwrap();
    let addr = ledger
        .create_loan(&lender, &lender, &borrower, 1000, 500, 2_592_000, 77)
        .unwrap();
    ledger.fund_loan(&addr.address, &lender, &lender, &borrower).unwrap();
    let r = ledger.fund_loan(&addr.address, &lender, &lender, &borrower);
    assert_eq!(r.unwrap_err(), LoanError::AlreadyFunded);
    assert_eq!(ledger.balance_of(&lender), Some(4000));
    assert_eq!(ledger.balance_of(&borrower), Some(1000));
    let rec = ledger.get_loan(&addr.address).unwrap();
    assert!(rec.is_funded);
    assert_eq!(rec.paid_amount, 0);
}

#[test]
fn fund_loan_checks_signer_and_references() {
    let mut ledger = Ledger::new(&program());
    let lender = id(1);
    let borrower = id(2);
    let stranger = id(7);
    ledger.deposit(&lender, 5000).unwrap();
    ledger.deposit(&borrower, 0).unwrap();
    let addr = ledger
        .create_loan(&lender, &lender, &borrower, 1000, 500, 2_592_000, 77)
        .unwrap();
    let r = ledger.fund_loan(&addr.address, &stranger, &lender, &borrower);
    assert_eq!(r.unwrap_err(), LoanError::Unauthorized);
    let r = ledger.fund_loan(&addr.address, &lender, &lender, &stranger);
    assert_eq!(r.unwrap_err(), LoanError::AccountMismatch);
    assert_eq!(ledger.balance_of(&lender), Some(5000));
    assert!(!ledger.get_loan(&addr.address).unwrap().is_funded);
}

#[test]
fn fund_loan_missing_record_fails() {
    let mut ledger = Ledger::new(&program());
    let lender = id(1);
    let r = ledger.fund_loan(&id(5), &lender, &lender, &id(2));
    assert_eq!(r.unwrap_err(), LoanError::RecordNotFound);
}

#[test]
fn fund_loan_transfer_failure_leaves_record_unchanged() {
    let mut ledger = Ledger::new(&program());
    let lender = id(1);
    let borrower = id(2);
    ledger.deposit(&lender, 10).unwrap();
    ledger.deposit(&borrower, 0).unwrap();
    let addr = ledger
        .create_loan(&lender, &lender, &borrower, 1000, 500, 2_592_000, 77)
        .unwrap();
    let r = ledger.fund_loan(&addr.address, &lender, &lender, &borrower);
    assert_eq!(r.unwrap_err(), LoanError::TransferFailed);
    assert_eq!(ledger.balance_of(&lender), Some(10));
    assert_eq!(ledger.balance_of(&borrower), Some(0));
    assert!(!ledger.get_loan(&addr.address).unwrap().is_funded);
}
