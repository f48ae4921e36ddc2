use sol_backend::codec::{decode_record, encode_record};
use sol_backend::identity::Identity;
use sol_backend::record::LoanAccount;

fn id(tag: u8) -> Identity {
    let mut bytes = [0u8; 32];
    bytes[5] = tag;
    Identity::new(bytes)
}

fn sample() -> LoanAccount {
    LoanAccount {
        lender: id(1),
        borrower: id(2),
        principal: 123_456_789_012,
        rate: 500,
        paid_amount: 456,
        start_time: 1_700_000_000,
        duration: 2_592_000,
        is_active: true,
        is_funded: false,
    }
}

#[test]
fn encode_then_decode_gives_the_record_back() {
    let rec = sample();
    let row = encode_record(&rec);
    assert_eq!(row.len(), 104);
    let back = decode_record(&row).expect("an encoded record decodes");
    assert_eq!(back.lender.bytes, rec.lender.bytes);
    assert_eq!(back.borrower.bytes, rec.borrower.bytes);
    assert_eq!(back.principal, rec.principal);
    assert_eq!(back.rate, rec.rate);
    assert_eq!(back.paid_amount, rec.paid_amount);
    assert_eq!(back.start_time, rec.start_time);
    assert_eq!(back.duration, rec.duration);
    assert_eq!(back.is_active, rec.is_active);
    assert_eq!(back.is_funded, rec.is_funded);
}

#[test]
fn amounts_are_little_endian_in_the_row() {
    let mut rec = sample();
    rec.principal = 0x0102_0304_0506_0708;
    let row = encode_record(&rec);
    assert_eq!(&row[72..80], &[8, 7, 6, 5, 4, 3, 2, 1]);
}

#[test]
fn decode_rejects_wrong_length() {
    let rec = sample();
    let mut row = encode_record(&rec);
    row.push(0);
    assert!(decode_record(&row).is_none());
    row.truncate(50);
    assert!(decode_record(&row).is_none());
}

#[test]
fn decode_rejects_wrong_tag() {
    let rec = sample();
    let mut row = encode_record(&rec);
    row[0] = row[0].wrapping_add(1);
    assert!(decode_record(&row).is_none());
}

#[test]
fn decode_rejects_bad_flag_bytes() {
    let rec = sample();
    let mut row = encode_record(&rec);
    row[102] = 2;
    assert!(decode_record(&row).is_none());
    row[102] = 0;
    row[103] = 255;
    assert!(decode_record(&row).is_none());
    row[103] = 1;
    let back = decode_record(&row).expect("restored flags decode");
    assert!(!back.is_active);
    assert!(back.is_funded);
}
