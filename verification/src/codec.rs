//! The persisted layout of a loan record: a fixed-size, versionable row of
//! 104 bytes — an 8-byte record-type tag, the two 32-byte identities, the
//! little-endian amounts and times, and one byte per flag — with encoding
//! and decoding proved inverse to each other.

use vstd::prelude::*;
use vstd::bytes::*;
use crate::identity::Identity;
use crate::record::LoanAccount;

verus! {

/// The record-type tag opening every encoded loan record: the bytes of
/// `"loanacct"`.
pub open spec fn record_tag_spec() -> Seq<u8> {
    seq![108u8, 111u8, 97u8, 110u8, 97u8, 99u8, 99u8, 116u8]
}

/// The encoded form of a record: tag, lender, borrower, principal, rate,
/// repaid total, start time, duration, and the two flags, in that order.
pub open spec fn encoded(rec: LoanAccount) -> Seq<u8> {
    record_tag_spec() + rec.lender@ + rec.borrower@ + spec_u64_to_le_bytes(rec.principal)
        + spec_u16_to_le_bytes(rec.rate) + spec_u64_to_le_bytes(rec.paid_amount)
        + spec_u64_to_le_bytes(rec.start_time) + spec_u32_to_le_bytes(rec.duration) + seq![
        (if rec.is_active {
            1u8
        } else {
            0u8
        }),
    ] + seq![
        (if rec.is_funded {
            1u8
        } else {
            0u8
        }),
    ]
}

/// A byte row that decoding accepts: right length, right tag, and each
/// flag byte is 0 or 1.
pub open spec fn valid_encoding(b: Seq<u8>) -> bool {
    &&& b.len() == 104
    &&& b.subrange(0, 8) == record_tag_spec()
    &&& (b[102] == 0 || b[102] == 1)
    &&& (b[103] == 0 || b[103] == 1)
}

/// The record `rec` is what the byte row `b` holds, field by field.
pub open spec fn decodes_to(b: Seq<u8>, rec: LoanAccount) -> bool {
    &&& rec.lender@ == b.subrange(8, 40)
    &&& rec.borrower@ == b.subrange(40, 72)
    &&& rec.principal == spec_u64_from_le_bytes(b.subrange(72, 80))
    &&& rec.rate == spec_u16_from_le_bytes(b.subrange(80, 82))
    &&& rec.paid_amount == spec_u64_from_le_bytes(b.subrange(82, 90))
    &&& rec.start_time == spec_u64_from_le_bytes(b.subrange(90, 98))
    &&& rec.duration == spec_u32_from_le_bytes(b.subrange(98, 102))
    &&& rec.is_active == (b[102] == 1)
    &&& rec.is_funded == (b[103] == 1)
}

/// The record-type tag as stored bytes.
fn record_tag() -> (r: Vec<u8>)
    ensures
        r@ == record_tag_spec(),
{
    let mut v: Vec<u8> = Vec::new();
    v.push(108);
    v.push(111);
    v.push(97);
    v.push(110);
    v.push(97);
    v.push(99);
    v.push(99);
    v.push(116);
    proof {
        assert(v@ =~= record_tag_spec());
    }
    v
}

/// Encode `rec` into its fixed 104-byte persisted row.
pub fn encode_record(rec: &LoanAccount) -> (r: Vec<u8>)
    ensures
        r@ == encoded(*rec),
{
    let mut v = record_tag();
    v.extend_from_slice(rec.lender.bytes.as_slice());
    v.extend_from_slice(rec.borrower.bytes.as_slice());
    let mut principal = u64_to_le_bytes(rec.principal);
    v.append(&mut principal);
    let mut rate = u16_to_le_bytes(rec.rate);
    v.append(&mut rate);
    let mut paid = u64_to_le_bytes(rec.paid_amount);
    v.append(&mut paid);
    let mut start = u64_to_le_bytes(rec.start_time);
    v.append(&mut start);
    let mut duration = u32_to_le_bytes(rec.duration);
    v.append(&mut duration);
    v.push(if rec.is_active { 1 } else { 0 });
    v.push(if rec.is_funded { 1 } else { 0 });
    proof {
        assert(v@ =~= encoded(*rec));
    }
    v
}

fn read_identity(bytes: &Vec<u8>, off: usize) -> (r: Identity)
    requires
        off + 32 <= bytes@.len(),
    ensures
        r@ == bytes@.subrange(off as int, off as int + 32),
{
    let n = bytes.len();
    let mut arr = [0u8; 32];
    let mut i: usize = 0;
    while i < 32
        invariant
            i <= 32,
            n == bytes@.len(),
            off + 32 <= n,
            forall|j: int| 0 <= j < i ==> arr@[j] == bytes@[off + j],
        decreases 32 - i,
    {
        arr[i] = bytes[off + i];
        i += 1;
    }
    proof {
        assert(arr@ =~= bytes@.subrange(off as int, off as int + 32));
    }
    Identity { bytes: arr }
}

fn read_chunk(bytes: &Vec<u8>, off: usize, len: usize) -> (r: Vec<u8>)
    requires
        off + len <= bytes@.len(),
    ensures
        r@ == bytes@.subrange(off as int, off as int + len),
{
    let n = bytes.len();
    let mut v: Vec<u8> = Vec::new();
    let mut i: usize = 0;
    while i < len
        invariant
            i <= len,
            n == bytes@.len(),
            off + len <= n,
            v@.len() == i,
            forall|j: int| 0 <= j < i ==> v@[j] == bytes@[off + j],
        decreases len - i,
    {
        v.push(bytes[off + i]);
        i += 1;
    }
    proof {
        assert(v@ =~= bytes@.subrange(off as int, off as int + len));
    }
    v
}

/// Decode a persisted row back into a record: `None` exactly on a row that
/// is not a valid encoding; on success every field is read back from its
/// place in the row.
pub fn decode_record(bytes: &Vec<u8>) -> (r: Option<LoanAccount>)
    ensures
        r is Some <==> valid_encoding(bytes@),
        (r matches Some(rec) ==> decodes_to(bytes@, rec)),
{
    if bytes.len() != 104 {
        return None;
    }
    let tag = record_tag();
    let mut i: usize = 0;
    while i < 8
        invariant
            i <= 8,
            bytes@.len() == 104,
            tag@ == record_tag_spec(),
            forall|j: int| 0 <= j < i ==> bytes@[j] == record_tag_spec()[j],
        decreases 8 - i,
    {
        if bytes[i] != tag[i] {
            proof {
                assert(bytes@.subrange(0, 8)[i as int] != record_tag_spec()[i as int]);
            }
            return None;
        }
        i += 1;
    }
    proof {
        assert(bytes@.subrange(0, 8) =~= record_tag_spec());
    }
    let active_byte = bytes[102];
    let funded_byte = bytes[103];
    if active_byte > 1 || funded_byte > 1 {
        return None;
    }
    let lender = read_identity(bytes, 8);
    let borrower = read_identity(bytes, 40);
    let principal_bytes = read_chunk(bytes, 72, 8);
    let rate_bytes = read_chunk(bytes, 80, 2);
    let paid_bytes = read_chunk(bytes, 82, 8);
    let start_bytes = read_chunk(bytes, 90, 8);
    let duration_bytes = read_chunk(bytes, 98, 4);
    Some(
        LoanAccount {
            lender: lender,
            borrower: borrower,
            principal: u64_from_le_bytes(principal_bytes.as_slice()),
            rate: u16_from_le_bytes(rate_bytes.as_slice()),
            paid_amount: u64_from_le_bytes(paid_bytes.as_slice()),
            start_time: u64_from_le_bytes(start_bytes.as_slice()),
            duration: u32_from_le_bytes(duration_bytes.as_slice()),
            is_active: active_byte == 1,
            is_funded: funded_byte == 1,
        },
    )
}

/// Encoding then decoding gives the record back, and gives back nothing
/// else: every record's row is a valid encoding, the row holds exactly the
/// record's fields, and no other record reads back from it.
pub proof fn lemma_encoded_decodes(rec: LoanAccount)
    ensures
        valid_encoding(encoded(rec)),
        decodes_to(encoded(rec), rec),
        forall|other: LoanAccount| decodes_to(encoded(rec), other) ==> other == rec,
{
    lemma_auto_spec_u64_to_from_le_bytes();
    lemma_auto_spec_u32_to_from_le_bytes();
    lemma_auto_spec_u16_to_from_le_bytes();
    let b = encoded(rec);
    assert(b.len() == 104);
    assert(b.subrange(0, 8) =~= record_tag_spec());
    assert(b.subrange(8, 40) =~= rec.lender@);
    assert(b.subrange(40, 72) =~= rec.borrower@);
    assert(b.subrange(72, 80) =~= spec_u64_to_le_bytes(rec.principal));
    assert(b.subrange(80, 82) =~= spec_u16_to_le_bytes(rec.rate));
    assert(b.subrange(82, 90) =~= spec_u64_to_le_bytes(rec.paid_amount));
    assert(b.subrange(90, 98) =~= spec_u64_to_le_bytes(rec.start_time));
    assert(b.subrange(98, 102) =~= spec_u32_to_le_bytes(rec.duration));
    assert(b[102] == (if rec.is_active { 1u8 } else { 0u8 }));
    assert(b[103] == (if rec.is_funded { 1u8 } else { 0u8 }));
    assert forall|other: LoanAccount| decodes_to(encoded(rec), other) implies other == rec by {
        assert(other.lender.bytes@ =~= rec.lender.bytes@);
        assert(other.lender.bytes =~= rec.lender.bytes);
        assert(other.borrower.bytes@ =~= rec.borrower.bytes@);
        assert(other.borrower.bytes =~= rec.borrower.bytes);
    }
}

} // verus!
