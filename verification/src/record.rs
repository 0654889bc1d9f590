use vstd::prelude::*;

verus! {

#[verifier::external_type_specification]
#[verifier::external_body]
pub struct ExByteRecord(csv::ByteRecord);

/// The fields of a byte record, as a sequence of byte strings.
pub uninterp spec fn record_cells(r: csv::ByteRecord) -> Seq<Seq<u8>>;

/// Relies on csv::ByteRecord::len: returns the number of fields in the record.
#[verifier::external_body]
pub fn record_len(r: &csv::ByteRecord) -> (n: usize)
    ensures
        n == record_cells(*r).len(),
{
    r.len()
}

/// Relies on csv::ByteRecord::get: returns the field at the index, or None
/// when the index is out of range.
#[verifier::external_body]
pub fn record_get<'a>(r: &'a csv::ByteRecord, i: usize) -> (f: Option<&'a [u8]>)
    ensures
        match f {
            Some(b) => i < record_cells(*r).len() && b@ == record_cells(*r)[i as int],
            None => i >= record_cells(*r).len(),
        },
{
    r.get(i)
}

/// Relies on csv::ByteRecord::new: returns a record with no fields.
#[verifier::external_body]
pub fn record_new() -> (r: csv::ByteRecord)
    ensures
        record_cells(r) == Seq::<Seq<u8>>::empty(),
{
    csv::ByteRecord::new()
}

/// Relies on csv::ByteRecord::push_field: appends one field to the record.
#[verifier::external_body]
pub fn record_push(r: &mut csv::ByteRecord, field: &[u8])
    ensures
        record_cells(*final(r)) == record_cells(*old(r)).push(field@),
{
    r.push_field(field)
}

/// Relies on the derived Clone impl of csv::ByteRecord: returns a record with
/// the same fields.
#[verifier::external_body]
pub fn record_clone(r: &csv::ByteRecord) -> (c: csv::ByteRecord)
    ensures
        record_cells(c) == record_cells(*r),
{
    r.clone()
}

} // verus!
