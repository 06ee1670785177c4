use crate::bytes::put_slice;
use vstd::prelude::*;

verus! {

/// A nested tagged value of the `nbt` crate. Its contents are not visible to
/// the verifier.
#[verifier::external_type_specification]
#[verifier::external_body]
pub struct ExValue(nbt::Value);

/// The error type of the `nbt` crate.
#[verifier::external_type_specification]
#[verifier::external_body]
pub struct ExError(nbt::Error);

/// Why a structured value could not be written.
#[derive(Debug, Clone, Copy, PartialEq, Eq, Structural)]
pub enum StructuredError {
    /// The value has no binary form, as a list of mixed element types has
    /// none.
    Unrepresentable,
}

/// Calls `nbt::Value::to_writer` on an empty buffer and hands the buffer
/// back: the payload of the value, without a tag byte or a name in front.
///
/// Nothing is claimed of the bytes: a compound is written in the order in
/// which its map is walked, which is not fixed. The call fails on a list
/// whose elements differ in type.
#[verifier::external_body]
fn value_payload(value: &nbt::Value) -> (r: Result<Vec<u8>, nbt::Error>) {
    let mut payload = Vec::new();
    value.to_writer(&mut payload)?;
    Ok(payload)
}

/// Appends the binary payload of `value`, as the `nbt` crate writes it, to
/// `writer` and returns the number of bytes written. Where the value cannot
/// be written, `writer` is left as it was.
pub(crate) fn write_to(
    writer: &mut Vec<u8>,
    value: &nbt::Value,
) -> (r: Result<usize, StructuredError>)
    ensures
        r matches Ok(count) ==> final(writer)@.len() == old(writer)@.len() + count
            && final(writer)@.take(old(writer)@.len() as int) == old(writer)@,
        r is Err ==> final(writer)@ == old(writer)@,
{
    let outcome = value_payload(value);
    let r = append_outcome(writer, outcome);
    assert(writer@.take(old(writer)@.len() as int) =~= old(writer)@);
    r
}

/// Finishes a write with what the `nbt` crate handed back for a value: a
/// payload is appended whole to `writer` and its bytes are counted, and a
/// failure leaves `writer` as it was.
pub fn append_outcome(
    writer: &mut Vec<u8>,
    outcome: Result<Vec<u8>, nbt::Error>,
) -> (r: Result<usize, StructuredError>)
    ensures
        match outcome {
            Ok(payload) => r is Ok && r->Ok_0 == payload@.len()
                && final(writer)@ == old(writer)@ + payload@,
            Err(_) => r == Err::<usize, StructuredError>(StructuredError::Unrepresentable)
                && final(writer)@ == old(writer)@,
        },
{
    match outcome {
        Ok(payload) => {
            put_slice(writer, payload.as_slice());
            Ok(payload.len())
        },
        Err(_) => Err(StructuredError::Unrepresentable),
    }
}

} // verus!
