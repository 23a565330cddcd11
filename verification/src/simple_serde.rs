//! Fixed-size records that are stored in byte buffers field by field.

use vstd::prelude::*;
use crate::bytes::overwrite;
use crate::error::TokenError;

verus! {

/// A record with a fixed-size byte form. The form is written over the front of
/// a buffer and read back from the front of a buffer; neither operation ever
/// looks at, or touches, what lies behind it.
pub trait SimpleSerde: Clone + Sized {
    /// Number of bytes that the byte form takes.
    spec fn spec_size() -> nat;

    /// The byte form of this record.
    spec fn spec_encode(&self) -> Seq<u8>;

    /// The record that `bytes` stands for, where `bytes` has the length of a
    /// byte form, or the error with which it is rejected.
    spec fn spec_decode(bytes: Seq<u8>) -> Result<Self, TokenError>;

    /// Every byte form has the same length.
    proof fn lemma_encoded_size(&self)
        ensures
            self.spec_encode().len() == Self::spec_size(),
    ;

    /// Decoding a byte form gives back the record that was encoded.
    proof fn lemma_round_trip(&self)
        ensures
            Self::spec_decode(self.spec_encode()) == Ok::<Self, TokenError>(*self),
    ;

    /// Reads a record from the front of `input`. A buffer that is too short is
    /// rejected with `InvalidUserdata`.
    fn deserialize(input: &[u8]) -> (outcome: Result<Self, TokenError>)
        ensures
            input@.len() < Self::spec_size() ==> outcome == Err::<Self, TokenError>(
                TokenError::InvalidUserdata,
            ),
            input@.len() >= Self::spec_size() ==> outcome == Self::spec_decode(
                input@.subrange(0, Self::spec_size() as int),
            ),
    ;

    /// Writes this record over the front of `output`. A buffer that is too
    /// short is rejected with `InvalidUserdata` and left as it was.
    fn serialize(&self, output: &mut [u8]) -> (outcome: Result<(), TokenError>)
        ensures
            old(output)@.len() >= Self::spec_size() ==> outcome.is_ok() && final(output)@
                == overwrite(old(output)@, 0, self.spec_encode()),
            old(output)@.len() < Self::spec_size() ==> outcome == Err::<(), TokenError>(
                TokenError::InvalidUserdata,
            ) && final(output)@ == old(output)@,
    ;
}

/// What reading a record of type `T` from the front of `input` gives.
pub open spec fn deserialized<T: SimpleSerde>(input: Seq<u8>) -> Result<T, TokenError> {
    if input.len() < T::spec_size() {
        Err(TokenError::InvalidUserdata)
    } else {
        T::spec_decode(input.subrange(0, T::spec_size() as int))
    }
}

/// A record that was written over the front of a buffer is read back from it.
pub proof fn lemma_serialize_then_deserialize<T: SimpleSerde>(record: T, buffer: Seq<u8>)
    requires
        buffer.len() >= T::spec_size(),
    ensures
        deserialized::<T>(overwrite(buffer, 0, record.spec_encode())) == Ok::<T, TokenError>(
            record,
        ),
{
    record.lemma_encoded_size();
    record.lemma_round_trip();
    let written = overwrite(buffer, 0, record.spec_encode());
    assert(written.subrange(0, T::spec_size() as int) =~= record.spec_encode());
}

} // verus!
