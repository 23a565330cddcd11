//! Account identities.

use vstd::prelude::*;
use crate::bytes::{overwrite, write_bytes};

verus! {

/// An opaque 32-byte value that names an account. Two identities are the
/// same exactly when their bytes are.
#[derive(Clone, Copy, Debug, Eq, Hash)]
pub struct Pubkey(pub [u8; 32]);

impl View for Pubkey {
    type V = Seq<u8>;

    open spec fn view(&self) -> Seq<u8> {
        self.0@
    }
}

impl Pubkey {
    /// The identity whose bytes are `bytes`, for a sequence of 32 bytes.
    pub open spec fn spec_new(bytes: Seq<u8>) -> Pubkey {
        Pubkey(choose|a: [u8; 32]| a@ == bytes)
    }

    /// Every sequence of 32 bytes is the bytes of an identity, which
    /// `spec_new` gives.
    pub proof fn lemma_spec_new_bytes(bytes: Seq<u8>)
        requires
            bytes.len() == 32,
        ensures
            Pubkey::spec_new(bytes)@ == bytes,
    {
        lemma_filled(bytes, 32);
        assert(filled(bytes, 32)@ =~= bytes);
    }

    /// An identity is determined by its bytes.
    pub proof fn lemma_view_injective(self, other: Pubkey)
        ensures
            self@.len() == 32,
            self@ == other@ <==> self == other,
    {
        if self@ == other@ {
            assert(self.0 =~= other.0);
        }
    }

    /// Reading back the bytes of an identity gives that identity.
    pub proof fn lemma_spec_new_view(self)
        ensures
            Pubkey::spec_new(self@) == self,
    {
        let a = choose|a: [u8; 32]| a@ == self@;
        assert(self.0@ == self@);
        assert(a@ == self@);
        assert(a =~= self.0);
    }

    /// Builds an identity from a slice of exactly 32 bytes.
    pub fn new(bytes: &[u8]) -> (key: Pubkey)
        requires
            bytes.len() == 32,
        ensures
            key@ == bytes@,
            key == Pubkey::spec_new(bytes@),
    {
        let key = Pubkey::read(bytes, 0);
        proof {
            assert(bytes@.subrange(0, 32) =~= bytes@);
        }
        key
    }

    /// Reads the identity stored in the 32 bytes of `input` that start at `at`.
    pub fn read(input: &[u8], at: usize) -> (key: Pubkey)
        requires
            at + 32 <= input.len(),
        ensures
            key@ == input@.subrange(at as int, at + 32),
            key == Pubkey::spec_new(input@.subrange(at as int, at + 32)),
    {
        let mut raw = [0u8; 32];
        let mut i: usize = 0;
        while i < 32
            invariant
                i <= 32,
                at + 32 <= input.len(),
                forall|j: int| 0 <= j < i ==> raw@[j] == input@[at + j],
            decreases 32 - i,
        {
            raw[i] = input[at + i];
            i += 1;
        }
        let key = Pubkey(raw);
        proof {
            assert(key@ =~= input@.subrange(at as int, at + 32));
            key.lemma_spec_new_view();
        }
        key
    }

    /// Writes this identity into the 32 bytes of `output` that start at `at`.
    pub fn write(&self, output: &mut [u8], at: usize)
        requires
            at + 32 <= old(output).len(),
        ensures
            final(output)@ == overwrite(old(output)@, at as int, self@),
    {
        write_bytes(output, at, self.0.as_slice());
    }

    /// The 32 bytes of this identity.
    pub fn to_bytes(self) -> (bytes: [u8; 32])
        ensures
            bytes@ == self@,
    {
        self.0
    }
}

/// An array whose first `count` bytes are those of `bytes`.
spec fn filled(bytes: Seq<u8>, count: nat) -> [u8; 32]
    decreases count,
{
    if count == 0 {
        vstd::array::spec_array_fill_for_copy_type::<u8, 32>(0u8)
    } else {
        vstd::array::spec_array_update(
            filled(bytes, (count - 1) as nat),
            count - 1,
            bytes[count - 1],
        )
    }
}

proof fn lemma_filled(bytes: Seq<u8>, count: nat)
    requires
        count <= 32,
    ensures
        filled(bytes, count)@.len() == 32,
        forall|i: int| 0 <= i < count ==> filled(bytes, count)@[i] == bytes[i],
    decreases count,
{
    if count > 0 {
        lemma_filled(bytes, (count - 1) as nat);
    }
}

impl Default for Pubkey {
    fn default() -> (key: Pubkey)
        ensures
            key@ == Seq::new(32, |i: int| 0u8),
    {
        let raw = [0u8; 32];
        let key = Pubkey(raw);
        proof {
            assert(raw == vstd::array::spec_array_fill_for_copy_type::<u8, 32>(0u8));
            assert(key@ =~= Seq::new(32, |i: int| 0u8));
        }
        key
    }
}

impl PartialEq for Pubkey {
    fn eq(&self, other: &Pubkey) -> (same: bool) {
        let mut i: usize = 0;
        while i < 32
            invariant
                i <= 32,
                forall|j: int| 0 <= j < i ==> self.0@[j] == other.0@[j],
            decreases 32 - i,
        {
            if self.0[i] != other.0[i] {
                return false;
            }
            i += 1;
        }
        proof {
            assert(self.0 =~= other.0);
        }
        true
    }
}

impl vstd::std_specs::cmp::PartialEqSpecImpl for Pubkey {
    open spec fn obeys_eq_spec() -> bool {
        true
    }

    open spec fn eq_spec(&self, other: &Pubkey) -> bool {
        *self == *other
    }
}

} // verus!
