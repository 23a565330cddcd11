//! Fixed-width fields inside byte buffers: what it means to overwrite part of
//! a buffer, and the little-endian form of a `u64`.

use vstd::prelude::*;

verus! {

/// The buffer `buffer` after `bytes` has been written over it from position
/// `at` on. Everything before `at` and everything behind the written bytes
/// stays as it was.
pub open spec fn overwrite(buffer: Seq<u8>, at: int, bytes: Seq<u8>) -> Seq<u8>
    recommends
        0 <= at,
        at + bytes.len() <= buffer.len(),
{
    Seq::new(
        buffer.len(),
        |i: int|
            if at <= i < at + bytes.len() {
                bytes[i - at]
            } else {
                buffer[i]
            },
    )
}

/// Writing `first` and then `second` directly behind it is writing their
/// concatenation.
pub proof fn lemma_overwrite_adjacent(buffer: Seq<u8>, at: int, first: Seq<u8>, second: Seq<u8>)
    requires
        0 <= at,
        at + first.len() + second.len() <= buffer.len(),
    ensures
        overwrite(overwrite(buffer, at, first), at + first.len(), second) == overwrite(
            buffer,
            at,
            first + second,
        ),
{
    assert(overwrite(overwrite(buffer, at, first), at + first.len(), second) =~= overwrite(
        buffer,
        at,
        first + second,
    ));
}

/// What was written can be read back from where it was written, and the
/// length of the buffer does not change.
pub proof fn lemma_overwrite_reads_back(buffer: Seq<u8>, at: int, bytes: Seq<u8>)
    requires
        0 <= at,
        at + bytes.len() <= buffer.len(),
    ensures
        overwrite(buffer, at, bytes).len() == buffer.len(),
        overwrite(buffer, at, bytes).subrange(at, at + bytes.len()) == bytes,
{
    assert(overwrite(buffer, at, bytes).subrange(at, at + bytes.len()) =~= bytes);
}

/// The number that eight bytes stand for, least significant byte first.
pub open spec fn u64_from_le(bytes: Seq<u8>) -> int
    recommends
        bytes.len() == 8,
{
    bytes[0] + 256 * (bytes[1] + 256 * (bytes[2] + 256 * (bytes[3] + 256 * (bytes[4] + 256 * (
    bytes[5] + 256 * (bytes[6] + 256 * bytes[7]))))))
}

/// The `k`-th byte of `value`, counted from the least significant one.
pub open spec fn le_byte(value: u64, k: nat) -> u8
    decreases k,
{
    if k == 0 {
        (value % 256) as u8
    } else {
        le_byte(value / 256, (k - 1) as nat)
    }
}

/// The eight bytes of `value`, least significant byte first.
pub open spec fn u64_to_le(value: u64) -> Seq<u8> {
    Seq::new(8, |k: int| le_byte(value, k as nat))
}

/// Eight bytes always stand for a number that fits a `u64`, and encoding a
/// `u64` and reading the bytes back gives the same number.
pub proof fn lemma_u64_le_round_trip(value: u64)
    ensures
        u64_to_le(value).len() == 8,
        u64_from_le(u64_to_le(value)) == value,
{
    reveal_with_fuel(le_byte, 9);
    let b = u64_to_le(value);
    let v0: u64 = value;
    let v1: u64 = v0 / 256;
    let v2: u64 = v1 / 256;
    let v3: u64 = v2 / 256;
    let v4: u64 = v3 / 256;
    let v5: u64 = v4 / 256;
    let v6: u64 = v5 / 256;
    let v7: u64 = v6 / 256;
    assert(b[0] == v0 % 256);
    assert(b[1] == v1 % 256);
    assert(b[2] == v2 % 256);
    assert(b[3] == v3 % 256);
    assert(b[4] == v4 % 256);
    assert(b[5] == v5 % 256);
    assert(b[6] == v6 % 256);
    assert(b[7] == v7 % 256);
    assert(v7 < 256);
}

/// The number that eight bytes stand for fits a `u64`.
pub proof fn lemma_u64_from_le_bound(bytes: Seq<u8>)
    requires
        bytes.len() == 8,
    ensures
        0 <= u64_from_le(bytes) <= u64::MAX,
{
}

/// Every sequence of eight bytes is the encoding of the number it stands for.
pub proof fn lemma_u64_le_bytes_round_trip(bytes: Seq<u8>)
    requires
        bytes.len() == 8,
    ensures
        u64_to_le(u64_from_le(bytes) as u64) == bytes,
{
    reveal_with_fuel(le_byte, 9);
    lemma_u64_from_le_bound(bytes);
    let v0: u64 = u64_from_le(bytes) as u64;
    let v1: u64 = v0 / 256;
    let v2: u64 = v1 / 256;
    let v3: u64 = v2 / 256;
    let v4: u64 = v3 / 256;
    let v5: u64 = v4 / 256;
    let v6: u64 = v5 / 256;
    let v7: u64 = v6 / 256;
    assert(v0 % 256 == bytes[0]);
    assert(v1 % 256 == bytes[1]);
    assert(v2 % 256 == bytes[2]);
    assert(v3 % 256 == bytes[3]);
    assert(v4 % 256 == bytes[4]);
    assert(v5 % 256 == bytes[5]);
    assert(v6 % 256 == bytes[6]);
    assert(v7 % 256 == bytes[7]);
    assert(u64_to_le(v0) =~= bytes);
}

/// Reads the `u64` stored in the eight bytes of `input` that start at `at`.
pub fn read_u64(input: &[u8], at: usize) -> (value: u64)
    requires
        at + 8 <= input.len(),
    ensures
        value == u64_from_le(input@.subrange(at as int, at + 8)),
{
    let mut value: u64 = 0;
    let mut k: usize = 8;
    let ghost bytes = input@.subrange(at as int, at + 8);
    while k > 0
        invariant
            k <= 8,
            at + 8 <= input.len(),
            bytes == input@.subrange(at as int, at + 8),
            k == 8 ==> value == 0,
            k == 7 ==> value == bytes[7],
            k == 6 ==> value == bytes[6] + 256 * bytes[7],
            k == 5 ==> value == bytes[5] + 256 * (bytes[6] + 256 * bytes[7]),
            k == 4 ==> value == bytes[4] + 256 * (bytes[5] + 256 * (bytes[6] + 256 * bytes[7])),
            k == 3 ==> value == bytes[3] + 256 * (bytes[4] + 256 * (bytes[5] + 256 * (bytes[6] + 256
                * bytes[7]))),
            k == 2 ==> value == bytes[2] + 256 * (bytes[3] + 256 * (bytes[4] + 256 * (bytes[5] + 256
                * (bytes[6] + 256 * bytes[7])))),
            k == 1 ==> value == bytes[1] + 256 * (bytes[2] + 256 * (bytes[3] + 256 * (bytes[4] + 256
                * (bytes[5] + 256 * (bytes[6] + 256 * bytes[7]))))),
            k == 0 ==> value == u64_from_le(bytes),
        decreases k,
    {
        k -= 1;
        let byte: u8 = input[at + k];
        assert(byte == bytes[k as int]);
        value = value * 256 + byte as u64;
    }
    value
}

/// Writes `value` into the eight bytes of `output` that start at `at`.
pub fn write_u64(output: &mut [u8], at: usize, value: u64)
    requires
        at + 8 <= old(output).len(),
    ensures
        final(output)@ == overwrite(old(output)@, at as int, u64_to_le(value)),
{
    let mut rest: u64 = value;
    let mut k: usize = 0;
    while k < 8
        invariant
            k <= 8,
            output.len() == old(output).len(),
            at + 8 <= output.len(),
            forall|i: int|
                0 <= i < output.len() && !(at <= i < at + k) ==> output@[i] == old(output)@[i],
            forall|i: int| at <= i < at + k ==> output@[i] == le_byte(value, (i - at) as nat),
            forall|j: nat|
                #![trigger le_byte(rest, j)]
                le_byte(rest, j) == le_byte(value, j + k as nat),
        decreases 8 - k,
    {
        output[at + k] = (rest % 256) as u8;
        proof {
            assert(le_byte(rest, 0) == le_byte(value, k as nat));
            assert forall|j: nat|
                #![trigger le_byte(rest / 256, j)]
                le_byte(rest / 256, j) == le_byte(value, j + k as nat + 1) by {
                assert(le_byte(rest, j + 1) == le_byte(rest / 256, j));
            }
        }
        rest = rest / 256;
        k += 1;
    }
    proof {
        assert(output@ =~= overwrite(old(output)@, at as int, u64_to_le(value)));
    }
}

/// Copies `source` over the bytes of `output` that start at `at`.
pub fn write_bytes(output: &mut [u8], at: usize, source: &[u8])
    requires
        at + source.len() <= old(output).len(),
    ensures
        final(output)@ == overwrite(old(output)@, at as int, source@),
{
    let mut k: usize = 0;
    while k < source.len()
        invariant
            k <= source.len(),
            output.len() == old(output).len(),
            at + source.len() <= output.len(),
            forall|i: int|
                0 <= i < output.len() && !(at <= i < at + k) ==> output@[i] == old(output)@[i],
            forall|i: int| at <= i < at + k ==> output@[i] == source@[i - at],
        decreases source.len() - k,
    {
        output[at + k] = source[k];
        k += 1;
    }
    proof {
        assert(output@ =~= overwrite(old(output)@, at as int, source@));
    }
}

} // verus!
