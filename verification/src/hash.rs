//! FNV-1a 64-bit hash used for cheap, deterministic identifiers and
//! non-cryptographic content digests.

use vstd::prelude::*;

verus! {

/// FNV-1a 64-bit offset basis.
pub const FNV_OFFSET: u64 = 0xcbf2_9ce4_8422_2325;

/// FNV-1a 64-bit prime.
pub const FNV_PRIME: u64 = 0x0000_0100_0000_01b3;

/// The FNV-1a 64-bit hash of a byte sequence: starting from the offset
/// basis, each byte is XOR-ed in and the state is multiplied by the prime
/// modulo 2^64.
pub open spec fn fnv1a64_spec(bytes: Seq<u8>) -> u64
    decreases bytes.len(),
{
    if bytes.len() == 0 {
        FNV_OFFSET
    } else {
        let prev = fnv1a64_spec(bytes.drop_last());
        (prev ^ (bytes.last() as u64)).wrapping_mul(FNV_PRIME)
    }
}

/// FNV-1a 64-bit hash. Not suitable for security purposes.
pub fn fnv1a64(bytes: &[u8]) -> (hash: u64)
    ensures
        hash == fnv1a64_spec(bytes@),
{
    let mut hash: u64 = FNV_OFFSET;
    let mut i: usize = 0;
    while i < bytes.len()
        invariant
            i <= bytes@.len(),
            hash == fnv1a64_spec(bytes@.subrange(0, i as int)),
        decreases bytes@.len() - i,
    {
        assert(bytes@.subrange(0, i as int + 1).drop_last() =~= bytes@.subrange(0, i as int));
        hash = (hash ^ (bytes[i] as u64)).wrapping_mul(FNV_PRIME);
        i = i + 1;
    }
    assert(bytes@.subrange(0, bytes@.len() as int) =~= bytes@);
    hash
}

} // verus!
