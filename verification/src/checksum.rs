//! The fixed non-cryptographic 32-bit hash used for payload checksums and
//! key-hash partitioning: FNV-1a over the raw bytes.

use vstd::prelude::*;
use vstd::slice::slice_index_get;

verus! {

/// One FNV-1a step: fold a byte into the running hash.
pub open spec fn fnv1a_step(h: u32, b: u8) -> u32 {
    vstd::wrapping::u32_specs::wrapping_mul(h ^ (b as u32), 16777619u32)
}

/// The FNV-1a hash of a byte sequence, from the standard offset basis.
pub open spec fn fnv1a(s: Seq<u8>) -> u32
    decreases s.len(),
{
    if s.len() == 0 {
        2166136261u32
    } else {
        fnv1a_step(fnv1a(s.drop_last()), s.last())
    }
}

/// Computes the FNV-1a hash of a byte slice.
pub fn hash32(bytes: &[u8]) -> (r: u32)
    ensures
        r == fnv1a(bytes@),
{
    let mut h: u32 = 2166136261;
    let n = bytes.len();
    let mut i: usize = 0;
    while i < n
        invariant
            i <= n,
            n == bytes@.len(),
            h == fnv1a(bytes@.take(i as int)),
        decreases n - i,
    {
        let b = *slice_index_get(bytes, i);
        proof {
            assert(bytes@.take(i + 1).drop_last() =~= bytes@.take(i as int));
            assert(bytes@.take(i + 1).last() == bytes@[i as int]);
        }
        h = (h ^ (b as u32)).wrapping_mul(16777619);
        i = i + 1;
    }
    proof {
        assert(bytes@.take(n as int) =~= bytes@);
    }
    h
}

} // verus!
