//! Content fingerprints of submissions: 64-bit FNV-1a over the exact bytes.
use vstd::prelude::*;
use vstd::arithmetic::div_mod::{lemma_mul_mod_noop_left, lemma_mod_multiples_vanish, lemma_small_mod};
use vstd::arithmetic::mul::lemma_mul_is_associative;

verus! {

/// The FNV-1a 64-bit offset basis.
pub const FNV_OFFSET: u64 = 0xcbf29ce484222325;

/// The FNV-1a 64-bit prime.
pub const FNV_PRIME: u64 = 0x100000001b3;

/// The inverse of `FNV_PRIME` modulo 2^64.
const FNV_PRIME_INVERSE: u64 = 0xce965057aff6957b;

/// One FNV-1a step: mix a byte into the running state.
pub open spec fn mix(h: u64, b: u8) -> u64 {
    (h ^ (b as u64)).wrapping_mul(FNV_PRIME)
}

/// The fingerprint of a byte sequence.
pub open spec fn fingerprint_of(content: Seq<u8>) -> u64
    decreases content.len(),
{
    if content.len() == 0 {
        FNV_OFFSET
    } else {
        mix(fingerprint_of(content.drop_last()), content.last())
    }
}

/// Multiplying by the (odd) prime modulo 2^64 loses nothing.
proof fn lemma_prime_mul_injective(x: u64, y: u64)
    requires
        x.wrapping_mul(FNV_PRIME) == y.wrapping_mul(FNV_PRIME),
    ensures
        x == y,
{
    let m: int = 0x10000000000000000;
    let p: int = FNV_PRIME as int;
    let q: int = FNV_PRIME_INVERSE as int;
    let k: int = 887285111055;
    assert(p * q == k * m + 1);
    assert forall|z: u64| ((z.wrapping_mul(FNV_PRIME) as int) * q) % m == z as int by {
        let zi = z as int;
        lemma_mul_mod_noop_left(zi * p, q, m);
        lemma_mul_is_associative(zi, p, q);
        assert(zi * (k * m + 1) == m * (zi * k) + zi) by (nonlinear_arith);
        lemma_mod_multiples_vanish(zi * k, zi, m);
        lemma_small_mod(z as nat, m as nat);
    }
    assert(((x.wrapping_mul(FNV_PRIME) as int) * q) % m == x as int);
    assert(((y.wrapping_mul(FNV_PRIME) as int) * q) % m == y as int);
}

/// A step fed the same byte from two different states ends in two different states.
proof fn lemma_mix_injective_state(h1: u64, h2: u64, b: u8)
    requires
        h1 != h2,
    ensures
        mix(h1, b) != mix(h2, b),
{
    let bb = b as u64;
    assert((h1 ^ bb) != (h2 ^ bb)) by (bit_vector)
        requires
            h1 != h2,
    ;
    if mix(h1, b) == mix(h2, b) {
        lemma_prime_mul_injective(h1 ^ bb, h2 ^ bb);
    }
}

/// A step from one state fed two different bytes ends in two different states.
proof fn lemma_mix_injective_byte(h: u64, a: u8, b: u8)
    requires
        a != b,
    ensures
        mix(h, a) != mix(h, b),
{
    let aa = a as u64;
    let bb = b as u64;
    assert(aa != bb);
    assert((h ^ aa) != (h ^ bb)) by (bit_vector)
        requires
            aa != bb,
    ;
    if mix(h, a) == mix(h, b) {
        lemma_prime_mul_injective(h ^ aa, h ^ bb);
    }
}

/// The fingerprint depends on the bytes alone: equal contents, wherever they
/// were read from, have equal fingerprints.
pub proof fn lemma_same_content_same_fingerprint(a: Seq<u8>, b: Seq<u8>)
    requires
        a == b,
    ensures
        fingerprint_of(a) == fingerprint_of(b),
{
}

/// Two contents of the same length that differ in exactly one byte have
/// different fingerprints.
pub proof fn lemma_one_byte_changes_fingerprint(a: Seq<u8>, b: Seq<u8>, k: int)
    requires
        a.len() == b.len(),
        0 <= k < a.len(),
        a[k] != b[k],
        forall|i: int| 0 <= i < a.len() && i != k ==> a[i] == b[i],
    ensures
        fingerprint_of(a) != fingerprint_of(b),
    decreases a.len(),
{
    let n = a.len() - 1;
    if k == n {
        assert(a.drop_last() =~= b.drop_last());
        lemma_mix_injective_byte(fingerprint_of(a.drop_last()), a.last(), b.last());
    } else {
        lemma_one_byte_changes_fingerprint(a.drop_last(), b.drop_last(), k);
        assert(a.last() == b.last());
        lemma_mix_injective_state(fingerprint_of(a.drop_last()), fingerprint_of(b.drop_last()), a.last());
    }
}

/// The fingerprint of a submission's content.
pub fn fingerprint(content: &[u8]) -> (r: u64)
    ensures
        r == fingerprint_of(content@),
{
    let mut h: u64 = FNV_OFFSET;
    let mut i: usize = 0;
    while i < content.len()
        invariant
            i <= content@.len(),
            h == fingerprint_of(content@.subrange(0, i as int)),
        decreases content@.len() - i,
    {
        proof {
            assert(content@.subrange(0, i + 1).drop_last() =~= content@.subrange(0, i as int));
        }
        h = (h ^ (content[i] as u64)).wrapping_mul(FNV_PRIME);
        i = i + 1;
    }
    assert(content@.subrange(0, content@.len() as int) =~= content@);
    h
}

} // verus!
