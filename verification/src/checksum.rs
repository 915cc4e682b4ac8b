//! The integrity value stored with a metadata payload: 64-bit FNV-1a.
//!
//! Starting from a fixed basis, every byte is folded into the running value
//! by an exclusive or followed by a multiplication with a fixed odd prime,
//! modulo 2^64. Both steps are one-to-one, so two payloads of the same
//! length that differ in a single byte never share a checksum.

use vstd::prelude::*;

verus! {

/// The value that the checksum of the empty sequence has.
pub const FNV_OFFSET_BASIS: u64 = 0xcbf2_9ce4_8422_2325;

/// The multiplier of each step.
pub const FNV_PRIME: u64 = 0x0000_0100_0000_01b3;

/// One step: folds `byte` into the running value `hash`.
pub open spec fn fnv_step(hash: u64, byte: u8) -> u64 {
    (((hash ^ (byte as u64)) as nat * FNV_PRIME as nat) % 0x1_0000_0000_0000_0000) as u64
}

/// The checksum of `bytes`: the steps for each byte in turn, from the basis.
pub open spec fn checksum_of(bytes: Seq<u8>) -> u64
    decreases bytes.len(),
{
    if bytes.len() == 0 {
        FNV_OFFSET_BASIS
    } else {
        fnv_step(checksum_of(bytes.drop_last()), bytes.last())
    }
}

/// Computes the checksum of `buf`.
pub fn fnv1a_64(buf: &[u8]) -> (sum: u64)
    ensures
        sum == checksum_of(buf@),
{
    let mut hash: u64 = FNV_OFFSET_BASIS;
    let mut i: usize = 0;
    while i < buf.len()
        invariant
            i <= buf.len(),
            hash == checksum_of(buf@.take(i as int)),
        decreases buf.len() - i,
    {
        proof {
            let next = buf@.take(i + 1);
            assert(next.drop_last() =~= buf@.take(i as int));
            assert(next.last() == buf@[i as int]);
        }
        hash = (hash ^ (buf[i] as u64)).wrapping_mul(FNV_PRIME);
        i += 1;
    }
    proof {
        assert(buf@.take(buf.len() as int) =~= buf@);
    }
    hash
}

/// Multiplying by the prime modulo 2^64 is one-to-one.
proof fn lemma_mul_prime_injective(x: u64, y: u64)
    requires
        (x as nat * FNV_PRIME as nat) % 0x1_0000_0000_0000_0000 == (y as nat * FNV_PRIME as nat)
            % 0x1_0000_0000_0000_0000,
    ensures
        x == y,
{
    let m: int = 0x1_0000_0000_0000_0000;
    let p: int = FNV_PRIME as int;
    // The inverse of the prime modulo 2^64, and the multiple of 2^64 by
    // which their product exceeds one.
    let q: int = 0xce96_5057_aff6_957b;
    let k: int = 0xce_9650_590f;
    assert(p * q == 1 + k * m);
    let a: int = x as int * p;
    let b: int = y as int * p;
    let d: int = x as int - y as int;
    assert(a == (a / m) * m + a % m && b == (b / m) * m + b % m) by (nonlinear_arith)
        requires
            m > 0,
    ;
    let j: int = a / m - b / m;
    assert(d * p == j * m) by (nonlinear_arith)
        requires
            a == x as int * p,
            b == y as int * p,
            d == x as int - y as int,
            a - b == (a / m) * m - (b / m) * m,
            j == a / m - b / m,
    ;
    let t: int = j * q - d * k;
    assert(d == t * m) by (nonlinear_arith)
        requires
            d * p == j * m,
            p * q == 1 + k * m,
            t == j * q - d * k,
    ;
    assert(t == 0) by (nonlinear_arith)
        requires
            d == t * m,
            -m < d < m,
            m > 0,
    ;
}

/// A step is one-to-one in the running value.
pub proof fn lemma_step_injective_in_hash(h1: u64, h2: u64, byte: u8)
    requires
        h1 != h2,
    ensures
        fnv_step(h1, byte) != fnv_step(h2, byte),
{
    let b = byte as u64;
    assert(h1 ^ b != h2 ^ b) by (bit_vector)
        requires
            h1 != h2,
    ;
    if fnv_step(h1, byte) == fnv_step(h2, byte) {
        lemma_mul_prime_injective(h1 ^ b, h2 ^ b);
    }
}

/// A step is one-to-one in the byte.
pub proof fn lemma_step_injective_in_byte(hash: u64, b1: u8, b2: u8)
    requires
        b1 != b2,
    ensures
        fnv_step(hash, b1) != fnv_step(hash, b2),
{
    let x1 = b1 as u64;
    let x2 = b2 as u64;
    assert(hash ^ x1 != hash ^ x2) by (bit_vector)
        requires
            x1 != x2,
    ;
    if fnv_step(hash, b1) == fnv_step(hash, b2) {
        lemma_mul_prime_injective(hash ^ x1, hash ^ x2);
    }
}

/// Changing one byte of a sequence changes its checksum.
pub proof fn lemma_checksum_detects_changed_byte(bytes: Seq<u8>, at: int, byte: u8)
    requires
        0 <= at < bytes.len(),
        byte != bytes[at],
    ensures
        checksum_of(bytes.update(at, byte)) != checksum_of(bytes),
    decreases bytes.len(),
{
    let changed = bytes.update(at, byte);
    if at == bytes.len() - 1 {
        assert(changed.drop_last() =~= bytes.drop_last());
        lemma_step_injective_in_byte(checksum_of(bytes.drop_last()), byte, bytes[at]);
    } else {
        assert(changed.drop_last() =~= bytes.drop_last().update(at, byte));
        lemma_checksum_detects_changed_byte(bytes.drop_last(), at, byte);
        lemma_step_injective_in_hash(
            checksum_of(changed.drop_last()),
            checksum_of(bytes.drop_last()),
            bytes.last(),
        );
    }
}

} // verus!
