//! Checksum engine: CRC-32 (IEEE 802.3 polynomial, reflected form) over
//! arbitrary byte spans. Used for both the header checksum and the
//! partition-entry-array checksum.

use vstd::prelude::*;

verus! {

/// One bit step of the reflected CRC-32 computation: shift the state right
/// and fold in the polynomial when the dropped bit was set.
pub open spec fn bit_step(s: u32) -> u32 {
    if s & 1 == 1 {
        (s >> 1) ^ 0xEDB88320u32
    } else {
        s >> 1
    }
}

/// `n` bit steps applied to `s`.
pub open spec fn bit_steps(s: u32, n: nat) -> u32
    decreases n,
{
    if n == 0 {
        s
    } else {
        bit_step(bit_steps(s, (n - 1) as nat))
    }
}

/// Folds one input byte into the running state: xor it into the low byte,
/// then run eight bit steps.
pub open spec fn byte_step(s: u32, b: u8) -> u32 {
    bit_steps(s ^ (b as u32), 8)
}

/// The CRC-32 state after consuming `bytes`, starting from the all-ones
/// initial state.
pub open spec fn crc32_state(bytes: Seq<u8>) -> u32
    decreases bytes.len(),
{
    if bytes.len() == 0 {
        0xFFFFFFFFu32
    } else {
        byte_step(crc32_state(bytes.drop_last()), bytes.last())
    }
}

/// CRC-32 of `bytes`: the final state with the output complement applied.
pub open spec fn spec_crc32(bytes: Seq<u8>) -> u32 {
    crc32_state(bytes) ^ 0xFFFFFFFFu32
}

/// One bit step is injective in the state.
proof fn lemma_bit_step_injective(s1: u32, s2: u32)
    requires
        bit_step(s1) == bit_step(s2),
    ensures
        s1 == s2,
{
    assert((if s1 & 1 == 1 {
        (s1 >> 1) ^ 0xEDB88320u32
    } else {
        s1 >> 1
    }) == (
    if s2 & 1 == 1 {
        (s2 >> 1) ^ 0xEDB88320u32
    } else {
        s2 >> 1
    }) ==> s1 == s2) by (bit_vector);
}

/// Any number of bit steps is injective in the state.
proof fn lemma_bit_steps_injective(s1: u32, s2: u32, n: nat)
    requires
        bit_steps(s1, n) == bit_steps(s2, n),
    ensures
        s1 == s2,
    decreases n,
{
    if n > 0 {
        lemma_bit_step_injective(bit_steps(s1, (n - 1) as nat), bit_steps(s2, (n - 1) as nat));
        lemma_bit_steps_injective(s1, s2, (n - 1) as nat);
    }
}

/// Folding a byte into the state is injective in the state.
proof fn lemma_byte_step_injective(s1: u32, s2: u32, b: u8)
    requires
        byte_step(s1, b) == byte_step(s2, b),
    ensures
        s1 == s2,
{
    lemma_bit_steps_injective(s1 ^ (b as u32), s2 ^ (b as u32), 8);
    assert(s1 ^ (b as u32) == s2 ^ (b as u32) ==> s1 == s2) by (bit_vector);
}

/// Folding two different bytes into the same state gives different states.
proof fn lemma_byte_step_diff(s: u32, b1: u8, b2: u8)
    requires
        b1 != b2,
    ensures
        byte_step(s, b1) != byte_step(s, b2),
{
    assert(s ^ (b1 as u32) != s ^ (b2 as u32)) by (bit_vector)
        requires
            b1 != b2,
    ;
    if byte_step(s, b1) == byte_step(s, b2) {
        lemma_bit_steps_injective(s ^ (b1 as u32), s ^ (b2 as u32), 8);
    }
}

/// Two byte sequences that differ in exactly one byte have different
/// CRC-32 states: the difference enters the state where the sequences
/// diverge and no later equal byte can cancel it.
proof fn lemma_crc32_state_single_byte_diff(a: Seq<u8>, b: Seq<u8>, j: int)
    requires
        a.len() == b.len(),
        0 <= j < a.len(),
        a[j] != b[j],
        forall|k: int| 0 <= k < a.len() && k != j ==> a[k] == b[k],
    ensures
        crc32_state(a) != crc32_state(b),
    decreases a.len(),
{
    if j == a.len() - 1 {
        assert(a.drop_last() =~= b.drop_last());
        lemma_byte_step_diff(crc32_state(a.drop_last()), a.last(), b.last());
    } else {
        lemma_crc32_state_single_byte_diff(a.drop_last(), b.drop_last(), j);
        if crc32_state(a) == crc32_state(b) {
            lemma_byte_step_injective(
                crc32_state(a.drop_last()),
                crc32_state(b.drop_last()),
                a.last(),
            );
        }
    }
}

/// CRC-32 detects every single-byte (hence every single-bit) corruption:
/// two equal-length sequences that differ in exactly one byte have
/// different checksums.
pub proof fn lemma_crc32_single_byte_diff(a: Seq<u8>, b: Seq<u8>, j: int)
    requires
        a.len() == b.len(),
        0 <= j < a.len(),
        a[j] != b[j],
        forall|k: int| 0 <= k < a.len() && k != j ==> a[k] == b[k],
    ensures
        spec_crc32(a) != spec_crc32(b),
{
    lemma_crc32_state_single_byte_diff(a, b, j);
    let s1 = crc32_state(a);
    let s2 = crc32_state(b);
    assert(s1 != s2 ==> s1 ^ 0xFFFFFFFFu32 != s2 ^ 0xFFFFFFFFu32) by (bit_vector);
}

/// Computes the CRC-32 checksum of `bytes`.
pub fn crc32(bytes: &[u8]) -> (r: u32)
    ensures
        r == spec_crc32(bytes@),
{
    let mut state: u32 = 0xFFFFFFFF;
    let mut i: usize = 0;
    while i < bytes.len()
        invariant
            0 <= i <= bytes@.len(),
            state == crc32_state(bytes@.take(i as int)),
        decreases bytes@.len() - i,
    {
        let b: u8 = bytes[i];
        let mut s: u32 = state ^ (b as u32);
        let mut k: usize = 0;
        while k < 8
            invariant
                0 <= k <= 8,
                s == bit_steps(state ^ (b as u32), k as nat),
            decreases 8 - k,
        {
            if s & 1 == 1 {
                s = (s >> 1) ^ 0xEDB88320;
            } else {
                s = s >> 1;
            }
            k = k + 1;
        }
        proof {
            assert(bytes@.take(i + 1).drop_last() =~= bytes@.take(i as int));
            assert(bytes@.take(i + 1).last() == bytes@[i as int]);
        }
        state = s;
        i = i + 1;
    }
    proof {
        assert(bytes@.take(bytes@.len() as int) =~= bytes@);
    }
    state ^ 0xFFFFFFFF
}

} // verus!
