//! A streaming 64-bit digest over byte sequences (the FNV-1a fold), the
//! foundation of fingerprint derivation.  The digest is a pure function of the
//! byte sequence fed in, and it is order-sensitive: feeding the same bytes in
//! a different order generally yields a different digest.

use vstd::prelude::*;

verus! {

/// The FNV-1a 64-bit offset basis: the accumulator's initial state.
pub const FNV_OFFSET: u64 = 0xcbf29ce484222325;

/// The FNV-1a 64-bit prime: the accumulator's multiplier.
pub const FNV_PRIME: u64 = 0x100000001b3;

/// One step of the fold: mix one byte into the accumulator state.
pub open spec fn fnv_step(h: u64, b: u8) -> u64 {
    vstd::wrapping::u64_specs::wrapping_mul(h ^ (b as u64), FNV_PRIME)
}

/// Fold a whole byte sequence into an accumulator state, left to right.
pub open spec fn fnv_fold(h: u64, s: Seq<u8>) -> u64
    decreases s.len(),
{
    if s.len() == 0 {
        h
    } else {
        fnv_step(fnv_fold(h, s.drop_last()), s.last())
    }
}

/// The digest of a byte sequence: the fold starting from the offset basis.
pub open spec fn digest_of(s: Seq<u8>) -> u64 {
    fnv_fold(FNV_OFFSET, s)
}

/// Folding a concatenation equals folding the two parts in turn: the digest
/// of a stream can be computed section by section, without materializing the
/// concatenation.
pub proof fn lemma_fnv_fold_concat(h: u64, a: Seq<u8>, b: Seq<u8>)
    ensures
        fnv_fold(h, a + b) == fnv_fold(fnv_fold(h, a), b),
    decreases b.len(),
{
    if b.len() == 0 {
        assert(a + b =~= a);
    } else {
        lemma_fnv_fold_concat(h, a, b.drop_last());
        assert((a + b).drop_last() =~= a + b.drop_last());
    }
}

/// One step of the fold is injective in the byte: from one state, two
/// different bytes lead to two different states, because XOR with a byte is
/// injective and multiplication by the odd prime is a bijection of the 64-bit
/// values.
proof fn lemma_fnv_step_injective(h: u64, b1: u8, b2: u8)
    requires
        b1 != b2,
    ensures
        fnv_step(h, b1) != fnv_step(h, b2),
{
    let x1 = h ^ (b1 as u64);
    let x2 = h ^ (b2 as u64);
    let y1 = (x1 * FNV_PRIME) % 0x1_0000_0000_0000_0000;
    let y2 = (x2 * FNV_PRIME) % 0x1_0000_0000_0000_0000;
    assert(fnv_step(h, b1) == y1 as u64);
    assert(fnv_step(h, b2) == y2 as u64);
    assert(((h ^ (b1 as u64)) * 0x100000001b3) % 0x1_0000_0000_0000_0000 != ((h ^ (b2 as u64))
        * 0x100000001b3) % 0x1_0000_0000_0000_0000) by (bit_vector)
        requires
            b1 != b2,
    ;
    assert(0 <= y1 < 0x1_0000_0000_0000_0000);
    assert(0 <= y2 < 0x1_0000_0000_0000_0000);
}

/// One step of the fold is injective in the state: from two different
/// states, the same byte leads to two different states.
proof fn lemma_fnv_step_state_injective(h1: u64, h2: u64, b: u8)
    requires
        h1 != h2,
    ensures
        fnv_step(h1, b) != fnv_step(h2, b),
{
    let y1 = ((h1 ^ (b as u64)) * FNV_PRIME) % 0x1_0000_0000_0000_0000;
    let y2 = ((h2 ^ (b as u64)) * FNV_PRIME) % 0x1_0000_0000_0000_0000;
    assert(fnv_step(h1, b) == y1 as u64);
    assert(fnv_step(h2, b) == y2 as u64);
    assert(((h1 ^ (b as u64)) * 0x100000001b3) % 0x1_0000_0000_0000_0000 != ((h2 ^ (b as u64))
        * 0x100000001b3) % 0x1_0000_0000_0000_0000) by (bit_vector)
        requires
            h1 != h2,
    ;
    assert(0 <= y1 < 0x1_0000_0000_0000_0000);
    assert(0 <= y2 < 0x1_0000_0000_0000_0000);
}

/// The fold keeps two different states different, whatever bytes follow.
proof fn lemma_fnv_fold_state_injective(h1: u64, h2: u64, s: Seq<u8>)
    requires
        h1 != h2,
    ensures
        fnv_fold(h1, s) != fnv_fold(h2, s),
    decreases s.len(),
{
    if s.len() > 0 {
        lemma_fnv_fold_state_injective(h1, h2, s.drop_last());
        lemma_fnv_step_state_injective(
            fnv_fold(h1, s.drop_last()),
            fnv_fold(h2, s.drop_last()),
            s.last(),
        );
    }
}

/// Sensitivity at the stream's end: two byte streams that agree except in
/// their final byte have different digests.
pub proof fn lemma_digest_last_byte_sensitive(s: Seq<u8>, b1: u8, b2: u8)
    requires
        b1 != b2,
    ensures
        digest_of(s.push(b1)) != digest_of(s.push(b2)),
{
    assert(s.push(b1).drop_last() =~= s);
    assert(s.push(b2).drop_last() =~= s);
    assert(s.push(b1).last() == b1);
    assert(s.push(b2).last() == b2);
    lemma_fnv_step_injective(fnv_fold(FNV_OFFSET, s), b1, b2);
}

/// Sensitivity: two byte streams of equal length that differ in exactly one
/// byte — the bytes before it equal, the byte itself different, the bytes
/// after it equal — have different digests.
pub proof fn lemma_digest_single_byte_sensitive(prefix: Seq<u8>, b1: u8, b2: u8, suffix: Seq<u8>)
    requires
        b1 != b2,
    ensures
        digest_of(prefix.push(b1) + suffix) != digest_of(prefix.push(b2) + suffix),
{
    lemma_fnv_fold_concat(FNV_OFFSET, prefix.push(b1), suffix);
    lemma_fnv_fold_concat(FNV_OFFSET, prefix.push(b2), suffix);
    lemma_digest_last_byte_sensitive(prefix, b1, b2);
    lemma_fnv_fold_state_injective(
        digest_of(prefix.push(b1)),
        digest_of(prefix.push(b2)),
        suffix,
    );
}

/// A streaming digest accumulator: bytes are written in order and the final
/// state is the fold of everything written since construction.
pub struct FnvHasher {
    pub state: u64,
}

impl FnvHasher {
    /// A fresh accumulator, holding the offset basis.
    pub fn new() -> (r: FnvHasher)
        ensures
            r.state == FNV_OFFSET,
    {
        FnvHasher { state: FNV_OFFSET }
    }

    /// Mix one byte into the accumulator.
    pub fn write_byte(&mut self, b: u8)
        ensures
            final(self).state == fnv_step(old(self).state, b),
    {
        self.state = (self.state ^ (b as u64)).wrapping_mul(FNV_PRIME);
    }

    /// Mix a run of bytes into the accumulator, in order.
    pub fn write_bytes(&mut self, bytes: &Vec<u8>)
        ensures
            final(self).state == fnv_fold(old(self).state, bytes@),
    {
        let ghost h0 = self.state;
        let mut i: usize = 0;
        while i < bytes.len()
            invariant
                i <= bytes.len(),
                self.state == fnv_fold(h0, bytes@.take(i as int)),
            decreases bytes.len() - i,
        {
            self.write_byte(bytes[i]);
            proof {
                assert(bytes@.take(i + 1).drop_last() =~= bytes@.take(i as int));
            }
            i = i + 1;
        }
        proof {
            assert(bytes@.take(bytes@.len() as int) =~= bytes@);
        }
    }

    /// The accumulated digest.
    pub fn finish(&self) -> (r: u64)
        ensures
            r == self.state,
    {
        self.state
    }
}

} // verus!
