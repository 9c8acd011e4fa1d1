//! A 256-slot bloom filter over `u64` hashes, indexed by the low byte of the hash.

use vstd::prelude::*;

verus! {

/// The slot of the filter that a hash falls into: its low byte.
pub open spec fn bloom_slot(hash: u64) -> int {
    (hash % 256) as int
}

/// Is bit `b` of `w` set?
pub open spec fn word_bit(w: u64, b: u64) -> bool {
    (w >> b) & 1u64 == 1u64
}

proof fn lemma_zero_word(b: u64)
    requires
        b < 64,
    ensures
        !word_bit(0u64, b),
{
    assert((0u64 >> b) & 1u64 == 0u64) by (bit_vector)
        requires
            b < 64,
    ;
}

proof fn lemma_mask_test(w: u64, b: u64)
    requires
        b < 64,
    ensures
        ((w & (1u64 << b)) == 0u64) == !word_bit(w, b),
{
    assert(((w & (1u64 << b)) == 0u64) == !((w >> b) & 1u64 == 1u64)) by (bit_vector)
        requires
            b < 64,
    ;
}

proof fn lemma_mask_set(w: u64, b: u64, c: u64)
    requires
        b < 64,
        c < 64,
    ensures
        word_bit(w | (1u64 << b), c) == (c == b || word_bit(w, c)),
{
    assert((((w | (1u64 << b)) >> c) & 1u64 == 1u64) == (c == b || (w >> c) & 1u64 == 1u64))
        by (bit_vector)
        requires
            b < 64,
            c < 64,
    ;
}

proof fn lemma_slot_split(hash: u64)
    ensures
        (hash & 0xffu64) == hash % 256,
        ((hash & 0xffu64) >> 6u64) < 4,
        ((hash & 0xffu64) & 63u64) < 64,
        ((hash & 0xffu64) >> 6u64) == (hash % 256) / 64,
        ((hash & 0xffu64) & 63u64) == (hash % 256) % 64,
{
    assert((hash & 0xffu64) == hash % 256) by (bit_vector);
    assert(((hash & 0xffu64) >> 6u64) < 4) by (bit_vector);
    assert(((hash & 0xffu64) & 63u64) < 64) by (bit_vector);
    assert(((hash & 0xffu64) >> 6u64) == (hash % 256) / 64) by (bit_vector);
    assert(((hash & 0xffu64) & 63u64) == (hash % 256) % 64) by (bit_vector);
}

/// A set of marked slots, 256 of them, kept in four 64-bit words.
pub struct BloomFilterU64 {
    bits: [u64; 4],
}

impl BloomFilterU64 {
    /// Is `slot` (in `0..256`) marked?
    pub closed spec fn marked(&self, slot: int) -> bool {
        word_bit(self.bits@[slot / 64], (slot % 64) as u64)
    }
}

impl View for BloomFilterU64 {
    type V = Set<int>;

    /// The marked slots.
    closed spec fn view(&self) -> Set<int> {
        Set::new(|s: int| 0 <= s < 256 && self.marked(s))
    }
}

impl BloomFilterU64 {
    /// An empty filter.
    pub fn new() -> (f: BloomFilterU64)
        ensures
            f@ == Set::<int>::empty(),
    {
        let f = BloomFilterU64 { bits: [0u64, 0u64, 0u64, 0u64] };
        assert forall|s: int| 0 <= s < 256 implies !f.marked(s) by {
            lemma_zero_word((s % 64) as u64);
        }
        assert(f@ =~= Set::<int>::empty());
        f
    }

    /// Is the hash's slot unmarked?
    pub fn is_absent(&self, hash: u64) -> (r: bool)
        ensures
            r == !self@.contains(bloom_slot(hash)),
    {
        let slot = hash & 0xff;
        proof {
            lemma_slot_split(hash);
        }
        let word = (slot >> 6) as usize;
        let bit = slot & 63;
        proof {
            lemma_mask_test(self.bits@[word as int], bit);
        }
        (self.bits[word] & (1u64 << bit)) == 0
    }

    /// Mark the hash's slot, and report whether it was unmarked before.
    pub fn is_absent_and_set(&mut self, hash: u64) -> (r: bool)
        ensures
            r == !old(self)@.contains(bloom_slot(hash)),
            final(self)@ == old(self)@.insert(bloom_slot(hash)),
    {
        let slot = hash & 0xff;
        proof {
            lemma_slot_split(hash);
        }
        let word = (slot >> 6) as usize;
        let bit = slot & 63;
        let w = self.bits[word];
        proof {
            lemma_mask_test(w, bit);
        }
        let r = (w & (1u64 << bit)) == 0;
        let ghost pre = *self;
        self.bits[word] = w | (1u64 << bit);
        assert forall|s: int| 0 <= s < 256 implies self.marked(s) == (s == bloom_slot(hash)
            || pre.marked(s)) by {
            if s / 64 == word as int {
                lemma_mask_set(w, bit, (s % 64) as u64);
            } else {
                assert(self.bits@[s / 64] == pre.bits@[s / 64]);
            }
        }
        assert forall|s: int| #[trigger] self@.contains(s) == pre@.insert(bloom_slot(hash)).contains(s) by {
            if 0 <= s < 256 {
                assert(self@.contains(s) == self.marked(s));
                assert(pre@.contains(s) == pre.marked(s));
            }
        }
        assert(self@ =~= pre@.insert(bloom_slot(hash)));
        r
    }

    /// Mark the hash's slot.
    pub fn mark(&mut self, hash: u64)
        ensures
            final(self)@ == old(self)@.insert(bloom_slot(hash)),
    {
        let _ = self.is_absent_and_set(hash);
    }
}

} // verus!
