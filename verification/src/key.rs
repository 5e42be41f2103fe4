//! The fixed-width hash value and its bitwise algebra.
use vstd::prelude::*;
use vstd::std_specs::ops::{BitAndSpecImpl, BitXorSpecImpl, NotSpecImpl};

verus! {

/// A 64-bit fingerprint. Its view is the underlying bit pattern.
#[derive(Clone, Copy, Debug, PartialEq, Eq, Structural)]
pub struct Key(u64);

impl View for Key {
    type V = u64;

    closed spec fn view(&self) -> u64 {
        self.0
    }
}

impl Key {
    /// Wraps a raw bit pattern.
    pub fn new(value: u64) -> (key: Key)
        ensures
            key@ == value,
    {
        Key(value)
    }

    /// The fingerprint with no bit set.
    pub fn zero() -> (key: Key)
        ensures
            key@ == 0,
    {
        Key(0)
    }

    /// The bit reserved for the side to move.
    pub fn color() -> (key: Key)
        ensures
            key@ == SIDE_BIT,
    {
        Key(SIDE_BIT)
    }

    /// The raw bit pattern.
    pub fn value(&self) -> (value: u64)
        ensures
            value == self@,
    {
        self.0
    }

    /// Two keys are equal exactly when their bit patterns are.
    pub proof fn lemma_equal_by_pattern(a: Key, b: Key)
        ensures
            a == b <==> a@ == b@,
    {
    }
}

/// The bit pattern of the side-to-move bit.
pub const SIDE_BIT: u64 = 1;

impl core::ops::Not for Key {
    type Output = Key;

    fn not(self) -> (out: Key)
        ensures
            out@ == !self@,
    {
        Key(!self.0)
    }
}

impl NotSpecImpl for Key {
    open spec fn obeys_not_spec() -> bool {
        true
    }

    open spec fn not_req(self) -> bool {
        true
    }

    closed spec fn not_spec(self) -> Key {
        Key(!self.0)
    }
}

impl core::ops::BitAnd for Key {
    type Output = Key;

    fn bitand(self, rhs: Key) -> (out: Key)
        ensures
            out@ == self@ & rhs@,
    {
        Key(self.0 & rhs.0)
    }
}

impl BitAndSpecImpl for Key {
    open spec fn obeys_bitand_spec() -> bool {
        true
    }

    open spec fn bitand_req(self, rhs: Key) -> bool {
        true
    }

    closed spec fn bitand_spec(self, rhs: Key) -> Key {
        Key(self.0 & rhs.0)
    }
}

impl core::ops::BitXor for Key {
    type Output = Key;

    fn bitxor(self, rhs: Key) -> (out: Key)
        ensures
            out@ == self@ ^ rhs@,
    {
        Key(self.0 ^ rhs.0)
    }
}

impl BitXorSpecImpl for Key {
    open spec fn obeys_bitxor_spec() -> bool {
        true
    }

    open spec fn bitxor_req(self, rhs: Key) -> bool {
        true
    }

    closed spec fn bitxor_spec(self, rhs: Key) -> Key {
        Key(self.0 ^ rhs.0)
    }
}

impl core::ops::BitXorAssign for Key {
    fn bitxor_assign(&mut self, rhs: Key)
        ensures
            final(self)@ == old(self)@ ^ rhs@,
    {
        self.0 = self.0 ^ rhs.0;
    }
}

/// Exclusive or does not depend on the order of its operands.
pub proof fn lemma_xor_commutative(a: u64, b: u64)
    ensures
        a ^ b == b ^ a,
{
    assert(a ^ b == b ^ a) by (bit_vector);
}

/// Exclusive or does not depend on how its operands are grouped.
pub proof fn lemma_xor_associative(a: u64, b: u64, c: u64)
    ensures
        (a ^ b) ^ c == a ^ (b ^ c),
{
    assert((a ^ b) ^ c == a ^ (b ^ c)) by (bit_vector);
}

/// Combining with the same value twice gives the first value back: what a move
/// puts into a key, taking the move back removes again.
pub proof fn lemma_xor_self_inverse(a: u64, b: u64)
    ensures
        (a ^ b) ^ b == a,
{
    assert((a ^ b) ^ b == a) by (bit_vector);
}

/// Zero is the neutral element of exclusive or.
pub proof fn lemma_xor_zero(a: u64)
    ensures
        a ^ 0 == a,
        0 ^ a == a,
        a ^ a == 0,
{
    assert(a ^ 0 == a) by (bit_vector);
    assert(0 ^ a == a) by (bit_vector);
    assert(a ^ a == 0) by (bit_vector);
}

/// The side-to-move bit of a combination is the combination of the
/// side-to-move bits.
pub proof fn lemma_xor_side_bit(a: u64, b: u64)
    ensures
        (a ^ b) & SIDE_BIT == (a & SIDE_BIT) ^ (b & SIDE_BIT),
{
    assert((a ^ b) & 1 == (a & 1) ^ (b & 1)) by (bit_vector);
}

} // verus!
