//! Bit-wise traversal of primitive values: a `u8` viewed as a lazy sequence
//! of booleans, most-significant bit first.

use vstd::prelude::*;

verus! {

/// True when the most-significant bit of `v` is set.
pub open spec fn msb_set(v: u8) -> bool {
    v & 0x80 != 0
}

/// The next `n` bits that a byte iterator holding `v` will produce, in order:
/// the most-significant bit of `v` first, then the bits of `v << 1`.
pub open spec fn bits_of(v: u8, n: nat) -> Seq<bool>
    decreases n,
{
    if n == 0 {
        Seq::empty()
    } else {
        seq![msb_set(v)] + bits_of(v << 1, (n - 1) as nat)
    }
}

/// All 8 bits of `v`, most-significant first.
pub open spec fn byte_bits(v: u8) -> Seq<bool> {
    bits_of(v, 8)
}

pub broadcast proof fn lemma_bits_of_len(v: u8, n: nat)
    ensures
        #[trigger] bits_of(v, n).len() == n,
    decreases n,
{
    if n > 0 {
        lemma_bits_of_len(v << 1, (n - 1) as nat);
    }
}

/// Law: the bits produced from a full byte are its binary representation,
/// most-significant bit first.
pub proof fn lemma_byte_bits(v: u8)
    ensures
        byte_bits(v).len() == 8,
        forall|i: int| 0 <= i < 8 ==> byte_bits(v)[i] == ((v >> (7 - i) as u8) & 1 == 1),
{
    broadcast use lemma_bits_of_len;

    reveal_with_fuel(bits_of, 9);
    assert(msb_set(v) == ((v >> 7) & 1 == 1)) by (bit_vector);
    assert(msb_set(v << 1) == ((v >> 6) & 1 == 1)) by (bit_vector);
    assert(msb_set((v << 1) << 1) == ((v >> 5) & 1 == 1)) by (bit_vector);
    assert(msb_set(((v << 1) << 1) << 1) == ((v >> 4) & 1 == 1)) by (bit_vector);
    assert(msb_set((((v << 1) << 1) << 1) << 1) == ((v >> 3) & 1 == 1)) by (bit_vector);
    assert(msb_set(((((v << 1) << 1) << 1) << 1) << 1) == ((v >> 2) & 1 == 1)) by (bit_vector);
    assert(msb_set((((((v << 1) << 1) << 1) << 1) << 1) << 1) == ((v >> 1) & 1 == 1))
        by (bit_vector);
    assert(msb_set(((((((v << 1) << 1) << 1) << 1) << 1) << 1) << 1) == ((v >> 0) & 1 == 1))
        by (bit_vector);
    assert forall|i: int| 0 <= i < 8 implies byte_bits(v)[i] == ((v >> (7 - i) as u8) & 1
        == 1) by {
        if i == 0 {
            assert((7 - i) as u8 == 7);
        } else if i == 1 {
            assert((7 - i) as u8 == 6);
        } else if i == 2 {
            assert((7 - i) as u8 == 5);
        } else if i == 3 {
            assert((7 - i) as u8 == 4);
        } else if i == 4 {
            assert((7 - i) as u8 == 3);
        } else if i == 5 {
            assert((7 - i) as u8 == 2);
        } else if i == 6 {
            assert((7 - i) as u8 == 1);
        } else {
            assert((7 - i) as u8 == 0);
        }
    }
}

/// Iterates a `u8` from MSB to LSB, producing one `bool` for each bit.
///
/// Its view is the sequence of bits not yet produced.
pub struct U8Iterator {
    value: u8,
    remaining: usize,
}

impl View for U8Iterator {
    type V = Seq<bool>;

    closed spec fn view(&self) -> Seq<bool> {
        bits_of(self.value, self.remaining as nat)
    }
}

impl U8Iterator {
    /// Constructs an "empty" iterator, which only returns `None`.
    /// To be used in conjunction with [`U8Iterator::reset_to`].
    pub fn empty() -> (r: U8Iterator)
        ensures
            r@ == Seq::<bool>::empty(),
    {
        U8Iterator { value: 0, remaining: 0 }
    }

    /// Resets the iterator to the given `value`, with all 8 bits remaining to
    /// be produced; any bits of the prior value not yet produced are discarded.
    pub fn reset_to(&mut self, value: u8)
        ensures
            final(self)@ == byte_bits(value),
    {
        self.value = value;
        self.remaining = 8;
    }

    /// Constructs an iterator over the 8 bits of `value`, equivalent to
    /// [`U8Iterator::empty`] followed by [`U8Iterator::reset_to`].
    pub fn from(value: u8) -> (r: U8Iterator)
        ensures
            r@ == byte_bits(value),
    {
        let mut iter = U8Iterator::empty();
        iter.reset_to(value);
        iter
    }

    /// Produces the next bit of the value, or `None` once all bits have been
    /// produced. Pulling from an exhausted iterator has no effect.
    pub fn next(&mut self) -> (r: Option<bool>)
        ensures
            old(self)@.len() == 0 ==> r == None::<bool> && *final(self) == *old(self),
            old(self)@.len() > 0 ==> r == Some(old(self)@[0]) && final(self)@ == old(self)@.skip(
                1,
            ),
    {
        if self.remaining == 0 {
            None
        } else {
            let bit = self.value & 0b1000_0000;
            let bit = bit > 0;
            self.remaining = self.remaining - 1;
            self.value = self.value << 1;
            proof {
                assert(old(self)@ =~= seq![msb_set(old(self).value)] + self@);
                assert(old(self)@.skip(1) =~= self@);
            }
            Some(bit)
        }
    }

    /// Reports the exact number of bits remaining, as both a lower and an
    /// upper bound.
    pub fn size_hint(&self) -> (r: (usize, Option<usize>))
        ensures
            r.0 == self@.len(),
            r.1 == Some(r.0),
    {
        proof {
            broadcast use lemma_bits_of_len;

        }
        (self.remaining, Some(self.remaining))
    }
}

} // verus!
