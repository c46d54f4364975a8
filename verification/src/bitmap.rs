//! A record of 256 consecutive nonces, one bit each.

use vstd::prelude::*;

verus! {

/// Whether bit `b` of `w` is set.
pub open spec fn word_bit(w: u64, b: u64) -> bool {
    (w >> b) & 1 == 1
}

proof fn lemma_zero_word(b: u64)
    requires
        b < 64,
    ensures
        !word_bit(0, b),
{
    assert((0u64 >> b) & 1 == 0) by (bit_vector)
        requires
            b < 64,
    ;
}

proof fn lemma_set_bit(w: u64, b: u64, j: u64)
    requires
        b < 64,
        j < 64,
    ensures
        word_bit(w | (1u64 << b), j) == (j == b || word_bit(w, j)),
{
    assert((((w | (1u64 << b)) >> j) & 1 == 1) == (j == b || ((w >> j) & 1 == 1)))
        by (bit_vector)
        requires
            b < 64,
            j < 64,
    ;
}

/// The consumed nonces of one bucket, as 256 bits in four words.
///
/// The value of a bitmap is the set of offsets, from 0 to 255, whose bit is
/// set. Bits are only ever set, never cleared.
#[derive(Clone, Copy, Debug, PartialEq, Eq)]
pub struct NonceBitmap {
    w0: u64,
    w1: u64,
    w2: u64,
    w3: u64,
}

impl NonceBitmap {
    spec fn word(&self, k: int) -> u64 {
        if k == 0 {
            self.w0
        } else if k == 1 {
            self.w1
        } else if k == 2 {
            self.w2
        } else {
            self.w3
        }
    }

    /// Whether the bit at `offset` is set.
    pub closed spec fn bit(&self, offset: int) -> bool {
        0 <= offset < 256 && word_bit(self.word(offset / 64), (offset % 64) as u64)
    }

    /// A bitmap with no bit set.
    pub fn empty() -> (bitmap: NonceBitmap)
        ensures
            bitmap@ == Set::<int>::empty(),
    {
        let bitmap = NonceBitmap { w0: 0, w1: 0, w2: 0, w3: 0 };
        proof {
            assert forall|i: int| !bitmap.bit(i) by {
                if 0 <= i < 256 {
                    lemma_zero_word((i % 64) as u64);
                }
            }
            assert(bitmap@ =~= Set::<int>::empty());
        }
        bitmap
    }

    /// Whether the bit at `offset` is set.
    pub fn test(&self, offset: u8) -> (set: bool)
        ensures
            set == self@.contains(offset as int),
    {
        let k: u8 = offset / 64;
        let b: u64 = (offset % 64) as u64;
        let w: u64 = if k == 0 {
            self.w0
        } else if k == 1 {
            self.w1
        } else if k == 2 {
            self.w2
        } else {
            self.w3
        };
        (w >> b) & 1 == 1
    }

    /// The bitmap with the bit at `offset` set and every other bit as it was.
    pub fn with(self, offset: u8) -> (bitmap: NonceBitmap)
        ensures
            bitmap@ == self@.insert(offset as int),
    {
        let k: u8 = offset / 64;
        let b: u64 = (offset % 64) as u64;
        let mask: u64 = 1u64 << b;
        let bitmap = if k == 0 {
            NonceBitmap { w0: self.w0 | mask, ..self }
        } else if k == 1 {
            NonceBitmap { w1: self.w1 | mask, ..self }
        } else if k == 2 {
            NonceBitmap { w2: self.w2 | mask, ..self }
        } else {
            NonceBitmap { w3: self.w3 | mask, ..self }
        };
        proof {
            assert forall|i: int| bitmap.bit(i) == (i == offset as int || self.bit(i)) by {
                if 0 <= i < 256 {
                    lemma_set_bit(self.word(i / 64), b, (i % 64) as u64);
                }
            }
            assert(bitmap@ =~= self@.insert(offset as int));
        }
        bitmap
    }
}

impl View for NonceBitmap {
    type V = Set<int>;

    /// The offsets whose bit is set.
    closed spec fn view(&self) -> Set<int> {
        Set::new(|offset: int| self.bit(offset))
    }
}

impl NonceBitmap {
    /// Every member of a bitmap is an offset from 0 to 255.
    pub proof fn lemma_offsets_in_range(self, offset: int)
        requires
            self@.contains(offset),
        ensures
            0 <= offset < 256,
    {
    }
}

} // verus!
