//! Unsigned 256-bit words and the 320-bit totals that sums of words are kept in.
//!
//! A word is four 64-bit limbs; what it stands for is the natural number
//! [`Word::value`]. A total has one limb more, so that the sum of any number
//! of words that a vector can hold is exact.

use vstd::prelude::*;

verus! {

/// Two to the power of 64: the weight of one limb.
pub open spec fn limb_base() -> nat {
    0x1_0000_0000_0000_0000
}

/// The number that four limbs stand for, least significant limb first.
pub open spec fn limbs_value(limbs: Seq<u64>) -> nat
    recommends
        limbs.len() == 4,
{
    (limbs[0] as nat) + limb_base() * ((limbs[1] as nat) + limb_base() * ((limbs[2] as nat)
        + limb_base() * (limbs[3] as nat)))
}

/// Two to the power of 256: the first number that no word holds.
pub open spec fn word_limit() -> nat {
    limb_base() * (limb_base() * (limb_base() * limb_base()))
}

/// An unsigned integer below two to the power of 256.
#[derive(Clone, Copy, Debug, PartialEq, Eq, Structural)]
pub struct Word {
    /// Bits 192 to 255.
    pub w3: u64,
    /// Bits 128 to 191.
    pub w2: u64,
    /// Bits 64 to 127.
    pub w1: u64,
    /// Bits 0 to 63.
    pub w0: u64,
}

/// An unsigned integer below two to the power of 320.
#[derive(Clone, Copy, Debug, PartialEq, Eq, Structural)]
pub struct Total {
    /// Bits 256 to 319.
    pub t4: u64,
    /// Bits 192 to 255.
    pub t3: u64,
    /// Bits 128 to 191.
    pub t2: u64,
    /// Bits 64 to 127.
    pub t1: u64,
    /// Bits 0 to 63.
    pub t0: u64,
}

impl Word {
    /// The number that the word stands for.
    pub open spec fn value(self) -> nat {
        (self.w0 as nat) + limb_base() * ((self.w1 as nat) + limb_base() * ((self.w2 as nat)
            + limb_base() * (self.w3 as nat)))
    }

    /// The word of the limbs given, least significant first.
    pub fn from_limbs(limbs: [u64; 4]) -> (word: Word)
        ensures
            word.value() == limbs_value(limbs@),
            word == (Word { w3: limbs[3], w2: limbs[2], w1: limbs[1], w0: limbs[0] }),
    {
        Word { w3: limbs[3], w2: limbs[2], w1: limbs[1], w0: limbs[0] }
    }

    /// The word that stands for zero.
    pub fn zero() -> (word: Word)
        ensures
            word.value() == 0,
    {
        Word { w3: 0, w2: 0, w1: 0, w0: 0 }
    }

    /// Whether this word is numerically below the other.
    pub fn below(&self, other: &Word) -> (less: bool)
        ensures
            less == (self.value() < other.value()),
    {
        if self.w3 != other.w3 {
            self.w3 < other.w3
        } else if self.w2 != other.w2 {
            self.w2 < other.w2
        } else if self.w1 != other.w1 {
            self.w1 < other.w1
        } else {
            self.w0 < other.w0
        }
    }

    /// Whether the two words stand for the same number.
    pub fn same(&self, other: &Word) -> (equal: bool)
        ensures
            equal == (self.value() == other.value()),
            equal == (*self == *other),
    {
        self.w3 == other.w3 && self.w2 == other.w2 && self.w1 == other.w1 && self.w0 == other.w0
    }

    /// The total that stands for the same number.
    pub fn widen(&self) -> (total: Total)
        ensures
            total.value() == self.value(),
    {
        Total { t4: 0, t3: self.w3, t2: self.w2, t1: self.w1, t0: self.w0 }
    }
}

impl Total {
    /// The number that the total stands for.
    pub open spec fn value(self) -> nat {
        (self.t0 as nat) + limb_base() * ((self.t1 as nat) + limb_base() * ((self.t2 as nat)
            + limb_base() * ((self.t3 as nat) + limb_base() * (self.t4 as nat))))
    }

    /// The total that stands for zero.
    pub fn zero() -> (total: Total)
        ensures
            total.value() == 0,
    {
        Total { t4: 0, t3: 0, t2: 0, t1: 0, t0: 0 }
    }

    /// The limbs of the total, least significant first.
    pub fn limbs(&self) -> (limbs: [u64; 5])
        ensures
            limbs@ == seq![self.t0, self.t1, self.t2, self.t3, self.t4],
    {
        let limbs: [u64; 5] = [self.t0, self.t1, self.t2, self.t3, self.t4];
        assert(limbs@ =~= seq![self.t0, self.t1, self.t2, self.t3, self.t4]);
        limbs
    }

    /// Whether the total stands for the same number as the word.
    pub fn matches_word(&self, word: &Word) -> (equal: bool)
        ensures
            equal == (self.value() == word.value()),
    {
        self.t4 == 0 && self.t3 == word.w3 && self.t2 == word.w2 && self.t1 == word.w1 && self.t0
            == word.w0
    }

    /// The total increased by a word, where the sum is still below two to the
    /// power of 320.
    pub fn plus(&self, word: &Word) -> (sum: Total)
        requires
            self.value() + word.value() < limb_base() * word_limit(),
        ensures
            sum.value() == self.value() + word.value(),
            sum.t4 <= self.t4 + 1,
    {
        let (t0, c0) = add_limbs(self.t0, word.w0, false);
        let (t1, c1) = add_limbs(self.t1, word.w1, c0);
        let (t2, c2) = add_limbs(self.t2, word.w2, c1);
        let (t3, c3) = add_limbs(self.t3, word.w3, c2);
        let (t4, c4) = add_limbs(self.t4, 0, c3);
        Total { t4, t3, t2, t1, t0 }
    }
}

/// One if the carry is set, zero if not.
pub open spec fn carry_value(carry: bool) -> nat {
    if carry {
        1
    } else {
        0
    }
}

/// The sum of two limbs and a carry, as a limb and the carry out of it.
pub fn add_limbs(a: u64, b: u64, carry: bool) -> (out: (u64, bool))
    ensures
        (out.0 as nat) + limb_base() * carry_value(out.1) == (a as nat) + (b as nat) + carry_value(
            carry,
        ),
{
    let (first, over_first) = if a > u64::MAX - b {
        (a - (u64::MAX - b) - 1, true)
    } else {
        (a + b, false)
    };
    if carry {
        if first == u64::MAX {
            (0, true)
        } else {
            (first + 1, over_first)
        }
    } else {
        (first, over_first)
    }
}

/// A number has one low limb and one rest above it.
pub proof fn lemma_limb_split(low: nat, rest: nat, other_low: nat, other_rest: nat)
    requires
        low < limb_base(),
        other_low < limb_base(),
        low + limb_base() * rest == other_low + limb_base() * other_rest,
    ensures
        low == other_low,
        rest == other_rest,
{
    if rest < other_rest {
        assert(limb_base() * other_rest >= limb_base() * rest + limb_base()) by (nonlinear_arith)
            requires
                rest < other_rest,
        ;
    } else if other_rest < rest {
        assert(limb_base() * rest >= limb_base() * other_rest + limb_base()) by (nonlinear_arith)
            requires
                other_rest < rest,
        ;
    }
}

/// Two words of one value are the same word, and no word reaches two to the
/// power of 256.
pub proof fn lemma_word_value_injective(a: Word, b: Word)
    ensures
        a.value() == b.value() <==> a == b,
        a.value() < word_limit(),
{
    if a.value() == b.value() {
        let a1 = (a.w1 as nat) + limb_base() * ((a.w2 as nat) + limb_base() * (a.w3 as nat));
        let b1 = (b.w1 as nat) + limb_base() * ((b.w2 as nat) + limb_base() * (b.w3 as nat));
        lemma_limb_split(a.w0 as nat, a1, b.w0 as nat, b1);
        let a2 = (a.w2 as nat) + limb_base() * (a.w3 as nat);
        let b2 = (b.w2 as nat) + limb_base() * (b.w3 as nat);
        lemma_limb_split(a.w1 as nat, a2, b.w1 as nat, b2);
        lemma_limb_split(a.w2 as nat, a.w3 as nat, b.w2 as nat, b.w3 as nat);
    }
}

/// Two totals of one value are the same total.
pub proof fn lemma_total_value_injective(a: Total, b: Total)
    ensures
        a.value() == b.value() <==> a == b,
{
    if a.value() == b.value() {
        let a3 = (a.t3 as nat) + limb_base() * (a.t4 as nat);
        let b3 = (b.t3 as nat) + limb_base() * (b.t4 as nat);
        let a2 = (a.t2 as nat) + limb_base() * a3;
        let b2 = (b.t2 as nat) + limb_base() * b3;
        let a1 = (a.t1 as nat) + limb_base() * a2;
        let b1 = (b.t1 as nat) + limb_base() * b2;
        lemma_limb_split(a.t0 as nat, a1, b.t0 as nat, b1);
        lemma_limb_split(a.t1 as nat, a2, b.t1 as nat, b2);
        lemma_limb_split(a.t2 as nat, a3, b.t2 as nat, b3);
        lemma_limb_split(a.t3 as nat, a.t4 as nat, b.t3 as nat, b.t4 as nat);
    }
}

} // verus!
