//! Intervals above a root, and the twelve-bit set that records which are present.

use vstd::prelude::*;

verus! {

/// A distance above a root within one octave, from unison to major seventh.
#[derive(Clone, Copy, Debug, PartialEq, Eq, Structural)]
pub enum Interval {
    PerfectFirst,
    MinorSecond,
    MajorSecond,
    MinorThird,
    MajorThird,
    PerfectFourth,
    DiminishedFifth,
    PerfectFifth,
    MinorSixth,
    MajorSixth,
    MinorSeventh,
    MajorSeventh,
}

impl Interval {
    /// Number of semitones above the root.
    pub open spec fn semitone(self) -> nat {
        match self {
            Interval::PerfectFirst => 0,
            Interval::MinorSecond => 1,
            Interval::MajorSecond => 2,
            Interval::MinorThird => 3,
            Interval::MajorThird => 4,
            Interval::PerfectFourth => 5,
            Interval::DiminishedFifth => 6,
            Interval::PerfectFifth => 7,
            Interval::MinorSixth => 8,
            Interval::MajorSixth => 9,
            Interval::MinorSeventh => 10,
            Interval::MajorSeventh => 11,
        }
    }

    pub fn to_semitone(&self) -> (r: u8)
        ensures
            r as nat == self.semitone(),
    {
        match self {
            Interval::PerfectFirst => 0,
            Interval::MinorSecond => 1,
            Interval::MajorSecond => 2,
            Interval::MinorThird => 3,
            Interval::MajorThird => 4,
            Interval::PerfectFourth => 5,
            Interval::DiminishedFifth => 6,
            Interval::PerfectFifth => 7,
            Interval::MinorSixth => 8,
            Interval::MajorSixth => 9,
            Interval::MinorSeventh => 10,
            Interval::MajorSeventh => 11,
        }
    }

    /// The interval `s` semitones above the root, for `s` below twelve.
    pub fn from_semitone(s: u8) -> (r: Option<Interval>)
        ensures
            r is Some <==> s < 12,
            r matches Some(iv) ==> iv.semitone() == s,
    {
        match s {
            0 => Some(Interval::PerfectFirst),
            1 => Some(Interval::MinorSecond),
            2 => Some(Interval::MajorSecond),
            3 => Some(Interval::MinorThird),
            4 => Some(Interval::MajorThird),
            5 => Some(Interval::PerfectFourth),
            6 => Some(Interval::DiminishedFifth),
            7 => Some(Interval::PerfectFifth),
            8 => Some(Interval::MinorSixth),
            9 => Some(Interval::MajorSixth),
            10 => Some(Interval::MinorSeventh),
            11 => Some(Interval::MajorSeventh),
            _ => None,
        }
    }
}

/// The interval whose semitone count is `s` modulo twelve.
pub open spec fn interval_of(s: int) -> Interval {
    let m = s % 12;
    if m == 0 {
        Interval::PerfectFirst
    } else if m == 1 {
        Interval::MinorSecond
    } else if m == 2 {
        Interval::MajorSecond
    } else if m == 3 {
        Interval::MinorThird
    } else if m == 4 {
        Interval::MajorThird
    } else if m == 5 {
        Interval::PerfectFourth
    } else if m == 6 {
        Interval::DiminishedFifth
    } else if m == 7 {
        Interval::PerfectFifth
    } else if m == 8 {
        Interval::MinorSixth
    } else if m == 9 {
        Interval::MajorSixth
    } else if m == 10 {
        Interval::MinorSeventh
    } else {
        Interval::MajorSeventh
    }
}

/// Whether bit `i` of `b` is set.
pub open spec fn bit_set(b: u16, i: u16) -> bool {
    (b >> i) & 1u16 != 0u16
}

/// A set of intervals above a root, one bit per semitone.
pub struct IntervalSet {
    bits: u16,
}

proof fn lemma_bit_remove(b: u16, k: u16, i: u16)
    by (bit_vector)
    requires
        k < 16,
        i < 16,
    ensures
        ((b & !(1u16 << k)) >> i) & 1u16 != 0u16 <==> ((b >> i) & 1u16 != 0u16 && i != k),
{
}

proof fn lemma_bit_insert(b: u16, k: u16, i: u16)
    by (bit_vector)
    requires
        k < 16,
        i < 16,
    ensures
        ((b | (1u16 << k)) >> i) & 1u16 != 0u16 <==> ((b >> i) & 1u16 != 0u16 || i == k),
{
}

proof fn lemma_bit_test(b: u16, k: u16)
    by (bit_vector)
    requires
        k < 16,
    ensures
        (b & (1u16 << k) != 0u16) <==> (b >> k) & 1u16 != 0u16,
{
}

proof fn lemma_bits_bounded(b: u16, k: u16)
    by (bit_vector)
    requires
        b < 0x1000,
        k < 12,
    ensures
        (b | (1u16 << k)) < 0x1000,
        (b & !(1u16 << k)) < 0x1000,
{
}

proof fn lemma_bits_zero(b: u16)
    by (bit_vector)
    requires
        b < 0x1000,
        (b >> 0u16) & 1u16 == 0u16,
        (b >> 1u16) & 1u16 == 0u16,
        (b >> 2u16) & 1u16 == 0u16,
        (b >> 3u16) & 1u16 == 0u16,
        (b >> 4u16) & 1u16 == 0u16,
        (b >> 5u16) & 1u16 == 0u16,
        (b >> 6u16) & 1u16 == 0u16,
        (b >> 7u16) & 1u16 == 0u16,
        (b >> 8u16) & 1u16 == 0u16,
        (b >> 9u16) & 1u16 == 0u16,
        (b >> 10u16) & 1u16 == 0u16,
        (b >> 11u16) & 1u16 == 0u16,
    ensures
        b == 0,
{
}

proof fn lemma_zero_bits(i: u16)
    by (bit_vector)
    ensures
        (0u16 >> i) & 1u16 == 0u16,
{
}

impl View for IntervalSet {
    type V = Set<Interval>;

    closed spec fn view(&self) -> Set<Interval> {
        Set::new(|iv: Interval| bit_set(self.bits, iv.semitone() as u16))
    }
}

impl IntervalSet {
    /// Only the twelve semitone bits are used.
    pub closed spec fn wf(&self) -> bool {
        self.bits < 0x1000
    }

    pub fn new() -> (r: IntervalSet)
        ensures
            r.wf(),
            r@ == Set::<Interval>::empty(),
    {
        let r = IntervalSet { bits: 0 };
        proof {
            assert forall|iv: Interval| !r@.contains(iv) by {
                lemma_zero_bits(iv.semitone() as u16);
            }
            assert(r@ =~= Set::<Interval>::empty());
        }
        r
    }

    pub fn contains(&self, iv: Interval) -> (r: bool)
        ensures
            r == self@.contains(iv),
    {
        let k = iv.to_semitone() as u16;
        proof {
            lemma_bit_test(self.bits, k);
        }
        self.bits & (1u16 << k) != 0
    }

    pub fn insert(&mut self, iv: Interval)
        requires
            old(self).wf(),
        ensures
            final(self).wf(),
            final(self)@ == old(self)@.insert(iv),
    {
        let k = iv.to_semitone() as u16;
        let ghost before = self.bits;
        self.bits = self.bits | (1u16 << k);
        proof {
            lemma_bits_bounded(before, k);
            assert forall|x: Interval| #[trigger] self@.contains(x) == old(self)@.insert(iv).contains(x) by {
                lemma_bit_insert(before, k, x.semitone() as u16);
            }
            assert(self@ =~= old(self)@.insert(iv));
        }
    }

    pub fn remove(&mut self, iv: Interval)
        requires
            old(self).wf(),
        ensures
            final(self).wf(),
            final(self)@ == old(self)@.remove(iv),
    {
        let k = iv.to_semitone() as u16;
        let ghost before = self.bits;
        self.bits = self.bits & !(1u16 << k);
        proof {
            lemma_bits_bounded(before, k);
            assert forall|x: Interval| #[trigger] self@.contains(x) == old(self)@.remove(iv).contains(x) by {
                lemma_bit_remove(before, k, x.semitone() as u16);
            }
            assert(self@ =~= old(self)@.remove(iv));
        }
    }

    pub fn is_empty(&self) -> (r: bool)
        requires
            self.wf(),
        ensures
            r == (self@ == Set::<Interval>::empty()),
    {
        proof {
            if self@ == Set::<Interval>::empty() {
                assert(!self@.contains(Interval::PerfectFirst));
                assert(!self@.contains(Interval::MinorSecond));
                assert(!self@.contains(Interval::MajorSecond));
                assert(!self@.contains(Interval::MinorThird));
                assert(!self@.contains(Interval::MajorThird));
                assert(!self@.contains(Interval::PerfectFourth));
                assert(!self@.contains(Interval::DiminishedFifth));
                assert(!self@.contains(Interval::PerfectFifth));
                assert(!self@.contains(Interval::MinorSixth));
                assert(!self@.contains(Interval::MajorSixth));
                assert(!self@.contains(Interval::MinorSeventh));
                assert(!self@.contains(Interval::MajorSeventh));
                lemma_bits_zero(self.bits);
            }
            if self.bits == 0 {
                assert forall|iv: Interval| !self@.contains(iv) by {
                    lemma_zero_bits(iv.semitone() as u16);
                }
                assert(self@ =~= Set::<Interval>::empty());
            }
        }
        self.bits == 0
    }

    /// Whether `iv` is the only interval in the set.
    pub fn is_only(&self, iv: Interval) -> (r: bool)
        requires
            self.wf(),
        ensures
            r == (self@ == set![iv]),
    {
        let mut rest = IntervalSet { bits: self.bits };
        rest.remove(iv);
        let r = self.contains(iv) && rest.is_empty();
        proof {
            if r {
                assert(self@ =~= set![iv]) by {
                    assert forall|x: Interval| self@.contains(x) implies x == iv by {
                        if x != iv {
                            assert(rest@.contains(x));
                        }
                    }
                }
            }
            if self@ == set![iv] {
                assert(rest@ =~= Set::<Interval>::empty());
            }
        }
        r
    }
}

} // verus!
