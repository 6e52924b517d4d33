use crate::figure::Figure;
use vstd::arithmetic::power2::{lemma2_to64, pow2};
use vstd::prelude::*;

verus! {

/// The packed pixels of the decimal digit `i`, three wide and five tall,
/// top row in the most significant bits.
pub open spec fn digit_data(i: int) -> u16 {
    if i == 0 {
        0b111_101_101_101_111
    } else if i == 1 {
        0b010_110_010_010_010
    } else if i == 2 {
        0b111_001_111_100_111
    } else if i == 3 {
        0b111_001_111_001_111
    } else if i == 4 {
        0b101_101_111_001_001
    } else if i == 5 {
        0b111_100_111_001_111
    } else if i == 6 {
        0b111_100_111_101_111
    } else if i == 7 {
        0b111_001_001_001_001
    } else if i == 8 {
        0b111_101_111_101_111
    } else {
        0b111_101_111_001_111
    }
}

/// Packed size of a digit: width 3 in the high nibble, height 5 in the low.
pub const DIGIT_WH: u8 = 3 << 4 | 5;

/// The ten decimal digits as figures.
pub struct Digits(pub [Figure; 10]);

impl Digits {
    pub fn new(data: [Figure; 10]) -> (d: Digits)
        ensures
            d.0 == data,
    {
        Digits(data)
    }

    /// The figures of `0` to `9`, each three pixels wide and five tall.
    pub fn standard() -> (d: Digits)
        ensures
            forall|i: int|
                0 <= i < 10 ==> (#[trigger] d.0[i]).data == digit_data(i) && d.0[i].wh
                    == DIGIT_WH,
            forall|i: int| 0 <= i < 10 ==> (#[trigger] d.0[i]).wf(),
    {
        let d = Digits(
            [
                Figure { data: 0b111_101_101_101_111, wh: DIGIT_WH },
                Figure { data: 0b010_110_010_010_010, wh: DIGIT_WH },
                Figure { data: 0b111_001_111_100_111, wh: DIGIT_WH },
                Figure { data: 0b111_001_111_001_111, wh: DIGIT_WH },
                Figure { data: 0b101_101_111_001_001, wh: DIGIT_WH },
                Figure { data: 0b111_100_111_001_111, wh: DIGIT_WH },
                Figure { data: 0b111_100_111_101_111, wh: DIGIT_WH },
                Figure { data: 0b111_001_001_001_001, wh: DIGIT_WH },
                Figure { data: 0b111_101_111_101_111, wh: DIGIT_WH },
                Figure { data: 0b111_101_111_001_111, wh: DIGIT_WH },
            ],
        );
        proof {
            lemma2_to64();
            assert(DIGIT_WH == 53) by (bit_vector);
            assert(pow2(15) == 32768);
            assert forall|i: int| 0 <= i < 10 implies (#[trigger] d.0[i]).wf() by {
                assert(d.0[i].w() == 3 && d.0[i].h() == 5);
                assert(d.0[i].data < 32768);
            }
        }
        d
    }

    /// The digit `idx` modulo ten.
    pub fn wrapping_at(&self, idx: u8) -> (f: Figure)
        ensures
            f == self.0[idx as int % 10],
    {
        self.0[(idx % 10) as usize]
    }

    pub fn at(&self, idx: usize) -> (f: Figure)
        requires
            idx < 10,
        ensures
            f == self.0[idx as int],
    {
        self.0[idx]
    }
}

} // verus!
