//! The exact parts of placing a line: where it starts relative to its anchor, and how tall
//! it is. Positions themselves are the renderer's business.

use crate::fit::{Fraction, Ratio};
use vstd::prelude::*;

verus! {

/// How a line lies relative to the horizontal anchor of its element.
#[derive(Debug, Clone, Copy, PartialEq, Eq, Structural)]
pub enum Align {
    Left,
    Center,
    Right,
}

impl Default for Align {
    /// An element that names no alignment is aligned left.
    fn default() -> (align: Align)
        ensures
            align == Align::Left,
    {
        Align::Left
    }
}

impl Align {
    /// The part of a line's width by which its start lies left of the anchor.
    pub open spec fn spec_shift(self) -> Fraction {
        match self {
            Align::Left => Fraction { num: 0, den: 1 },
            Align::Center => Fraction { num: 1, den: 2 },
            Align::Right => Fraction { num: 1, den: 1 },
        }
    }

    /// The part of a line's width by which its start lies left of the anchor: nothing for a
    /// line that starts at the anchor, half of it for a centred line, all of it for a line
    /// that ends at the anchor.
    pub fn shift(self) -> (part: Ratio)
        ensures
            part@ == self.spec_shift(),
    {
        match self {
            Align::Left => Ratio { num: 0, den: 1 },
            Align::Center => Ratio { num: 1, den: 2 },
            Align::Right => Ratio { num: 1, den: 1 },
        }
    }
}

/// The height of a line whose characters were drawn `heights` tall: the largest of them,
/// and 0 for a line without characters.
pub open spec fn tallest(heights: Seq<i32>) -> int
    decreases heights.len(),
{
    if heights.len() == 0 {
        0
    } else if heights.last() > tallest(heights.drop_last()) {
        heights.last() as int
    } else {
        tallest(heights.drop_last())
    }
}

/// The height of a line from the heights of its characters as drawn, in the renderer's
/// integer units.
pub fn line_height(heights: &[i32]) -> (height: i32)
    ensures
        height == tallest(heights@),
{
    let mut height: i32 = 0;
    let mut i: usize = 0;
    assert(heights@.take(0) =~= Seq::<i32>::empty());
    while i < heights.len()
        invariant
            i <= heights.len(),
            height == tallest(heights@.take(i as int)),
        decreases heights.len() - i,
    {
        if heights[i] > height {
            height = heights[i];
        }
        i += 1;
        proof {
            let upto = heights@.take(i as int);
            assert(upto.drop_last() =~= heights@.take(i - 1));
            assert(upto.last() == heights[i - 1]);
        }
    }
    assert(heights@.take(i as int) =~= heights@);
    height
}

} // verus!
