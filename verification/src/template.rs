//! Defaults of a card's dimension block.

use vstd::prelude::*;

verus! {

/// Offset of the drawing area when the dimension block names none: the origin.
pub fn default_offset() -> (offset: (isize, isize))
    ensures
        offset == (0isize, 0isize),
{
    (0, 0)
}

/// Resolution scale of the card when the dimension block names none.
pub fn default_scale() -> (scale: usize)
    ensures
        scale == 10,
{
    10
}

} // verus!
