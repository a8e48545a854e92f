//! Terminal dimensions.

use vstd::prelude::*;

verus! {

/// Rows of a terminal that has not been resized yet.
pub const DEFAULT_ROWS: u16 = 24;

/// Columns of a terminal that has not been resized yet.
pub const DEFAULT_COLS: u16 = 80;

/// The size of a terminal, in character cells.
#[derive(Clone, Copy, Debug, PartialEq, Eq, Structural)]
pub struct Dimensions {
    pub rows: u16,
    pub cols: u16,
}

impl Dimensions {
    /// The size every session starts with: 24 rows of 80 columns.
    pub open spec fn initial() -> Dimensions {
        Dimensions { rows: 24, cols: 80 }
    }

    pub fn new(rows: u16, cols: u16) -> (d: Dimensions)
        ensures
            d == (Dimensions { rows, cols }),
    {
        Dimensions { rows, cols }
    }
}

impl Default for Dimensions {
    fn default() -> (d: Dimensions)
        ensures
            d == Dimensions::initial(),
    {
        Dimensions { rows: DEFAULT_ROWS, cols: DEFAULT_COLS }
    }
}

} // verus!
