//! Cell-count dimensions of the overlay grid.

use vstd::prelude::*;

verus! {

/// Number of rows and columns of a grid, in cells.
#[derive(PartialEq, Eq, PartialOrd, Ord, Clone, Copy, Structural, Debug)]
pub struct Dimensions {
    pub rows: usize,
    pub cols: usize,
}

impl Dimensions {
    /// The component-wise maximum of two dimensions.
    pub fn max(self, other: Self) -> (r: Self)
        ensures
            r.rows == if self.rows >= other.rows { self.rows } else { other.rows },
            r.cols == if self.cols >= other.cols { self.cols } else { other.cols },
    {
        Self {
            rows: if self.rows >= other.rows { self.rows } else { other.rows },
            cols: if self.cols >= other.cols { self.cols } else { other.cols },
        }
    }

    /// Builds dimensions from a width (columns) and a height (rows).
    pub fn from_wh(width: usize, height: usize) -> (r: Self)
        ensures
            r.rows == height,
            r.cols == width,
    {
        Self { rows: height, cols: width }
    }

    pub fn width(&self) -> (r: usize)
        ensures
            r == self.cols,
    {
        self.cols
    }

    pub fn height(&self) -> (r: usize)
        ensures
            r == self.rows,
    {
        self.rows
    }
}

} // verus!
