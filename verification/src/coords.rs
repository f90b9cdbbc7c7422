//! Cell coordinates: a 0-indexed (row, column) pair, row growing downward.
//! Moves toward row 0 or column 0 are checked and fail rather than wrap.

use vstd::prelude::*;

verus! {

#[derive(Clone, Copy, Debug, PartialEq, Eq, Structural)]
pub struct Coordinates {
    pub row: usize,
    pub col: usize,
}

impl Coordinates {
    pub fn new(row: usize, col: usize) -> (c: Coordinates)
        ensures
            c.row == row,
            c.col == col,
    {
        Coordinates { row, col }
    }

    /// Moves `num` rows downward (toward larger row numbers).
    pub fn down(self, num: usize) -> (c: Coordinates)
        requires
            self.row + num <= usize::MAX,
        ensures
            c.row == self.row + num,
            c.col == self.col,
    {
        Coordinates { row: self.row + num, col: self.col }
    }

    /// Moves `num` rows upward; fails when that would pass row 0.
    pub fn up(self, num: usize) -> (r: Result<Coordinates, ()>)
        ensures
            self.row >= num <==> r is Ok,
            r matches Ok(c) ==> c.row == self.row - num && c.col == self.col,
    {
        let Some(new_row) = self.row.checked_sub(num) else {
            return Err(());
        };
        Ok(Coordinates { row: new_row, col: self.col })
    }

    /// Moves `num` columns to the left; fails when that would pass column 0.
    pub fn left(self, num: usize) -> (r: Result<Coordinates, ()>)
        ensures
            self.col >= num <==> r is Ok,
            r matches Ok(c) ==> c.col == self.col - num && c.row == self.row,
    {
        let Some(new_col) = self.col.checked_sub(num) else {
            return Err(());
        };
        Ok(Coordinates { row: self.row, col: new_col })
    }

    /// Moves `num` columns to the right.
    pub fn right(self, num: usize) -> (c: Coordinates)
        requires
            self.col + num <= usize::MAX,
        ensures
            c.col == self.col + num,
            c.row == self.row,
    {
        Coordinates { row: self.row, col: self.col + num }
    }
}

} // verus!
