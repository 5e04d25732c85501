//! A grid of numbers with a fixed number of rows and columns.

use crate::text::{decimal, push_unsigned};
use vstd::prelude::*;
use vstd::string::StringExecFns;

verus! {

/// A two-dimensional grid of `usize` cells.
pub struct Grid {
    num_rows: usize,
    num_cols: usize,
    rows: Vec<Vec<usize>>,
}

impl Grid {
    #[verifier::type_invariant]
    spec fn shaped(self) -> bool {
        &&& self.rows@.len() == self.num_rows
        &&& forall|r: int| 0 <= r < self.rows@.len() ==> (#[trigger] self.rows@[r])@.len() == self.num_cols
    }

    /// The number of rows.
    pub closed spec fn height(&self) -> nat {
        self.num_rows as nat
    }

    /// The number of columns.
    pub closed spec fn width(&self) -> nat {
        self.num_cols as nat
    }

    /// The number in the cell at a location within bounds.
    pub closed spec fn value(&self, row: int, col: int) -> usize {
        self.rows@[row]@[col]
    }

    /// The cell at a location; `None` out of bounds.
    pub open spec fn cell(&self, row: int, col: int) -> Option<usize> {
        if 0 <= row < self.height() && 0 <= col < self.width() {
            Some(self.value(row, col))
        } else {
            None
        }
    }

    /// Every cell is zero.
    pub open spec fn is_blank(&self) -> bool {
        forall|row: int, col: int|
            0 <= row < self.height() && 0 <= col < self.width() ==> #[trigger] self.value(row, col)
                == 0
    }

    /// The text of the cells of a row from column `from` on, each followed by
    /// a comma and a space.
    pub open spec fn row_text(&self, row: int, from: int) -> Seq<char>
        decreases self.width() - from,
    {
        if 0 <= from < self.width() {
            decimal(self.value(row, from) as int) + ", "@ + self.row_text(row, from + 1)
        } else {
            Seq::empty()
        }
    }

    /// The text of the rows from row `from` on, each followed by a line
    /// break.
    pub open spec fn rows_text(&self, from: int) -> Seq<char>
        decreases self.height() - from,
    {
        if 0 <= from < self.height() {
            self.row_text(from, 0) + "\n"@ + self.rows_text(from + 1)
        } else {
            Seq::empty()
        }
    }

    /// Returns a grid of the given size, with every cell zero.
    pub fn new(num_rows: usize, num_cols: usize) -> (grid: Grid)
        ensures
            grid.height() == num_rows,
            grid.width() == num_cols,
            grid.is_blank(),
    {
        let mut rows: Vec<Vec<usize>> = Vec::new();
        let mut r: usize = 0;
        while r < num_rows
            invariant
                r <= num_rows,
                rows@.len() == r,
                forall|k: int| 0 <= k < r ==> (#[trigger] rows@[k])@.len() == num_cols,
                forall|k: int, c: int| 0 <= k < r && 0 <= c < num_cols ==> rows@[k]@[c] == 0,
            decreases num_rows - r,
        {
            let mut row: Vec<usize> = Vec::new();
            let mut c: usize = 0;
            while c < num_cols
                invariant
                    c <= num_cols,
                    row@.len() == c,
                    forall|k: int| 0 <= k < c ==> row@[k] == 0,
                decreases num_cols - c,
            {
                row.push(0);
                c += 1;
            }
            rows.push(row);
            r += 1;
        }
        Grid { num_rows, num_cols, rows }
    }

    /// The numbers of rows and of columns.
    pub fn size(&self) -> (size: (usize, usize))
        ensures
            size.0 == self.height(),
            size.1 == self.width(),
    {
        proof {
            use_type_invariant(self);
        }
        (self.num_rows, self.num_cols)
    }

    /// Returns the cell at the given location; `None` where the location is
    /// out of bounds.
    pub fn get(&self, row: usize, col: usize) -> (value: Option<usize>)
        ensures
            value == self.cell(row as int, col as int),
    {
        proof {
            use_type_invariant(self);
        }
        if row < self.num_rows && col < self.num_cols {
            Some(self.rows[row][col])
        } else {
            None
        }
    }

    /// Sets the cell at the given location to `val`. Where the location is
    /// out of bounds, the grid stays as it is and an error comes back.
    pub fn set(&mut self, row: usize, col: usize, val: usize) -> (done: Result<(), &'static str>)
        ensures
            final(self).height() == old(self).height(),
            final(self).width() == old(self).width(),
            done is Ok <==> row < old(self).height() && col < old(self).width(),
            forall|r: int, c: int| #[trigger]
                final(self).cell(r, c) == if done is Ok && r == row && c == col {
                    Some(val)
                } else {
                    old(self).cell(r, c)
                },
    {
        proof {
            use_type_invariant(&*self);
        }
        if row < self.num_rows && col < self.num_cols {
            let mut grid = Grid { num_rows: 0, num_cols: 0, rows: Vec::new() };
            std::mem::swap(self, &mut grid);
            let Grid { num_rows, num_cols, mut rows } = grid;
            let ghost before = rows@;
            let mut changed: Vec<usize> = Vec::new();
            std::mem::swap(&mut changed, &mut rows[row]);
            changed.set(col, val);
            rows.set(row, changed);
            *self = Grid { num_rows, num_cols, rows };
            Ok(())
        } else {
            Err("location out of bounds")
        }
    }

    /// Renders the grid: one line for each row, each cell followed by a
    /// comma and a space.
    pub fn display(&self) -> (text: String)
        ensures
            text@ == self.rows_text(0),
    {
        proof {
            use_type_invariant(self);
        }
        let mut text = String::new();
        let mut r: usize = self.num_rows;
        assert(self.rows_text(r as int) =~= Seq::<char>::empty());
        while r > 0
            invariant
                r <= self.num_rows,
                self.rows@.len() == self.num_rows,
                self.shaped(),
                text@ == self.rows_text(r as int),
            decreases r,
        {
            r -= 1;
            let row = &self.rows[r];
            let mut line = String::new();
            let mut c: usize = row.len();
            assert(self.row_text(r as int, c as int) =~= Seq::<char>::empty());
            while c > 0
                invariant
                    c <= row@.len(),
                    r < self.num_rows,
                    row == self.rows@[r as int],
                    row@.len() == self.num_cols,
                    line@ == self.row_text(r as int, c as int),
                decreases c,
            {
                c -= 1;
                let mut cell = String::new();
                push_unsigned(&mut cell, row[c] as u64);
                cell.append(", ");
                cell.append(line.as_str());
                line = cell;
            }
            line.append("\n");
            line.append(text.as_str());
            text = line;
        }
        text
    }

    /// Resets every cell to zero.
    pub fn clear(&mut self)
        ensures
            final(self).height() == old(self).height(),
            final(self).width() == old(self).width(),
            final(self).is_blank(),
    {
        proof {
            use_type_invariant(&*self);
        }
        *self = Grid::new(self.num_rows, self.num_cols);
    }
}

} // verus!
