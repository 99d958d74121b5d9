//! A rectangular, row-major store of field elements: per-cell reads, bulk
//! row reads and writes, and row/column counts.

use vstd::prelude::*;

verus! {

use crate::field::Felt;

/// A rectangular matrix of field elements, stored as rows of equal length.
#[derive(Debug, Clone)]
pub struct Matrix {
    rows: Vec<Vec<Felt>>,
}

impl View for Matrix {
    type V = Seq<Seq<Felt>>;

    /// Row-major view: `self@[r][c]` is the cell in row `r`, column `c`.
    closed spec fn view(&self) -> Seq<Seq<Felt>> {
        self.rows@.map_values(|r: Vec<Felt>| r@)
    }
}

impl Matrix {
    /// All rows have the same length.
    pub open spec fn well_formed(&self) -> bool {
        forall|r: int| 0 <= r < self@.len() ==> #[trigger] self@[r].len() == self.num_cols_spec()
    }

    /// The number of rows.
    pub open spec fn num_rows_spec(&self) -> nat {
        self@.len()
    }

    /// The number of columns: the length of the first row, or zero.
    pub open spec fn num_cols_spec(&self) -> nat {
        if self@.len() == 0 {
            0
        } else {
            self@[0].len()
        }
    }

    /// Wraps equal-length rows as a matrix.
    pub fn new(rows: Vec<Vec<Felt>>) -> (r: Self)
        requires
            forall|i: int|
                0 <= i < rows@.len() ==> #[trigger] rows@[i]@.len() == (if rows@.len() == 0 {
                    0int
                } else {
                    rows@[0]@.len() as int
                }),
        ensures
            r.well_formed(),
            r@ == rows@.map_values(|row: Vec<Felt>| row@),
    {
        let r = Matrix { rows };
        proof {
            assert forall|i: int| 0 <= i < r@.len() implies #[trigger] r@[i].len()
                == r.num_cols_spec() by {
            }
        }
        r
    }

    /// Returns the number of rows.
    pub fn num_rows(&self) -> (r: usize)
        ensures
            r == self.num_rows_spec(),
    {
        self.rows.len()
    }

    /// Returns the number of columns.
    pub fn num_cols(&self) -> (r: usize)
        ensures
            r == self.num_cols_spec(),
    {
        if self.rows.len() == 0 {
            0
        } else {
            self.rows[0].len()
        }
    }

    /// Returns the cell in the specified column at the specified row.
    pub fn get(&self, column: usize, step: usize) -> (r: Felt)
        requires
            self.well_formed(),
            column < self.num_cols_spec(),
            step < self.num_rows_spec(),
        ensures
            r == self@[step as int][column as int],
    {
        proof {
            assert(self@[step as int] == self.rows@[step as int]@);
        }
        self.rows[step][column]
    }

    /// Copies the row at `step` into `target`, which must already have one
    /// slot per column.
    pub fn read_row_into(&self, step: usize, target: &mut Vec<Felt>)
        requires
            self.well_formed(),
            step < self.num_rows_spec(),
            old(target)@.len() == self.num_cols_spec(),
        ensures
            final(target)@ == self@[step as int],
    {
        let row = &self.rows[step];
        let mut c: usize = 0;
        proof {
            assert(self@[step as int] == self.rows@[step as int]@);
        }
        while c < row.len()
            invariant
                row@ == self@[step as int],
                row@.len() == target@.len(),
                c <= row@.len(),
                forall|a: int| 0 <= a < c ==> #[trigger] target@[a] == row@[a],
            decreases row@.len() - c,
        {
            let v = row[c];
            target.set(c, v);
            c = c + 1;
        }
        proof {
            assert(target@ =~= self@[step as int]);
        }
    }

    /// Returns a fresh copy of the row at `step`.
    pub fn read_row(&self, step: usize) -> (r: Vec<Felt>)
        requires
            step < self.num_rows_spec(),
        ensures
            r@ == self@[step as int],
    {
        let row = &self.rows[step];
        let mut r: Vec<Felt> = Vec::new();
        let mut c: usize = 0;
        proof {
            assert(self@[step as int] == self.rows@[step as int]@);
        }
        while c < row.len()
            invariant
                row@ == self@[step as int],
                c <= row@.len(),
                r@.len() == c,
                forall|a: int| 0 <= a < c ==> #[trigger] r@[a] == row@[a],
            decreases row@.len() - c,
        {
            let v = row[c];
            r.push(v);
            c = c + 1;
        }
        proof {
            assert(r@ =~= self@[step as int]);
        }
        r
    }

    /// Overwrites the row at `step` with a copy of `state`, one value per
    /// column; all other rows are unchanged.
    pub fn update_row(&mut self, step: usize, state: &Vec<Felt>)
        requires
            old(self).well_formed(),
            step < old(self).num_rows_spec(),
            state@.len() == old(self).num_cols_spec(),
        ensures
            final(self).well_formed(),
            final(self)@ == old(self)@.update(step as int, state@),
    {
        let row = copy_row(state);
        self.rows.set(step, row);
        proof {
            assert(final(self)@ =~= old(self)@.update(step as int, state@));
        }
    }
}

/// Returns a fresh vector holding the same elements as `source`.
pub fn copy_row(source: &Vec<Felt>) -> (r: Vec<Felt>)
    ensures
        r@ == source@,
{
    let mut r: Vec<Felt> = Vec::new();
    let mut i: usize = 0;
    while i < source.len()
        invariant
            i <= source@.len(),
            r@ == source@.subrange(0, i as int),
        decreases source@.len() - i,
    {
        let v = source[i];
        r.push(v);
        proof {
            assert(r@ =~= source@.subrange(0, i + 1));
        }
        i = i + 1;
    }
    proof {
        assert(r@ =~= source@);
    }
    r
}

} // verus!
