//! The evaluation frame: a small sliding window over the trace handed to
//! transition-constraint evaluation. It is reused across every trace step,
//! repopulated in place so the hottest loop of proving never allocates.

use vstd::prelude::*;

verus! {

use crate::field::Felt;
use crate::matrix::Matrix;

/// The protocol's fixed window depth: the current row and the next row.
pub const WINDOW_DEPTH: usize = 2;

/// A set of execution trace rows required for evaluation of transition
/// constraints.
pub trait EvaluationFrame: Sized {
    /// The rows held by the window.
    spec fn rows(&self) -> Seq<Seq<Felt>>;

    /// Creates a window of `WINDOW_DEPTH` zeroed rows of `main_width`
    /// columns.
    fn new(main_width: usize) -> (r: Self)
        ensures
            r.rows().len() == WINDOW_DEPTH,
            forall|w: int| 0 <= w < WINDOW_DEPTH ==> (#[trigger] r.rows()[w]).len() == main_width,
            forall|w: int, c: int|
                0 <= w < WINDOW_DEPTH && 0 <= c < main_width ==> (#[trigger] r.rows()[w][c])@ == 0,
    ;

    /// Creates a frame holding exactly the provided rows.
    fn from_rows(rows: Vec<Vec<Felt>>) -> (r: Self)
        ensures
            r.rows() == rows@.map_values(|row: Vec<Felt>| row@),
    ;

    /// Repopulates the window in place from `columns` at `step`: window row
    /// `w` becomes matrix row `(step + w) % num_rows`, so the row after the
    /// last wraps around to row zero.
    fn read_from(&mut self, columns: &Matrix, step: usize)
        requires
            columns.well_formed(),
            step < columns.num_rows_spec(),
            old(self).rows().len() == WINDOW_DEPTH,
            forall|w: int|
                0 <= w < WINDOW_DEPTH ==> (#[trigger] old(self).rows()[w]).len()
                    == columns.num_cols_spec(),
        ensures
            final(self).rows().len() == WINDOW_DEPTH,
            forall|w: int|
                0 <= w < WINDOW_DEPTH ==> #[trigger] final(self).rows()[w] == columns@[(step + w)
                    % (columns.num_rows_spec() as int)],
    ;

    /// Returns the specified row.
    fn row(&self, index: usize) -> (r: &Vec<Felt>)
        requires
            index < self.rows().len(),
        ensures
            r@ == self.rows()[index as int],
    ;

    /// Returns the number of rows.
    fn row_count(&self) -> (r: usize)
        ensures
            r == self.rows().len(),
    ;
}

/// The reference frame: a two-row window (current row, next row) stored
/// row-major.
#[derive(Debug, Clone)]
pub struct DefaultEvaluationFrame {
    data: Vec<Vec<Felt>>,
}

impl View for DefaultEvaluationFrame {
    type V = Seq<Seq<Felt>>;

    closed spec fn view(&self) -> Seq<Seq<Felt>> {
        self.data@.map_values(|row: Vec<Felt>| row@)
    }
}

impl EvaluationFrame for DefaultEvaluationFrame {
    open spec fn rows(&self) -> Seq<Seq<Felt>> {
        self@
    }

    fn new(main_width: usize) -> (r: Self) {
        let mut data: Vec<Vec<Felt>> = Vec::new();
        let mut w: usize = 0;
        while w < WINDOW_DEPTH
            invariant
                w <= WINDOW_DEPTH,
                data@.len() == w,
                forall|a: int| 0 <= a < w ==> (#[trigger] data@[a]@).len() == main_width,
                forall|a: int, c: int|
                    0 <= a < w && 0 <= c < main_width ==> (#[trigger] data@[a]@[c])@ == 0,
            decreases WINDOW_DEPTH - w,
        {
            data.push(zero_row(main_width));
            w = w + 1;
        }
        DefaultEvaluationFrame { data }
    }

    fn from_rows(rows: Vec<Vec<Felt>>) -> (r: Self) {
        DefaultEvaluationFrame { data: rows }
    }

    fn read_from(&mut self, columns: &Matrix, step: usize) {
        let n = columns.num_rows();
        let mut w: usize = 0;
        while w < WINDOW_DEPTH
            invariant
                columns.well_formed(),
                n == columns.num_rows_spec(),
                step < n,
                w <= WINDOW_DEPTH,
                self@.len() == WINDOW_DEPTH,
                forall|a: int|
                    w <= a < WINDOW_DEPTH ==> (#[trigger] self@[a]).len()
                        == columns.num_cols_spec(),
                forall|a: int|
                    0 <= a < w ==> #[trigger] self@[a] == columns@[(step + a) % (n as int)],
            decreases WINDOW_DEPTH - w,
        {
            let row_idx = if step + w >= n {
                step + w - n
            } else {
                step + w
            };
            proof {
                assert(row_idx == (step + w) % (n as int)) by (nonlinear_arith)
                    requires
                        0 <= step < n && 0 <= w < 2 && (row_idx == if step + w >= n {
                            step + w - n
                        } else {
                            step + w as int
                        }),
                ;
                assert(self@[w as int] == self.data@[w as int]@);
            }
            let ghost prev = self.data@;
            let ghost prevv = self@;
            let target = &mut self.data[w];
            columns.read_row_into(row_idx, target);
            proof {
                assert(self.data@[w as int]@ == columns@[row_idx as int]);
                assert forall|a: int| 0 <= a < WINDOW_DEPTH && a != w implies #[trigger] self@[a]
                    == prevv[a] by {
                    assert(self.data@[a] == prev[a]);
                    assert(self@[a] == self.data@[a]@);
                    assert(prevv[a] == prev[a]@);
                }
                assert(self@[w as int] == self.data@[w as int]@);
                assert(self@[w as int] == columns@[(step + w) % (n as int)]);
            }
            w = w + 1;
        }
    }

    fn row(&self, index: usize) -> (r: &Vec<Felt>) {
        proof {
            assert(self@[index as int] == self.data@[index as int]@);
        }
        &self.data[index]
    }

    fn row_count(&self) -> (r: usize) {
        self.data.len()
    }
}

/// Returns a row of `width` zero elements.
pub fn zero_row(width: usize) -> (r: Vec<Felt>)
    ensures
        r@.len() == width,
        forall|c: int| 0 <= c < width ==> (#[trigger] r@[c])@ == 0,
{
    let mut r: Vec<Felt> = Vec::new();
    let mut c: usize = 0;
    while c < width
        invariant
            c <= width,
            r@.len() == c,
            forall|a: int| 0 <= a < c ==> (#[trigger] r@[a])@ == 0,
        decreases width - c,
    {
        r.push(Felt::zero());
        c = c + 1;
    }
    r
}

} // verus!
