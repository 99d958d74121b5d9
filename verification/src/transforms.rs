//! Bulk vector transforms used during trace construction: reinterpreting a
//! flat sequence as fixed-size chunks and back, and transposing a flat
//! sequence into a grouped matrix. The transposition is partitioned by
//! output row and run data-parallel.

use vstd::prelude::*;

verus! {

/// Groups a vector of `n` elements into `n / chunk_size` rows of
/// `chunk_size` elements each, preserving order.
pub fn group_vector_elements<T: Copy>(source: Vec<T>, chunk_size: usize) -> (r: Vec<Vec<T>>)
    requires
        chunk_size >= 1,
        source@.len() as int % (chunk_size as int) == 0,
    ensures
        r@.len() == source@.len() as int / (chunk_size as int),
        forall|i: int| 0 <= i < r@.len() ==> #[trigger] r@[i]@.len() == chunk_size,
        forall|i: int, j: int|
            0 <= i < r@.len() && 0 <= j < chunk_size ==> #[trigger] r@[i]@[j] == source@[i
                * chunk_size + j],
{
    group_slice_elements(source.as_slice(), chunk_size)
}

/// Groups a slice of `n` elements into `n / chunk_size` rows of `chunk_size`
/// elements each, preserving order.
pub fn group_slice_elements<T: Copy>(source: &[T], chunk_size: usize) -> (r: Vec<Vec<T>>)
    requires
        chunk_size >= 1,
        source@.len() as int % (chunk_size as int) == 0,
    ensures
        r@.len() == source@.len() as int / (chunk_size as int),
        forall|i: int| 0 <= i < r@.len() ==> #[trigger] r@[i]@.len() == chunk_size,
        forall|i: int, j: int|
            0 <= i < r@.len() && 0 <= j < chunk_size ==> #[trigger] r@[i]@[j] == source@[i
                * chunk_size + j],
{
    let n = source.len();
    let row_count = n / chunk_size;
    proof {
        vstd::arithmetic::div_mod::lemma_fundamental_div_mod(n as int, chunk_size as int);
        assert(row_count * chunk_size == n) by (nonlinear_arith)
            requires
                n == chunk_size * row_count + (n as int) % (chunk_size as int) && (n as int) % (chunk_size as int)
                    == 0,
        ;
    }
    let mut r: Vec<Vec<T>> = Vec::new();
    let mut i: usize = 0;
    while i < row_count
        invariant
            n == source@.len(),
            chunk_size >= 1,
            row_count * chunk_size == n,
            row_count == n as int / (chunk_size as int),
            i <= row_count,
            r@.len() == i,
            forall|a: int| 0 <= a < i ==> #[trigger] r@[a]@.len() == chunk_size,
            forall|a: int, b: int|
                0 <= a < i && 0 <= b < chunk_size ==> #[trigger] r@[a]@[b] == source@[a * chunk_size
                    + b],
        decreases row_count - i,
    {
        proof {
            assert(i * chunk_size + chunk_size == (i + 1) * chunk_size) by (nonlinear_arith);
            assert((i + 1) * chunk_size <= row_count * chunk_size) by (nonlinear_arith)
                requires
                    i + 1 <= row_count && chunk_size >= 1,
            ;
            assert(i * chunk_size >= 0) by (nonlinear_arith)
                requires
                    i >= 0 && chunk_size >= 0,
            ;
        }
        let start = i * chunk_size;
        let mut row: Vec<T> = Vec::new();
        let mut j: usize = 0;
        while j < chunk_size
            invariant
                n == source@.len(),
                start == i * chunk_size,
                start + chunk_size <= n,
                j <= chunk_size,
                row@.len() == j,
                forall|b: int| 0 <= b < j ==> #[trigger] row@[b] == source@[start + b],
            decreases chunk_size - j,
        {
            row.push(source[start + j]);
            j = j + 1;
        }
        r.push(row);
        i = i + 1;
    }
    r
}

/// The flat concatenation of a sequence of rows.
pub open spec fn flat_of<T>(rows: Seq<Vec<T>>) -> Seq<T> {
    rows.map_values(|row: Vec<T>| row@).flatten()
}

/// Flattens a vector of rows back into one flat vector, preserving order.
pub fn flatten_vector_elements<T: Copy>(source: Vec<Vec<T>>) -> (r: Vec<T>)
    ensures
        r@ == flat_of(source@),
{
    flatten_slice_elements(&source)
}

/// Flattens borrowed rows into one flat vector, preserving order.
pub fn flatten_slice_elements<T: Copy>(source: &Vec<Vec<T>>) -> (r: Vec<T>)
    ensures
        r@ == flat_of(source@),
{
    let ghost rows = source@.map_values(|row: Vec<T>| row@);
    let mut r: Vec<T> = Vec::new();
    let mut i: usize = 0;
    proof {
        assert(rows.subrange(0, 0) =~= Seq::<Seq<T>>::empty());
        assert(r@ =~= rows.subrange(0, 0).flatten());
    }
    while i < source.len()
        invariant
            i <= source@.len(),
            rows == source@.map_values(|row: Vec<T>| row@),
            r@ == rows.subrange(0, i as int).flatten(),
        decreases source@.len() - i,
    {
        let row = &source[i];
        let mut j: usize = 0;
        while j < row.len()
            invariant
                j <= row@.len(),
                row@ == source@[i as int]@,
                i < source@.len(),
                rows == source@.map_values(|x: Vec<T>| x@),
                r@ == rows.subrange(0, i as int).flatten() + row@.subrange(0, j as int),
            decreases row@.len() - j,
        {
            r.push(row[j]);
            proof {
                assert(r@ =~= rows.subrange(0, i as int).flatten() + row@.subrange(0, j + 1));
            }
            j = j + 1;
        }
        proof {
            assert(row@.subrange(0, row@.len() as int) =~= row@);
            rows.subrange(0, i + 1).lemma_flatten_and_flatten_alt_are_equivalent();
            rows.subrange(0, i as int).lemma_flatten_and_flatten_alt_are_equivalent();
            assert(rows.subrange(0, i + 1).drop_last() =~= rows.subrange(0, i as int));
            assert(rows.subrange(0, i + 1).flatten_alt() == rows.subrange(0, i + 1).drop_last()
                .flatten_alt() + rows.subrange(0, i + 1).last());
            assert(rows[i as int] == source@[i as int]@);
            assert(r@ =~= rows.subrange(0, i + 1).flatten());
        }
        i = i + 1;
    }
    proof {
        assert(rows.subrange(0, rows.len() as int) =~= rows);
    }
    r
}

/// Builds one output row of the transposition: row `i` gathers the elements
/// at flat positions `i + j * row_count` for each of the `num_columns`
/// columns.
pub fn transpose_row<T: Copy>(source: &[T], i: usize, num_columns: usize, row_count: usize) -> (r:
    Vec<T>)
    requires
        i < row_count,
        row_count * num_columns == source@.len(),
    ensures
        r@.len() == num_columns,
        forall|j: int| 0 <= j < num_columns ==> #[trigger] r@[j] == source@[i + j * row_count],
{
    let n = source.len();
    let mut r: Vec<T> = Vec::new();
    let mut j: usize = 0;
    while j < num_columns
        invariant
            n == source@.len(),
            i < row_count,
            row_count * num_columns == source@.len(),
            j <= num_columns,
            r@.len() == j,
            forall|b: int| 0 <= b < j ==> #[trigger] r@[b] == source@[i + b * row_count],
        decreases num_columns - j,
    {
        proof {
            assert(i + j * row_count < (j + 1) * row_count) by (nonlinear_arith)
                requires
                    i < row_count && j >= 0,
            ;
            assert((j + 1) * row_count <= num_columns * row_count) by (nonlinear_arith)
                requires
                    j + 1 <= num_columns && row_count >= 0,
            ;
            assert(num_columns * row_count == row_count * num_columns) by (nonlinear_arith);
        }
        r.push(source[i + j * row_count]);
        j = j + 1;
    }
    r
}

/// Relies on rayon's `par_iter_mut`, `enumerate` and `for_each`: the closure
/// runs exactly once on every element of `rows`, with its index, and writes
/// the row that `transpose_row` builds for that index.
#[verifier::external_body]
fn par_fill_transposed<T: Copy + Send + Sync>(
    rows: &mut Vec<Vec<T>>,
    source: &[T],
    num_columns: usize,
    row_count: usize,
)
    requires
        old(rows)@.len() == row_count,
        row_count * num_columns == source@.len(),
    ensures
        final(rows)@.len() == row_count,
        forall|i: int| 0 <= i < row_count ==> #[trigger] final(rows)@[i]@.len() == num_columns,
        forall|i: int, j: int|
            0 <= i < row_count && 0 <= j < num_columns ==> #[trigger] final(rows)@[i]@[j]
                == source@[i + j * row_count],
{
    rayon::iter::ParallelIterator::for_each(
        rayon::iter::IndexedParallelIterator::enumerate(
            rayon::iter::IntoParallelRefMutIterator::par_iter_mut(rows),
        ),
        |(i, row)| { *row = transpose_row(source, i, num_columns, row_count) },
    );
}

/// Transposes a flat sequence of `n` elements into a matrix of `num_columns`
/// columns and `n / num_columns` rows: output row `i` holds the elements at
/// flat positions `i + j * row_count`. The output rows are filled in
/// parallel, one worker writing only its assigned row.
pub fn transpose_slice<T: Copy + Send + Sync>(source: &[T], num_columns: usize) -> (r: Vec<Vec<T>>)
    requires
        num_columns >= 1,
        source@.len() as int % (num_columns as int) == 0,
    ensures
        r@.len() == source@.len() as int / (num_columns as int),
        forall|i: int| 0 <= i < r@.len() ==> #[trigger] r@[i]@.len() == num_columns,
        forall|i: int, j: int|
            0 <= i < r@.len() && 0 <= j < num_columns ==> #[trigger] r@[i]@[j] == source@[i + j * (
            source@.len() as int / (num_columns as int))],
{
    let n = source.len();
    let row_count = n / num_columns;
    proof {
        vstd::arithmetic::div_mod::lemma_fundamental_div_mod(n as int, num_columns as int);
        assert(row_count * num_columns == n) by (nonlinear_arith)
            requires
                n == num_columns * row_count + (n as int) % (num_columns as int) && (n as int) % (
                num_columns as int) == 0,
        ;
    }
    let mut rows: Vec<Vec<T>> = Vec::new();
    let mut i: usize = 0;
    while i < row_count
        invariant
            i <= row_count,
            rows@.len() == i,
        decreases row_count - i,
    {
        rows.push(Vec::new());
        i = i + 1;
    }
    par_fill_transposed(&mut rows, source, num_columns, row_count);
    rows
}

} // verus!
