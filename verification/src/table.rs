//! The trace table: full storage for one execution trace — a main segment
//! filled row by row from a sequential state transition, plus an auxiliary
//! segment built from verifier randomness for the permutation argument.

use vstd::prelude::*;

verus! {

use crate::field::{Felt, fadd, fmul, finv};
use crate::frame::{DefaultEvaluationFrame, EvaluationFrame, WINDOW_DEPTH, zero_row};
use crate::matrix::{Matrix, copy_row};
use crate::product::running_product;

/// The largest number of columns a trace segment may have.
pub const MAX_TRACE_WIDTH: usize = 255;

/// The smallest number of steps a trace may have.
pub const MIN_TRACE_LENGTH: usize = 8;

/// The largest number of steps a trace may have: the order of the field's
/// biggest power-of-two multiplicative subgroup, `2^TWO_ADICITY`.
pub const MAX_TRACE_LENGTH: usize = 256;

/// The largest number of metadata bytes a trace may carry.
pub const MAX_META_LENGTH: usize = 65535;

/// The fixed cycle length of the reference permutation argument: bus columns
/// are re-seeded at the last row of every cycle.
pub const CYCLE_LENGTH: usize = 8;

/// Whether `n` is a power of two.
pub open spec fn is_pow2(n: nat) -> bool
    decreases n,
{
    if n == 0 {
        false
    } else if n == 1 {
        true
    } else {
        n % 2 == 0 && is_pow2(n / 2)
    }
}

/// Decides whether `n` is a power of two.
pub fn is_power_of_two(n: usize) -> (r: bool)
    ensures
        r == is_pow2(n as nat),
{
    if n == 0 {
        return false;
    }
    let mut m = n;
    while m > 1 && m % 2 == 0
        invariant
            m >= 1,
            is_pow2(n as nat) == is_pow2(m as nat),
        decreases m,
    {
        m = m / 2;
    }
    m == 1
}

/// The sum of a sequence of widths.
pub open spec fn seq_sum(s: Seq<usize>) -> int
    decreases s.len(),
{
    if s.len() == 0 {
        0
    } else {
        seq_sum(s.drop_last()) + s.last()
    }
}

/// Sums of widths are non-negative.
proof fn lemma_seq_sum_nonneg(s: Seq<usize>)
    ensures
        seq_sum(s) >= 0,
    decreases s.len(),
{
    if s.len() > 0 {
        lemma_seq_sum_nonneg(s.drop_last());
    }
}

/// A prefix sum never exceeds the whole sum.
proof fn lemma_seq_sum_bounds(s: Seq<usize>, i: int)
    requires
        0 <= i <= s.len(),
    ensures
        seq_sum(s.take(i)) >= 0,
        seq_sum(s.take(i)) <= seq_sum(s),
    decreases s.len() - i,
{
    lemma_seq_sum_nonneg(s.take(i));
    if i == s.len() {
        assert(s.take(i) =~= s);
    } else {
        lemma_seq_sum_bounds(s, i + 1);
        assert(s.take(i + 1).drop_last() =~= s.take(i));
        assert(s.take(i + 1).last() == s[i]);
        assert(seq_sum(s.take(i + 1)) == seq_sum(s.take(i)) + s[i]);
    }
}

/// The immutable shape of a trace: main width, ordered auxiliary segment
/// widths, and the number of random values each auxiliary segment consumes.
#[derive(Debug, Clone)]
pub struct TraceLayout {
    main_width: usize,
    aux_widths: Vec<usize>,
    aux_rands: Vec<usize>,
}

impl TraceLayout {
    /// The shape invariant: a main width in `[1, MAX_TRACE_WIDTH]`, matching
    /// width and randomness lists, and a bounded total auxiliary width.
    pub open spec fn well_formed(&self) -> bool {
        &&& 1 <= self.main_width_spec() <= MAX_TRACE_WIDTH
        &&& self.aux_widths_spec().len() == self.aux_rands_spec().len()
        &&& seq_sum(self.aux_widths_spec()) <= MAX_TRACE_WIDTH
        &&& forall|i: int|
            0 <= i < self.aux_widths_spec().len() ==> 1 <= #[trigger] self.aux_widths_spec()[i]
    }

    /// The main segment's width.
    pub closed spec fn main_width_spec(&self) -> usize {
        self.main_width
    }

    /// The auxiliary segments' widths, in order.
    pub closed spec fn aux_widths_spec(&self) -> Seq<usize> {
        self.aux_widths@
    }

    /// The random-value counts per auxiliary segment, in order.
    pub closed spec fn aux_rands_spec(&self) -> Seq<usize> {
        self.aux_rands@
    }

    /// Builds a layout; the shape bounds are construction preconditions.
    pub fn new(main_width: usize, aux_widths: Vec<usize>, aux_rands: Vec<usize>) -> (r: Self)
        requires
            1 <= main_width <= MAX_TRACE_WIDTH,
            aux_widths@.len() == aux_rands@.len(),
            seq_sum(aux_widths@) <= MAX_TRACE_WIDTH,
            forall|i: int| 0 <= i < aux_widths@.len() ==> 1 <= #[trigger] aux_widths@[i],
        ensures
            r.well_formed(),
            r.main_width_spec() == main_width,
            r.aux_widths_spec() == aux_widths@,
            r.aux_rands_spec() == aux_rands@,
    {
        TraceLayout { main_width, aux_widths, aux_rands }
    }

    /// Returns the width of the main trace segment.
    pub fn main_trace_width(&self) -> (r: usize)
        ensures
            r == self.main_width_spec(),
    {
        self.main_width
    }

    /// Returns the number of auxiliary segments.
    pub fn num_aux_segments(&self) -> (r: usize)
        ensures
            r == self.aux_widths_spec().len(),
    {
        self.aux_widths.len()
    }

    /// Returns the width of the auxiliary segment at `index`.
    pub fn aux_segment_width(&self, index: usize) -> (r: usize)
        requires
            index < self.aux_widths_spec().len(),
        ensures
            r == self.aux_widths_spec()[index as int],
    {
        self.aux_widths[index]
    }

    /// Returns the number of random values drawn for the auxiliary segment
    /// at `index`.
    pub fn aux_segment_rands(&self, index: usize) -> (r: usize)
        requires
            index < self.aux_rands_spec().len(),
        ensures
            r == self.aux_rands_spec()[index as int],
    {
        self.aux_rands[index]
    }

    /// Returns the total width of all auxiliary segments.
    pub fn aux_trace_width(&self) -> (r: usize)
        requires
            self.well_formed(),
        ensures
            r == seq_sum(self.aux_widths_spec()),
    {
        let ghost ws = self.aux_widths_spec();
        let mut total: usize = 0;
        let mut i: usize = 0;
        proof {
            assert(ws.take(0) =~= Seq::<usize>::empty());
        }
        while i < self.aux_widths.len()
            invariant
                ws == self.aux_widths_spec(),
                self.well_formed(),
                i <= ws.len(),
                total == seq_sum(ws.take(i as int)),
            decreases ws.len() - i,
        {
            proof {
                lemma_seq_sum_bounds(ws, i + 1);
                assert(ws.take(i + 1).drop_last() =~= ws.take(i as int));
                assert(seq_sum(ws.take(i + 1)) == seq_sum(ws.take(i as int)) + ws[i as int]);
            }
            total = total + self.aux_widths[i];
            i = i + 1;
        }
        proof {
            assert(ws.take(ws.len() as int) =~= ws);
        }
        total
    }
}

/// The immutable description of a trace's dimensions and metadata, handed to
/// the AIR when a proof is set up.
#[derive(Debug, Clone)]
pub struct TraceInfo {
    width: usize,
    length: usize,
    meta: Vec<u8>,
}

impl TraceInfo {
    /// Dimension bounds every trace obeys.
    pub open spec fn well_formed(&self) -> bool {
        &&& 1 <= self.width_spec() <= MAX_TRACE_WIDTH
        &&& MIN_TRACE_LENGTH <= self.length_spec() <= MAX_TRACE_LENGTH
        &&& is_pow2(self.length_spec() as nat)
        &&& self.meta_spec().len() <= MAX_META_LENGTH
    }

    /// The trace width.
    pub closed spec fn width_spec(&self) -> usize {
        self.width
    }

    /// The trace length.
    pub closed spec fn length_spec(&self) -> usize {
        self.length
    }

    /// The metadata bytes.
    pub closed spec fn meta_spec(&self) -> Seq<u8> {
        self.meta@
    }

    /// Builds a trace description; the bounds are construction
    /// preconditions.
    pub fn new(width: usize, length: usize, meta: Vec<u8>) -> (r: Self)
        requires
            1 <= width <= MAX_TRACE_WIDTH,
            MIN_TRACE_LENGTH <= length <= MAX_TRACE_LENGTH,
            is_pow2(length as nat),
            meta@.len() <= MAX_META_LENGTH,
        ensures
            r.well_formed(),
            r.width_spec() == width,
            r.length_spec() == length,
            r.meta_spec() == meta@,
    {
        TraceInfo { width, length, meta }
    }

    /// Returns the trace width.
    pub fn width(&self) -> (r: usize)
        ensures
            r == self.width_spec(),
    {
        self.width
    }

    /// Returns the trace length.
    pub fn length(&self) -> (r: usize)
        ensures
            r == self.length_spec(),
    {
        self.length
    }

    /// Returns the metadata bytes.
    pub fn meta(&self) -> (r: &Vec<u8>)
        ensures
            r@ == self.meta_spec(),
    {
        &self.meta
    }
}

/// An execution trace table: one main segment of field elements, its shape,
/// and opaque metadata. Filled once, read by the AIR, then committed.
#[derive(Debug, Clone)]
pub struct TraceTable {
    layout: TraceLayout,
    trace: Matrix,
    meta: Vec<u8>,
}

/// The chained-closure description of a filled trace: some sequence of
/// states matches the stored rows, the first state comes from `init` run on
/// an all-zero row, and each later state comes from `update` run on the
/// previous one with its step index.
pub open spec fn filled_by<I, U>(rows: Seq<Seq<Felt>>, width: nat, init: I, update: U) -> bool where
    I: Fn(Vec<Felt>) -> Vec<Felt>,
    U: Fn(usize, Vec<Felt>) -> Vec<Felt>,
 {
    exists|states: Seq<Vec<Felt>>|
        {
            &&& states.len() == rows.len()
            &&& forall|k: int| 0 <= k < rows.len() ==> (#[trigger] states[k])@ == rows[k]
            &&& rows.len() > 0 ==> exists|z: Vec<Felt>|
                {
                    &&& z@.len() == width
                    &&& forall|c: int| 0 <= c < width ==> (#[trigger] z@[c])@ == 0
                    &&& init.ensures((z,), states[0])
                }
            &&& forall|k: int|
                0 <= k < rows.len() - 1 ==> #[trigger] update.ensures(
                    (k as usize, states[k]),
                    states[k + 1],
                )
        }
}

impl TraceTable {
    /// The table invariant: a rectangular main segment whose dimensions obey
    /// the protocol bounds and match the layout.
    pub open spec fn well_formed(&self) -> bool {
        &&& self.trace_spec().well_formed()
        &&& self.layout_spec().well_formed()
        &&& self.trace_spec().num_cols_spec() == self.layout_spec().main_width_spec()
        &&& MIN_TRACE_LENGTH <= self.length_spec() <= MAX_TRACE_LENGTH
        &&& is_pow2(self.length_spec() as nat)
        &&& self.meta_spec().len() <= MAX_META_LENGTH
    }

    /// The stored main segment.
    pub closed spec fn trace_spec(&self) -> Matrix {
        self.trace
    }

    /// The stored layout.
    pub closed spec fn layout_spec(&self) -> TraceLayout {
        self.layout
    }

    /// The main segment's rows.
    pub open spec fn rows_spec(&self) -> Seq<Seq<Felt>> {
        self.trace_spec()@
    }

    /// The trace width.
    pub open spec fn width_spec(&self) -> nat {
        self.trace_spec().num_cols_spec()
    }

    /// The trace length.
    pub open spec fn length_spec(&self) -> nat {
        self.trace_spec().num_rows_spec()
    }

    /// The metadata bytes.
    pub closed spec fn meta_spec(&self) -> Seq<u8> {
        self.meta@
    }

    /// Creates a zeroed execution trace of the given width and length, with
    /// one declared auxiliary segment for the permutation argument. The
    /// dimension bounds are construction preconditions.
    pub fn new(width: usize, length: usize) -> (r: Self)
        requires
            1 <= width <= MAX_TRACE_WIDTH,
            MIN_TRACE_LENGTH <= length <= MAX_TRACE_LENGTH,
            is_pow2(length as nat),
        ensures
            r.well_formed(),
            r.width_spec() == width,
            r.length_spec() == length,
            r.meta_spec() == Seq::<u8>::empty(),
            forall|k: int, c: int|
                0 <= k < length && 0 <= c < width ==> (#[trigger] r.rows_spec()[k][c])@ == 0,
    {
        Self::with_meta(width, length, Vec::new())
    }

    /// Creates a zeroed execution trace with the given metadata. The
    /// dimension and metadata bounds are construction preconditions.
    pub fn with_meta(width: usize, length: usize, meta: Vec<u8>) -> (r: Self)
        requires
            1 <= width <= MAX_TRACE_WIDTH,
            MIN_TRACE_LENGTH <= length <= MAX_TRACE_LENGTH,
            is_pow2(length as nat),
            meta@.len() <= MAX_META_LENGTH,
        ensures
            r.well_formed(),
            r.width_spec() == width,
            r.length_spec() == length,
            r.meta_spec() == meta@,
            r.layout_spec().aux_widths_spec() =~= seq![3usize],
            r.layout_spec().aux_rands_spec() =~= seq![3usize],
            forall|k: int, c: int|
                0 <= k < length && 0 <= c < width ==> (#[trigger] r.rows_spec()[k][c])@ == 0,
    {
        let mut aux_widths: Vec<usize> = Vec::new();
        aux_widths.push(3);
        let mut aux_rands: Vec<usize> = Vec::new();
        aux_rands.push(3);
        proof {
            assert(seq_sum(aux_widths@) == seq_sum(aux_widths@.drop_last()) + 3);
            assert(aux_widths@.drop_last() =~= Seq::<usize>::empty());
        }
        let layout = TraceLayout::new(width, aux_widths, aux_rands);
        let mut rows: Vec<Vec<Felt>> = Vec::new();
        let mut k: usize = 0;
        while k < length
            invariant
                k <= length,
                rows@.len() == k,
                forall|a: int| 0 <= a < k ==> (#[trigger] rows@[a])@.len() == width,
                forall|a: int, c: int|
                    0 <= a < k && 0 <= c < width ==> (#[trigger] rows@[a]@[c])@ == 0,
            decreases length - k,
        {
            rows.push(zero_row(width));
            k = k + 1;
        }
        let trace = Matrix::new(rows);
        proof {
            assert(length > 0);
        }
        TraceTable { layout, trace, meta }
    }

    /// Returns the number of columns in the main segment.
    pub fn width(&self) -> (r: usize)
        requires
            self.well_formed(),
        ensures
            r == self.width_spec(),
    {
        self.trace.num_cols()
    }

    /// Returns the number of steps in the trace.
    pub fn length(&self) -> (r: usize)
        ensures
            r == self.length_spec(),
    {
        self.trace.num_rows()
    }

    /// Returns the trace's metadata bytes.
    pub fn meta(&self) -> (r: &Vec<u8>)
        ensures
            r@ == self.meta_spec(),
    {
        &self.meta
    }

    /// Returns the trace's layout.
    pub fn layout(&self) -> (r: &TraceLayout)
        ensures
            *r == self.layout_spec(),
    {
        &self.layout
    }

    /// Returns the main segment matrix.
    pub fn main_segment(&self) -> (r: &Matrix)
        ensures
            *r == self.trace_spec(),
    {
        &self.trace
    }

    /// Returns the cell in the specified column at the specified step.
    pub fn get(&self, column: usize, step: usize) -> (r: Felt)
        requires
            self.well_formed(),
            column < self.width_spec(),
            step < self.length_spec(),
        ensures
            r == self.rows_spec()[step as int][column as int],
    {
        self.trace.get(column, step)
    }

    /// Copies the row at `step` into `target`.
    pub fn read_row_into(&self, step: usize, target: &mut Vec<Felt>)
        requires
            self.well_formed(),
            step < self.length_spec(),
            old(target)@.len() == self.width_spec(),
        ensures
            final(target)@ == self.rows_spec()[step as int],
    {
        self.trace.read_row_into(step, target);
    }

    /// Overwrites the row at `step` with a copy of `state`; every other row
    /// is unchanged.
    pub fn update_row(&mut self, step: usize, state: &Vec<Felt>)
        requires
            old(self).well_formed(),
            step < old(self).length_spec(),
            state@.len() == old(self).width_spec(),
        ensures
            final(self).well_formed(),
            final(self).layout_spec() == old(self).layout_spec(),
            final(self).meta_spec() == old(self).meta_spec(),
            final(self).rows_spec() == old(self).rows_spec().update(step as int, state@),
    {
        self.trace.update_row(step, state);
    }

    /// Fills every row of the trace: `init` produces row zero from an
    /// all-zero state, and `update`, given the last step index and the last
    /// state, produces the next row. Every cell is written exactly once.
    pub fn fill<I, U>(&mut self, init: I, update: U) where
        I: Fn(Vec<Felt>) -> Vec<Felt>,
        U: Fn(usize, Vec<Felt>) -> Vec<Felt>,

        requires
            old(self).well_formed(),
            forall|s: Vec<Felt>| s@.len() == old(self).width_spec() ==> #[trigger] init.requires(
                (s,),
            ),
            forall|s: Vec<Felt>, out: Vec<Felt>| #[trigger]
                init.ensures((s,), out) ==> out@.len() == s@.len(),
            forall|k: usize, s: Vec<Felt>|
                s@.len() == old(self).width_spec() ==> #[trigger] update.requires((k, s)),
            forall|k: usize, s: Vec<Felt>, out: Vec<Felt>| #[trigger]
                update.ensures((k, s), out) ==> out@.len() == s@.len(),
        ensures
            final(self).well_formed(),
            final(self).layout_spec() == old(self).layout_spec(),
            final(self).meta_spec() == old(self).meta_spec(),
            final(self).width_spec() == old(self).width_spec(),
            final(self).length_spec() == old(self).length_spec(),
            filled_by(final(self).rows_spec(), final(self).width_spec(), init, update),
    {
        let width = self.width();
        let length = self.length();
        let state0 = zero_row(width);
        let ghost z = state0;
        let mut state = init(state0);
        self.update_row(0, &state);
        let ghost mut states: Seq<Vec<Felt>> = seq![state];
        let mut i: usize = 0;
        while i < length - 1
            invariant
                self.well_formed(),
                self.layout_spec() == old(self).layout_spec(),
                self.meta_spec() == old(self).meta_spec(),
                self.width_spec() == old(self).width_spec(),
                self.length_spec() == old(self).length_spec(),
                width == self.width_spec(),
                length == self.length_spec(),
                length >= 1,
                i <= length - 1,
                states.len() == i + 1,
                state == states[states.len() - 1],
                state@.len() == width,
                forall|k: int| 0 <= k <= i ==> (#[trigger] states[k])@ == self.rows_spec()[k],
                z@.len() == width && (forall|c: int| 0 <= c < width ==> (#[trigger] z@[c])@ == 0),
                init.ensures((z,), states[0]),
                forall|k: int|
                    0 <= k < i ==> #[trigger] update.ensures((k as usize, states[k]), states[k + 1]),
                forall|s: Vec<Felt>, out: Vec<Felt>| #[trigger]
                    init.ensures((s,), out) ==> out@.len() == s@.len(),
                forall|k: usize, s: Vec<Felt>|
                    s@.len() == self.width_spec() ==> #[trigger] update.requires((k, s)),
                forall|k: usize, s: Vec<Felt>, out: Vec<Felt>| #[trigger]
                    update.ensures((k, s), out) ==> out@.len() == s@.len(),
            decreases length - 1 - i,
        {
            state = update(i, state);
            self.update_row(i + 1, &state);
            proof {
                states = states.push(state);
            }
            i = i + 1;
        }
        proof {
            assert(states.len() == self.length_spec());
            assert(filled_by(self.rows_spec(), self.width_spec(), init, update));
        }
    }

    /// Reads the two-row evaluation frame at `row_idx` out of the main
    /// segment: the current row, and the next row with wraparound, so the
    /// frame after the last step sees row zero as its next row.
    pub fn read_main_frame(&self, row_idx: usize, frame: &mut DefaultEvaluationFrame)
        requires
            self.well_formed(),
            row_idx < self.length_spec(),
            old(frame).rows().len() == WINDOW_DEPTH,
            forall|w: int|
                0 <= w < WINDOW_DEPTH ==> (#[trigger] old(frame).rows()[w]).len()
                    == self.width_spec(),
        ensures
            final(frame).rows().len() == WINDOW_DEPTH,
            final(frame).rows()[0] == self.rows_spec()[row_idx as int],
            final(frame).rows()[1] == self.rows_spec()[((row_idx + 1) as int) % (
            self.length_spec() as int)],
    {
        frame.read_from(&self.trace, row_idx);
        proof {
            vstd::arithmetic::div_mod::lemma_small_mod(row_idx as nat, self.length_spec());
            assert((row_idx + 0) % (self.length_spec() as int) == row_idx as int);
        }
    }

    /// Frame wraparound: a frame read at the trace's last step, as
    /// `read_main_frame` describes it, holds row zero as its next row.
    pub proof fn lemma_frame_wraparound(self, frame: DefaultEvaluationFrame, row_idx: int)
        requires
            self.length_spec() >= 1,
            row_idx == self.length_spec() - 1,
            frame.rows().len() == WINDOW_DEPTH,
            frame.rows()[1] == self.rows_spec()[((row_idx + 1) as int) % (
            self.length_spec() as int)],
        ensures
            frame.rows()[1] == self.rows_spec()[0],
    {
        let len = self.length_spec() as int;
        assert((row_idx + 1) % len == 0) by {
            vstd::arithmetic::div_mod::lemma_mod_self_0(len);
        };
    }

    /// Builds the auxiliary segment for the permutation argument, or returns
    /// nothing when the layout declares no auxiliary segment or one was
    /// already built. Two bus columns are re-seeded from main columns
    /// `(2, 3)` and `(6, 7)` at row zero and at the last row of every cycle,
    /// and a running-product column starts at one and multiplies, at every
    /// step, the shifted previous bus values' ratio.
    pub fn build_aux_segment(
        &self,
        aux_segments: &Vec<Matrix>,
        rand_elements: &Vec<Felt>,
    ) -> (r: Option<Matrix>)
        requires
            self.well_formed(),
            self.width_spec() >= 8,
            rand_elements@.len() >= 3,
        ensures
            (r matches Some(_)) <==> (aux_segments@.len() == 0
                && self.layout_spec().aux_widths_spec().len() > 0),
            r matches Some(m) ==> {
                let rows = self.rows_spec();
                let len = self.length_spec() as int;
                let r0 = rand_elements@[0]@;
                let r1 = rand_elements@[1]@;
                let r2 = rand_elements@[2]@;
                let bus0 = Seq::new(len as nat, |i: int| (m@[i][0])@);
                let bus1 = Seq::new(len as nat, |i: int| (m@[i][1])@);
                &&& m.well_formed()
                &&& m.num_rows_spec() == len
                &&& m.num_cols_spec() == 3
                &&& forall|i: int|
                    0 <= i < len ==> (#[trigger] m@[i][0])@ == (if i == 0 || i % (
                    CYCLE_LENGTH as int) == CYCLE_LENGTH - 1 {
                        fadd(fmul(r0, rows[i][2]@), fmul(r1, rows[i][3]@))
                    } else {
                        0
                    })
                &&& forall|i: int|
                    0 <= i < len ==> (#[trigger] m@[i][1])@ == (if i == 0 || i % (
                    CYCLE_LENGTH as int) == CYCLE_LENGTH - 1 {
                        fadd(fmul(r0, rows[i][6]@), fmul(r1, rows[i][7]@))
                    } else {
                        0
                    })
                &&& forall|i: int|
                    0 <= i < len ==> (#[trigger] m@[i][2])@ == running_product(bus0, bus1, r2, i)
            },
    {
        if self.layout.num_aux_segments() == 0 {
            return None;
        }
        if aux_segments.len() > 0 {
            return None;
        }
        let r0 = rand_elements[0];
        let r1 = rand_elements[1];
        let r2 = rand_elements[2];
        let length = self.length();
        let row0 = self.trace.read_row(0);
        let mut first: Vec<Felt> = Vec::new();
        first.push(r0.mul(row0[2]).add(r1.mul(row0[3])));
        first.push(r0.mul(row0[6]).add(r1.mul(row0[7])));
        first.push(Felt::one());
        let mut prev_b0 = first[0];
        let mut prev_b1 = first[1];
        let mut prev_p = first[2];
        let mut rows: Vec<Vec<Felt>> = Vec::new();
        rows.push(first);
        let mut i: usize = 1;
        while i < length
            invariant
                self.well_formed(),
                self.width_spec() >= 8,
                length == self.length_spec(),
                r0 == rand_elements@[0] && r1 == rand_elements@[1] && r2 == rand_elements@[2],
                1 <= i <= length,
                rows@.len() == i,
                forall|k: int| 0 <= k < i ==> (#[trigger] rows@[k])@.len() == 3,
                prev_b0 == rows@[i - 1]@[0],
                prev_b1 == rows@[i - 1]@[1],
                prev_p == rows@[i - 1]@[2],
                forall|k: int|
                    0 <= k < i ==> (#[trigger] rows@[k]@[0])@ == (if k == 0 || k % (
                    CYCLE_LENGTH as int) == CYCLE_LENGTH - 1 {
                        fadd(
                            fmul(r0@, self.rows_spec()[k][2]@),
                            fmul(r1@, self.rows_spec()[k][3]@),
                        )
                    } else {
                        0
                    }),
                forall|k: int|
                    0 <= k < i ==> (#[trigger] rows@[k]@[1])@ == (if k == 0 || k % (
                    CYCLE_LENGTH as int) == CYCLE_LENGTH - 1 {
                        fadd(
                            fmul(r0@, self.rows_spec()[k][6]@),
                            fmul(r1@, self.rows_spec()[k][7]@),
                        )
                    } else {
                        0
                    }),
                forall|k: int|
                    0 <= k < i ==> (#[trigger] rows@[k]@[2])@ == running_product(
                        Seq::new(i as nat, |t: int| (rows@[t]@[0])@),
                        Seq::new(i as nat, |t: int| (rows@[t]@[1])@),
                        r2@,
                        k,
                    ),
            decreases length - i,
        {
            let ghost prev_rows = rows@;
            let mut next: Vec<Felt> = Vec::new();
            if i % CYCLE_LENGTH == CYCLE_LENGTH - 1 {
                let row = self.trace.read_row(i);
                next.push(r0.mul(row[2]).add(r1.mul(row[3])));
                next.push(r0.mul(row[6]).add(r1.mul(row[7])));
            } else {
                next.push(Felt::zero());
                next.push(Felt::zero());
            }
            let num = prev_b0.add(r2);
            let denom = prev_b1.add(r2);
            let p = prev_p.mul(num).mul(denom.inverse());
            next.push(p);
            rows.push(next);
            prev_b0 = rows[i][0];
            prev_b1 = rows[i][1];
            prev_p = rows[i][2];
            proof {
                let na = Seq::new((i + 1) as nat, |t: int| (rows@[t]@[0])@);
                let nb = Seq::new((i + 1) as nat, |t: int| (rows@[t]@[1])@);
                let oa = Seq::new(i as nat, |t: int| (prev_rows[t]@[0])@);
                let ob = Seq::new(i as nat, |t: int| (prev_rows[t]@[1])@);
                assert forall|k: int| 0 <= k < i + 1 implies (#[trigger] rows@[k]@[2])@
                    == running_product(na, nb, r2@, k) by {
                    if k < i {
                        assert(running_product(oa, ob, r2@, k) == running_product(na, nb, r2@, k))
                            by {
                            crate::product::lemma_running_product_prefix(oa, ob, na, nb, r2@, k);
                        };
                    } else {
                        assert(running_product(na, nb, r2@, i as int) == fmul(
                            fmul(running_product(na, nb, r2@, i - 1), fadd(na[i - 1], r2@)),
                            finv(fadd(nb[i - 1], r2@)),
                        ));
                        crate::product::lemma_running_product_prefix(oa, ob, na, nb, r2@, i - 1);
                    }
                };
            }
            i = i + 1;
        }
        let m = Matrix::new(rows);
        proof {
            let len = self.length_spec() as int;
            let bus0 = Seq::new(len as nat, |t: int| (m@[t][0])@);
            let bus1 = Seq::new(len as nat, |t: int| (m@[t][1])@);
            let fa = Seq::new(len as nat, |t: int| (rows@[t]@[0])@);
            let fb = Seq::new(len as nat, |t: int| (rows@[t]@[1])@);
            assert(bus0 =~= fa);
            assert(bus1 =~= fb);
            assert forall|k: int| 0 <= k < len implies (#[trigger] m@[k][2])@ == running_product(
                bus0,
                bus1,
                r2@,
                k,
            ) by {
                crate::product::lemma_running_product_prefix(fa, fb, bus0, bus1, r2@, k);
                assert(m@[k] == rows@[k]@);
            };
        }
        Some(m)
    }
}

} // verus!
