use stark_trace::{
    Air, Assertion, DefaultEvaluationFrame, EvaluationFrame, Felt, Matrix, ProofOptions,
    TraceInfo, TraceTable, VdfAir, VdfInputs,
};
use stark_trace::{flatten_vector_elements, group_slice_elements, group_vector_elements,
    transpose_slice};

/// The reference state transition on plain residues: `x^3 + 42 mod 257`.
fn vdf_step(x: u64) -> u64 {
    (x * x % 257 * x % 257 + 42) % 257
}

fn felts(values: &[u64]) -> Vec<Felt> {
    values.iter().map(|v| Felt::new(*v)).collect()
}

#[test]
fn construction_succeeds_for_all_valid_shapes() {
    for width in [1usize, 2, 8, 255] {
        for length in [8usize, 16, 32, 64, 128, 256] {
            let table = TraceTable::new(width, length);
            assert_eq!(table.width(), width);
            assert_eq!(table.length(), length);
            for column in 0..width {
                for step in 0..length {
                    assert_eq!(table.get(column, step).as_u64(), 0);
                }
            }
        }
    }
}

#[test]
fn with_meta_keeps_metadata() {
    let table = TraceTable::with_meta(2, 8, vec![9, 8, 7]);
    assert_eq!(table.meta(), &vec![9, 8, 7]);
    assert_eq!(table.layout().main_trace_width(), 2);
    assert_eq!(table.layout().num_aux_segments(), 1);
    assert_eq!(table.layout().aux_segment_width(0), 3);
    assert_eq!(table.layout().aux_segment_rands(0), 3);
    assert_eq!(table.layout().aux_trace_width(), 3);
}

#[test]
fn fill_writes_every_cell_once() {
    // Scenario: width 1, length 8; row zero holds the seed, every next row
    // holds the previous value cubed plus forty-two.
    let seed = 3u64;
    let mut table = TraceTable::new(1, 8);
    table.fill(
        |mut state: Vec<Felt>| {
            state[0] = Felt::new(seed);
            state
        },
        |_step: usize, mut state: Vec<Felt>| {
            state[0] = state[0].exp(3).add(Felt::new(42));
            state
        },
    );
    let mut expected = seed;
    for step in 0..8 {
        assert_eq!(table.get(0, step).as_u64(), expected);
        expected = vdf_step(expected);
    }
    // The last cell holds the closed-form iterated value.
    let mut closed_form = seed;
    for _ in 0..7 {
        closed_form = vdf_step(closed_form);
    }
    assert_eq!(table.get(0, 7).as_u64(), closed_form);

    // Both boundary assertions hold against the filled trace.
    let first = Assertion::single(0, 0, Felt::new(seed));
    let last = Assertion::single(0, 7, Felt::new(closed_form));
    assert!(first.is_satisfied(&table));
    assert!(last.is_satisfied(&table));
}

#[test]
fn update_row_changes_only_its_row() {
    let mut table = TraceTable::new(2, 8);
    table.update_row(3, &felts(&[5, 6]));
    assert_eq!(table.get(0, 3).as_u64(), 5);
    assert_eq!(table.get(1, 3).as_u64(), 6);
    assert_eq!(table.get(0, 2).as_u64(), 0);
    assert_eq!(table.get(1, 4).as_u64(), 0);
}

#[test]
fn read_row_into_copies_a_row() {
    let mut table = TraceTable::new(3, 8);
    table.update_row(5, &felts(&[1, 2, 3]));
    let mut row = felts(&[0, 0, 0]);
    table.read_row_into(5, &mut row);
    assert_eq!(row, felts(&[1, 2, 3]));
}

#[test]
fn frame_wraps_around_at_the_last_step() {
    let mut table = TraceTable::new(1, 8);
    table.fill(
        |mut state: Vec<Felt>| {
            state[0] = Felt::new(1);
            state
        },
        |_step: usize, mut state: Vec<Felt>| {
            state[0] = state[0].add(Felt::new(1));
            state
        },
    );
    let mut frame = DefaultEvaluationFrame::new(1);
    table.read_main_frame(7, &mut frame);
    assert_eq!(frame.row(0)[0].as_u64(), 8);
    // The "next" row at the last step is row zero.
    assert_eq!(frame.row(1)[0].as_u64(), 1);
    assert_eq!(frame.row_count(), 2);
}

#[test]
fn frame_read_from_repopulates_in_place() {
    let m = Matrix::new(vec![felts(&[10, 11]), felts(&[20, 21]), felts(&[30, 31])]);
    let mut frame = DefaultEvaluationFrame::new(2);
    frame.read_from(&m, 1);
    assert_eq!(frame.row(0), &felts(&[20, 21]));
    assert_eq!(frame.row(1), &felts(&[30, 31]));
    frame.read_from(&m, 2);
    assert_eq!(frame.row(0), &felts(&[30, 31]));
    // The row after the last wraps around to row zero.
    assert_eq!(frame.row(1), &felts(&[10, 11]));
}

#[test]
fn frame_from_rows_holds_given_rows() {
    let frame = DefaultEvaluationFrame::from_rows(vec![felts(&[1, 2]), felts(&[3, 4])]);
    assert_eq!(frame.row(0), &felts(&[1, 2]));
    assert_eq!(frame.row(1), &felts(&[3, 4]));
}

/// A width-eight table whose bus column pairs `(2, 3)` and `(6, 7)` hold the
/// given values in every seeded row.
fn bus_table(pair_a: (u64, u64), pair_b: (u64, u64)) -> TraceTable {
    let mut table = TraceTable::new(8, 8);
    let row: Vec<Felt> = felts(&[0, 0, pair_a.0, pair_a.1, 0, 0, pair_b.0, pair_b.1]);
    for step in 0..8 {
        table.update_row(step, &row);
    }
    table
}

#[test]
fn aux_segment_product_is_one_for_permuted_buses() {
    // Columns (2, 3) hold (1, 2) and columns (6, 7) hold (2, 1): with equal
    // randomness weights the two buses carry the same values, a permutation.
    let table = bus_table((1, 2), (2, 1));
    let rands = felts(&[1, 1, 1]);
    let aux = table.build_aux_segment(&Vec::new(), &rands).unwrap();
    assert_eq!(aux.num_rows(), 8);
    assert_eq!(aux.num_cols(), 3);
    assert_eq!(aux.get(2, 0).as_u64(), 1);
    assert_eq!(aux.get(2, 7).as_u64(), 1);
}

#[test]
fn aux_segment_product_detects_tampering() {
    // Bus values (1*1 + 1*2) = 3 and (1*3 + 1*4) = 7 differ, so the final
    // product is (3+1) * inverse(7+1) = 4 * inverse(8) = 129 mod 257, not 1.
    let table = bus_table((1, 2), (3, 4));
    let rands = felts(&[1, 1, 1]);
    let aux = table.build_aux_segment(&Vec::new(), &rands).unwrap();
    // Bus columns are seeded at row zero and at the cycle's last row, and
    // are zero in between.
    assert_eq!(aux.get(0, 0).as_u64(), 3);
    assert_eq!(aux.get(1, 0).as_u64(), 7);
    assert_eq!(aux.get(0, 3).as_u64(), 0);
    assert_eq!(aux.get(1, 5).as_u64(), 0);
    assert_eq!(aux.get(0, 7).as_u64(), 3);
    assert_eq!(aux.get(2, 7).as_u64(), 129);
    assert_ne!(aux.get(2, 7).as_u64(), 1);
}

#[test]
fn aux_segment_is_built_only_once() {
    let table = bus_table((1, 2), (2, 1));
    let rands = felts(&[1, 1, 1]);
    let first = table.build_aux_segment(&Vec::new(), &rands).unwrap();
    let existing = vec![first];
    assert!(table.build_aux_segment(&existing, &rands).is_none());
}

#[test]
fn vdf_air_accepts_a_consistent_frame() {
    let seed = Felt::new(3);
    let trace_info = TraceInfo::new(1, 8, Vec::new());
    let mut result_value = 3u64;
    for _ in 0..7 {
        result_value = vdf_step(result_value);
    }
    let pub_inputs = VdfInputs { seed, result: Felt::new(result_value) };
    let air = VdfAir::new(trace_info, pub_inputs, ProofOptions::new(32, 8, 16));

    let frame = DefaultEvaluationFrame::from_rows(vec![
        felts(&[3]),
        felts(&[vdf_step(3)]),
    ]);
    let mut result = felts(&[99]);
    air.evaluate_transition(&frame, &Vec::new(), &mut result);
    assert_eq!(result[0].as_u64(), 0);

    // A frame that breaks the rule leaves a non-zero constraint value.
    let bad = DefaultEvaluationFrame::from_rows(vec![felts(&[3]), felts(&[5])]);
    let mut result = felts(&[0]);
    air.evaluate_transition(&bad, &Vec::new(), &mut result);
    assert_ne!(result[0].as_u64(), 0);

    let assertions = air.get_assertions();
    assert_eq!(assertions.len(), 2);
    assert_eq!(assertions[0], Assertion::single(0, 0, seed));
    assert_eq!(assertions[1], Assertion::single(0, 7, Felt::new(result_value)));

    let context = air.get_context();
    assert_eq!(context.num_transition_constraints(), 1);
    assert_eq!(context.num_assertions(), 2);
    assert_eq!(context.options().num_queries, 32);
    assert_eq!(context.trace_info().width(), 1);
    assert_eq!(context.trace_info().length(), 8);
}

#[test]
fn grouping_reinterprets_a_flat_sequence() {
    // Scenario: an eight-element flat sequence grouped in chunks of two.
    let flat: Vec<u64> = vec![0, 1, 2, 3, 4, 5, 6, 7];
    let grouped = group_vector_elements(flat, 2);
    assert_eq!(grouped, vec![vec![0, 1], vec![2, 3], vec![4, 5], vec![6, 7]]);
}

#[test]
fn grouping_a_slice_matches_the_vector_form() {
    let flat: [u64; 6] = [9, 8, 7, 6, 5, 4];
    let grouped = group_slice_elements(&flat, 3);
    assert_eq!(grouped, vec![vec![9, 8, 7], vec![6, 5, 4]]);
}

#[test]
fn flattening_undoes_grouping() {
    let flat: Vec<u64> = vec![0, 1, 2, 3, 4, 5, 6, 7];
    let grouped = group_vector_elements(flat.clone(), 4);
    assert_eq!(flatten_vector_elements(grouped), flat);
}

#[test]
fn transposition_gathers_columns() {
    let flat: [u64; 8] = [0, 1, 2, 3, 4, 5, 6, 7];
    let transposed = transpose_slice(&flat, 2);
    assert_eq!(transposed, vec![vec![0, 4], vec![1, 5], vec![2, 6], vec![3, 7]]);
}

#[test]
fn matrix_reads_and_writes_cells() {
    let mut m = Matrix::new(vec![felts(&[1, 2]), felts(&[3, 4]), felts(&[5, 6])]);
    assert_eq!(m.num_rows(), 3);
    assert_eq!(m.num_cols(), 2);
    assert_eq!(m.get(1, 2).as_u64(), 6);
    m.update_row(1, &felts(&[7, 8]));
    assert_eq!(m.get(0, 1).as_u64(), 7);
    assert_eq!(m.read_row(1), felts(&[7, 8]));
    assert_eq!(m.get(0, 0).as_u64(), 1);
}
