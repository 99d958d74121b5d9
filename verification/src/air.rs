//! The AIR contract: a user-supplied description of a computation as
//! transition constraints over evaluation frames plus boundary assertions,
//! built once per proof and immutable thereafter; and the reference
//! iterated-power AIR that exercises it.

use vstd::prelude::*;

verus! {

use crate::codec::{ByteWriter, Serializable, u64_le_bytes};
use crate::field::{Felt, fadd, fsub, fmul, fexp};
use crate::frame::{DefaultEvaluationFrame, EvaluationFrame};
use crate::table::{TraceInfo, TraceTable};

/// The exponent of the reference iterated-power computation.
pub const ALPHA: u64 = 3;

/// The additive constant of the reference iterated-power computation.
pub const FORTY_TWO: u64 = 42;

/// A claim that one trace cell holds a public value: the anchor between the
/// trace and the public inputs.
#[derive(Debug, Clone, Copy, PartialEq, Eq, Structural)]
pub struct Assertion {
    /// The column the claim is about.
    pub column: usize,
    /// The step the claim is about.
    pub step: usize,
    /// The value the cell must hold.
    pub value: Felt,
}

impl Assertion {
    /// A claim against a single cell.
    pub fn single(column: usize, step: usize, value: Felt) -> (r: Self)
        ensures
            r.column == column,
            r.step == step,
            r.value == value,
    {
        Assertion { column, step, value }
    }

    /// Checks the claim against a trace table.
    pub fn is_satisfied(&self, trace: &TraceTable) -> (r: bool)
        requires
            trace.well_formed(),
            self.column < trace.width_spec(),
            self.step < trace.length_spec(),
        ensures
            r == (trace.rows_spec()[self.step as int][self.column as int]@ == self.value@),
    {
        let cell = trace.get(self.column, self.step);
        let lhs = cell.as_u64();
        let rhs = self.value.as_u64();
        lhs == rhs
    }
}

/// The degree of one transition constraint polynomial.
#[derive(Debug, Clone, Copy, PartialEq, Eq, Structural)]
pub struct TransitionConstraintDegree {
    degree: usize,
}

impl TransitionConstraintDegree {
    /// The degree spec: at least one.
    pub closed spec fn degree_spec(&self) -> usize {
        self.degree
    }

    /// A constraint of the given polynomial degree; zero-degree constraints
    /// are meaningless, so the degree must be at least one.
    pub fn new(degree: usize) -> (r: Self)
        requires
            degree >= 1,
        ensures
            r.degree_spec() == degree,
    {
        TransitionConstraintDegree { degree }
    }

    /// Returns the constraint's degree.
    pub fn degree(&self) -> (r: usize)
        ensures
            r == self.degree_spec(),
    {
        self.degree
    }
}

/// Protocol options that shape a proof: how many queries are drawn, the
/// low-degree-extension blowup, and the proof-of-work grinding factor.
#[derive(Debug, Clone, Copy, PartialEq, Eq, Structural)]
pub struct ProofOptions {
    /// Number of queries drawn against the committed trace.
    pub num_queries: u8,
    /// Low-degree-extension blowup factor.
    pub blowup_factor: u8,
    /// Proof-of-work grinding bits mixed into the public coin.
    pub grinding_factor: u8,
}

impl ProofOptions {
    /// Bundles the protocol parameters.
    pub fn new(num_queries: u8, blowup_factor: u8, grinding_factor: u8) -> (r: Self)
        ensures
            r.num_queries == num_queries,
            r.blowup_factor == blowup_factor,
            r.grinding_factor == grinding_factor,
    {
        ProofOptions { num_queries, blowup_factor, grinding_factor }
    }
}

/// The immutable bundle an AIR is built around: trace shape, declared
/// constraint degrees, assertion count, and protocol options.
#[derive(Debug, Clone)]
pub struct AirContext {
    trace_info: TraceInfo,
    constraint_degrees: Vec<TransitionConstraintDegree>,
    num_assertions: usize,
    options: ProofOptions,
}

impl AirContext {
    /// The context invariant: a well-formed trace shape, at least one
    /// declared constraint, and at least one assertion.
    pub open spec fn well_formed(&self) -> bool {
        &&& self.trace_info_spec().well_formed()
        &&& self.degrees_spec().len() >= 1
        &&& self.num_assertions_spec() >= 1
    }

    /// The trace shape.
    pub closed spec fn trace_info_spec(&self) -> TraceInfo {
        self.trace_info
    }

    /// The declared constraint degrees.
    pub closed spec fn degrees_spec(&self) -> Seq<TransitionConstraintDegree> {
        self.constraint_degrees@
    }

    /// The number of boundary assertions.
    pub closed spec fn num_assertions_spec(&self) -> usize {
        self.num_assertions
    }

    /// The protocol options.
    pub closed spec fn options_spec(&self) -> ProofOptions {
        self.options
    }

    /// Builds a context; emptiness violations are construction
    /// preconditions.
    pub fn new(
        trace_info: TraceInfo,
        constraint_degrees: Vec<TransitionConstraintDegree>,
        num_assertions: usize,
        options: ProofOptions,
    ) -> (r: Self)
        requires
            trace_info.well_formed(),
            constraint_degrees@.len() >= 1,
            num_assertions >= 1,
        ensures
            r.well_formed(),
            r.trace_info_spec() == trace_info,
            r.degrees_spec() == constraint_degrees@,
            r.num_assertions_spec() == num_assertions,
            r.options_spec() == options,
    {
        AirContext { trace_info, constraint_degrees, num_assertions, options }
    }

    /// Returns the trace shape.
    pub fn trace_info(&self) -> (r: &TraceInfo)
        ensures
            *r == self.trace_info_spec(),
    {
        &self.trace_info
    }

    /// Returns the number of transition constraints.
    pub fn num_transition_constraints(&self) -> (r: usize)
        ensures
            r == self.degrees_spec().len(),
    {
        self.constraint_degrees.len()
    }

    /// Returns the number of boundary assertions.
    pub fn num_assertions(&self) -> (r: usize)
        ensures
            r == self.num_assertions_spec(),
    {
        self.num_assertions
    }

    /// Returns the protocol options.
    pub fn options(&self) -> (r: &ProofOptions)
        ensures
            *r == self.options_spec(),
    {
        &self.options
    }
}

/// A user-supplied computation description: its constraint count and
/// degrees, a pure transition-evaluation function over one frame, and the
/// boundary assertions anchoring the trace to the public inputs.
pub trait Air: Sized {
    /// The public inputs the computation is checked against.
    type PublicInputs;

    /// Builds the AIR once per proof from the trace shape, the public
    /// inputs, and the protocol options.
    fn new(trace_info: TraceInfo, pub_inputs: Self::PublicInputs, options: ProofOptions) -> (r:
        Self)
        requires
            trace_info.well_formed(),
        ensures
            r.context().well_formed(),
    ;

    /// The immutable context the AIR was built around.
    spec fn context(&self) -> AirContext;

    /// Returns the AIR's context.
    fn get_context(&self) -> (r: &AirContext)
        ensures
            *r == self.context(),
    ;

    /// Evaluates the transition constraints over one frame, writing one
    /// value per declared constraint into `result`; a valid trace makes
    /// every value zero. The function must be pure: the outcome is fixed by
    /// the frame and the periodic values alone.
    fn evaluate_transition(
        &self,
        frame: &DefaultEvaluationFrame,
        periodic_values: &Vec<Felt>,
        result: &mut Vec<Felt>,
    )
        requires
            self.context().well_formed(),
            frame.rows().len() == 2,
            forall|w: int|
                0 <= w < 2 ==> (#[trigger] frame.rows()[w]).len() == self.context().trace_info_spec().width_spec(),
            old(result)@.len() == self.context().degrees_spec().len(),
        ensures
            final(result)@.len() == old(result)@.len(),
    ;

    /// Returns the boundary assertions anchoring the trace to the public
    /// inputs.
    fn get_assertions(&self) -> (r: Vec<Assertion>)
        requires
            self.context().well_formed(),
        ensures
            r@.len() == self.context().num_assertions_spec(),
    ;
}

/// Public inputs of the reference iterated-power computation: the seed the
/// trace starts from and the value it must end at.
#[derive(Debug, Clone, Copy, PartialEq, Eq, Structural)]
pub struct VdfInputs {
    /// The first trace cell.
    pub seed: Felt,
    /// The last trace cell.
    pub result: Felt,
}

impl Serializable for VdfInputs {
    open spec fn serialized(&self) -> Seq<u8> {
        u64_le_bytes(self.seed@) + u64_le_bytes(self.result@)
    }

    fn write_into<W: ByteWriter>(&self, target: &mut W) {
        target.write_u64(self.seed.as_u64());
        target.write_u64(self.result.as_u64());
        proof {
            assert(target.sink() =~= old(target).sink() + self.serialized());
        }
    }
}

/// The reference AIR: a single-column trace where every next cell is the
/// previous cell raised to `ALPHA` plus `FORTY_TWO`, anchored by assertions
/// on the first and last cells.
pub struct VdfAir {
    air_context: AirContext,
    seed: Felt,
    result: Felt,
}

impl VdfAir {
    /// Every value of this AIR declares one cubic constraint and two
    /// boundary assertions.
    #[verifier::type_invariant]
    closed spec fn shape_inv(self) -> bool {
        self.air_context.degrees_spec().len() == 1 && self.air_context.num_assertions_spec() == 2
    }

    /// The seed the trace must start from.
    pub closed spec fn seed_spec(&self) -> Felt {
        self.seed
    }

    /// The value the trace must end at.
    pub closed spec fn result_spec(&self) -> Felt {
        self.result
    }
}

/// The transition rule of the reference computation on residues.
pub open spec fn vdf_next(state: nat) -> nat {
    fadd(fexp(state, ALPHA as nat), FORTY_TWO as nat)
}

impl Air for VdfAir {
    type PublicInputs = VdfInputs;

    fn new(trace_info: TraceInfo, pub_inputs: VdfInputs, options: ProofOptions) -> (r: Self) {
        let mut degrees: Vec<TransitionConstraintDegree> = Vec::new();
        degrees.push(TransitionConstraintDegree::new(3));
        let air_context = AirContext::new(trace_info, degrees, 2, options);
        VdfAir { air_context, seed: pub_inputs.seed, result: pub_inputs.result }
    }

    closed spec fn context(&self) -> AirContext {
        self.air_context
    }

    fn get_context(&self) -> (r: &AirContext) {
        &self.air_context
    }

    /// Writes `next - (current^ALPHA + FORTY_TWO)` into the single
    /// constraint slot: zero exactly when the step follows the rule.
    fn evaluate_transition(
        &self,
        frame: &DefaultEvaluationFrame,
        periodic_values: &Vec<Felt>,
        result: &mut Vec<Felt>,
    )
        ensures
            final(result)@.len() == old(result)@.len(),
            self.context().trace_info_spec().width_spec() >= 1 ==> (final(result)@[0])@ == fsub(
                frame.rows()[1][0]@,
                vdf_next(frame.rows()[0][0]@),
            ),
    {
        let row_current = frame.row(0);
        let current_state = row_current[0];
        let row_next = frame.row(1);
        let next_state = row_next[0];
        let shift = Felt::new(FORTY_TWO);
        proof {
            assert(shift@ == FORTY_TWO as nat);
        }
        let expected = current_state.exp(ALPHA).add(shift);
        let value = next_state.sub(expected);
        result.set(0, value);
    }

    fn get_assertions(&self) -> (r: Vec<Assertion>)
        ensures
            r@.len() == 2,
            r@[0].column == 0 && r@[0].step == 0 && r@[0].value == self.seed_spec(),
            r@[1].column == 0 && r@[1].step == self.context().trace_info_spec().length_spec() - 1
                && r@[1].value == self.result_spec(),
    {
        proof {
            use_type_invariant(self);
        }
        let last_step = self.air_context.trace_info().length() - 1;
        let mut r: Vec<Assertion> = Vec::new();
        r.push(Assertion::single(0, 0, self.seed));
        r.push(Assertion::single(0, last_step, self.result));
        r
    }
}

} // verus!
