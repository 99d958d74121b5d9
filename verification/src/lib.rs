//! Core execution-trace and constraint-evaluation engine for a STARK proof
//! system: trace tables with randomized auxiliary segments, evaluation frames,
//! an AIR constraint contract, and a canonical byte encoding for commitments.

pub mod air;
pub mod codec;
pub mod commitments;
pub mod field;
pub mod frame;
pub mod matrix;
pub mod product;
pub mod table;
pub mod transforms;

pub use air::{Air, AirContext, Assertion, ProofOptions, TransitionConstraintDegree, VdfAir,
    VdfInputs};
pub use codec::{AsBytes, ByteReader, ByteWriter, DeserializationError, Serializable};
pub use commitments::{Commitments, ProofSerializationError};
pub use field::Felt;
pub use frame::{DefaultEvaluationFrame, EvaluationFrame};
pub use matrix::Matrix;
pub use table::{TraceInfo, TraceLayout, TraceTable};
pub use transforms::{flatten_slice_elements, flatten_vector_elements, group_slice_elements,
    group_vector_elements, transpose_slice};
