use vstd::prelude::*;

verus! {

/// Everything that can go wrong inside the engine. All of these come from
/// misuse (wrong shapes, wrong configuration), never from data values.
#[derive(Debug, Clone, Copy, PartialEq, Eq, Structural)]
pub enum NetworkError {
    /// Two matrix operands with incompatible shapes, with both shapes.
    DimensionMismatch { left_rows: usize, left_cols: usize, right_rows: usize, right_cols: usize },
    /// A backward or output transform asked of a variant that has none.
    UnsupportedOperation,
    /// Softmax on an output layer bound to a loss other than cross-entropy.
    InvalidCombination,
    /// A network initialized before any layer was added.
    MissingLayers,
    /// An optimizer step with neither a fixed rate nor a schedule.
    MissingLearningRate,
    /// A matrix access outside its declared bounds.
    IndexOutOfRange,
}

/// The mismatch error that reports the shapes `a` and `b`.
pub open spec fn mismatch(ar: usize, ac: usize, br: usize, bc: usize) -> NetworkError {
    NetworkError::DimensionMismatch { left_rows: ar, left_cols: ac, right_rows: br, right_cols: bc }
}

} // verus!
