//! Error taxonomy of the library.

use vstd::prelude::*;

verus! {

/// Failures of matrix construction and multiplication.
#[derive(Clone, Copy, Debug, PartialEq, Eq, Structural)]
pub enum MatrixError {
    /// The inner dimensions of the two factors differ.
    DimensionMismatch,
    /// The two vectors of a dot product have different lengths.
    VectorLengthMismatch,
    /// A buffer's length does not match the declared dimensions.
    ConstructionError,
    /// A task could not be routed to its worker.
    WorkerSendFailure,
    /// A completion handle was dropped, or its worker died, before resolving.
    WorkerUnavailable,
}

/// Failures of the metrics counter map.
#[derive(Clone, Copy, Debug, PartialEq, Eq, Structural)]
pub enum MetricsError {
    /// The named counter does not exist.
    KeyNotFound,
}

} // verus!
