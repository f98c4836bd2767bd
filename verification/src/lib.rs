//! Dense matrix multiplication over `i64` with a verified core.
//!
//! The library provides vectors with a dot product, row-major matrices with
//! construction, rendering and multiplication, the task protocol that a
//! worker-pool dispatcher uses to distribute one dot product per output cell,
//! and a small counter map for instrumentation.

pub mod arith;
pub mod collect;
pub mod digits;
pub mod errors;
pub mod matrix;
pub mod metrics;
pub mod vector;

pub use errors::MatrixError;
pub use errors::MetricsError;
