//! The error taxonomy shared by every decoder in this crate.
use vstd::prelude::*;

verus! {

/// Why a decode of (part of) an annotated-matrix file failed.
///
/// Required sections propagate the first of these upward; optional blocks
/// convert any of them into "block absent" at the orchestrator.
#[derive(Debug, Clone, PartialEq, Eq)]
pub enum ParseError {
    /// A named group or dataset does not exist, or its raw read failed;
    /// carries the name that could not be opened or read.
    ContainerAccessFailure(String),
    /// A category label in the file matches no schema-known variant.
    UnknownCategory(String),
    /// A categorical code has no corresponding category entry.
    UnknownCode(u64),
    /// A sparse column index (first field) reached or exceeded the declared
    /// variable count (second field).
    OutOfBoundsColumn(u64, usize),
    /// The sparse triple is inconsistent: value and index runs of unequal
    /// length, too few row pointers, or a non-monotonic row pointer run.
    MalformedSparseLayout,
    /// A condition not otherwise classified.
    Other(String),
}

} // verus!
