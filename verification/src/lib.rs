//! Decoding of annotated-matrix datasets stored in a hierarchical binary
//! container: categorical columns, annotation tables, and a compressed
//! sparse row matrix materialized as a dense grid.
use vstd::prelude::*;

pub mod anndata;
pub mod brute_force;
pub mod categorical;
pub mod container;
pub mod error;
pub mod sparse;

verus! {

/// Sum of two machine words.
pub fn add(left: u64, right: u64) -> (r: u64)
    requires
        left + right <= u64::MAX,
    ensures
        r == left + right,
{
    left + right
}

} // verus!
