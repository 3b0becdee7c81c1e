use vstd::prelude::*;

verus! {

/// A fault that ends one integration call.
#[derive(Clone, Copy, Debug, PartialEq, Eq, Structural)]
pub enum SolverError {
    /// A vector or matrix does not have the length the computation needs.
    DimensionMismatch { expected: usize, found: usize },
    /// No pivot of sufficient magnitude was found at elimination step `step`.
    SingularMatrix { step: usize },
}

} // verus!
