//! Reports on the TQFT axioms, and the dimensions a TQFT assigns to
//! boundaries.
use vstd::prelude::*;

verus! {

/// Report on TQFT axiom verification.
#[derive(Clone, Debug)]
pub struct TQFTAxiomReport {
    pub algebra_valid: bool,
    pub functoriality: bool,
    pub monoidality: bool,
    pub algebra_commutative: bool,
    pub algebra_associative: bool,
    pub frobenius_condition: bool,
}

impl TQFTAxiomReport {
    /// Whether every axiom in the report holds.
    pub fn all_pass(&self) -> (pass: bool)
        ensures
            pass == (self.algebra_valid && self.functoriality && self.monoidality
                && self.algebra_commutative && self.algebra_associative
                && self.frobenius_condition),
    {
        self.algebra_valid && self.functoriality && self.monoidality && self.algebra_commutative
            && self.algebra_associative && self.frobenius_condition
    }
}

/// The dimension of the space Z(Σ) = A^{dim} that a TQFT over an algebra A
/// of dimension `algebra_dimension` assigns to an agent boundary whose state
/// space has dimension `state_dimension`.
pub fn assigned_dimension(state_dimension: usize, algebra_dimension: usize) -> (dim: usize)
    requires
        state_dimension * algebra_dimension <= usize::MAX,
    ensures
        dim == state_dimension * algebra_dimension,
{
    state_dimension * algebra_dimension
}

} // verus!
