//! The one activation function that is no arithmetic.
use vstd::prelude::*;

verus! {

/// The tensor type of `smolmatrix`: `W` columns and `H` rows of numbers. Its
/// cells are not visible to this crate.
#[verifier::external_type_specification]
#[verifier::external_body]
pub struct ExMatrix<const W: usize, const H: usize>(smolmatrix::Matrix<W, H>);

/// The linear activation: every element stays as it is.
pub fn linear<const S: usize>(v: smolmatrix::Vector<S>) -> (r: smolmatrix::Vector<S>)
    ensures
        r == v,
{
    v
}

} // verus!
