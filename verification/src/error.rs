use vstd::prelude::*;

verus! {

/// Why a tensor operation was refused.
#[derive(Debug, Clone, Copy, PartialEq, Eq, Structural)]
pub enum TensorError {
    /// The operand shapes do not fit the operator.
    UnexpectedShape,
    /// An index lies outside the tensor it addresses.
    InvalidIndex,
    /// A tensor would hold more elements than the machine can count.
    TooLarge,
}

} // verus!
