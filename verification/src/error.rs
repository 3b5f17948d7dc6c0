use vstd::prelude::*;

verus! {

/// The ways in which a caller can break the contract of an operation.
///
/// None of these is recoverable by the operation itself: each is returned
/// at once and nothing is truncated, padded or retried.
#[derive(Clone, Copy, Debug, PartialEq, Eq, Structural)]
pub enum PreconditionViolation {
    /// A selection or a generation step was asked of a population without members.
    EmptyPopulation,
    /// A shape descriptor names fewer than two layer widths.
    ShapeTooShort,
    /// A shape descriptor asks for more parameters than one vector can hold.
    ShapeTooLarge,
    /// An input vector is not as wide as the layer it is fed to.
    InputWidthMismatch,
    /// Two chromosomes differ in length, or a chromosome does not have one
    /// gene for each parameter of the network it is meant for.
    ChromosomeLengthMismatch,
    /// The fitness scores of a population add up to more than `u32::MAX`.
    FitnessOverflow,
    /// A mutation chance is not a ratio between zero and one.
    InvalidChance,
}

} // verus!
