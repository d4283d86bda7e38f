use vstd::prelude::*;

verus! {

/// Declares fuels' `types::errors::Error`, the chain client's error, which
/// `AMMError::SimulationError` carries unchanged.
#[verifier::external_type_specification]
#[verifier::external_body]
pub struct ExChainError(fuels::types::errors::Error);

/// Failure of a call to the chain.
#[derive(Debug)]
pub enum AMMError {
    ContractError,
    SimulationError(fuels::types::errors::Error),
}

/// Failure of a price computation.
#[derive(Clone, Copy, Debug, PartialEq, Eq, Structural)]
pub enum ArithmeticError {
    /// The denominator was zero.
    DivisionByZero,
    /// The fixed-point correction step found that the estimated quotient
    /// cannot be trusted.
    RoundingError,
    /// A degenerate division input.
    YIsZero,
    /// An intermediate value does not fit in 256 bits.
    Overflow,
}

/// Failure of a swap simulation.
#[derive(Clone, Copy, Debug, PartialEq, Eq, Structural)]
pub enum SwapSimulationError {
    /// An intermediate value does not fit in 256 bits.
    Overflow,
    /// A divisor was zero.
    DivisionByZero,
}

} // verus!
