//! Error taxonomy of the simulation core.

use vstd::prelude::*;

verus! {

/// Why a simulation operation was refused.
#[derive(Clone, Copy, Debug, PartialEq, Eq, Structural)]
pub enum SimError {
    /// A direction vector had (near-)zero length where one was needed.
    DegenerateGeometry,
    /// A non-positive mass, a non-positive timestep, or a parameter outside
    /// its documented range was supplied at construction.
    InvalidConfiguration,
    /// A state update left the fixed-point range the core works in.
    NumericalInstability,
}

impl SimError {
    /// A short name for the error, for callers that report it.
    pub fn describe(&self) -> (r: &'static str)
        ensures
            self is DegenerateGeometry ==> r@ == "degenerate geometry"@,
            self is InvalidConfiguration ==> r@ == "invalid configuration"@,
            self is NumericalInstability ==> r@ == "numerical instability"@,
    {
        match self {
            SimError::DegenerateGeometry => "degenerate geometry",
            SimError::InvalidConfiguration => "invalid configuration",
            SimError::NumericalInstability => "numerical instability",
        }
    }
}

} // verus!
