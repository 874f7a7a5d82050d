//! Typed failure signals of the fitting routines.

use vstd::prelude::*;
use vstd::string::StringExecFns;

verus! {

/// Everything the regression and classification entry points can report
/// instead of a result.
#[derive(Debug, PartialEq)]
pub enum BayesianError {
    /// The precision matrix could not be inverted at some iteration, or a
    /// fixed-point operation left the representable range.
    ConvergenceError,
    /// The shape contract between the feature matrix and the target
    /// vector is violated.
    DimensionMismatch,
    /// Malformed or out-of-domain configuration or data.
    InvalidInput(String),
    /// An error raised by the validation of an external dataset
    /// abstraction, carried through as its message.
    Linfa(String),
}

impl BayesianError {
    /// A short description of the failure, in words.
    pub fn message(&self) -> (r: String)
        ensures
            self is ConvergenceError ==> r@ == "Algorithm failed to converge"@,
            self is DimensionMismatch ==> r@ == "Input dimensions do not match"@,
            self matches BayesianError::InvalidInput(m) ==> r@ == "Invalid input: "@ + m@,
            self matches BayesianError::Linfa(m) ==> r@ == "Linfa error: "@ + m@,
    {
        match self {
            BayesianError::ConvergenceError => "Algorithm failed to converge".to_owned(),
            BayesianError::DimensionMismatch => "Input dimensions do not match".to_owned(),
            BayesianError::InvalidInput(msg) => "Invalid input: ".to_owned().concat(msg.as_str()),
            BayesianError::Linfa(msg) => "Linfa error: ".to_owned().concat(msg.as_str()),
        }
    }
}

} // verus!
