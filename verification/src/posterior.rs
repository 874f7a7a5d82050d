//! The result object of a fit: a Gaussian over coefficients.

use vstd::prelude::*;
use crate::fx::Fx;
use crate::linalg::is_matrix;

verus! {

/// A multivariate Gaussian over the model coefficients, given by its
/// mean vector and covariance matrix.  Pure storage: it is created by
/// the engine and read by prediction, never recomputed in place.
pub struct BayesianPosterior {
    pub mean: Vec<Fx>,
    pub covariance: Vec<Vec<Fx>>,
}

impl BayesianPosterior {
    /// Wrap a mean vector and a covariance matrix of matching dimension.
    pub fn new(mean: Vec<Fx>, covariance: Vec<Vec<Fx>>) -> (r: BayesianPosterior)
        requires
            is_matrix(covariance@, mean@.len() as int, mean@.len() as int),
        ensures
            r.mean == mean,
            r.covariance == covariance,
    {
        BayesianPosterior { mean, covariance }
    }
}

} // verus!
