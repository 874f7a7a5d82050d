//! Validation of the neighbour-count hyperparameter.

use vstd::prelude::*;
use crate::error::BayesianError;

verus! {

/// A neighbour count is usable exactly when it is at least one and at
/// most the number of stored samples.
pub fn validate_k(k: usize, n_samples: usize) -> (r: Result<(), BayesianError>)
    ensures
        r is Ok <==> 1 <= k <= n_samples,
        k == 0 ==> (r matches Err(e) && e matches BayesianError::Linfa(m) && m@ == "k must be > 0"@),
        k > n_samples ==> (r matches Err(e) && e matches BayesianError::Linfa(m) && m@
            == "k must be <= number of samples"@),
{
    if k == 0 {
        Err(BayesianError::Linfa("k must be > 0".to_owned()))
    } else if k > n_samples {
        Err(BayesianError::Linfa("k must be <= number of samples".to_owned()))
    } else {
        Ok(())
    }
}

} // verus!
