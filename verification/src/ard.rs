//! The iterative empirical-Bayes engine.
//!
//! Alternates between the closed-form Gaussian posterior over the
//! coefficients under the current precisions and the re-estimation of
//! those precisions from the posterior, until the mean update falls
//! below the tolerance or the iteration budget runs out.

use vstd::prelude::*;
use crate::error::BayesianError;
use crate::fx::{fits_raw, mul_raw, Fx, EPS_RAW, SCALE};
use crate::linalg::{
    check_residual, col_seq, dot, dot_fx_raw, identity, invert, is_matrix, mat_mul_rows, mat_vec,
    residual_entry_ok, symmetrize, transpose, vec_fill, vec_scale, vec_sub,
};
use crate::posterior::BayesianPosterior;

verus! {

/// Parameters of one engine run; every scalar must be positive.
#[derive(Clone, Copy, Debug)]
pub struct ARDParams {
    pub max_iter: usize,
    pub tol: Fx,
    pub alpha_init: Fx,
    pub lambda_init: Fx,
}

/// What a run of the engine produces: the posterior of the last
/// iteration, the final noise precision, the final per-feature
/// precisions, and how the loop ended.
pub struct ARDResult {
    pub posterior: BayesianPosterior,
    pub alpha: Fx,
    pub lambdas: Vec<Fx>,
    /// Whether the tolerance check stopped the loop (exhausting the
    /// iteration budget is not an error and leaves this false).
    pub converged: bool,
    /// Number of iterations that ran.
    pub iterations: usize,
    /// The posterior mean of the iteration before the last mean update
    /// (ghost): the convergence clauses of `fit_ard` are stated over
    /// it.
    pub prev_mean: Ghost<Seq<Fx>>,
}

/// The element-wise difference of two mean vectors, as fixed-point
/// values.
pub open spec fn diff_seq(a: Seq<Fx>, b: Seq<Fx>) -> Seq<Fx> {
    Seq::new(a.len(), |j: int| Fx { raw: (a[j].raw - b[j].raw) as i64 })
}

/// The vector `X^t y` in fixed point: one dot product of each column
/// of `x` with `y`.
pub open spec fn xt_y_seq(x: Seq<Vec<Fx>>, y: Seq<Fx>) -> Seq<Fx> {
    Seq::new(x[0]@.len(), |j: int| Fx { raw: dot_fx_raw(col_seq(x, j), y) as i64 })
}

/// The columns of a feature matrix, as plain sequences.
pub open spec fn cols_of(x: Seq<Vec<Fx>>) -> Seq<Seq<Fx>> {
    Seq::new(x[0]@.len(), |j: int| col_seq(x, j))
}

/// Row `i` of the precision matrix `diag(lambdas) + alpha * X^t X`,
/// over the given feature columns.
pub open spec fn prec_row(cols: Seq<Seq<Fx>>, lambdas: Seq<Fx>, alpha: Fx, i: int) -> Seq<Fx> {
    Seq::new(
        cols.len(),
        |j: int|
            Fx {
                raw: (mul_raw(alpha.raw as int, dot_fx_raw(cols[i], cols[j])) + if i == j {
                    lambdas[i].raw as int
                } else {
                    0
                }) as i64,
            },
    )
}

/// Fit the automatic-relevance-determination model.
///
/// Each iteration assembles the precision matrix `diag(lambdas) +
/// alpha * X^t X`, inverts it into the posterior covariance, forms the
/// new posterior mean `alpha * covariance * X^t y`, and stops as soon
/// as the squared norm of the mean update falls below the squared
/// tolerance - deliberately before re-estimating the precisions, so the
/// converging iteration leaves `lambdas` and `alpha` untouched.
/// Otherwise each per-feature precision becomes `gamma_j /
/// max(mean_j^2, eps)` with `gamma_j = 1 - lambda_j *
/// covariance[j][j]`, and the noise precision becomes `(n_samples -
/// sum gamma_j) / max(|residual|^2, eps)`.
///
/// The inverse is certified against a residual bound, symmetrized,
/// and certified again, so the returned covariance is exactly
/// symmetric and - on the converging iteration - provably an
/// approximate inverse of the precision matrix assembled from the
/// returned precisions.  A per-feature precision below the small
/// positive floor is clamped up to it (keeping every precision
/// positive and the next precision matrix regular even for a dead
/// feature), and the noise precision is kept strictly positive, as
/// the data model demands.
///
/// Every failure is reported as `ConvergenceError`: a singular or
/// uncertifiable precision matrix, a fixed-point value out of range,
/// or a non-positive noise-precision numerator or quotient (which the
/// update refuses to propagate).  The taxonomy offers no finer
/// variant, so the error does not say which of these occurred.
pub fn fit_ard(x: &Vec<Vec<Fx>>, y: &Vec<Fx>, params: &ARDParams) -> (r: Result<
    ARDResult,
    BayesianError,
>)
    requires
        x@.len() >= 1,
        x@.len() == y@.len(),
        x@[0]@.len() >= 1,
        is_matrix(x@, x@.len() as int, x@[0]@.len() as int),
        params.tol.raw > 0,
        params.alpha_init.raw > 0,
        params.lambda_init.raw > 0,
    ensures
        r matches Ok(res) ==> {
            &&& res.posterior.mean@.len() == x@[0]@.len()
            &&& is_matrix(res.posterior.covariance@, x@[0]@.len() as int, x@[0]@.len() as int)
            &&& res.lambdas@.len() == x@[0]@.len()
            &&& res.iterations <= params.max_iter
            &&& res.converged || res.iterations == params.max_iter
            &&& res.alpha.raw > 0
            &&& forall|j: int| 0 <= j < x@[0]@.len() ==> (#[trigger] res.lambdas@[j]).raw > 0
            &&& forall|i: int, j: int|
                0 <= i < x@[0]@.len() && 0 <= j < x@[0]@.len()
                    ==> (#[trigger] res.posterior.covariance@[i]@[j]).raw
                    == res.posterior.covariance@[j]@[i].raw
            &&& res.converged ==> {
                &&& res.iterations >= 1
                &&& forall|j: int|
                    0 <= j < x@[0]@.len() ==> (#[trigger] res.posterior.mean@[j]).raw == mul_raw(
                        dot_fx_raw(res.posterior.covariance@[j]@, xt_y_seq(x@, y@)),
                        res.alpha.raw as int,
                    )
                &&& forall|i: int, j: int|
                    0 <= i < x@[0]@.len() && 0 <= j < x@[0]@.len()
                        ==> #[trigger] residual_entry_ok(
                        prec_row(cols_of(x@), res.lambdas@, res.alpha, i),
                        res.posterior.covariance@,
                        i,
                        j,
                    )
                &&& res.prev_mean@.len() == x@[0]@.len()
                &&& forall|j: int|
                    0 <= j < x@[0]@.len() ==> fits_raw(
                        (#[trigger] res.posterior.mean@[j]).raw - res.prev_mean@[j].raw,
                    )
                &&& dot_fx_raw(
                    diff_seq(res.posterior.mean@, res.prev_mean@),
                    diff_seq(res.posterior.mean@, res.prev_mean@),
                ) < mul_raw(params.tol.raw as int, params.tol.raw as int)
            }
            &&& (!res.converged && res.iterations >= 1) ==> {
                &&& res.prev_mean@.len() == x@[0]@.len()
                &&& forall|j: int|
                    0 <= j < x@[0]@.len() ==> fits_raw(
                        (#[trigger] res.posterior.mean@[j]).raw - res.prev_mean@[j].raw,
                    )
                &&& dot_fx_raw(
                    diff_seq(res.posterior.mean@, res.prev_mean@),
                    diff_seq(res.posterior.mean@, res.prev_mean@),
                ) >= mul_raw(params.tol.raw as int, params.tol.raw as int)
            }
        },
        params.max_iter == 0 ==> (r matches Ok(res) && {
            &&& res.iterations == 0
            &&& !res.converged
            &&& res.alpha == params.alpha_init
            &&& forall|j: int|
                0 <= j < x@[0]@.len() ==> (#[trigger] res.lambdas@[j]).raw
                    == params.lambda_init.raw
            &&& forall|j: int| 0 <= j < x@[0]@.len() ==> (#[trigger] res.posterior.mean@[j]).raw == 0
            &&& forall|i: int, j: int|
                0 <= i < x@[0]@.len() && 0 <= j < x@[0]@.len()
                    ==> (#[trigger] res.posterior.covariance@[i]@[j]).raw == if i == j {
                    SCALE as int
                } else {
                    0
                }
        }),
        r matches Err(e) ==> e is ConvergenceError,
{
    let n = x.len();
    let d = x[0].len();

    let mut alpha = params.alpha_init;
    let mut lambdas = vec_fill(d, params.lambda_init);
    let mut mean = vec_fill(d, Fx::zero());
    let mut covariance = identity(d);
    let mut converged = false;
    let mut it: usize = 0;
    let ghost mut prev_mean_g: Seq<Fx> = mean@;

    while it < params.max_iter && !converged
        invariant
            n == x@.len(),
            d == x@[0]@.len(),
            n >= 1,
            d >= 1,
            is_matrix(x@, n as int, d as int),
            y@.len() == n,
            mean@.len() == d,
            lambdas@.len() == d,
            is_matrix(covariance@, d as int, d as int),
            it <= params.max_iter,
            alpha.raw > 0,
            forall|j: int| 0 <= j < d ==> (#[trigger] lambdas@[j]).raw > 0,
            forall|i2: int, j2: int|
                0 <= i2 < d && 0 <= j2 < d ==> (#[trigger] covariance@[i2]@[j2]).raw
                    == covariance@[j2]@[i2].raw,
            converged ==> {
                &&& it >= 1
                &&& forall|j: int|
                    0 <= j < d ==> (#[trigger] mean@[j]).raw == mul_raw(
                        dot_fx_raw(covariance@[j]@, xt_y_seq(x@, y@)),
                        alpha.raw as int,
                    )
                &&& forall|i2: int, j2: int|
                    0 <= i2 < d && 0 <= j2 < d ==> #[trigger] residual_entry_ok(
                        prec_row(cols_of(x@), lambdas@, alpha, i2),
                        covariance@,
                        i2,
                        j2,
                    )
            },
            converged ==> {
                &&& prev_mean_g.len() == d
                &&& forall|j: int|
                    0 <= j < d ==> fits_raw((#[trigger] mean@[j]).raw - prev_mean_g[j].raw)
                &&& dot_fx_raw(diff_seq(mean@, prev_mean_g), diff_seq(mean@, prev_mean_g))
                    < mul_raw(params.tol.raw as int, params.tol.raw as int)
            },
            (!converged && it >= 1) ==> {
                &&& prev_mean_g.len() == d
                &&& forall|j: int|
                    0 <= j < d ==> fits_raw((#[trigger] mean@[j]).raw - prev_mean_g[j].raw)
                &&& dot_fx_raw(diff_seq(mean@, prev_mean_g), diff_seq(mean@, prev_mean_g))
                    >= mul_raw(params.tol.raw as int, params.tol.raw as int)
            },
            it == 0 ==> alpha == params.alpha_init,
            it == 0 ==> !converged,
            it == 0 ==> forall|j: int|
                0 <= j < d ==> (#[trigger] lambdas@[j]).raw == params.lambda_init.raw,
            it == 0 ==> forall|j: int| 0 <= j < d ==> (#[trigger] mean@[j]).raw == 0,
            it == 0 ==> forall|i2: int, j2: int|
                0 <= i2 < d && 0 <= j2 < d ==> (#[trigger] covariance@[i2]@[j2]).raw == if i2
                    == j2 {
                    SCALE as int
                } else {
                    0
                },
        decreases params.max_iter - it,
    {
        let xt = transpose(x, d);
        let xtx = match mat_mul_rows(&xt, &xt) {
            Some(v) => v,
            None => {
                return Err(BayesianError::ConvergenceError);
            },
        };
        let xty = match mat_vec(&xt, y) {
            Some(v) => v,
            None => {
                return Err(BayesianError::ConvergenceError);
            },
        };
        let tol_sq = match params.tol.checked_mul(params.tol) {
            Some(v) => v,
            None => {
                return Err(BayesianError::ConvergenceError);
            },
        };
        let n_fx = if n as u64 <= i64::MAX as u64 {
            match Fx::from_int(n as i64) {
                Some(v) => v,
                None => {
                    return Err(BayesianError::ConvergenceError);
                },
            }
        } else {
            return Err(BayesianError::ConvergenceError);
        };
        // precision = diag(lambdas) + alpha * X^t X
        let mut prec: Vec<Vec<Fx>> = Vec::new();
        let mut i: usize = 0;
        while i < d
            invariant
                i <= d,
                params.max_iter > 0,
                d == x@[0]@.len(),
                xt@.len() == d,
                forall|t: int| 0 <= t < d ==> (#[trigger] xt@[t])@ == col_seq(x@, t),
                is_matrix(xtx@, d as int, d as int),
                forall|t: int, u: int|
                    0 <= t < d && 0 <= u < d ==> (#[trigger] xtx@[t]@[u]).raw == dot_fx_raw(
                        xt@[t]@,
                        xt@[u]@,
                    ),
                lambdas@.len() == d,
                is_matrix(prec@, i as int, d as int),
                forall|t: int|
                    0 <= t < i ==> (#[trigger] prec@[t])@ == prec_row(
                        cols_of(x@),
                        lambdas@,
                        alpha,
                        t,
                    ),
            decreases d - i,
        {
            let mut row: Vec<Fx> = Vec::new();
            let mut j: usize = 0;
            while j < d
                invariant
                    j <= d,
                    i < d,
                    params.max_iter > 0,
                    d == x@[0]@.len(),
                    xt@.len() == d,
                    forall|t: int| 0 <= t < d ==> (#[trigger] xt@[t])@ == col_seq(x@, t),
                    is_matrix(xtx@, d as int, d as int),
                    forall|t: int, u: int|
                        0 <= t < d && 0 <= u < d ==> (#[trigger] xtx@[t]@[u]).raw == dot_fx_raw(
                            xt@[t]@,
                            xt@[u]@,
                        ),
                    lambdas@.len() == d,
                    row@.len() == j,
                    forall|u: int|
                        0 <= u < j ==> (#[trigger] row@[u]) == prec_row(
                            cols_of(x@),
                            lambdas@,
                            alpha,
                            i as int,
                        )[u],
                decreases d - j,
            {
                let mut e = match alpha.checked_mul(xtx[i][j]) {
                    Some(v) => v,
                    None => {
                        return Err(BayesianError::ConvergenceError);
                    },
                };
                if i == j {
                    e = match e.checked_add(lambdas[i]) {
                        Some(v) => v,
                        None => {
                            return Err(BayesianError::ConvergenceError);
                        },
                    };
                }
                proof {
                    let cols = cols_of(x@);
                    assert(xt@[i as int]@ == col_seq(x@, i as int));
                    assert(xt@[j as int]@ == col_seq(x@, j as int));
                    assert(xtx@[i as int]@[j as int].raw == dot_fx_raw(
                        cols[i as int],
                        cols[j as int],
                    ));
                    assert(e == prec_row(cols, lambdas@, alpha, i as int)[j as int]);
                }
                row.push(e);
                j = j + 1;
            }
            proof {
                assert(row@ =~= prec_row(cols_of(x@), lambdas@, alpha, i as int));
            }
            prec.push(row);
            i = i + 1;
        }

        // a singular or uncertifiable precision matrix is a hard
        // failure, never papered over with a substitute inverse; the
        // certified inverse is then symmetrized, as the data model
        // demands of a covariance
        let inv = match invert(&prec, d) {
            Some(c) => c,
            None => {
                return Err(BayesianError::ConvergenceError);
            },
        };
        covariance = match symmetrize(&inv, d) {
            Some(c) => c,
            None => {
                proof {
                    assert(false);
                }
                return Err(BayesianError::ConvergenceError);
            },
        };
        // re-certify after symmetrization: the covariance that leaves
        // this iteration reproduces the identity against the assembled
        // precision matrix, to within the residual bound
        if !check_residual(&prec, &covariance, d) {
            return Err(BayesianError::ConvergenceError);
        }

        let t = match mat_vec(&covariance, &xty) {
            Some(v) => v,
            None => {
                return Err(BayesianError::ConvergenceError);
            },
        };
        let new_mean = match vec_scale(&t, alpha) {
            Some(v) => v,
            None => {
                return Err(BayesianError::ConvergenceError);
            },
        };
        let diff = match vec_sub(&new_mean, &mean) {
            Some(v) => v,
            None => {
                return Err(BayesianError::ConvergenceError);
            },
        };
        let nsq = match dot(&diff, &diff) {
            Some(v) => v,
            None => {
                return Err(BayesianError::ConvergenceError);
            },
        };
        proof {
            let ds = diff_seq(new_mean@, mean@);
            assert forall|j: int| 0 <= j < d implies diff@[j] == ds[j] by {
                assert(diff@[j].raw == new_mean@[j].raw - mean@[j].raw);
            }
            assert(diff@ =~= ds);
            assert(nsq.raw == dot_fx_raw(ds, ds));
            prev_mean_g = mean@;
        }
        mean = new_mean;

        if nsq.raw < tol_sq.raw {
            proof {
                let xty_spec = xt_y_seq(x@, y@);
                assert forall|j: int| 0 <= j < d implies xty@[j] == xty_spec[j] by {
                    assert(xty@[j].raw == dot_fx_raw(xt@[j]@, y@));
                    assert(xt@[j]@ == col_seq(x@, j));
                }
                assert(xty@ =~= xty_spec);
                assert forall|i2: int, j2: int|
                    0 <= i2 < d && 0 <= j2 < d implies #[trigger] residual_entry_ok(
                    prec_row(cols_of(x@), lambdas@, alpha, i2),
                    covariance@,
                    i2,
                    j2,
                ) by {
                    assert(prec@[i2]@ == prec_row(cols_of(x@), lambdas@, alpha, i2));
                    assert(residual_entry_ok(prec@[i2]@, covariance@, i2, j2));
                }
            }
            converged = true;
        } else {
            // per-feature precision updates, from the fresh mean
            let mut gamma_sum = Fx::zero();
            let mut new_lambdas: Vec<Fx> = Vec::new();
            let mut j: usize = 0;
            while j < d
                invariant
                    j <= d,
                    params.max_iter > 0,
                    d == x@[0]@.len(),
                    lambdas@.len() == d,
                    mean@.len() == d,
                    is_matrix(covariance@, d as int, d as int),
                    new_lambdas@.len() == j,
                    forall|t: int| 0 <= t < j ==> (#[trigger] new_lambdas@[t]).raw > 0,
                decreases d - j,
            {
                let lam_c = match lambdas[j].checked_mul(covariance[j][j]) {
                    Some(v) => v,
                    None => {
                        return Err(BayesianError::ConvergenceError);
                    },
                };
                let gamma_j = match Fx::one().checked_sub(lam_c) {
                    Some(v) => v,
                    None => {
                        return Err(BayesianError::ConvergenceError);
                    },
                };
                let msq = match mean[j].checked_mul(mean[j]) {
                    Some(v) => v,
                    None => {
                        return Err(BayesianError::ConvergenceError);
                    },
                };
                let denom = msq.max(Fx::from_raw(EPS_RAW));
                let nl = match gamma_j.checked_div(denom) {
                    Some(v) => v,
                    None => {
                        return Err(BayesianError::ConvergenceError);
                    },
                };
                // the data model demands positive per-feature
                // precisions, and a dead feature whose precision hit
                // zero would leave the next precision matrix exactly
                // singular: a quotient below the floor is clamped up
                // to the floor instead
                let nl = if nl.raw < EPS_RAW {
                    Fx::from_raw(EPS_RAW)
                } else {
                    nl
                };
                new_lambdas.push(nl);
                gamma_sum = match gamma_sum.checked_add(gamma_j) {
                    Some(v) => v,
                    None => {
                        return Err(BayesianError::ConvergenceError);
                    },
                };
                j = j + 1;
            }
            lambdas = new_lambdas;

            // noise precision update from the residual
            let xm = match mat_vec(x, &mean) {
                Some(v) => v,
                None => {
                    return Err(BayesianError::ConvergenceError);
                },
            };
            let resid = match vec_sub(y, &xm) {
                Some(v) => v,
                None => {
                    return Err(BayesianError::ConvergenceError);
                },
            };
            let rsq = match dot(&resid, &resid) {
                Some(v) => v,
                None => {
                    return Err(BayesianError::ConvergenceError);
                },
            };
            let denom = rsq.max(Fx::from_raw(EPS_RAW));
            let num = match n_fx.checked_sub(gamma_sum) {
                Some(v) => v,
                None => {
                    return Err(BayesianError::ConvergenceError);
                },
            };
            if num.raw <= 0 {
                // gamma_sum has reached the sample count: a negative or
                // undefined noise precision is refused explicitly
                return Err(BayesianError::ConvergenceError);
            }
            let alpha_new = match num.checked_div(denom) {
                Some(v) => v,
                None => {
                    return Err(BayesianError::ConvergenceError);
                },
            };
            if alpha_new.raw <= 0 {
                // a noise precision truncated to zero is refused, not
                // propagated
                return Err(BayesianError::ConvergenceError);
            }
            alpha = alpha_new;
        }
        it = it + 1;
    }

    Ok(
        ARDResult {
            posterior: BayesianPosterior::new(mean, covariance),
            alpha,
            lambdas,
            converged,
            iterations: it,
            prev_mean: Ghost(prev_mean_g),
        },
    )
}

} // verus!
