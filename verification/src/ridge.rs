//! Bayesian ridge regression facade.
//!
//! Validates the inputs, optionally centers them, delegates to the
//! engine, recovers the intercept, and exposes prediction.

use vstd::prelude::*;
use crate::ard::{cols_of, fit_ard, prec_row, xt_y_seq, ARDParams};
use crate::error::BayesianError;
use crate::fx::{div_raw, fits_raw, mul_raw, Fx, SCALE};
use crate::linalg::{
    center_cols, col_means, col_seq, dot, dot_fx_raw, dot_ok, is_matrix, lemma_dot_raw_zero,
    lemma_mean_const, mat_vec, mean_raw, residual_entry_ok, vec_mean, vec_sub_scalar,
};
use crate::posterior::BayesianPosterior;

verus! {

/// Default iteration budget.
pub const DEFAULT_MAX_ITER: usize = 300;

/// Raw value of the default tolerance: one ten-thousandth of a unit.
pub const DEFAULT_TOL_RAW: i64 = 100_000;

/// Configuration of a fit.  Built once, with the builder-style setters
/// below; unset initial precisions default to one.
pub struct BayesianRidge {
    pub max_iter: usize,
    pub tol: Fx,
    pub alpha_init: Option<Fx>,
    pub lambda_init: Option<Fx>,
    pub fit_intercept: bool,
}

/// Every configured scalar is positive (unset ones default to one,
/// which is).
pub open spec fn config_valid(c: BayesianRidge) -> bool {
    &&& c.tol.raw > 0
    &&& (c.alpha_init matches Some(a) ==> a.raw > 0)
    &&& (c.lambda_init matches Some(l) ==> l.raw > 0)
}

/// Raw value of the quadratic form `row * cov * row` as the dot
/// product of the row with the matrix-vector product, each dot
/// truncated once.
pub open spec fn quad_form_raw(cov: Seq<Vec<Fx>>, row: Seq<Fx>) -> int {
    dot_fx_raw(row, Seq::new(cov.len(), |j: int| Fx { raw: dot_fx_raw(cov[j]@, row) as i64 }))
}

/// Column `j` of the feature matrix after centering: each entry minus
/// its column's mean.
pub open spec fn centered_col(x: Seq<Vec<Fx>>, j: int) -> Seq<Fx> {
    Seq::new(x.len(), |i: int| Fx { raw: (x[i]@[j].raw - mean_raw(col_seq(x, j))) as i64 })
}

/// The target vector after centering: each entry minus the target mean.
pub open spec fn centered_y(y: Seq<Fx>) -> Seq<Fx> {
    Seq::new(y.len(), |i: int| Fx { raw: (y[i].raw - mean_raw(y)) as i64 })
}

/// The columns of the feature matrix after centering.
pub open spec fn centered_cols(x: Seq<Vec<Fx>>) -> Seq<Seq<Fx>> {
    Seq::new(x[0]@.len(), |j: int| centered_col(x, j))
}

/// `X^t y` over the centered data.
pub open spec fn centered_xt_y(x: Seq<Vec<Fx>>, y: Seq<Fx>) -> Seq<Fx> {
    Seq::new(
        x[0]@.len(),
        |j: int| Fx { raw: dot_fx_raw(centered_col(x, j), centered_y(y)) as i64 },
    )
}

/// Every dot product feeding the predictive variance of `row` is
/// computable: the matrix-vector product of the covariance with the
/// row, and the final dot of the row with that product.
pub open spec fn var_ok(cov: Seq<Vec<Fx>>, row: Seq<Fx>) -> bool {
    &&& forall|j: int| 0 <= j < cov.len() ==> dot_ok((#[trigger] cov[j])@, row)
    &&& dot_ok(row, Seq::new(cov.len(), |j: int| Fx { raw: dot_fx_raw(cov[j]@, row) as i64 }))
}

/// The feature matrix has at least one row and one column, and its rows
/// all have the same length.
pub open spec fn data_valid(x: Seq<Vec<Fx>>) -> bool {
    &&& x.len() >= 1
    &&& x[0]@.len() >= 1
    &&& is_matrix(x, x.len() as int, x[0]@.len() as int)
}

impl Default for BayesianRidge {
    fn default() -> (r: Self)
        ensures
            r.max_iter == DEFAULT_MAX_ITER,
            r.tol.raw == DEFAULT_TOL_RAW,
            r.alpha_init is None,
            r.lambda_init is None,
            r.fit_intercept == true,
    {
        BayesianRidge {
            max_iter: DEFAULT_MAX_ITER,
            tol: Fx { raw: DEFAULT_TOL_RAW },
            alpha_init: None,
            lambda_init: None,
            fit_intercept: true,
        }
    }
}

impl BayesianRidge {
    /// Replace the iteration budget.
    pub fn max_iter(self, value: usize) -> (r: Self)
        ensures
            r == (BayesianRidge { max_iter: value, ..self }),
    {
        BayesianRidge { max_iter: value, ..self }
    }

    /// Replace the convergence tolerance.
    pub fn tol(self, value: Fx) -> (r: Self)
        ensures
            r == (BayesianRidge { tol: value, ..self }),
    {
        BayesianRidge { tol: value, ..self }
    }

    /// Set the initial noise precision.
    pub fn alpha_init(self, value: Fx) -> (r: Self)
        ensures
            r == (BayesianRidge { alpha_init: Some(value), ..self }),
    {
        BayesianRidge { alpha_init: Some(value), ..self }
    }

    /// Set the initial per-feature precision.
    pub fn lambda_init(self, value: Fx) -> (r: Self)
        ensures
            r == (BayesianRidge { lambda_init: Some(value), ..self }),
    {
        BayesianRidge { lambda_init: Some(value), ..self }
    }

    /// Choose whether to center the data and recover an intercept.
    pub fn fit_intercept(self, value: bool) -> (r: Self)
        ensures
            r == (BayesianRidge { fit_intercept: value, ..self }),
    {
        BayesianRidge { fit_intercept: value, ..self }
    }

    /// Fit the model.
    ///
    /// The shape contract is checked first: a row count of `x` that
    /// differs from the length of `y` is reported as
    /// `DimensionMismatch`, and nothing else ever is.  With matching
    /// row counts, a non-positive configured scalar, an empty or
    /// ragged feature matrix is reported as `InvalidInput`, exactly
    /// when one is present.  Every remaining failure comes out of the
    /// numeric engine as `ConvergenceError`.
    ///
    /// On success the intercept is exactly `y_mean - <x_means,
    /// posterior mean>` when centering was applied (both recorded
    /// means are exposed on the model), and exactly zero otherwise.
    pub fn fit(&self, x: &Vec<Vec<Fx>>, y: &Vec<Fx>) -> (r: Result<
        BayesianRidgeModel,
        BayesianError,
    >)
        ensures
            (r matches Err(e) && e is DimensionMismatch) <==> x@.len() != y@.len(),
            x@.len() == y@.len() ==> ((r matches Err(e) && e is InvalidInput) <==> !(config_valid(
                *self,
            ) && data_valid(x@))),
            r matches Err(e) ==> e is DimensionMismatch || e is InvalidInput
                || e is ConvergenceError,
            r matches Ok(m) ==> {
                &&& x@.len() == y@.len()
                &&& config_valid(*self)
                &&& data_valid(x@)
                &&& m.posterior.mean@.len() == x@[0]@.len()
                &&& is_matrix(
                    m.posterior.covariance@,
                    x@[0]@.len() as int,
                    x@[0]@.len() as int,
                )
                &&& m.iterations <= self.max_iter
                &&& m.converged || m.iterations == self.max_iter
                &&& m.alpha.raw > 0
                &&& m.lambdas@.len() == x@[0]@.len()
                &&& forall|j: int| 0 <= j < x@[0]@.len() ==> (#[trigger] m.lambdas@[j]).raw > 0
                &&& m.lambda.raw == mean_raw(m.lambdas@)
                &&& forall|i: int, j: int|
                    0 <= i < x@[0]@.len() && 0 <= j < x@[0]@.len()
                        ==> (#[trigger] m.posterior.covariance@[i]@[j]).raw
                        == m.posterior.covariance@[j]@[i].raw
                &&& (!self.fit_intercept && m.converged) ==> forall|j: int|
                    0 <= j < x@[0]@.len() ==> (#[trigger] m.posterior.mean@[j]).raw == mul_raw(
                        dot_fx_raw(m.posterior.covariance@[j]@, xt_y_seq(x@, y@)),
                        m.alpha.raw as int,
                    )
                &&& (self.fit_intercept && m.converged) ==> forall|j: int|
                    0 <= j < x@[0]@.len() ==> (#[trigger] m.posterior.mean@[j]).raw == mul_raw(
                        dot_fx_raw(m.posterior.covariance@[j]@, centered_xt_y(x@, y@)),
                        m.alpha.raw as int,
                    )
                &&& (!self.fit_intercept && m.converged) ==> forall|i: int, j: int|
                    0 <= i < x@[0]@.len() && 0 <= j < x@[0]@.len()
                        ==> #[trigger] residual_entry_ok(
                        prec_row(cols_of(x@), m.lambdas@, m.alpha, i),
                        m.posterior.covariance@,
                        i,
                        j,
                    )
                &&& (self.fit_intercept && m.converged) ==> forall|i: int, j: int|
                    0 <= i < x@[0]@.len() && 0 <= j < x@[0]@.len()
                        ==> #[trigger] residual_entry_ok(
                        prec_row(centered_cols(x@), m.lambdas@, m.alpha, i),
                        m.posterior.covariance@,
                        i,
                        j,
                    )
                &&& !self.fit_intercept ==> m.intercept.raw == 0
                &&& self.fit_intercept ==> {
                    &&& m.x_mean@.len() == x@[0]@.len()
                    &&& forall|j: int|
                        0 <= j < x@[0]@.len() ==> (#[trigger] m.x_mean@[j]).raw == mean_raw(
                            col_seq(x@, j),
                        )
                    &&& m.y_mean.raw == mean_raw(y@)
                    &&& m.intercept.raw == m.y_mean.raw - dot_fx_raw(
                        m.x_mean@,
                        m.posterior.mean@,
                    )
                }
            },
            (self.max_iter == 0 && !self.fit_intercept && x@.len() == y@.len() && config_valid(
                *self,
            ) && data_valid(x@)) ==> r is Ok,
            self.max_iter == 0 ==> (r matches Ok(m) ==> {
                &&& m.iterations == 0
                &&& !m.converged
                &&& forall|j: int|
                    0 <= j < x@[0]@.len() ==> (#[trigger] m.posterior.mean@[j]).raw == 0
                &&& self.fit_intercept ==> m.intercept.raw == mean_raw(y@)
            }),
    {
        if x.len() != y.len() {
            return Err(BayesianError::DimensionMismatch);
        }
        if self.tol.raw <= 0 {
            return Err(BayesianError::InvalidInput("tolerance must be positive".to_owned()));
        }
        let alpha0 = match self.alpha_init {
            Some(a) => {
                if a.raw <= 0 {
                    return Err(
                        BayesianError::InvalidInput("initial alpha must be positive".to_owned()),
                    );
                }
                a
            },
            None => Fx::one(),
        };
        let lambda0 = match self.lambda_init {
            Some(l) => {
                if l.raw <= 0 {
                    return Err(
                        BayesianError::InvalidInput("initial lambda must be positive".to_owned()),
                    );
                }
                l
            },
            None => Fx::one(),
        };
        if x.len() == 0 {
            return Err(BayesianError::InvalidInput("feature matrix has no rows".to_owned()));
        }
        let d = x[0].len();
        if d == 0 {
            return Err(BayesianError::InvalidInput("feature matrix has no columns".to_owned()));
        }
        let mut i: usize = 0;
        while i < x.len()
            invariant
                i <= x@.len(),
                d == x@[0]@.len(),
                x@.len() == y@.len(),
                forall|t: int| 0 <= t < i ==> (#[trigger] x@[t])@.len() == d,
            decreases x@.len() - i,
        {
            if x[i].len() != d {
                return Err(BayesianError::InvalidInput("ragged feature matrix".to_owned()));
            }
            i = i + 1;
        }

        let params = ARDParams {
            max_iter: self.max_iter,
            tol: self.tol,
            alpha_init: alpha0,
            lambda_init: lambda0,
        };

        if self.fit_intercept {
            let xm = match col_means(x, d) {
                Some(v) => v,
                None => {
                    return Err(BayesianError::ConvergenceError);
                },
            };
            let ym = match vec_mean(y) {
                Some(v) => v,
                None => {
                    return Err(BayesianError::ConvergenceError);
                },
            };
            let xc = match center_cols(x, &xm) {
                Some(v) => v,
                None => {
                    return Err(BayesianError::ConvergenceError);
                },
            };
            let yc = match vec_sub_scalar(y, ym) {
                Some(v) => v,
                None => {
                    return Err(BayesianError::ConvergenceError);
                },
            };
            let res = match fit_ard(&xc, &yc, &params) {
                Ok(v) => v,
                Err(e) => {
                    return Err(e);
                },
            };
            let dxm = match dot(&xm, &res.posterior.mean) {
                Some(v) => v,
                None => {
                    return Err(BayesianError::ConvergenceError);
                },
            };
            let intercept = match ym.checked_sub(dxm) {
                Some(v) => v,
                None => {
                    return Err(BayesianError::ConvergenceError);
                },
            };
            let lambda_bar = match vec_mean(&res.lambdas) {
                Some(v) => v,
                None => {
                    return Err(BayesianError::ConvergenceError);
                },
            };
            proof {
                if self.max_iter == 0 {
                    lemma_dot_raw_zero(xm@, res.posterior.mean@, xm@.len() as int);
                }
                // the centered working copies are exactly the centered
                // spec vectors, so the engine's consistency clause
                // carries over to the original data
                assert forall|j: int| 0 <= j < d implies col_seq(xc@, j) == centered_col(
                    x@,
                    j,
                ) by {
                    assert forall|i2: int| 0 <= i2 < x@.len() implies col_seq(xc@, j)[i2]
                        == centered_col(x@, j)[i2] by {
                        assert(xc@[i2]@[j].raw == x@[i2]@[j].raw - xm@[j].raw);
                        assert(xm@[j].raw == mean_raw(col_seq(x@, j)));
                    }
                    assert(col_seq(xc@, j) =~= centered_col(x@, j));
                }
                assert forall|i2: int| 0 <= i2 < y@.len() implies yc@[i2] == centered_y(
                    y@,
                )[i2] by {
                    assert(yc@[i2].raw == y@[i2].raw - ym.raw);
                }
                assert(yc@ =~= centered_y(y@));
                assert forall|j: int| 0 <= j < d implies xt_y_seq(xc@, yc@)[j] == centered_xt_y(
                    x@,
                    y@,
                )[j] by {
                    assert(col_seq(xc@, j) == centered_col(x@, j));
                }
                assert(xt_y_seq(xc@, yc@) =~= centered_xt_y(x@, y@));
                assert forall|j: int| 0 <= j < d implies cols_of(xc@)[j] == centered_cols(x@)[j] by {
                    assert(cols_of(xc@)[j] == col_seq(xc@, j));
                }
                assert(cols_of(xc@) =~= centered_cols(x@));
            }
            Ok(
                BayesianRidgeModel {
                    posterior: res.posterior,
                    intercept,
                    alpha: res.alpha,
                    lambda: lambda_bar,
                    lambdas: res.lambdas,
                    x_mean: xm,
                    y_mean: ym,
                    converged: res.converged,
                    iterations: res.iterations,
                },
            )
        } else {
            let res = match fit_ard(x, y, &params) {
                Ok(v) => v,
                Err(e) => {
                    return Err(e);
                },
            };
            let lambda_bar = match vec_mean(&res.lambdas) {
                Some(v) => v,
                None => {
                    proof {
                        if self.max_iter == 0 {
                            lemma_mean_const(res.lambdas@, lambda0.raw);
                        }
                    }
                    return Err(BayesianError::ConvergenceError);
                },
            };
            Ok(
                BayesianRidgeModel {
                    posterior: res.posterior,
                    intercept: Fx::zero(),
                    alpha: res.alpha,
                    lambda: lambda_bar,
                    lambdas: res.lambdas,
                    x_mean: Vec::new(),
                    y_mean: Fx::zero(),
                    converged: res.converged,
                    iterations: res.iterations,
                },
            )
        }
    }
}

/// A fitted model.  Immutable after fitting; prediction only reads it.
pub struct BayesianRidgeModel {
    pub posterior: BayesianPosterior,
    pub intercept: Fx,
    /// Final noise precision.
    pub alpha: Fx,
    /// Mean of the final per-feature precisions, as a summary.
    pub lambda: Fx,
    /// The final per-feature precisions themselves.
    pub lambdas: Vec<Fx>,
    /// Column means of the training features (empty when no centering
    /// was applied).
    pub x_mean: Vec<Fx>,
    /// Mean of the training targets (zero when no centering was
    /// applied).
    pub y_mean: Fx,
    /// Whether the tolerance check ended the iteration.
    pub converged: bool,
    /// Number of engine iterations that ran.
    pub iterations: usize,
}

impl BayesianRidgeModel {
    /// Posterior-mean prediction: each row's dot product with the
    /// coefficient mean, plus the intercept, exactly.
    pub fn predict(&self, x: &Vec<Vec<Fx>>) -> (r: Result<Vec<Fx>, BayesianError>)
        ensures
            (r matches Err(e) && e is DimensionMismatch) <==> (exists|i: int|
                0 <= i < x@.len() && (#[trigger] x@[i])@.len() != self.posterior.mean@.len()),
            r matches Err(e) ==> e is DimensionMismatch || e is ConvergenceError,
            r matches Ok(p) ==> {
                &&& p@.len() == x@.len()
                &&& forall|i: int|
                    0 <= i < x@.len() ==> (#[trigger] p@[i]).raw == dot_fx_raw(
                        x@[i]@,
                        self.posterior.mean@,
                    ) + self.intercept.raw
            },
            r is Ok <==> {
                &&& forall|i: int|
                    0 <= i < x@.len() ==> (#[trigger] x@[i])@.len() == self.posterior.mean@.len()
                &&& forall|i: int|
                    0 <= i < x@.len() ==> dot_ok((#[trigger] x@[i])@, self.posterior.mean@)
                &&& forall|i: int|
                    0 <= i < x@.len() ==> fits_raw(
                        dot_fx_raw((#[trigger] x@[i])@, self.posterior.mean@)
                            + self.intercept.raw,
                    )
            },
    {
        let mut i: usize = 0;
        while i < x.len()
            invariant
                i <= x@.len(),
                forall|t: int|
                    0 <= t < i ==> (#[trigger] x@[t])@.len() == self.posterior.mean@.len(),
            decreases x@.len() - i,
        {
            if x[i].len() != self.posterior.mean.len() {
                return Err(BayesianError::DimensionMismatch);
            }
            i = i + 1;
        }
        let mut out: Vec<Fx> = Vec::new();
        let mut t: usize = 0;
        while t < x.len()
            invariant
                t <= x@.len(),
                forall|u: int|
                    0 <= u < x@.len() ==> (#[trigger] x@[u])@.len() == self.posterior.mean@.len(),
                out@.len() == t,
                forall|u: int|
                    0 <= u < t ==> (#[trigger] out@[u]).raw == dot_fx_raw(
                        x@[u]@,
                        self.posterior.mean@,
                    ) + self.intercept.raw,
                forall|u: int| 0 <= u < t ==> dot_ok((#[trigger] x@[u])@, self.posterior.mean@),
                forall|u: int|
                    0 <= u < t ==> fits_raw(
                        dot_fx_raw((#[trigger] x@[u])@, self.posterior.mean@)
                            + self.intercept.raw,
                    ),
            decreases x@.len() - t,
        {
            let dv = match dot(&x[t], &self.posterior.mean) {
                Some(v) => v,
                None => {
                    return Err(BayesianError::ConvergenceError);
                },
            };
            let s = match dv.checked_add(self.intercept) {
                Some(v) => v,
                None => {
                    return Err(BayesianError::ConvergenceError);
                },
            };
            out.push(s);
            t = t + 1;
        }
        Ok(out)
    }

    /// Posterior-mean prediction together with the predictive variance
    /// `1 / alpha + row * covariance * row` of every row, exactly.
    pub fn predict_dist(&self, x: &Vec<Vec<Fx>>) -> (r: Result<(Vec<Fx>, Vec<Fx>), BayesianError>)
        ensures
            r matches Ok(pv) ==> {
                &&& pv.0@.len() == x@.len()
                &&& pv.1@.len() == x@.len()
                &&& forall|i: int|
                    0 <= i < x@.len() ==> (#[trigger] pv.0@[i]).raw == dot_fx_raw(
                        x@[i]@,
                        self.posterior.mean@,
                    ) + self.intercept.raw
                &&& forall|i: int|
                    0 <= i < x@.len() ==> (#[trigger] pv.1@[i]).raw == div_raw(
                        SCALE as int,
                        self.alpha.raw as int,
                    ) + quad_form_raw(self.posterior.covariance@, x@[i]@)
            },
            r matches Err(e) ==> e is DimensionMismatch || e is ConvergenceError,
            (r matches Err(e) && e is DimensionMismatch) <==> {
                ||| self.posterior.covariance@.len() != self.posterior.mean@.len()
                ||| exists|c: int|
                    0 <= c < self.posterior.covariance@.len() && (
                    #[trigger] self.posterior.covariance@[c])@.len()
                        != self.posterior.mean@.len()
                ||| exists|i: int|
                    0 <= i < x@.len() && (#[trigger] x@[i])@.len() != self.posterior.mean@.len()
            },
            r is Ok <==> {
                &&& self.posterior.covariance@.len() == self.posterior.mean@.len()
                &&& forall|c: int|
                    0 <= c < self.posterior.covariance@.len() ==> (
                    #[trigger] self.posterior.covariance@[c])@.len()
                        == self.posterior.mean@.len()
                &&& forall|i: int|
                    0 <= i < x@.len() ==> (#[trigger] x@[i])@.len() == self.posterior.mean@.len()
                &&& forall|i: int|
                    0 <= i < x@.len() ==> dot_ok((#[trigger] x@[i])@, self.posterior.mean@)
                &&& forall|i: int|
                    0 <= i < x@.len() ==> fits_raw(
                        dot_fx_raw((#[trigger] x@[i])@, self.posterior.mean@)
                            + self.intercept.raw,
                    )
                &&& self.alpha.raw != 0
                &&& fits_raw(div_raw(SCALE as int, self.alpha.raw as int))
                &&& forall|i: int|
                    0 <= i < x@.len() ==> var_ok(self.posterior.covariance@, (#[trigger] x@[i])@)
                &&& forall|i: int|
                    0 <= i < x@.len() ==> fits_raw(
                        div_raw(SCALE as int, self.alpha.raw as int) + quad_form_raw(
                            self.posterior.covariance@,
                            (#[trigger] x@[i])@,
                        ),
                    )
            },
    {
        let d = self.posterior.mean.len();
        if self.posterior.covariance.len() != d {
            return Err(BayesianError::DimensionMismatch);
        }
        let mut c: usize = 0;
        while c < d
            invariant
                c <= d,
                d == self.posterior.mean@.len(),
                self.posterior.covariance@.len() == d,
                forall|t: int|
                    0 <= t < c ==> (#[trigger] self.posterior.covariance@[t])@.len() == d,
            decreases d - c,
        {
            if self.posterior.covariance[c].len() != d {
                return Err(BayesianError::DimensionMismatch);
            }
            c = c + 1;
        }
        let means = match self.predict(x) {
            Ok(v) => v,
            Err(e) => {
                return Err(e);
            },
        };
        let inv_alpha = match Fx::one().checked_div(self.alpha) {
            Some(v) => v,
            None => {
                return Err(BayesianError::ConvergenceError);
            },
        };
        let mut vars: Vec<Fx> = Vec::new();
        let mut i: usize = 0;
        while i < x.len()
            invariant
                i <= x@.len(),
                d == self.posterior.mean@.len(),
                is_matrix(self.posterior.covariance@, d as int, d as int),
                forall|u: int| 0 <= u < x@.len() ==> (#[trigger] x@[u])@.len() == d,
                inv_alpha.raw == div_raw(SCALE as int, self.alpha.raw as int),
                vars@.len() == i,
                forall|u: int|
                    0 <= u < i ==> (#[trigger] vars@[u]).raw == div_raw(
                        SCALE as int,
                        self.alpha.raw as int,
                    ) + quad_form_raw(self.posterior.covariance@, x@[u]@),
                forall|u: int|
                    0 <= u < i ==> var_ok(self.posterior.covariance@, (#[trigger] x@[u])@),
                forall|u: int|
                    0 <= u < i ==> fits_raw(
                        div_raw(SCALE as int, self.alpha.raw as int) + quad_form_raw(
                            self.posterior.covariance@,
                            (#[trigger] x@[u])@,
                        ),
                    ),
            decreases x@.len() - i,
        {
            let cr = match mat_vec(&self.posterior.covariance, &x[i]) {
                Some(v) => v,
                None => {
                    return Err(BayesianError::ConvergenceError);
                },
            };
            proof {
                let cov = self.posterior.covariance@;
                let rowseq = x@[i as int]@;
                let specseq = Seq::new(
                    cov.len(),
                    |j: int| Fx { raw: dot_fx_raw(cov[j]@, rowseq) as i64 },
                );
                assert forall|j: int| 0 <= j < cov.len() implies cr@[j] == specseq[j] by {
                    assert(cr@[j].raw == dot_fx_raw(cov[j]@, rowseq));
                }
                assert(cr@ =~= specseq);
            }
            let q = match dot(&x[i], &cr) {
                Some(v) => v,
                None => {
                    return Err(BayesianError::ConvergenceError);
                },
            };
            proof {
                assert(q.raw == quad_form_raw(self.posterior.covariance@, x@[i as int]@));
            }
            let v = match inv_alpha.checked_add(q) {
                Some(v) => v,
                None => {
                    return Err(BayesianError::ConvergenceError);
                },
            };
            vars.push(v);
            i = i + 1;
        }
        proof {
            assert(means@.len() == x@.len());
        }
        Ok((means, vars))
    }

    /// Read access to the posterior.
    pub fn posterior(&self) -> (r: &BayesianPosterior)
        ensures
            r == &self.posterior,
    {
        &self.posterior
    }
}

/// Determinism of prediction: the contract of `predict` pins every
/// entry of a successful prediction as a function of the model and
/// the query rows alone, so two successful predictions of one model
/// on one matrix are identical.
pub proof fn lemma_predict_deterministic(
    m: BayesianRidgeModel,
    x: Seq<Vec<Fx>>,
    first: Seq<Fx>,
    second: Seq<Fx>,
)
    requires
        first.len() == x.len(),
        second.len() == x.len(),
        forall|i: int|
            0 <= i < x.len() ==> (#[trigger] first[i]).raw == dot_fx_raw(x[i]@, m.posterior.mean@)
                + m.intercept.raw,
        forall|i: int|
            0 <= i < x.len() ==> (#[trigger] second[i]).raw == dot_fx_raw(x[i]@, m.posterior.mean@)
                + m.intercept.raw,
    ensures
        first == second,
{
    assert forall|i: int| 0 <= i < first.len() implies first[i] == second[i] by {
        assert(first[i].raw == second[i].raw);
    }
    assert(first =~= second);
}

/// Centering correctness: when the intercept was recovered as the
/// target mean minus the dot product of the feature means with the
/// posterior mean (which `fit` guarantees with centering on), a
/// prediction made on the feature-mean row - which `predict`
/// guarantees equals that same dot product plus the intercept - is
/// exactly the target mean.
pub proof fn lemma_predict_at_training_mean(m: BayesianRidgeModel, pred_raw: int)
    requires
        m.intercept.raw == m.y_mean.raw - dot_fx_raw(m.x_mean@, m.posterior.mean@),
        pred_raw == dot_fx_raw(m.x_mean@, m.posterior.mean@) + m.intercept.raw,
    ensures
        pred_raw == m.y_mean.raw,
{
}

} // verus!
