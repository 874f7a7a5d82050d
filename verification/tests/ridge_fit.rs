use bayesian_ridge::ard::{fit_ard, ARDParams};
use bayesian_ridge::error::BayesianError;
use bayesian_ridge::fx::{Fx, EPS_RAW, SCALE};
use bayesian_ridge::linalg::INV_CHECK_RAW;
use bayesian_ridge::posterior::BayesianPosterior;
use bayesian_ridge::ridge::{BayesianRidge, BayesianRidgeModel, DEFAULT_MAX_ITER, DEFAULT_TOL_RAW};

fn val(v: i64) -> Fx {
    Fx::from_int(v).unwrap()
}

fn matrix(rows: &[&[i64]]) -> Vec<Vec<Fx>> {
    rows.iter().map(|r| r.iter().map(|&v| val(v)).collect()).collect()
}

fn vector(vs: &[i64]) -> Vec<Fx> {
    vs.iter().map(|&v| val(v)).collect()
}

/// Absolute difference in raw units.
fn raw_dist(a: Fx, b: Fx) -> i64 {
    (a.raw - b.raw).abs()
}

#[test]
fn default_configuration() {
    let c = BayesianRidge::default();
    assert_eq!(c.max_iter, DEFAULT_MAX_ITER);
    assert_eq!(c.max_iter, 300);
    assert_eq!(c.tol.raw, DEFAULT_TOL_RAW);
    assert!(c.alpha_init.is_none());
    assert!(c.lambda_init.is_none());
    assert!(c.fit_intercept);
}

#[test]
fn builder_setters_replace_fields() {
    let c = BayesianRidge::default()
        .max_iter(17)
        .tol(Fx::from_raw(5))
        .alpha_init(val(2))
        .lambda_init(val(3))
        .fit_intercept(false);
    assert_eq!(c.max_iter, 17);
    assert_eq!(c.tol.raw, 5);
    assert_eq!(c.alpha_init.unwrap().raw, 2 * SCALE);
    assert_eq!(c.lambda_init.unwrap().raw, 3 * SCALE);
    assert!(!c.fit_intercept);
}

#[test]
fn well_conditioned_fit_tracks_targets() {
    // near-perfectly linear data: the fit must succeed and the
    // predictions must closely track the targets
    let x = matrix(&[&[1, 2], &[2, 3], &[3, 4]]);
    let y = vector(&[1, 2, 3]);
    let model = BayesianRidge::default().fit(&x, &y).expect("fit failed");
    assert_eq!(model.posterior.mean.len(), 2);
    assert_eq!(model.posterior.covariance.len(), 2);
    assert!(model.alpha.raw > 0);
    assert!(model.lambdas.iter().all(|l| l.raw > 0));
    assert_eq!(model.lambdas.len(), 2);
    let preds = model.predict(&x).expect("predict failed");
    assert_eq!(preds.len(), 3);
    for (p, t) in preds.iter().zip(y.iter()) {
        // within 0.05 units
        assert!(raw_dist(*p, *t) < SCALE / 20, "prediction {} far from {}", p.raw, t.raw);
    }
}

#[test]
fn dimension_mismatch_reported_exactly() {
    let x = matrix(&[&[1, 2], &[2, 3]]);
    let y = vector(&[1, 2, 3]);
    let r = BayesianRidge::default().fit(&x, &y);
    assert!(matches!(r, Err(BayesianError::DimensionMismatch)));
    // with matching row counts the same data never reports a
    // dimension mismatch
    let y2 = vector(&[1, 2]);
    let r2 = BayesianRidge::default().fit(&x, &y2);
    assert!(!matches!(r2, Err(BayesianError::DimensionMismatch)));
}

#[test]
fn invalid_inputs_reported() {
    let x = matrix(&[&[1, 2], &[2, 3]]);
    let y = vector(&[1, 2]);
    let r = BayesianRidge::default().tol(Fx::zero()).fit(&x, &y);
    assert!(matches!(r, Err(BayesianError::InvalidInput(_))));
    let r = BayesianRidge::default().alpha_init(Fx::zero()).fit(&x, &y);
    assert!(matches!(r, Err(BayesianError::InvalidInput(_))));
    let r = BayesianRidge::default().lambda_init(Fx::from_raw(-1)).fit(&x, &y);
    assert!(matches!(r, Err(BayesianError::InvalidInput(_))));
    let empty: Vec<Vec<Fx>> = Vec::new();
    let r = BayesianRidge::default().fit(&empty, &Vec::new());
    assert!(matches!(r, Err(BayesianError::InvalidInput(_))));
    let ragged = vec![vec![val(1), val(2)], vec![val(3)]];
    let r = BayesianRidge::default().fit(&ragged, &y);
    assert!(matches!(r, Err(BayesianError::InvalidInput(_))));
}

#[test]
fn numeric_overflow_is_a_typed_error() {
    let x = vec![vec![Fx::from_raw(i64::MAX)], vec![Fx::from_raw(i64::MIN)]];
    let y = vector(&[1, 2]);
    let r = BayesianRidge::default().fit_intercept(false).fit(&x, &y);
    assert!(matches!(r, Err(BayesianError::ConvergenceError)));
}

#[test]
fn fit_is_deterministic() {
    // identical inputs and configuration give bit-for-bit identical models
    let x = matrix(&[&[1, 2], &[2, 3], &[3, 4]]);
    let y = vector(&[1, 2, 3]);
    let a = BayesianRidge::default().fit(&x, &y).unwrap();
    let b = BayesianRidge::default().fit(&x, &y).unwrap();
    assert_eq!(a.posterior.mean, b.posterior.mean);
    assert_eq!(a.posterior.covariance, b.posterior.covariance);
    assert_eq!(a.intercept, b.intercept);
    assert_eq!(a.alpha, b.alpha);
    assert_eq!(a.lambda, b.lambda);
    assert_eq!(a.lambdas, b.lambdas);
    assert_eq!(a.converged, b.converged);
    assert_eq!(a.iterations, b.iterations);
}

#[test]
fn zero_iteration_budget_returns_the_initial_state() {
    let x = matrix(&[&[1, 2], &[2, 3], &[3, 4]]);
    let y = vector(&[1, 2, 3]);
    let model = BayesianRidge::default().max_iter(0).fit(&x, &y).expect("fit failed");
    assert_eq!(model.iterations, 0);
    assert!(!model.converged);
    assert!(model.posterior.mean.iter().all(|m| m.raw == 0));
    assert_eq!(model.alpha.raw, SCALE);
    assert_eq!(model.lambda.raw, SCALE);
    // with a zero coefficient vector the intercept is the target mean
    assert_eq!(model.intercept.raw, 2 * SCALE);
    for (i, row) in model.posterior.covariance.iter().enumerate() {
        for (j, e) in row.iter().enumerate() {
            assert_eq!(e.raw, if i == j { SCALE } else { 0 });
        }
    }
}

#[test]
fn tolerance_check_or_budget_ends_the_loop() {
    let x = matrix(&[&[1, 0], &[0, 1], &[1, 1], &[2, 1]]);
    let y = vector(&[1, 2, 3, 4]);
    let model = BayesianRidge::default().fit(&x, &y).expect("fit failed");
    assert!(model.converged || model.iterations == DEFAULT_MAX_ITER);
    assert!(model.iterations <= DEFAULT_MAX_ITER);
}

#[test]
fn zero_column_converges_with_loose_tolerance() {
    // duplicated all-zero columns: the update stays well defined and
    // the fit succeeds when the tolerance check ends the loop
    let x = matrix(&[&[1, 0, 0], &[2, 0, 0], &[3, 0, 0]]);
    let y = vector(&[1, 2, 3]);
    let model = BayesianRidge::default().tol(val(1)).fit(&x, &y).expect("fit failed");
    assert_eq!(model.posterior.mean.len(), 3);
    assert!(model.converged);
}

#[test]
fn zero_columns_succeed_under_default_configuration() {
    // duplicated all-zero columns under the default configuration: the
    // dead features' precisions settle on the positive floor, the
    // precision matrix stays regular, and the fit both succeeds and
    // tracks the targets
    let x = matrix(&[&[1, 0, 0], &[2, 0, 0], &[3, 0, 0]]);
    let y = vector(&[1, 2, 3]);
    let model = BayesianRidge::default().fit(&x, &y).expect("fit failed");
    assert!(model.converged);
    assert_eq!(model.lambdas[1].raw, EPS_RAW);
    assert_eq!(model.lambdas[2].raw, EPS_RAW);
    assert!(model.lambdas.iter().all(|l| l.raw > 0));
    let preds = model.predict(&x).expect("predict failed");
    for (p, t) in preds.iter().zip(y.iter()) {
        assert!(raw_dist(*p, *t) < SCALE / 20, "prediction {} far from {}", p.raw, t.raw);
    }
}

#[test]
fn dead_feature_engages_the_floor() {
    // the second feature is orthogonal to the target after centering,
    // so its posterior mean is zero and its precision update divides
    // by the floor instead of by zero; the fit succeeds and every
    // precision stays finite
    let x = matrix(&[&[1, 3], &[2, 0], &[3, 3]]);
    let y = vector(&[1, 2, 3]);
    let model = BayesianRidge::default().fit(&x, &y).expect("fit failed");
    assert_eq!(model.posterior.mean.len(), 2);
    let preds = model.predict(&x).expect("predict failed");
    for (p, t) in preds.iter().zip(y.iter()) {
        assert!(raw_dist(*p, *t) < SCALE / 20, "prediction {} far from {}", p.raw, t.raw);
    }
}

#[test]
fn predicting_on_the_mean_row_returns_the_target_mean() {
    // centering correctness: the prediction on the training feature
    // means reproduces the training target mean, here exactly
    let x = matrix(&[&[1, 2], &[2, 3], &[3, 4]]);
    let y = vector(&[1, 2, 3]);
    let model = BayesianRidge::default().fit(&x, &y).expect("fit failed");
    let mean_row = vec![model.x_mean.clone()];
    let preds = model.predict(&mean_row).expect("predict failed");
    assert_eq!(preds[0].raw, model.y_mean.raw);
    assert_eq!(model.y_mean.raw, 2 * SCALE);
}

#[test]
fn without_intercept_the_offset_is_zero() {
    let x = matrix(&[&[1, 2], &[2, 3], &[3, 4]]);
    let y = vector(&[1, 2, 3]);
    let model = BayesianRidge::default().fit_intercept(false).fit(&x, &y).expect("fit failed");
    assert_eq!(model.intercept.raw, 0);
    assert!(model.x_mean.is_empty());
}

#[test]
fn predict_checks_row_widths() {
    let x = matrix(&[&[1, 2], &[2, 3], &[3, 4]]);
    let y = vector(&[1, 2, 3]);
    let model = BayesianRidge::default().fit(&x, &y).unwrap();
    let bad = matrix(&[&[1, 2, 3]]);
    assert!(matches!(model.predict(&bad), Err(BayesianError::DimensionMismatch)));
}

#[test]
fn predictive_variance_is_positive() {
    let x = matrix(&[&[1, 2], &[2, 3], &[3, 4]]);
    let y = vector(&[1, 2, 3]);
    let model = BayesianRidge::default().fit(&x, &y).unwrap();
    let (means, vars) = model.predict_dist(&x).expect("predict_dist failed");
    assert_eq!(means.len(), 3);
    assert_eq!(vars.len(), 3);
    let preds = model.predict(&x).unwrap();
    for (m, p) in means.iter().zip(preds.iter()) {
        assert_eq!(m.raw, p.raw);
    }
    for v in vars.iter() {
        assert!(v.raw > 0, "variance {} not positive", v.raw);
    }
}

#[test]
fn posterior_accessor_returns_the_posterior() {
    let x = matrix(&[&[1, 2], &[2, 3], &[3, 4]]);
    let y = vector(&[1, 2, 3]);
    let model = BayesianRidge::default().fit(&x, &y).unwrap();
    let p = model.posterior();
    assert_eq!(p.mean.len(), 2);
    assert_eq!(p.covariance.len(), 2);
}

#[test]
fn error_messages_describe_the_failure() {
    assert_eq!(BayesianError::ConvergenceError.message(), "Algorithm failed to converge");
    assert_eq!(BayesianError::DimensionMismatch.message(), "Input dimensions do not match");
    assert_eq!(
        BayesianError::InvalidInput("bad".to_owned()).message(),
        "Invalid input: bad"
    );
    assert_eq!(
        BayesianError::Linfa("wrapped".to_owned()).message(),
        "Linfa error: wrapped"
    );
}

#[test]
fn predictive_variance_formula_is_exact() {
    // a hand-built model with known posterior: mean [1], covariance
    // [[2]], noise precision 2, intercept 0
    let model = BayesianRidgeModel {
        posterior: BayesianPosterior::new(vec![val(1)], vec![vec![val(2)]]),
        intercept: Fx::zero(),
        alpha: val(2),
        lambda: val(1),
        lambdas: vec![val(1)],
        x_mean: Vec::new(),
        y_mean: Fx::zero(),
        converged: true,
        iterations: 1,
    };
    let x = matrix(&[&[3]]);
    let (means, vars) = model.predict_dist(&x).expect("predict_dist failed");
    // mean: 3 * 1 + 0 = 3
    assert_eq!(means[0].raw, 3 * SCALE);
    // variance: 1/2 + 3 * (2 * 3) = 18.5
    assert_eq!(vars[0].raw, 18 * SCALE + SCALE / 2);
}

#[test]
fn engine_runs_standalone() {
    let x = matrix(&[&[1, 0], &[0, 1], &[1, 1]]);
    let y = vector(&[1, 2, 3]);
    let params = ARDParams {
        max_iter: 50,
        tol: Fx::from_raw(DEFAULT_TOL_RAW),
        alpha_init: Fx::one(),
        lambda_init: Fx::one(),
    };
    let res = fit_ard(&x, &y, &params).expect("engine failed");
    assert_eq!(res.posterior.mean.len(), 2);
    assert_eq!(res.lambdas.len(), 2);
    assert!(res.iterations <= 50);
    assert!(res.converged || res.iterations == 50);
    assert!(res.alpha.raw > 0);
    assert!(res.lambdas.iter().all(|l| l.raw > 0));
    // the returned covariance is exactly symmetric
    for (i, row) in res.posterior.covariance.iter().enumerate() {
        for (j, e) in row.iter().enumerate() {
            assert_eq!(e.raw, res.posterior.covariance[j][i].raw);
        }
    }
}

#[test]
fn converged_triple_is_self_consistent() {
    // rebuild the precision matrix from the returned precisions and
    // check the certified relations of a converged run at runtime:
    // the covariance is an approximate inverse of it, and the mean is
    // exactly alpha * covariance * X^t y in fixed point
    let x = matrix(&[&[1, 0], &[0, 1], &[1, 1]]);
    let y = vector(&[1, 2, 3]);
    let params = ARDParams {
        max_iter: 50,
        tol: Fx::from_raw(DEFAULT_TOL_RAW),
        alpha_init: Fx::one(),
        lambda_init: Fx::one(),
    };
    let res = fit_ard(&x, &y, &params).expect("engine failed");
    assert!(res.converged);
    let d = 2usize;
    let n = 3usize;
    let dotp = |a: &[i64], b: &[i64]| -> i64 {
        let s: i128 = a.iter().zip(b.iter()).map(|(&p, &q)| p as i128 * q as i128).sum();
        (s / SCALE as i128) as i64
    };
    let mulp = |a: i64, b: i64| -> i64 { ((a as i128 * b as i128) / SCALE as i128) as i64 };
    let col = |j: usize| -> Vec<i64> { (0..n).map(|i| x[i][j].raw).collect() };
    // precision = diag(lambdas) + alpha * X^t X
    let mut prec = vec![vec![0i64; d]; d];
    for i in 0..d {
        for j in 0..d {
            prec[i][j] = mulp(res.alpha.raw, dotp(&col(i), &col(j)));
            if i == j {
                prec[i][j] += res.lambdas[i].raw;
            }
        }
    }
    let cov: Vec<Vec<i64>> =
        res.posterior.covariance.iter().map(|r| r.iter().map(|e| e.raw).collect()).collect();
    for i in 0..d {
        for j in 0..d {
            let e = dotp(&prec[i], &(0..d).map(|t| cov[t][j]).collect::<Vec<i64>>());
            let target = if i == j { SCALE } else { 0 };
            assert!((e - target).abs() <= INV_CHECK_RAW, "residual {} at ({}, {})", e - target, i, j);
        }
    }
    // mean = alpha * covariance * X^t y, exactly
    let yr: Vec<i64> = y.iter().map(|v| v.raw).collect();
    for j in 0..d {
        let xty: Vec<i64> = (0..d).map(|t| dotp(&col(t), &yr)).collect();
        let expected = mulp(dotp(&cov[j], &xty), res.alpha.raw);
        assert_eq!(res.posterior.mean[j].raw, expected);
    }
}
