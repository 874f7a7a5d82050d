//! Bayesian ridge regression with automatic relevance determination,
//! over exact fixed-point arithmetic, together with the label-voting
//! logic of a nearest-neighbour classifier.

pub mod ard;
pub mod error;
pub mod fx;
pub mod linalg;
pub mod params;
pub mod posterior;
pub mod ridge;
pub mod vote;
pub mod weights;
