use bayesian_ridge::error::BayesianError;
use bayesian_ridge::params::validate_k;
use bayesian_ridge::vote::{majority_vote, predict_from_neighbors};
use bayesian_ridge::weights::Weights;

#[test]
fn k_validation_bounds() {
    assert!(validate_k(1, 4).is_ok());
    assert!(validate_k(4, 4).is_ok());
    assert!(matches!(validate_k(0, 4), Err(BayesianError::Linfa(_))));
    assert!(matches!(validate_k(5, 4), Err(BayesianError::Linfa(_))));
    assert_eq!(
        validate_k(0, 4).unwrap_err().message(),
        "Linfa error: k must be > 0"
    );
    assert_eq!(
        validate_k(9, 4).unwrap_err().message(),
        "Linfa error: k must be <= number of samples"
    );
}

#[test]
fn plain_majority_wins() {
    let targets = vec![7usize, 7, 9, 7, 9];
    let neighbors = vec![0usize, 2, 3, 4, 1];
    // labels in neighbour order: 7, 9, 7, 9, 7
    assert_eq!(majority_vote(&neighbors, &targets), 7);
}

#[test]
fn tie_keeps_first_encountered_label() {
    let targets = vec![5usize, 8];
    let neighbors = vec![1usize, 0];
    // labels 8, 5 each occur once: the earlier neighbour's label wins
    assert_eq!(majority_vote(&neighbors, &targets), 8);
    let neighbors2 = vec![0usize, 1];
    assert_eq!(majority_vote(&neighbors2, &targets), 5);
}

#[test]
fn single_neighbor_returns_its_label() {
    let targets = vec![3usize, 1, 4];
    assert_eq!(majority_vote(&vec![2usize], &targets), 4);
}

#[test]
fn one_vote_per_query_row() {
    let targets = vec![0usize, 1, 0, 1];
    let lists = vec![vec![0usize, 2, 1], vec![1usize, 3, 0], vec![3usize]];
    let preds = predict_from_neighbors(&lists, &targets);
    assert_eq!(preds, vec![0, 1, 1]);
}

#[test]
fn default_weights_are_uniform() {
    assert!(matches!(Weights::default(), Weights::Uniform));
    assert_ne!(Weights::default(), Weights::Distance);
}
