//! The voting logic against a real spatial index: neighbour positions
//! come from a k-d tree over the stored points, and the library turns
//! them into labels.

use bayesian_ridge::params::validate_k;
use bayesian_ridge::vote::predict_from_neighbors;
use linfa_nn::distance::L2Dist;
use linfa_nn::{CommonNearestNeighbour, NearestNeighbour};
use ndarray::Array2;

#[test]
fn knn_classifier_predicts_training_data() {
    let points = Array2::from_shape_vec(
        (4, 2),
        vec![0.0f64, 0.0, 1.0, 1.0, 0.0, 1.0, 1.0, 0.0],
    )
    .unwrap();
    let targets = vec![0usize, 1, 0, 1];
    let k = 1;

    validate_k(k, points.nrows()).unwrap();
    let index = CommonNearestNeighbour::KdTree.from_batch(&points, L2Dist).unwrap();

    let mut neighbor_lists: Vec<Vec<usize>> = Vec::new();
    for row in points.outer_iter() {
        let nearest = index.k_nearest(row.view(), k).unwrap();
        neighbor_lists.push(nearest.iter().map(|(_, idx)| *idx).collect());
    }

    let preds = predict_from_neighbors(&neighbor_lists, &targets);
    println!("Predictions: {:?}", preds);
    assert_eq!(preds, targets);
}

#[test]
fn three_nearest_vote_on_a_cluster() {
    // three points of one class around the origin and one far away:
    // with k = 3 every query near the origin answers the cluster's label
    let points = Array2::from_shape_vec(
        (4, 2),
        vec![0.0f64, 0.0, 0.5, 0.0, 0.0, 0.5, 10.0, 10.0],
    )
    .unwrap();
    let targets = vec![2usize, 2, 2, 6];
    validate_k(3, points.nrows()).unwrap();
    let index = CommonNearestNeighbour::KdTree.from_batch(&points, L2Dist).unwrap();

    let query = Array2::from_shape_vec((2, 2), vec![0.1f64, 0.1, 9.0, 9.0]).unwrap();
    let mut neighbor_lists: Vec<Vec<usize>> = Vec::new();
    for row in query.outer_iter() {
        let nearest = index.k_nearest(row.view(), 3).unwrap();
        neighbor_lists.push(nearest.iter().map(|(_, idx)| *idx).collect());
    }
    let preds = predict_from_neighbors(&neighbor_lists, &targets);
    assert_eq!(preds[0], 2);
    // the far query still sees two cluster points among its three
    // neighbours, so the cluster label wins the vote
    assert_eq!(preds[1], 2);
}
