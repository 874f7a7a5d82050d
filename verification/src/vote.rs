//! Plurality voting over nearest-neighbour labels.

use vstd::prelude::*;

verus! {

/// Number of occurrences of `v` in `s`.
pub open spec fn count_of(s: Seq<usize>, v: usize) -> nat
    decreases s.len(),
{
    if s.len() == 0 {
        0
    } else {
        count_of(s.drop_last(), v) + if s.last() == v {
            1nat
        } else {
            0nat
        }
    }
}

/// The labels of the given neighbours, in neighbour order.
pub open spec fn label_seq(neighbors: Seq<usize>, targets: Seq<usize>) -> Seq<usize> {
    Seq::new(neighbors.len(), |i: int| targets[neighbors[i] as int])
}

/// `r` wins a plurality vote over `labels`: it occurs, no label occurs
/// more often, and among the most frequent labels it is the one whose
/// first occurrence comes earliest.
pub open spec fn is_plurality(labels: Seq<usize>, r: usize) -> bool {
    &&& labels.contains(r)
    &&& forall|i: int|
        0 <= i < labels.len() ==> count_of(labels, #[trigger] labels[i]) <= count_of(labels, r)
    &&& exists|i: int|
        {
            &&& 0 <= i < labels.len()
            &&& labels[i] == r
            &&& forall|j: int|
                0 <= j < i ==> count_of(labels, #[trigger] labels[j]) < count_of(labels, r)
        }
}

/// Every neighbour index is a valid position among `n_targets` stored
/// labels, and there is at least one neighbour.
pub open spec fn valid_neighbors(neighbors: Seq<usize>, n_targets: nat) -> bool {
    &&& neighbors.len() > 0
    &&& forall|j: int| 0 <= j < neighbors.len() ==> #[trigger] neighbors[j] < n_targets
}

fn count_eq(labels: &Vec<usize>, v: usize) -> (r: usize)
    ensures
        r == count_of(labels@, v),
{
    let mut c: usize = 0;
    let mut i: usize = 0;
    while i < labels.len()
        invariant
            i <= labels@.len(),
            c <= i,
            c == count_of(labels@.take(i as int), v),
        decreases labels@.len() - i,
    {
        proof {
            assert(labels@.take(i + 1).drop_last() =~= labels@.take(i as int));
            assert(labels@.take(i + 1).last() == labels@[i as int]);
        }
        if labels[i] == v {
            c = c + 1;
        }
        i = i + 1;
    }
    proof {
        assert(labels@.take(labels@.len() as int) =~= labels@);
    }
    c
}

/// The label that a plurality of the given neighbours carries; a tie
/// keeps the label whose first supporting neighbour comes earliest.
pub fn majority_vote(neighbors: &Vec<usize>, targets: &Vec<usize>) -> (r: usize)
    requires
        valid_neighbors(neighbors@, targets@.len()),
    ensures
        is_plurality(label_seq(neighbors@, targets@), r),
{
    let mut labels: Vec<usize> = Vec::new();
    let mut i: usize = 0;
    while i < neighbors.len()
        invariant
            i <= neighbors@.len(),
            valid_neighbors(neighbors@, targets@.len()),
            labels@ == label_seq(neighbors@, targets@).take(i as int),
        decreases neighbors@.len() - i,
    {
        labels.push(targets[neighbors[i]]);
        proof {
            assert(labels@ =~= label_seq(neighbors@, targets@).take(i + 1));
        }
        i = i + 1;
    }
    proof {
        assert(labels@ =~= label_seq(neighbors@, targets@));
    }

    let mut best: usize = labels[0];
    let mut best_c: usize = count_eq(&labels, best);
    let ghost mut best_i: int = 0;
    let mut j: usize = 1;
    while j < labels.len()
        invariant
            1 <= j <= labels@.len(),
            0 <= best_i < j,
            labels@[best_i] == best,
            best_c == count_of(labels@, best),
            forall|t: int|
                0 <= t < j ==> count_of(labels@, #[trigger] labels@[t]) <= count_of(labels@, best),
            forall|t: int|
                0 <= t < best_i ==> count_of(labels@, #[trigger] labels@[t]) < count_of(
                    labels@,
                    best,
                ),
        decreases labels@.len() - j,
    {
        let c = count_eq(&labels, labels[j]);
        if c > best_c {
            best = labels[j];
            best_c = c;
            proof {
                best_i = j as int;
            }
        }
        j = j + 1;
    }
    proof {
        assert(labels@.contains(best));
    }
    best
}

/// One plurality vote per query row: the verified half of the neighbour
/// classifier's prediction.  The caller supplies, for each query, the
/// positions of its nearest neighbours among the stored samples.
pub fn predict_from_neighbors(neighbor_lists: &Vec<Vec<usize>>, targets: &Vec<usize>) -> (r: Vec<
    usize,
>)
    requires
        forall|i: int|
            0 <= i < neighbor_lists@.len() ==> valid_neighbors(
                (#[trigger] neighbor_lists@[i])@,
                targets@.len(),
            ),
    ensures
        r@.len() == neighbor_lists@.len(),
        forall|i: int|
            0 <= i < r@.len() ==> is_plurality(
                label_seq(neighbor_lists@[i]@, targets@),
                #[trigger] r@[i],
            ),
{
    let mut out: Vec<usize> = Vec::new();
    let mut i: usize = 0;
    while i < neighbor_lists.len()
        invariant
            i <= neighbor_lists@.len(),
            out@.len() == i,
            forall|t: int|
                0 <= t < neighbor_lists@.len() ==> valid_neighbors(
                    (#[trigger] neighbor_lists@[t])@,
                    targets@.len(),
                ),
            forall|t: int|
                0 <= t < i ==> is_plurality(label_seq(neighbor_lists@[t]@, targets@), #[trigger] out@[t]),
        decreases neighbor_lists@.len() - i,
    {
        let v = majority_vote(&neighbor_lists[i], targets);
        out.push(v);
        i = i + 1;
    }
    out
}

} // verus!
