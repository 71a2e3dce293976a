//! One-vs-one voting, the choice of label, and the bound on pairwise coupling.
//!
//! Decision values and probabilities arrive as `f64` bit patterns. Two facts of IEEE-754
//! doubles are used: a double is greater than zero exactly when its bit pattern lies in
//! `1 ..= 0x7FF0_0000_0000_0000` (positive finite values and positive infinity), and for
//! doubles that are not negative the order of bit patterns is the numeric order.
use vstd::prelude::*;

use crate::model::{SVMError, SVM};
use crate::problem::Problem;
use crate::triangular::{pair_count, pair_slot, lemma_pair_slot_order, Triangular};

verus! {

/// Bit pattern of positive infinity, the largest pattern of a positive double.
pub const POSITIVE_INFINITY_BITS: u64 = 0x7FF0_0000_0000_0000;

/// The double with bit pattern `d` is greater than zero.
pub open spec fn is_positive(d: u64) -> bool {
    0 < d <= POSITIVE_INFINITY_BITS
}

/// Whether the double with bit pattern `d` is greater than zero.
pub fn positive(d: u64) -> (r: bool)
    ensures
        r == is_positive(d),
{
    0 < d && d <= POSITIVE_INFINITY_BITS
}

/// Votes of `n` classes after the contests of all pairs that come before `(i, j)` in reading
/// order: pair `(i, j)` gives its vote to `i` when its decision value is positive, else to `j`.
pub open spec fn votes_before(d: Seq<u64>, n: nat, i: nat, j: nat) -> Seq<int>
    decreases i, j,
{
    if j > 0 {
        let prev = votes_before(d, n, i, (j - 1) as nat);
        let winner = if is_positive(d[pair_slot(i, (j - 1) as nat) as int]) {
            i as int
        } else {
            j - 1
        };
        prev.update(winner, prev[winner] + 1)
    } else if i > 0 {
        votes_before(d, n, (i - 1) as nat, (i - 1) as nat)
    } else {
        Seq::new(n, |k: int| 0)
    }
}

/// The votes of all `n·(n−1)/2` contests.
pub open spec fn votes(d: Seq<u64>, n: nat) -> Seq<int> {
    votes_before(d, n, n, 0)
}

/// `r` is the first position of a largest entry of `v`.
pub open spec fn is_first_max(v: Seq<u64>, r: int) -> bool {
    &&& 0 <= r < v.len()
    &&& forall|k: int| 0 <= k < v.len() ==> #[trigger] v[k] <= v[r]
    &&& forall|k: int| 0 <= k < r ==> #[trigger] v[k] < v[r]
}

proof fn lemma_votes_before(d: Seq<u64>, n: nat, i: nat, j: nat)
    requires
        (i < n && j <= i) || (i == n && j == 0),
    ensures
        votes_before(d, n, i, j).len() == n,
        forall|k: int| 0 <= k < n ==> 0 <= #[trigger] votes_before(d, n, i, j)[k] <= pair_slot(i, j),
    decreases i, j,
{
    if j > 0 {
        lemma_votes_before(d, n, i, (j - 1) as nat);
    } else if i > 0 {
        lemma_votes_before(d, n, (i - 1) as nat, (i - 1) as nat);
    }
}

/// The index of the first largest entry of `v`.
pub fn first_max_index(v: &Vec<u64>) -> (r: usize)
    requires
        v@.len() > 0,
    ensures
        is_first_max(v@, r as int),
{
    let mut best: usize = 0;
    let mut k: usize = 1;
    while k < v.len()
        invariant
            1 <= k <= v@.len(),
            is_first_max(v@.take(k as int), best as int),
        decreases v@.len() - k,
    {
        if v[k] > v[best] {
            best = k;
        }
        k = k + 1;
        assert forall|m: int| 0 <= m < k implies #[trigger] v@.take(k as int)[m] <= v@.take(k as int)[best as int] by {
            if m < k - 1 {
                assert(v@.take(k as int)[m] == v@.take(k as int - 1)[m]);
            }
        }
        assert forall|m: int| 0 <= m < best implies #[trigger] v@.take(k as int)[m] < v@.take(k as int)[best as int] by {
            if m < k - 1 {
                assert(v@.take(k as int)[m] == v@.take(k as int - 1)[m]);
            }
        }
    }
    assert(v@.take(k as int) =~= v@);
    best
}

/// Counts the one-vs-one votes of the decision values in `problem` and sets the label to the
/// external label of the class with the most votes, the first such class on a tie.
pub fn vote(svm: &SVM, problem: &mut Problem)
    requires
        svm.wf(),
        old(problem).wf_for(svm),
    ensures
        final(problem).wf_for(svm),
        final(problem).vote@.map_values(|v: u64| v as int) == votes(old(problem).decision_values.entries(), svm.n()),
        exists|c: int|
            is_first_max(final(problem).vote@, c) && final(problem).label == svm.classes_spec()[c].label_spec(),
        final(problem).decision_values == old(problem).decision_values,
        final(problem).features == old(problem).features,
        final(problem).kernel_values == old(problem).kernel_values,
        final(problem).probabilities == old(problem).probabilities,
{
    let n = svm.classes();
    let ghost d = problem.decision_values.entries();
    let mut k: usize = 0;
    while k < n
        invariant
            n == svm.n(),
            problem.wf_for(svm),
            k <= n,
            problem.decision_values == old(problem).decision_values,
            problem.features == old(problem).features,
            problem.kernel_values == old(problem).kernel_values,
            problem.probabilities == old(problem).probabilities,
            forall|m: int| 0 <= m < k ==> #[trigger] problem.vote@[m] == 0,
        decreases n - k,
    {
        problem.vote.set(k, 0);
        k = k + 1;
    }
    assert(problem.vote@.map_values(|v: u64| v as int) =~= votes_before(d, n as nat, 0, 0));
    let mut i: usize = 0;
    while i < n
        invariant
            n == svm.n(),
            n * n <= usize::MAX,
            problem.wf_for(svm),
            i <= n,
            d == problem.decision_values.entries(),
            problem.decision_values == old(problem).decision_values,
            problem.features == old(problem).features,
            problem.kernel_values == old(problem).kernel_values,
            problem.probabilities == old(problem).probabilities,
            problem.vote@.map_values(|v: u64| v as int) == votes_before(d, n as nat, i as nat, 0),
        decreases n - i,
    {
        let mut j: usize = 0;
        while j < i
            invariant
                n == svm.n(),
                n * n <= usize::MAX,
                problem.wf_for(svm),
                i < n,
                j <= i,
                d == problem.decision_values.entries(),
                problem.decision_values == old(problem).decision_values,
                problem.features == old(problem).features,
                problem.kernel_values == old(problem).kernel_values,
                problem.probabilities == old(problem).probabilities,
                problem.vote@.map_values(|v: u64| v as int) == votes_before(d, n as nat, i as nat, j as nat),
            decreases i - j,
        {
            proof {
                lemma_votes_before(d, n as nat, i as nat, j as nat);
                lemma_pair_slot_order(i as nat, j as nat, i as nat, j as nat, n as nat);
                crate::triangular::lemma_pair_count_closed(n as nat);
            }
            let winner = if positive(problem.decision_values.get(i, j)) { i } else { j };
            let ghost prev = problem.vote@;
            assert(prev[winner as int] as int == votes_before(d, n as nat, i as nat, j as nat)[winner as int]);
            assert(pair_slot(i as nat, j as nat) < pair_count(n as nat));
            assert(pair_count(n as nat) <= n * n) by (nonlinear_arith)
                requires pair_count(n as nat) == n * (n - 1) / 2, n >= 1;
            let current = problem.vote[winner];
            problem.vote.set(winner, current + 1);
            j = j + 1;
            assert(problem.vote@.map_values(|v: u64| v as int) =~= votes_before(d, n as nat, i as nat, j as nat));
        }
        i = i + 1;
    }
    let best = first_max_index(&problem.vote);
    problem.label = svm.class(best).label();
    assert(is_first_max(problem.vote@, best as int));
}

/// The first largest entry is unique: the label that voting (or the probability argmax)
/// picks depends on the counted values alone, so repeating a prediction on the same decision
/// values repeats its label.
pub proof fn lemma_first_max_unique(v: Seq<u64>, r1: int, r2: int)
    requires
        is_first_max(v, r1),
        is_first_max(v, r2),
    ensures
        r1 == r2,
{
    if r1 < r2 {
        assert(v[r1] < v[r2]);
        assert(v[r2] <= v[r1]);
    } else if r2 < r1 {
        assert(v[r2] < v[r1]);
        assert(v[r1] <= v[r2]);
    }
}

/// When every class has the same count, the first class wins.
pub proof fn lemma_tie_goes_to_first(v: Seq<u64>, r: int)
    requires
        v.len() > 0,
        forall|k: int| 0 <= k < v.len() ==> #[trigger] v[k] == v[0],
        is_first_max(v, r),
    ensures
        r == 0,
{
    if r > 0 {
        assert(v[0] < v[r]);
    }
}

/// Sets the label to the external label of the class with the largest probability, the
/// first such class on a tie. The probabilities are the bit patterns of doubles that are
/// not negative, whose order the bit patterns share.
pub fn label_from_probabilities(svm: &SVM, problem: &mut Problem)
    requires
        svm.wf(),
        old(problem).wf_for(svm),
    ensures
        final(problem).wf_for(svm),
        exists|c: int|
            is_first_max(final(problem).probabilities@, c) && final(problem).label == svm.classes_spec()[c].label_spec(),
        final(problem).probabilities == old(problem).probabilities,
        final(problem).decision_values == old(problem).decision_values,
        final(problem).vote == old(problem).vote,
        final(problem).features == old(problem).features,
{
    let best = first_max_index(&problem.probabilities);
    problem.label = svm.class(best).label();
    assert(is_first_max(problem.probabilities@, best as int));
}

/// The iteration cap of pairwise coupling for `n` classes: `100 · max(10, n)`.
pub open spec fn max_iterations_spec(n: nat) -> nat {
    100 * if n > 10 { n } else { 10 }
}

/// The iteration cap of pairwise coupling for `n` classes: `100 · max(10, n)`.
pub fn max_iterations(n: usize) -> (r: usize)
    requires
        100 * n <= usize::MAX,
    ensures
        r == max_iterations_spec(n as nat),
{
    if n > 10 {
        100 * n
    } else {
        1000
    }
}

/// Whether coupling may run another iteration after `done` of them without converging:
/// `MaxIterationsExceededPredictingProbabilities` once the cap for `n` classes is reached.
pub fn check_iterations(done: usize, n: usize) -> (r: Result<(), SVMError>)
    requires
        100 * n <= usize::MAX,
    ensures
        done < max_iterations_spec(n as nat) ==> r is Ok,
        done >= max_iterations_spec(n as nat)
            ==> r == Err::<(), SVMError>(SVMError::MaxIterationsExceededPredictingProbabilities),
{
    if done < max_iterations(n) {
        Ok(())
    } else {
        Err(SVMError::MaxIterationsExceededPredictingProbabilities)
    }
}

} // verus!
