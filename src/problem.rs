//! Per-query scratch: every buffer a prediction needs, sized once against a model.
use vstd::prelude::*;

use crate::layout::{padded, padded_width, LANES};
use crate::model::{Class, SVM};
use crate::triangular::Triangular;

verus! {

/// The largest support-vector count among the classes.
pub open spec fn max_support_vectors(classes: Seq<Class>) -> nat
    decreases classes.len(),
{
    if classes.len() == 0 {
        0
    } else {
        let rest = max_support_vectors(classes.drop_last());
        let last = classes.last().num_sv_spec();
        if last > rest {
            last
        } else {
            rest
        }
    }
}

/// The feature row that loading `values` into a row of padded width `width` gives.
pub open spec fn loaded_features(values: Seq<u32>, width: nat) -> Seq<u32> {
    values + Seq::new((width - values.len()) as nat, |k: int| 0u32)
}

/// A rectangle of `rows × cols` entries.
pub open spec fn is_grid(g: Seq<Vec<u64>>, rows: nat, cols: nat) -> bool {
    &&& g.len() == rows
    &&& forall|r: int| 0 <= r < rows ==> (#[trigger] g[r])@.len() == cols
}

/// One query against one model. Floating-point entries are held as IEEE-754 bit patterns:
/// `features` as `f32`, everything else as `f64`.
pub struct Problem {
    /// The feature vector, padded with zeros to a whole number of lanes.
    pub features: Vec<u32>,
    /// `K(sv, features)` for every support vector, one row per class.
    pub kernel_values: Vec<Vec<u64>>,
    /// The decision value of each class pair.
    pub decision_values: Triangular<u64>,
    /// The number of pairwise contests each class won.
    pub vote: Vec<u64>,
    /// Calibrated pairwise probabilities, `n × n`.
    pub pairwise: Vec<Vec<u64>>,
    /// The coupling matrix `Q`, `n × n`.
    pub q: Vec<Vec<u64>>,
    /// The product `Q·p`.
    pub qp: Vec<u64>,
    /// The probability of each class.
    pub probabilities: Vec<u64>,
    /// The predicted external label.
    pub label: u32,
}

impl Problem {
    /// Every buffer has the size that `svm` asks for.
    pub open spec fn wf_for(&self, svm: &SVM) -> bool {
        let n = svm.n();
        &&& self.features@.len() == padded(svm.num_attributes_spec())
        &&& is_grid(self.kernel_values@, n, max_support_vectors(svm.classes_spec()))
        &&& self.decision_values.wf()
        &&& self.decision_values.dim() == n
        &&& self.vote@.len() == n
        &&& is_grid(self.pairwise@, n, n)
        &&& is_grid(self.q@, n, n)
        &&& self.qp@.len() == n
        &&& self.probabilities@.len() == n
    }

    /// A problem for `svm` with every buffer zeroed.
    pub fn new(svm: &SVM) -> (r: Problem)
        requires
            svm.wf(),
        ensures
            r.wf_for(svm),
            r.features@.len() % LANES as nat == 0,
            forall|k: int| 0 <= k < r.features@.len() ==> #[trigger] r.features@[k] == 0,
            r.label == 0,
    {
        let n = svm.classes();
        let width = padded_width(svm.attributes());
        let mut features: Vec<u32> = Vec::new();
        let mut k: usize = 0;
        while k < width
            invariant
                k <= width,
                features@.len() == k,
                forall|m: int| 0 <= m < k ==> #[trigger] features@[m] == 0,
            decreases width - k,
        {
            features.push(0);
            k = k + 1;
        }
        let max_sv = max_class_size(svm);
        Problem {
            features,
            kernel_values: grid(n, max_sv),
            decision_values: Triangular::with_dimension(n, 0u64),
            vote: zeros(n),
            pairwise: grid(n, n),
            q: grid(n, n),
            qp: zeros(n),
            probabilities: zeros(n),
            label: 0,
        }
    }

    /// Writes `values` into the features and zeros the padding behind them, whatever the
    /// padding held before.
    pub fn load_features(&mut self, values: &Vec<u32>)
        requires
            values@.len() <= old(self).features@.len(),
        ensures
            final(self).features@ == loaded_features(values@, old(self).features@.len()),
            final(self).kernel_values == old(self).kernel_values,
            final(self).decision_values == old(self).decision_values,
            final(self).vote == old(self).vote,
            final(self).pairwise == old(self).pairwise,
            final(self).q == old(self).q,
            final(self).qp == old(self).qp,
            final(self).probabilities == old(self).probabilities,
            final(self).label == old(self).label,
    {
        let width = self.features.len();
        let mut k: usize = 0;
        while k < width
            invariant
                width == self.features@.len(),
                values@.len() <= width,
                self.kernel_values == old(self).kernel_values,
                self.decision_values == old(self).decision_values,
                self.vote == old(self).vote,
                self.pairwise == old(self).pairwise,
                self.q == old(self).q,
                self.qp == old(self).qp,
                self.probabilities == old(self).probabilities,
                self.label == old(self).label,
                k <= width,
                forall|m: int| 0 <= m < k ==> #[trigger] self.features@[m] == loaded_features(values@, width as nat)[m],
            decreases width - k,
        {
            if k < values.len() {
                self.features.set(k, values[k]);
            } else {
                self.features.set(k, 0);
            }
            k = k + 1;
        }
        assert(self.features@ =~= loaded_features(values@, width as nat));
    }
}

/// Loading the same feature values into two problems of the same width leaves their feature
/// rows identical, whatever their padding lanes held before.
pub proof fn lemma_padding_invariance(values: Seq<u32>, width: nat, before1: Seq<u32>, before2: Seq<u32>)
    requires
        values.len() <= width,
        before1.len() == width,
        before2.len() == width,
    ensures
        loaded_features(values, before1.len()) == loaded_features(values, before2.len()),
        forall|k: int| values.len() <= k < width ==> #[trigger] loaded_features(values, width)[k] == 0,
{
}

/// A vector of `len` zeros.
fn zeros(len: usize) -> (r: Vec<u64>)
    ensures
        r@.len() == len,
        forall|k: int| 0 <= k < len ==> #[trigger] r@[k] == 0,
{
    let mut r: Vec<u64> = Vec::new();
    let mut k: usize = 0;
    while k < len
        invariant
            k <= len,
            r@.len() == k,
            forall|m: int| 0 <= m < k ==> #[trigger] r@[m] == 0,
        decreases len - k,
    {
        r.push(0);
        k = k + 1;
    }
    r
}

/// A `rows × cols` rectangle of zeros.
fn grid(rows: usize, cols: usize) -> (r: Vec<Vec<u64>>)
    ensures
        is_grid(r@, rows as nat, cols as nat),
{
    let mut r: Vec<Vec<u64>> = Vec::new();
    let mut k: usize = 0;
    while k < rows
        invariant
            k <= rows,
            r@.len() == k,
            forall|m: int| 0 <= m < k ==> (#[trigger] r@[m])@.len() == cols,
        decreases rows - k,
    {
        r.push(zeros(cols));
        k = k + 1;
    }
    r
}

/// The largest support-vector count among the classes of `svm`.
fn max_class_size(svm: &SVM) -> (r: usize)
    ensures
        r == max_support_vectors(svm.classes_spec()),
{
    let n = svm.classes();
    let mut best: usize = 0;
    let mut c: usize = 0;
    while c < n
        invariant
            n == svm.n(),
            c <= n,
            best == max_support_vectors(svm.classes_spec().take(c as int)),
        decreases n - c,
    {
        let k = svm.class(c).num_support_vectors();
        assert(svm.classes_spec().take(c as int + 1).drop_last() =~= svm.classes_spec().take(c as int));
        if k > best {
            best = k;
        }
        c = c + 1;
    }
    assert(svm.classes_spec().take(n as int) =~= svm.classes_spec());
    best
}

} // verus!
