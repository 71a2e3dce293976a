//! The parsed model representation, the trained model, and the intake that validates the one
//! and lays out the other.
//!
//! Numbers that the model file writes as floating point are carried as their IEEE-754 bit
//! patterns: `u32` for single precision (`gamma`, attribute values), `u64` for double precision
//! (`rho`, dual coefficients, `probA`, `probB`). The library moves and arranges them; the
//! arithmetic on them belongs to the caller.
use vstd::prelude::*;
use vstd::string::StringExecFns;

use crate::layout::{padded, PackedRows, LANES};
use crate::triangular::{pair_count, pair_count_of, Triangular};

verus! {

/// Errors of model intake and of prediction.
#[derive(Debug, Clone, Copy, PartialEq, Eq, Structural)]
pub enum SVMError {
    /// An attribute index is not the successor of the one before it in its support vector.
    /// `value` is the bit pattern of the attribute's `f32` value.
    SvmAttributesUnordered { index: u32, value: u32, last_index: u32 },
    /// The header of an RBF model names no `gamma`.
    NoGamma,
    /// `svm_type` is not `c_svc`.
    UnsupportedSvmType,
    /// `kernel_type` is not `rbf`.
    UnsupportedKernelType,
    /// Counts, lengths or labels of the model do not agree with each other.
    ShapeMismatch,
    /// Probabilities were asked of a model trained without calibration.
    ModelDoesNotSupportProbabilities,
    /// Pairwise coupling did not converge within its iteration cap.
    MaxIterationsExceededPredictingProbabilities,
}

/// One `index:value` pair of a support vector; indices count from zero.
#[derive(Debug, Clone, Copy)]
pub struct Attribute {
    pub index: u32,
    /// Bit pattern of the `f32` value.
    pub value: u32,
}

/// One support-vector row of the model file: its `nr_class − 1` dual coefficients (as `f64`
/// bit patterns) followed by its attributes.
#[derive(Debug, Clone)]
pub struct SupportVector {
    pub coefs: Vec<u64>,
    pub features: Vec<Attribute>,
}

/// The header lines of the model file.
#[derive(Debug, Clone)]
pub struct Header {
    pub svm_type: String,
    pub kernel_type: String,
    /// Bit pattern of the `f32` gamma, when the header names one.
    pub gamma: Option<u32>,
    pub nr_class: u32,
    pub total_sv: u32,
    pub rho: Vec<u64>,
    pub label: Vec<u32>,
    pub prob_a: Option<Vec<u64>>,
    pub prob_b: Option<Vec<u64>>,
    pub nr_sv: Vec<u32>,
}

/// A model file after lexing, before any check of its shape.
#[derive(Debug, Clone)]
pub struct ModelFile {
    pub header: Header,
    pub vectors: Vec<SupportVector>,
}

/// Sum of a sequence of counts.
pub open spec fn sum_of(s: Seq<u32>) -> nat
    decreases s.len(),
{
    if s.len() == 0 {
        0
    } else {
        sum_of(s.drop_last()) + s.last() as nat
    }
}

/// Index of the first support vector of class `c` in the model file.
pub open spec fn class_offset(nr_sv: Seq<u32>, c: int) -> nat {
    sum_of(nr_sv.take(c))
}

pub proof fn lemma_sum_step(s: Seq<u32>, i: int)
    requires
        0 <= i < s.len(),
    ensures
        sum_of(s.take(i + 1)) == sum_of(s.take(i)) + s[i] as nat,
{
    assert(s.take(i + 1).drop_last() =~= s.take(i));
}

pub proof fn lemma_sum_prefix(s: Seq<u32>, i: int)
    requires
        0 <= i <= s.len(),
    ensures
        sum_of(s.take(i)) <= sum_of(s),
    decreases s.len(),
{
    if i == s.len() {
        assert(s.take(i) =~= s);
    } else {
        lemma_sum_prefix(s.drop_last(), i);
        assert(s.drop_last().take(i) =~= s.take(i));
    }
}

/// `svm_type` and `kernel_type` name the one supported machine.
pub open spec fn kinds_ok(h: Header) -> bool {
    h.svm_type@ == "c_svc"@ && h.kernel_type@ == "rbf"@
}

/// Counts and lengths of the header agree with each other and with the number of rows.
pub open spec fn header_shape_ok(h: Header, num_vectors: nat) -> bool {
    let n = h.nr_class as nat;
    &&& n >= 2
    &&& n * n <= usize::MAX
    &&& h.label@.len() == n
    &&& h.nr_sv@.len() == n
    &&& h.rho@.len() == pair_count(n)
    &&& h.prob_a.is_some() == h.prob_b.is_some()
    &&& (h.prob_a matches Some(a) ==> a@.len() == pair_count(n))
    &&& (h.prob_b matches Some(b) ==> b@.len() == pair_count(n))
    &&& sum_of(h.nr_sv@) == h.total_sv
    &&& num_vectors == h.total_sv
}

/// In row `r`, the attribute at position `p` does not follow the one before it.
pub open spec fn unordered_at(vs: Seq<SupportVector>, r: int, p: int) -> bool {
    &&& 0 <= r < vs.len()
    &&& 0 < p < vs[r].features@.len()
    &&& vs[r].features@[p].index as int != vs[r].features@[p - 1].index as int + 1
}

/// `(r1, p1)` comes before `(r2, p2)` in the order rows are read.
pub open spec fn reads_before(r1: int, p1: int, r2: int, p2: int) -> bool {
    r1 < r2 || (r1 == r2 && p1 < p2)
}

/// The number of attributes: the length of the first row.
pub open spec fn num_attributes_of(m: ModelFile) -> nat {
    m.vectors@[0].features@.len()
}

/// Every row has `nr_class − 1` coefficients and the same positive number of attributes,
/// starting at index zero.
pub open spec fn rows_ok(m: ModelFile) -> bool {
    let vs = m.vectors@;
    let k = num_attributes_of(m);
    &&& vs.len() > 0
    &&& k > 0
    &&& k + LANES <= usize::MAX
    &&& forall|r: int| 0 <= r < vs.len() ==> #[trigger] row_shape_ok(m, r)
}

/// Row `r` has `nr_class − 1` coefficients and as many attributes as the first row,
/// starting at index zero.
pub open spec fn row_shape_ok(m: ModelFile, r: int) -> bool {
    let row = m.vectors@[r];
    &&& row.coefs@.len() == m.header.nr_class - 1
    &&& row.features@.len() == num_attributes_of(m)
    &&& row.features@[0].index == 0
}

/// The model file describes a model this library can build.
pub open spec fn model_file_ok(m: ModelFile) -> bool {
    &&& kinds_ok(m.header)
    &&& m.header.gamma.is_some()
    &&& header_shape_ok(m.header, m.vectors@.len())
    &&& forall|r: int, p: int| !unordered_at(m.vectors@, r, p)
    &&& rows_ok(m)
}

/// The error that intake reports for a model file, given that it reports one.
pub open spec fn intake_error_ok(m: ModelFile, e: SVMError) -> bool {
    if !kinds_ok(m.header) {
        e == if m.header.svm_type@ != "c_svc"@ {
            SVMError::UnsupportedSvmType
        } else {
            SVMError::UnsupportedKernelType
        }
    } else if m.header.gamma.is_none() {
        e == SVMError::NoGamma
    } else if !header_shape_ok(m.header, m.vectors@.len()) {
        e == SVMError::ShapeMismatch
    } else if exists|r: int, p: int| unordered_at(m.vectors@, r, p) {
        exists|r: int, p: int|
            {
                &&& unordered_at(m.vectors@, r, p)
                &&& forall|r2: int, p2: int|
                    reads_before(r2, p2, r, p) ==> !unordered_at(m.vectors@, r2, p2)
                &&& e == SVMError::SvmAttributesUnordered {
                    index: m.vectors@[r].features@[p].index,
                    value: m.vectors@[r].features@[p].value,
                    last_index: m.vectors@[r].features@[p - 1].index,
                }
            }
    } else {
        e == SVMError::ShapeMismatch
    }
}

/// The RBF kernel `K(u, v) = exp(−gamma · ‖u − v‖²)`, with `gamma` as an `f32` bit pattern.
#[derive(Debug, Clone, Copy)]
pub struct Rbf {
    pub gamma: u32,
}

impl Rbf {
    /// The kernel of a model file; `NoGamma` when its header names no gamma.
    pub fn try_from(m: &ModelFile) -> (r: Result<Rbf, SVMError>)
        ensures
            match m.header.gamma {
                Some(g) => r == Ok::<Rbf, SVMError>(Rbf { gamma: g }),
                None => r == Err::<Rbf, SVMError>(SVMError::NoGamma),
            },
    {
        match m.header.gamma {
            Some(g) => Ok(Rbf { gamma: g }),
            None => Err(SVMError::NoGamma),
        }
    }
}

/// Checks `svm_type` and `kernel_type`.
fn check_kinds(m: &ModelFile) -> (r: Result<(), SVMError>)
    ensures
        r is Ok <==> kinds_ok(m.header),
        r matches Err(e) ==> intake_error_ok(*m, e),
{
    let h = &m.header;
    let svm_type = <String as StringExecFns>::from_str("c_svc");
    let kernel_type = <String as StringExecFns>::from_str("rbf");
    if h.svm_type != svm_type {
        Err(SVMError::UnsupportedSvmType)
    } else if h.kernel_type != kernel_type {
        Err(SVMError::UnsupportedKernelType)
    } else {
        Ok(())
    }
}

/// Whether the counts sum to `total`.
fn counts_sum_to(counts: &Vec<u32>, total: u32) -> (r: bool)
    ensures
        r == (sum_of(counts@) == total as nat),
{
    let mut acc: u64 = 0;
    let mut i: usize = 0;
    while i < counts.len()
        invariant
            i <= counts@.len(),
            acc == sum_of(counts@.take(i as int)),
            acc <= total,
        decreases counts@.len() - i,
    {
        proof {
            lemma_sum_step(counts@, i as int);
        }
        acc = acc + counts[i] as u64;
        i = i + 1;
        if acc > total as u64 {
            proof {
                lemma_sum_prefix(counts@, i as int);
            }
            return false;
        }
    }
    assert(counts@.take(i as int) =~= counts@);
    acc == total as u64
}

/// Whether an optional list of calibration values has one entry per pair.
fn optional_len_is(v: &Option<Vec<u64>>, len: usize) -> (r: bool)
    ensures
        r == (v matches Some(a) ==> a@.len() == len),
{
    match v {
        Some(a) => a.len() == len,
        None => true,
    }
}

/// Checks the header's counts and lengths against each other and against the number of rows.
fn check_header_shape(m: &ModelFile) -> (r: bool)
    ensures
        r == header_shape_ok(m.header, m.vectors@.len()),
{
    let h = &m.header;
    let n = h.nr_class;
    if n < 2 {
        return false;
    }
    assert((n as u64) * (n as u64) <= u64::MAX) by (nonlinear_arith)
        requires n <= u32::MAX;
    let nn: u64 = n as u64 * n as u64;
    if nn > usize::MAX as u64 {
        return false;
    }
    let n = n as usize;
    let pairs = pair_count_of(n);
    h.label.len() == n
        && h.nr_sv.len() == n
        && h.rho.len() == pairs
        && h.prob_a.is_some() == h.prob_b.is_some()
        && optional_len_is(&h.prob_a, pairs)
        && optional_len_is(&h.prob_b, pairs)
        && counts_sum_to(&h.nr_sv, h.total_sv)
        && m.vectors.len() == h.total_sv as usize
}

/// The first attribute, in reading order, that does not follow the one before it.
fn find_unordered(vs: &Vec<SupportVector>) -> (r: Option<(usize, usize)>)
    ensures
        r is None ==> forall|a: int, b: int| !unordered_at(vs@, a, b),
        r matches Some(rp) ==> {
            &&& unordered_at(vs@, rp.0 as int, rp.1 as int)
            &&& forall|a: int, b: int| reads_before(a, b, rp.0 as int, rp.1 as int) ==> !unordered_at(vs@, a, b)
        },
{
    let mut r: usize = 0;
    while r < vs.len()
        invariant
            r <= vs@.len(),
            forall|a: int, b: int| a < r ==> !unordered_at(vs@, a, b),
        decreases vs@.len() - r,
    {
        let features = &vs[r].features;
        let mut p: usize = 1;
        while p < features.len()
            invariant
                features@ == vs@[r as int].features@,
                r < vs@.len(),
                1 <= p,
                forall|a: int, b: int| a < r ==> !unordered_at(vs@, a, b),
                forall|b: int| b < p ==> !unordered_at(vs@, r as int, b),
            decreases features@.len() - p,
        {
            if features[p].index as u64 != features[p - 1].index as u64 + 1 {
                return Some((r, p));
            }
            p = p + 1;
        }
        assert forall|b: int| !unordered_at(vs@, r as int, b) by {
            if b < p {
            }
        }
        r = r + 1;
    }
    None
}

/// Checks that every row has `nr_class − 1` coefficients and the attributes `0, 1, …` of
/// the same positive length.
fn check_rows(m: &ModelFile) -> (r: bool)
    requires
        forall|a: int, b: int| !unordered_at(m.vectors@, a, b),
    ensures
        r == rows_ok(*m),
{
    let vs = &m.vectors;
    if vs.len() == 0 {
        return false;
    }
    let k = vs[0].features.len();
    if k == 0 || k > usize::MAX - LANES {
        return false;
    }
    let coefs = m.header.nr_class as u64;
    let mut r: usize = 0;
    while r < vs.len()
        invariant
            r <= vs@.len(),
            vs@ == m.vectors@,
            vs@.len() > 0,
            k == num_attributes_of(*m),
            k > 0,
            k + LANES <= usize::MAX,
            coefs == m.header.nr_class,
            forall|a: int| 0 <= a < r ==> #[trigger] row_shape_ok(*m, a),
        decreases vs@.len() - r,
    {
        let row = &vs[r];
        if coefs == 0 || row.coefs.len() as u64 != coefs - 1 || row.features.len() != k
            || row.features[0].index != 0 {
            assert(!row_shape_ok(*m, r as int));
            return false;
        }
        assert(row_shape_ok(*m, r as int));
        r = r + 1;
    }
    true
}

/// One class of a trained model: its label, the dual coefficients of its support vectors
/// against every other class, and its support vectors in packed form.
pub struct Class {
    label: u32,
    num_support_vectors: usize,
    coefficients: Vec<Vec<u64>>,
    support_vectors: PackedRows,
}

impl Class {
    pub closed spec fn label_spec(&self) -> u32 {
        self.label
    }

    pub closed spec fn num_sv_spec(&self) -> nat {
        self.num_support_vectors as nat
    }

    /// Row `k` pairs this class against another class (see `coefficient_row`); column `s`
    /// belongs to support vector `s`.
    pub closed spec fn coefficients_view(&self) -> Seq<Seq<u64>> {
        self.coefficients@.map_values(|r: Vec<u64>| r@)
    }

    pub closed spec fn support_vectors_spec(&self) -> PackedRows {
        self.support_vectors
    }

    /// The class's coefficient block has `n − 1` rows of one entry per support vector, and
    /// its packed store one row per support vector of `attributes` meaningful values.
    pub open spec fn wf(&self, n: nat, attributes: nat) -> bool {
        &&& self.coefficients_view().len() == n - 1
        &&& forall|k: int| 0 <= k < n - 1 ==> #[trigger] self.coefficients_view()[k].len() == self.num_sv_spec()
        &&& self.support_vectors_spec().wf()
        &&& self.support_vectors_spec().attributes_spec() == attributes
        &&& self.support_vectors_spec().rows_view().len() == self.num_sv_spec()
    }

    /// The external label of the class.
    pub fn label(&self) -> (r: u32)
        ensures
            r == self.label_spec(),
    {
        self.label
    }

    /// The number of support vectors of the class.
    pub fn num_support_vectors(&self) -> (r: usize)
        ensures
            r == self.num_sv_spec(),
    {
        self.num_support_vectors
    }

    /// The coefficient row `k`, as `f64` bit patterns.
    pub fn coefficients(&self, k: usize) -> (r: &Vec<u64>)
        requires
            k < self.coefficients_view().len(),
        ensures
            r@ == self.coefficients_view()[k as int],
    {
        &self.coefficients[k]
    }

    /// The packed support vectors, as `f32` bit patterns.
    pub fn support_vectors(&self) -> (r: &PackedRows)
        ensures
            *r == self.support_vectors_spec(),
    {
        &self.support_vectors
    }
}

/// Class `c` holds what the model file gives for it.
pub open spec fn class_built_from(cl: Class, m: ModelFile, c: int) -> bool {
    let o = class_offset(m.header.nr_sv@, c);
    let k = m.header.nr_sv@[c] as nat;
    let vs = m.vectors@;
    &&& cl.label_spec() == m.header.label@[c]
    &&& cl.num_sv_spec() == k
    &&& cl.wf(m.header.nr_class as nat, num_attributes_of(m))
    &&& forall|row: int, s: int|
        0 <= row < m.header.nr_class - 1 && 0 <= s < k
            ==> #[trigger] cl.coefficients_view()[row][s] == vs[o + s].coefs@[row]
    &&& forall|s: int, a: int|
        0 <= s < k && 0 <= a < num_attributes_of(m)
            ==> #[trigger] cl.support_vectors_spec().rows_view()[s][a] == vs[o + s].features@[a].value
}

/// A copy of a list of bit patterns.
fn copy_values(v: &Vec<u64>) -> (r: Vec<u64>)
    ensures
        r@ == v@,
{
    let mut r: Vec<u64> = Vec::new();
    let mut i: usize = 0;
    while i < v.len()
        invariant
            i <= v@.len(),
            r@ == v@.take(i as int),
        decreases v@.len() - i,
    {
        r.push(v[i]);
        i = i + 1;
        assert(r@ =~= v@.take(i as int));
    }
    assert(v@.take(i as int) =~= v@);
    r
}

/// Lays out class `c`, whose support vectors start at row `o` of the model file.
fn build_class(m: &ModelFile, c: usize, o: usize) -> (cl: Class)
    requires
        header_shape_ok(m.header, m.vectors@.len()),
        rows_ok(*m),
        c < m.header.nr_class,
        o == class_offset(m.header.nr_sv@, c as int),
    ensures
        class_built_from(cl, *m, c as int),
{
    let h = &m.header;
    let vs = &m.vectors;
    proof {
        lemma_sum_step(h.nr_sv@, c as int);
        lemma_sum_prefix(h.nr_sv@, c as int + 1);
    }
    let k = h.nr_sv[c] as usize;
    let n1 = (h.nr_class - 1) as usize;
    let attributes = vs[0].features.len();
    let nv = vs.len();
    assert(o + k <= nv);

    let mut coefficients: Vec<Vec<u64>> = Vec::new();
    let mut row: usize = 0;
    while row < n1
        invariant
            o + k <= nv,
            nv == vs@.len(),
            vs@ == m.vectors@,
            rows_ok(*m),
            n1 == m.header.nr_class - 1,
            row <= n1,
            coefficients@.len() == row,
            forall|q: int| 0 <= q < row ==> (#[trigger] coefficients@[q])@.len() == k,
            forall|q: int, s: int|
                0 <= q < row && 0 <= s < k ==> #[trigger] coefficients@[q]@[s] == vs@[o + s].coefs@[q],
        decreases n1 - row,
    {
        let mut line: Vec<u64> = Vec::new();
        let mut s: usize = 0;
        while s < k
            invariant
                o + k <= nv,
                nv == vs@.len(),
                vs@ == m.vectors@,
                rows_ok(*m),
                n1 == m.header.nr_class - 1,
                row < n1,
                s <= k,
                line@.len() == s,
                forall|t: int| 0 <= t < s ==> #[trigger] line@[t] == vs@[o + t].coefs@[row as int],
            decreases k - s,
        {
            assert(row_shape_ok(*m, (o + s) as int));
            line.push(vs[o + s].coefs[row]);
            s = s + 1;
        }
        coefficients.push(line);
        row = row + 1;
    }

    let mut support_vectors = PackedRows::new(attributes);
    let mut s: usize = 0;
    while s < k
        invariant
            o + k <= nv,
            nv == vs@.len(),
            vs@ == m.vectors@,
            rows_ok(*m),
            attributes == num_attributes_of(*m),
            s <= k,
            support_vectors.wf(),
            support_vectors.attributes_spec() == attributes,
            support_vectors.rows_view().len() == s,
            forall|t: int, a: int|
                0 <= t < s && 0 <= a < attributes
                    ==> #[trigger] support_vectors.rows_view()[t][a] == vs@[o + t].features@[a].value,
        decreases k - s,
    {
        assert(row_shape_ok(*m, (o + s) as int));
        let features = &vs[o + s].features;
        let mut values: Vec<u32> = Vec::new();
        let mut a: usize = 0;
        while a < attributes
            invariant
                features@ == vs@[o + s].features@,
                features@.len() == attributes,
                a <= attributes,
                values@.len() == a,
                forall|b: int| 0 <= b < a ==> #[trigger] values@[b] == features@[b].value,
            decreases attributes - a,
        {
            values.push(features[a].value);
            a = a + 1;
        }
        let ghost before = support_vectors.rows_view();
        support_vectors.push_row(&values);
        assert forall|t: int, b: int|
            0 <= t < s + 1 && 0 <= b < attributes
                implies #[trigger] support_vectors.rows_view()[t][b] == vs@[o + t].features@[b].value by {
            if t < s {
                assert(support_vectors.rows_view()[t] == before[t]);
            } else {
                assert(support_vectors.rows_view()[t] == support_vectors.rows_view().last());
            }
        }
        s = s + 1;
    }
    let cl = Class { label: h.label[c], num_support_vectors: k, coefficients, support_vectors };
    assert forall|q: int| 0 <= q < n1 implies #[trigger] cl.coefficients_view()[q].len() == cl.num_sv_spec() by {
        assert(cl.coefficients_view()[q] == cl.coefficients@[q]@);
    }
    assert forall|q: int, t: int|
        0 <= q < m.header.nr_class - 1 && 0 <= t < k
            implies #[trigger] cl.coefficients_view()[q][t] == vs@[o + t].coefs@[q] by {
        assert(cl.coefficients_view()[q] == cl.coefficients@[q]@);
    }
    cl
}

/// Sum of the support-vector counts of a sequence of classes.
pub open spec fn total_support_vectors(classes: Seq<Class>) -> nat
    decreases classes.len(),
{
    if classes.len() == 0 {
        0
    } else {
        total_support_vectors(classes.drop_last()) + classes.last().num_sv_spec()
    }
}

proof fn lemma_total_matches_counts(classes: Seq<Class>, counts: Seq<u32>)
    requires
        classes.len() == counts.len(),
        forall|c: int| 0 <= c < classes.len() ==> #[trigger] classes[c].num_sv_spec() == counts[c],
    ensures
        total_support_vectors(classes) == sum_of(counts),
    decreases classes.len(),
{
    if classes.len() > 0 {
        lemma_total_matches_counts(classes.drop_last(), counts.drop_last());
    }
}

/// Per-pair sigmoid calibration parameters `a` and `b`, as `f64` bit patterns.
pub struct Probabilities {
    a: Triangular<u64>,
    b: Triangular<u64>,
}

impl Probabilities {
    pub closed spec fn a_spec(&self) -> Triangular<u64> {
        self.a
    }

    pub closed spec fn b_spec(&self) -> Triangular<u64> {
        self.b
    }

    /// The slopes `a` of the pairwise sigmoids.
    pub fn a(&self) -> (r: &Triangular<u64>)
        ensures
            *r == self.a_spec(),
    {
        &self.a
    }

    /// The offsets `b` of the pairwise sigmoids.
    pub fn b(&self) -> (r: &Triangular<u64>)
        ensures
            *r == self.b_spec(),
    {
        &self.b
    }
}

/// A trained one-vs-one RBF support vector machine, read-only once built.
pub struct SVM {
    num_total_sv: usize,
    num_attributes: usize,
    rho: Triangular<u64>,
    probabilities: Option<Probabilities>,
    kernel: Rbf,
    classes: Vec<Class>,
}

/// The RBF machine, the one kind this library builds.
pub type RbfCSVM = SVM;

impl SVM {
    pub closed spec fn num_total_sv_spec(&self) -> nat {
        self.num_total_sv as nat
    }

    pub closed spec fn num_attributes_spec(&self) -> nat {
        self.num_attributes as nat
    }

    pub closed spec fn rho_spec(&self) -> Triangular<u64> {
        self.rho
    }

    pub closed spec fn probabilities_spec(&self) -> Option<Probabilities> {
        self.probabilities
    }

    pub closed spec fn kernel_spec(&self) -> Rbf {
        self.kernel
    }

    pub closed spec fn classes_spec(&self) -> Seq<Class> {
        self.classes@
    }

    /// The number of classes.
    pub open spec fn n(&self) -> nat {
        self.classes_spec().len()
    }

    /// The shape invariant of a model.
    pub open spec fn wf(&self) -> bool {
        let n = self.n();
        &&& n >= 2
        &&& n * n <= usize::MAX
        &&& self.rho_spec().wf()
        &&& self.rho_spec().dim() == n
        &&& (self.probabilities_spec() matches Some(p) ==> {
            &&& p.a_spec().wf() && p.a_spec().dim() == n
            &&& p.b_spec().wf() && p.b_spec().dim() == n
        })
        &&& total_support_vectors(self.classes_spec()) == self.num_total_sv_spec()
        &&& self.num_attributes_spec() > 0
        &&& self.num_attributes_spec() + LANES <= usize::MAX
        &&& forall|c: int| 0 <= c < n ==> #[trigger] self.classes_spec()[c].wf(n, self.num_attributes_spec())
    }

    /// The model holds what the model file gives.
    pub open spec fn built_from(&self, m: ModelFile) -> bool {
        &&& self.num_total_sv_spec() == m.header.total_sv
        &&& self.num_attributes_spec() == num_attributes_of(m)
        &&& m.header.gamma == Some(self.kernel_spec().gamma)
        &&& self.rho_spec().entries() == m.header.rho@
        &&& self.probabilities_spec().is_some() == m.header.prob_a.is_some()
        &&& (self.probabilities_spec() matches Some(p) ==> {
            &&& m.header.prob_a matches Some(a) && p.a_spec().entries() == a@
            &&& m.header.prob_b matches Some(b) && p.b_spec().entries() == b@
        })
        &&& self.n() == m.header.nr_class
        &&& forall|c: int| 0 <= c < self.n() ==> #[trigger] class_built_from(self.classes_spec()[c], m, c)
    }

    /// Builds a model from a parsed model file, checking in turn the machine kind, gamma, the
    /// header's counts, the order of attribute indices, and the shape of each row.
    pub fn try_from(m: &ModelFile) -> (r: Result<SVM, SVMError>)
        ensures
            r is Ok <==> model_file_ok(*m),
            r matches Err(e) ==> intake_error_ok(*m, e),
            r matches Ok(svm) ==> svm.wf() && svm.built_from(*m),
    {
        check_kinds(m)?;
        let kernel = Rbf::try_from(m)?;
        if !check_header_shape(m) {
            return Err(SVMError::ShapeMismatch);
        }
        if let Some((r, p)) = find_unordered(&m.vectors) {
            let features = &m.vectors[r].features;
            return Err(SVMError::SvmAttributesUnordered {
                index: features[p].index,
                value: features[p].value,
                last_index: features[p - 1].index,
            });
        }
        if !check_rows(m) {
            return Err(SVMError::ShapeMismatch);
        }
        let h = &m.header;
        let n = h.nr_class as usize;
        let rho = Triangular::from_vec(n, copy_values(&h.rho)).unwrap();
        let probabilities = match (&h.prob_a, &h.prob_b) {
            (Some(a), Some(b)) => Some(
                Probabilities {
                    a: Triangular::from_vec(n, copy_values(a)).unwrap(),
                    b: Triangular::from_vec(n, copy_values(b)).unwrap(),
                },
            ),
            _ => None,
        };
        let mut classes: Vec<Class> = Vec::new();
        let mut c: usize = 0;
        let mut o: usize = 0;
        while c < n
            invariant
                header_shape_ok(m.header, m.vectors@.len()),
                rows_ok(*m),
                n == m.header.nr_class,
                c <= n,
                o == class_offset(m.header.nr_sv@, c as int),
                classes@.len() == c,
                forall|d: int| 0 <= d < c ==> #[trigger] class_built_from(classes@[d], *m, d),
            decreases n - c,
        {
            proof {
                lemma_sum_step(m.header.nr_sv@, c as int);
                lemma_sum_prefix(m.header.nr_sv@, c as int + 1);
            }
            let cl = build_class(m, c, o);
            let k = cl.num_support_vectors();
            classes.push(cl);
            o = o + k;
            c = c + 1;
        }
        let svm = SVM {
            num_total_sv: h.total_sv as usize,
            num_attributes: m.vectors[0].features.len(),
            rho,
            probabilities,
            kernel,
            classes,
        };
        proof {
            assert forall|d: int| 0 <= d < n implies #[trigger] svm.classes_spec()[d].num_sv_spec() == m.header.nr_sv@[d] by {
                assert(class_built_from(svm.classes_spec()[d], *m, d));
            }
            lemma_total_matches_counts(svm.classes_spec(), m.header.nr_sv@);
            assert forall|d: int| 0 <= d < n implies #[trigger] svm.classes_spec()[d].wf(svm.n(), svm.num_attributes_spec()) by {
                assert(class_built_from(svm.classes_spec()[d], *m, d));
            }
        }
        Ok(svm)
    }

    /// The index of the class with the given external label, if any; the first such index.
    pub fn class_index_for_label(&self, label: u32) -> (r: Option<usize>)
        ensures
            r is None <==> forall|c: int| 0 <= c < self.n() ==> #[trigger] self.classes_spec()[c].label_spec() != label,
            r matches Some(i) ==> {
                &&& i < self.n()
                &&& self.classes_spec()[i as int].label_spec() == label
                &&& forall|c: int| 0 <= c < i ==> #[trigger] self.classes_spec()[c].label_spec() != label
            },
    {
        let mut i: usize = 0;
        while i < self.classes.len()
            invariant
                i <= self.classes@.len(),
                forall|c: int| 0 <= c < i ==> #[trigger] self.classes_spec()[c].label_spec() != label,
            decreases self.classes@.len() - i,
        {
            if self.classes[i].label == label {
                assert(self.classes_spec()[i as int].label_spec() == label);
                return Some(i);
            }
            i = i + 1;
        }
        None
    }

    /// The external label of the class at `index`, if there is one.
    pub fn class_label_for_index(&self, index: usize) -> (r: Option<u32>)
        ensures
            index < self.n() ==> r == Some(self.classes_spec()[index as int].label_spec()),
            index >= self.n() ==> r is None,
    {
        if index >= self.classes.len() {
            None
        } else {
            Some(self.classes[index].label)
        }
    }

    /// The number of attributes of a feature vector.
    pub fn attributes(&self) -> (r: usize)
        ensures
            r == self.num_attributes_spec(),
    {
        self.num_attributes
    }

    /// The number of classes.
    pub fn classes(&self) -> (r: usize)
        ensures
            r == self.n(),
    {
        self.classes.len()
    }

    /// The total number of support vectors.
    pub fn num_total_sv(&self) -> (r: usize)
        ensures
            r == self.num_total_sv_spec(),
    {
        self.num_total_sv
    }

    /// The class at `c`.
    pub fn class(&self, c: usize) -> (r: &Class)
        requires
            c < self.n(),
        ensures
            *r == self.classes_spec()[c as int],
    {
        &self.classes[c]
    }

    /// The biases `rho`, one per class pair, as `f64` bit patterns.
    pub fn rho(&self) -> (r: &Triangular<u64>)
        ensures
            *r == self.rho_spec(),
    {
        &self.rho
    }

    /// The kernel.
    pub fn kernel(&self) -> (r: Rbf)
        ensures
            r == self.kernel_spec(),
    {
        self.kernel
    }

    /// The calibration parameters; `ModelDoesNotSupportProbabilities` for a model trained
    /// without them.
    pub fn probabilities(&self) -> (r: Result<&Probabilities, SVMError>)
        ensures
            match self.probabilities_spec() {
                Some(p) => r == Ok::<&Probabilities, SVMError>(&p),
                None => r == Err::<&Probabilities, SVMError>(SVMError::ModelDoesNotSupportProbabilities),
            },
    {
        match &self.probabilities {
            Some(p) => Ok(p),
            None => Err(SVMError::ModelDoesNotSupportProbabilities),
        }
    }
}

/// The shape of a well-formed model: one bias per class pair, `n·(n−1)/2` of them (and as
/// many calibration parameters of each kind, where present), as many support vectors over
/// the classes as the model declares, and `n − 1` coefficient rows in every class.
pub proof fn lemma_model_shape(svm: &SVM)
    requires
        svm.wf(),
    ensures
        svm.rho_spec().entries().len() == svm.n() * (svm.n() - 1) / 2,
        svm.probabilities_spec() matches Some(p) ==> {
            &&& p.a_spec().entries().len() == svm.n() * (svm.n() - 1) / 2
            &&& p.b_spec().entries().len() == svm.n() * (svm.n() - 1) / 2
        },
        total_support_vectors(svm.classes_spec()) == svm.num_total_sv_spec(),
        forall|c: int| 0 <= c < svm.n() ==> #[trigger] svm.classes_spec()[c].coefficients_view().len() == svm.n() - 1,
{
    crate::triangular::lemma_pair_count_closed(svm.n());
    assert forall|c: int| 0 <= c < svm.n() implies #[trigger] svm.classes_spec()[c].coefficients_view().len() == svm.n() - 1 by {
        assert(svm.classes_spec()[c].wf(svm.n(), svm.num_attributes_spec()));
    }
}

/// In a model file that intake accepts, every row's attributes are exactly `0, 1, …, k − 1`
/// in order, so position and attribute index coincide.
pub proof fn lemma_indices_are_positions(m: ModelFile, r: int, a: int)
    requires
        model_file_ok(m),
        0 <= r < m.vectors@.len(),
        0 <= a < num_attributes_of(m),
    ensures
        m.vectors@[r].features@[a].index == a,
    decreases a,
{
    assert(row_shape_ok(m, r));
    if a > 0 {
        lemma_indices_are_positions(m, r, a - 1);
        assert(!unordered_at(m.vectors@, r, a));
    }
}

} // verus!
