//! Dense storage of the strict lower triangle of a square matrix.
use vstd::prelude::*;

verus! {

/// Number of pairs `(i, j)` with `j < i < n`.
pub open spec fn pair_count(n: nat) -> nat
    decreases n,
{
    if n == 0 {
        0
    } else {
        pair_count((n - 1) as nat) + (n - 1) as nat
    }
}

/// Position of the pair `(i, j)`, `j < i`, in the row-major order of the strict lower triangle.
pub open spec fn pair_slot(i: nat, j: nat) -> nat {
    pair_count(i) + j
}

/// The closed form `n * (n - 1) / 2`.
pub proof fn lemma_pair_count_closed(n: nat)
    ensures
        2 * pair_count(n) == n * (n - 1),
        pair_count(n) == n * (n - 1) / 2,
    decreases n,
{
    if n > 0 {
        lemma_pair_count_closed((n - 1) as nat);
        let m = (n - 1) as nat;
        assert(pair_count(n) == pair_count(m) + m);
        assert(m * (m - 1) + 2 * m == n * (n - 1)) by (nonlinear_arith)
            requires m + 1 == n;
    }
    let t = pair_count(n);
    assert(t == (n * (n - 1)) / 2) by (nonlinear_arith)
        requires 2 * t == n * (n - 1) || (n == 0 && t == 0);
}

/// Triangle numbers grow with the dimension.
pub proof fn lemma_pair_count_monotone(a: nat, b: nat)
    requires
        a <= b,
    ensures
        pair_count(a) + a <= pair_count(b) || a == b,
        pair_count(a) <= pair_count(b),
    decreases b,
{
    if a < b {
        lemma_pair_count_monotone(a, (b - 1) as nat);
    }
}

/// Pair slots enumerate `0 .. pair_count(n)` in the lexicographic order of the pairs,
/// so the store is contiguous and two distinct pairs never share a slot.
pub proof fn lemma_pair_slot_order(i1: nat, j1: nat, i2: nat, j2: nat, n: nat)
    requires
        j1 < i1 < n,
        j2 < i2 < n,
    ensures
        pair_slot(i1, j1) < pair_count(n),
        (pair_slot(i1, j1) < pair_slot(i2, j2)) <==> (i1 < i2 || (i1 == i2 && j1 < j2)),
        (pair_slot(i1, j1) == pair_slot(i2, j2)) <==> (i1 == i2 && j1 == j2),
{
    lemma_pair_count_monotone(i1 + 1, n);
    if i1 < i2 {
        lemma_pair_count_monotone(i1 + 1, i2);
    }
    if i2 < i1 {
        lemma_pair_count_monotone(i2 + 1, i1);
    }
}

/// The strict lower triangle of an `n × n` matrix, stored contiguously: the entry of the pair
/// `(i, j)`, `j < i`, sits at `i·(i−1)/2 + j`.
pub struct Triangular<T> {
    dimension: usize,
    data: Vec<T>,
}

impl<T: Copy> Triangular<T> {
    /// The side `n` of the square matrix.
    pub closed spec fn dim(&self) -> nat {
        self.dimension as nat
    }

    /// The entries in slot order.
    pub closed spec fn entries(&self) -> Seq<T> {
        self.data@
    }

    /// The store holds exactly one entry per pair, and `n²` fits the machine word.
    pub open spec fn wf(&self) -> bool {
        &&& self.entries().len() == pair_count(self.dim())
        &&& self.dim() * self.dim() <= usize::MAX
    }

    /// The entry of the pair `(i, j)`.
    pub open spec fn at(&self, i: nat, j: nat) -> T {
        self.entries()[pair_slot(i, j) as int]
    }

    /// A store for `n` classes with every entry set to `fill`.
    pub fn with_dimension(n: usize, fill: T) -> (r: Self)
        requires
            n * n <= usize::MAX,
        ensures
            r.wf(),
            r.dim() == n,
            forall|k: int| 0 <= k < r.entries().len() ==> r.entries()[k] == fill,
    {
        let len = pair_count_of(n);
        let mut data: Vec<T> = Vec::new();
        let mut k: usize = 0;
        while k < len
            invariant
                k <= len,
                data@.len() == k,
                forall|m: int| 0 <= m < k ==> data@[m] == fill,
            decreases len - k,
        {
            data.push(fill);
            k = k + 1;
        }
        Triangular { dimension: n, data }
    }

    /// Takes `data` as the entries, in slot order, of a store for `n` classes; `None` when
    /// its length is not `n·(n−1)/2`.
    pub fn from_vec(n: usize, data: Vec<T>) -> (r: Option<Self>)
        requires
            n * n <= usize::MAX,
        ensures
            r.is_some() <==> data@.len() == pair_count(n as nat),
            r matches Some(t) ==> t.wf() && t.dim() == n && t.entries() == data@,
    {
        let len = pair_count_of(n);
        if data.len() == len {
            Some(Triangular { dimension: n, data })
        } else {
            None
        }
    }

    /// The side `n` of the square matrix.
    pub fn dimension(&self) -> (r: usize)
        ensures
            r == self.dim(),
    {
        self.dimension
    }

    /// The number of stored entries.
    pub fn len(&self) -> (r: usize)
        ensures
            r == self.entries().len(),
    {
        self.data.len()
    }

    /// The entry at a slot.
    pub fn get_slot(&self, k: usize) -> (r: T)
        requires
            k < self.entries().len(),
        ensures
            r == self.entries()[k as int],
    {
        self.data[k]
    }

    /// The entry of the pair `(i, j)`.
    pub fn get(&self, i: usize, j: usize) -> (r: T)
        requires
            self.wf(),
            j < i < self.dim(),
        ensures
            r == self.at(i as nat, j as nat),
    {
        let k = pair_index(i, j, self.dimension);
        self.data[k]
    }

    /// Overwrites the entry of the pair `(i, j)`.
    pub fn set(&mut self, i: usize, j: usize, v: T)
        requires
            old(self).wf(),
            j < i < old(self).dim(),
        ensures
            final(self).wf(),
            final(self).dim() == old(self).dim(),
            final(self).entries() == old(self).entries().update(pair_slot(i as nat, j as nat) as int, v),
    {
        let k = pair_index(i, j, self.dimension);
        self.data.set(k, v);
    }
}

/// `n·(n−1)/2`, the number of pairs among `n` classes.
pub fn pair_count_of(n: usize) -> (r: usize)
    requires
        n * n <= usize::MAX,
    ensures
        r == pair_count(n as nat),
{
    proof {
        lemma_pair_count_closed(n as nat);
    }
    if n == 0 {
        0
    } else {
        assert(n * (n - 1) <= n * n) by (nonlinear_arith)
            requires n > 0;
        n * (n - 1) / 2
    }
}

/// The slot `i·(i−1)/2 + j` of the pair `(i, j)` in a store for `n` classes.
pub fn pair_index(i: usize, j: usize, n: usize) -> (r: usize)
    requires
        j < i < n,
        n * n <= usize::MAX,
    ensures
        r == pair_slot(i as nat, j as nat),
        r < pair_count(n as nat),
{
    proof {
        lemma_pair_slot_order(i as nat, j as nat, i as nat, j as nat, n as nat);
        lemma_pair_count_closed(i as nat);
    }
    assert(i * (i - 1) <= n * n) by (nonlinear_arith)
        requires j < i < n;
    i * (i - 1) / 2 + j
}

} // verus!
