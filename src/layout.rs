//! Lane-aligned layout of support vectors and the libSVM coefficient-row convention.
use vstd::prelude::*;

verus! {

/// Number of `f32` lanes in one SIMD register that the packed rows are aligned to.
pub const LANES: usize = 8;

/// `ceil(n / LANES) · LANES`.
pub open spec fn padded(n: nat) -> nat {
    (((n + LANES - 1) as nat / LANES as nat) * LANES as nat) as nat
}

/// Facts about the padded width that the layout relies on.
pub proof fn lemma_padded(n: nat)
    ensures
        padded(n) % LANES as nat == 0,
        n <= padded(n) < n + LANES,
{
    let q = (n + 7) / 8;
    assert(q * 8 % 8 == 0) by (nonlinear_arith);
    assert(n <= q * 8 < n + 8) by (nonlinear_arith)
        requires q == (n + 7) / 8;
}

/// The attribute width rounded up to a whole number of lanes.
pub fn padded_width(n: usize) -> (r: usize)
    requires
        n + LANES <= usize::MAX,
    ensures
        r == padded(n as nat),
        r % LANES == 0,
        n <= r < n + LANES,
{
    proof {
        lemma_padded(n as nat);
    }
    (n + LANES - 1) / LANES * LANES
}

/// Within the coefficient block of class `c`, the row that pairs it against class `k`.
pub open spec fn coefficient_row_spec(c: nat, k: nat) -> nat {
    if k < c {
        k
    } else {
        (k - 1) as nat
    }
}

/// Within the coefficient block of class `c`, the row that pairs it against class `k`:
/// `k` when `k < c`, else `k − 1`.
pub fn coefficient_row(c: usize, k: usize) -> (r: usize)
    requires
        c != k,
    ensures
        r == coefficient_row_spec(c as nat, k as nat),
{
    if k < c {
        k
    } else {
        k - 1
    }
}

/// Rows of `f32` bit patterns, each padded with zero bits (the pattern of `0.0`) to a whole
/// number of lanes.
pub struct PackedRows {
    attributes: usize,
    width: usize,
    rows: Vec<Vec<u32>>,
}

impl PackedRows {
    /// The rows, each of the padded width.
    pub closed spec fn rows_view(&self) -> Seq<Seq<u32>> {
        self.rows@.map_values(|r: Vec<u32>| r@)
    }

    /// The meaningful width of a row.
    pub closed spec fn attributes_spec(&self) -> nat {
        self.attributes as nat
    }

    /// The padded width of a row.
    pub closed spec fn width_spec(&self) -> nat {
        self.width as nat
    }

    /// Every row has the padded width and holds zero bits past the meaningful width.
    pub open spec fn wf(&self) -> bool {
        &&& self.width_spec() == padded(self.attributes_spec())
        &&& forall|i: int| 0 <= i < self.rows_view().len() ==> #[trigger] self.rows_view()[i].len() == self.width_spec()
        &&& forall|i: int, a: int|
            0 <= i < self.rows_view().len() && self.attributes_spec() <= a < self.width_spec()
                ==> #[trigger] self.rows_view()[i][a] == 0
    }

    /// No rows yet, of `attributes` meaningful values each.
    pub fn new(attributes: usize) -> (r: Self)
        requires
            attributes + LANES <= usize::MAX,
        ensures
            r.wf(),
            r.rows_view().len() == 0,
            r.attributes_spec() == attributes,
    {
        let width = padded_width(attributes);
        let r = PackedRows { attributes, width, rows: Vec::new() };
        assert(r.rows_view() =~= Seq::<Seq<u32>>::empty());
        r
    }

    /// Appends a row of `values` followed by zero padding.
    pub fn push_row(&mut self, values: &Vec<u32>)
        requires
            old(self).wf(),
            values@.len() == old(self).attributes_spec(),
        ensures
            final(self).wf(),
            final(self).attributes_spec() == old(self).attributes_spec(),
            final(self).rows_view().len() == old(self).rows_view().len() + 1,
            forall|i: int| 0 <= i < old(self).rows_view().len() ==> #[trigger] final(self).rows_view()[i] == old(self).rows_view()[i],
            final(self).rows_view().last() == values@ + Seq::new((old(self).width_spec() - old(self).attributes_spec()) as nat, |k: int| 0u32),
    {
        let mut row: Vec<u32> = Vec::new();
        let mut a: usize = 0;
        while a < self.width
            invariant
                self.wf(),
                values@.len() == self.attributes_spec(),
                a <= self.width,
                row@.len() == a,
                forall|k: int| 0 <= k < a ==> #[trigger] row@[k] == if k < self.attributes { values@[k] } else { 0u32 },
            decreases self.width - a,
        {
            if a < self.attributes {
                row.push(values[a]);
            } else {
                row.push(0);
            }
            a = a + 1;
        }
        let ghost tail = Seq::new((self.width_spec() - self.attributes_spec()) as nat, |k: int| 0u32);
        assert(row@ =~= values@ + tail);
        let ghost before = self.rows_view();
        self.rows.push(row);
        assert(self.rows_view() =~= before.push(values@ + tail));
    }

    /// The number of rows.
    pub fn num_rows(&self) -> (r: usize)
        ensures
            r == self.rows_view().len(),
    {
        self.rows.len()
    }

    /// The padded width of a row.
    pub fn width(&self) -> (r: usize)
        ensures
            r == self.width_spec(),
    {
        self.width
    }

    /// The meaningful width of a row.
    pub fn attributes(&self) -> (r: usize)
        ensures
            r == self.attributes_spec(),
    {
        self.attributes
    }

    /// The row `i`, padding included.
    pub fn row(&self, i: usize) -> (r: &Vec<u32>)
        requires
            i < self.rows_view().len(),
        ensures
            r@ == self.rows_view()[i as int],
    {
        &self.rows[i]
    }
}

} // verus!
