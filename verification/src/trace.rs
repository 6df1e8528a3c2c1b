//! The execution trace: a column-major table of field elements, and the
//! interpolating polynomial of each column.

use vstd::prelude::*;

use crate::backend::{fe_seq_vals, fe_val, poly_interpolate_fft, Fe};
use crate::model::{all_in_field, coset_point, eval_val, is_pow2, log2, trim_zeros};
use crate::poly::Poly;

verus! {

/// A column-major table of field elements; all columns have equal length.
pub struct TraceTable {
    pub cols: Vec<Vec<Fe>>,
}

impl TraceTable {
    /// The number of rows: the length of the first column.
    pub open spec fn n_rows_spec(&self) -> nat {
        if self.cols@.len() == 0 {
            0
        } else {
            self.cols@[0]@.len()
        }
    }

    /// All columns have the same length.
    pub open spec fn is_table(&self) -> bool {
        forall|j: int| 0 <= j < self.cols@.len() ==> (#[trigger] self.cols@[j])@.len()
            == self.n_rows_spec()
    }

    /// The values of column `j`.
    pub open spec fn col_vals(&self, j: int) -> Seq<int> {
        fe_seq_vals(self.cols@[j]@)
    }

    /// The values of row `k`.
    pub open spec fn row_vals(&self, k: int) -> Seq<int> {
        Seq::new(self.cols@.len(), |j: int| fe_val(self.cols@[j]@[k]))
    }

    /// Takes ownership of the given columns.
    pub fn new_from_cols(cols: Vec<Vec<Fe>>) -> (r: TraceTable)
        ensures
            r.cols@ == cols@,
    {
        TraceTable { cols }
    }

    /// The number of columns.
    pub fn n_cols(&self) -> (r: usize)
        ensures
            r == self.cols@.len(),
    {
        self.cols.len()
    }

    /// The number of rows.
    pub fn n_rows(&self) -> (r: usize)
        ensures
            r == self.n_rows_spec(),
    {
        if self.cols.len() == 0 {
            0
        } else {
            self.cols[0].len()
        }
    }

    /// The table has no columns.
    pub fn is_empty(&self) -> (r: bool)
        ensures
            r == (self.cols@.len() == 0),
    {
        self.cols.len() == 0
    }

    /// Whether every column has the length of the first.
    pub fn is_uniform(&self) -> (r: bool)
        ensures
            r == self.is_table(),
    {
        let rows = self.n_rows();
        let mut j: usize = 1;
        if self.cols.len() == 0 {
            return true;
        }
        while j < self.cols.len()
            invariant
                1 <= j <= self.cols@.len(),
                rows == self.n_rows_spec(),
                forall|k: int| 0 <= k < j ==> (#[trigger] self.cols@[k])@.len()
                    == self.n_rows_spec(),
            decreases self.cols@.len() - j,
        {
            if self.cols[j].len() != rows {
                return false;
            }
            j += 1;
        }
        true
    }

    /// A copy of row `k`.
    pub fn get_row(&self, k: usize) -> (r: Vec<Fe>)
        requires
            self.is_table(),
            k < self.n_rows_spec(),
        ensures
            fe_seq_vals(r@) == self.row_vals(k as int),
    {
        let mut row: Vec<Fe> = Vec::new();
        let mut j: usize = 0;
        while j < self.cols.len()
            invariant
                self.is_table(),
                k < self.n_rows_spec(),
                j <= self.cols@.len(),
                row@.len() == j,
                forall|c: int| 0 <= c < j ==> fe_val(#[trigger] row@[c]) == fe_val(
                    self.cols@[c]@[k as int],
                ),
            decreases self.cols@.len() - j,
        {
            row.push(self.cols[j][k].dup());
            j += 1;
        }
        proof {
            assert(fe_seq_vals(row@) =~= self.row_vals(k as int));
        }
        row
    }

    /// The interpolating polynomial of every column, in column order: the
    /// `j`-th result takes the `j`-th column's values on the trace domain.
    pub fn compute_trace_polys(&self) -> (r: Vec<Poly>)
        requires
            self.is_table(),
            self.n_rows_spec() >= 1,
            is_pow2(self.n_rows_spec()),
            self.n_rows_spec() <= 0x1000_0000,
        ensures
            r@.len() == self.cols@.len(),
            forall|j: int| 0 <= j < r@.len() ==> (#[trigger] r@[j]).wf(),
            forall|j: int| 0 <= j < r@.len() ==> (#[trigger] r@[j]).vals().len()
                <= self.n_rows_spec(),
            forall|j: int, i: int|
                0 <= j < r@.len() && 0 <= i < self.n_rows_spec() ==> #[trigger] eval_val(
                    r@[j].vals(),
                    coset_point(log2(self.n_rows_spec()), 1, i as nat),
                ) == self.col_vals(j)[i],
            forall|j: int, p: Seq<int>|
                #![trigger r@[j], trim_zeros(p)]
                0 <= j < r@.len() && all_in_field(p) && p.len() <= self.n_rows_spec() && (
                forall|i: int|
                    0 <= i < self.n_rows_spec() ==> eval_val(
                        p,
                        coset_point(log2(self.n_rows_spec()), 1, i as nat),
                    ) == self.col_vals(j)[i]) ==> r@[j].vals() == trim_zeros(p),
    {
        let mut polys: Vec<Poly> = Vec::new();
        let mut j: usize = 0;
        while j < self.cols.len()
            invariant
                self.is_table(),
                self.n_rows_spec() >= 1,
                is_pow2(self.n_rows_spec()),
                self.n_rows_spec() <= 0x1000_0000,
                j <= self.cols@.len(),
                polys@.len() == j,
                forall|c: int| 0 <= c < j ==> (#[trigger] polys@[c]).wf(),
                forall|c: int| 0 <= c < j ==> (#[trigger] polys@[c]).vals().len()
                    <= self.n_rows_spec(),
                forall|c: int, i: int|
                    0 <= c < j && 0 <= i < self.n_rows_spec() ==> #[trigger] eval_val(
                        polys@[c].vals(),
                        coset_point(log2(self.n_rows_spec()), 1, i as nat),
                    ) == self.col_vals(c)[i],
                forall|c: int, p: Seq<int>|
                    #![trigger polys@[c], trim_zeros(p)]
                    0 <= c < j && all_in_field(p) && p.len() <= self.n_rows_spec() && (
                    forall|i: int|
                        0 <= i < self.n_rows_spec() ==> eval_val(
                            p,
                            coset_point(log2(self.n_rows_spec()), 1, i as nat),
                        ) == self.col_vals(c)[i]) ==> polys@[c].vals() == trim_zeros(p),
            decreases self.cols@.len() - j,
        {
            let p = poly_interpolate_fft(&self.cols[j]);
            proof {
                assert((#[trigger] self.cols@[j as int])@.len() == self.n_rows_spec());
                assert forall|q: Seq<int>|
                    all_in_field(q) && q.len() <= self.n_rows_spec() && (forall|i: int|
                        0 <= i < self.n_rows_spec() ==> eval_val(
                            q,
                            coset_point(log2(self.n_rows_spec()), 1, i as nat),
                        ) == self.col_vals(j as int)[i]) implies p.vals() == #[trigger] trim_zeros(
                    q,
                ) by {
                    assert forall|i: int|
                        0 <= i < self.cols@[j as int]@.len() implies eval_val(
                        q,
                        coset_point(log2(self.cols@[j as int]@.len() as nat), 1, i as nat),
                    ) == fe_val(self.cols@[j as int]@[i]) by {
                        assert(self.col_vals(j as int)[i] == fe_val(self.cols@[j as int]@[i]));
                    }
                }
            }
            polys.push(p);
            j += 1;
        }
        polys
    }
}

} // verus!
