//! A frame: the rows of a trace (or their out-of-domain evaluations) that a
//! transition constraint reads at once.

use vstd::prelude::*;

use crate::backend::{fe_seq_vals, fe_val, Fe};
use crate::trace::TraceTable;

verus! {

/// An ordered list of equally meaningful rows of field elements.
pub struct Frame {
    pub rows: Vec<Vec<Fe>>,
}

impl Frame {
    /// Takes ownership of the given rows.
    pub fn new(rows: Vec<Vec<Fe>>) -> (r: Frame)
        ensures
            r.rows@ == rows@,
    {
        Frame { rows }
    }

    /// The number of rows.
    pub fn num_rows(&self) -> (r: usize)
        ensures
            r == self.rows@.len(),
    {
        self.rows.len()
    }

    /// Reads the frame anchored at row `step` of the trace: row `j` of the
    /// frame is trace row `(step + offsets[j] * blowup) mod n_rows`.
    pub fn read_from_trace(
        trace: &TraceTable,
        step: usize,
        blowup: usize,
        offsets: &Vec<usize>,
    ) -> (r: Frame)
        requires
            trace.is_table(),
            trace.n_rows_spec() >= 1,
            step < trace.n_rows_spec(),
            forall|j: int| 0 <= j < offsets@.len() ==> (#[trigger] offsets@[j]) * blowup + step
                < 0x8000_0000,
        ensures
            r.rows@.len() == offsets@.len(),
            forall|j: int|
                0 <= j < offsets@.len() ==> fe_seq_vals((#[trigger] r.rows@[j])@)
                    == trace.row_vals(
                    ((step + offsets@[j] * blowup) % (trace.n_rows_spec() as int)),
                ),
    {
        let n = trace.n_rows();
        let mut rows: Vec<Vec<Fe>> = Vec::new();
        let mut j: usize = 0;
        while j < offsets.len()
            invariant
                trace.is_table(),
                trace.n_rows_spec() >= 1,
                n == trace.n_rows_spec(),
                step < trace.n_rows_spec(),
                forall|k: int| 0 <= k < offsets@.len() ==> (#[trigger] offsets@[k]) * blowup + step
                    < 0x8000_0000,
                j <= offsets@.len(),
                rows@.len() == j,
                forall|k: int|
                    0 <= k < j ==> fe_seq_vals((#[trigger] rows@[k])@) == trace.row_vals(
                        ((step + offsets@[k] * blowup) % (trace.n_rows_spec() as int)),
                    ),
            decreases offsets@.len() - j,
        {
            let idx = (step + offsets[j] * blowup) % n;
            rows.push(trace.get_row(idx));
            j += 1;
        }
        Frame { rows }
    }
}

} // verus!
