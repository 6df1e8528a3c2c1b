//! The AIR capability the prover consumes: the constraint-system context,
//! boundary constraints, and the trait concrete AIRs implement.

use vstd::prelude::*;

use crate::backend::{fe_val, Fe, StarkTranscript};
use crate::frame::Frame;
use crate::trace::TraceTable;
use crate::ProvingError;

verus! {

/// Configuration of a proof run.
pub struct ProofOptions {
    pub blowup_factor: u8,
    pub fri_number_of_queries: usize,
    pub coset_offset: u64,
}

/// The constraint-system context an AIR exposes to the prover.
pub struct AirContext {
    pub options: ProofOptions,
    pub trace_length: usize,
    pub trace_columns: usize,
    pub transition_degrees: Vec<usize>,
    pub transition_exemptions: Vec<usize>,
    pub transition_offsets: Vec<usize>,
    pub num_transition_constraints: usize,
}

/// The mathematical content of an `AirContext`.
pub ghost struct AirCtx {
    pub trace_length: nat,
    pub trace_columns: nat,
    pub transition_degrees: Seq<int>,
    pub transition_exemptions: Seq<int>,
    pub transition_offsets: Seq<int>,
    pub num_transition_constraints: nat,
    pub blowup_factor: nat,
    pub fri_number_of_queries: nat,
    pub coset_offset: nat,
}

impl View for AirContext {
    type V = AirCtx;

    open spec fn view(&self) -> AirCtx {
        AirCtx {
            trace_length: self.trace_length as nat,
            trace_columns: self.trace_columns as nat,
            transition_degrees: self.transition_degrees@.map_values(|d: usize| d as int),
            transition_exemptions: self.transition_exemptions@.map_values(|d: usize| d as int),
            transition_offsets: self.transition_offsets@.map_values(|d: usize| d as int),
            num_transition_constraints: self.num_transition_constraints as nat,
            blowup_factor: self.options.blowup_factor as nat,
            fri_number_of_queries: self.options.fri_number_of_queries as nat,
            coset_offset: self.options.coset_offset as nat,
        }
    }
}

/// One boundary constraint: column `col` must hold `value` at row `step`.
pub struct BoundaryConstraint {
    pub col: usize,
    pub step: usize,
    pub value: Fe,
}

/// The boundary constraints of an AIR, in declaration order.
pub struct BoundaryConstraints {
    pub constraints: Vec<BoundaryConstraint>,
}

/// The steps of the constraints among `cs` that speak of column `col`, in
/// declaration order.
pub open spec fn steps_of(cs: Seq<BoundaryConstraint>, col: int) -> Seq<int>
    decreases cs.len(),
{
    if cs.len() == 0 {
        Seq::empty()
    } else if cs.last().col == col {
        steps_of(cs.drop_last(), col).push(cs.last().step as int)
    } else {
        steps_of(cs.drop_last(), col)
    }
}

/// The required values of the constraints among `cs` that speak of column
/// `col`, in declaration order.
pub open spec fn values_of(cs: Seq<BoundaryConstraint>, col: int) -> Seq<int>
    decreases cs.len(),
{
    if cs.len() == 0 {
        Seq::empty()
    } else if cs.last().col == col {
        values_of(cs.drop_last(), col).push(fe_val(cs.last().value))
    } else {
        values_of(cs.drop_last(), col)
    }
}

impl BoundaryConstraints {
    /// The steps of the constraints on `col`, in declaration order.
    pub open spec fn steps_spec(&self, col: int) -> Seq<int> {
        steps_of(self.constraints@, col)
    }

    /// The values of the constraints on `col`, in declaration order.
    pub open spec fn values_spec(&self, col: int) -> Seq<int> {
        values_of(self.constraints@, col)
    }

    /// The steps and values of the constraints on column `col`.
    pub fn for_column(&self, col: usize) -> (r: (Vec<usize>, Vec<Fe>))
        ensures
            r.0@.map_values(|s: usize| s as int) == self.steps_spec(col as int),
            r.1@.map_values(|e: Fe| fe_val(e)) == self.values_spec(col as int),
            r.0@.len() == r.1@.len(),
    {
        let mut steps: Vec<usize> = Vec::new();
        let mut values: Vec<Fe> = Vec::new();
        let mut i: usize = 0;
        while i < self.constraints.len()
            invariant
                i <= self.constraints@.len(),
                steps@.map_values(|s: usize| s as int) == steps_of(
                    self.constraints@.take(i as int),
                    col as int,
                ),
                values@.map_values(|e: Fe| fe_val(e)) == values_of(
                    self.constraints@.take(i as int),
                    col as int,
                ),
                steps@.len() == values@.len(),
            decreases self.constraints@.len() - i,
        {
            proof {
                assert(self.constraints@.take(i + 1).drop_last() =~= self.constraints@.take(
                    i as int,
                ));
                assert(self.constraints@.take(i + 1).last() == self.constraints@[i as int]);
            }
            let c = &self.constraints[i];
            if c.col == col {
                steps.push(c.step);
                values.push(c.value.dup());
                proof {
                    assert(steps@.map_values(|s: usize| s as int) =~= steps_of(
                        self.constraints@.take(i + 1),
                        col as int,
                    ));
                    assert(values@.map_values(|e: Fe| fe_val(e)) =~= values_of(
                        self.constraints@.take(i + 1),
                        col as int,
                    ));
                }
            }
            i += 1;
        }
        proof {
            assert(self.constraints@.take(self.constraints@.len() as int) =~= self.constraints@);
        }
        (steps, values)
    }
}

/// An algebraic intermediate representation: the constraint system a trace
/// must satisfy, together with its trace builders.
pub trait Air {
    type RawTrace;
    type PublicInput;
    type RapChallenges;

    /// The context as a mathematical value. An implementation that wants a
    /// provable `context` overrides this; the default leaves it unspecified.
    open spec fn ctx_spec(&self) -> AirCtx {
        vstd::pervasive::arbitrary()
    }

    /// The constraint-system context.
    fn context(&self) -> (r: AirContext)
        ensures
            r@ == self.ctx_spec(),
    ;

    /// Builds the main trace from the raw input, or reports a configuration
    /// error.
    fn build_main_trace(
        &self,
        raw_trace: &Self::RawTrace,
        public_input: &mut Self::PublicInput,
    ) -> Result<TraceTable, ProvingError>;

    /// Samples the challenges the auxiliary trace is built from.
    fn build_rap_challenges(&self, transcript: &mut StarkTranscript) -> Self::RapChallenges;

    /// Builds the auxiliary trace; it may be empty.
    fn build_auxiliary_trace(
        &self,
        main_trace: &TraceTable,
        rap_challenges: &Self::RapChallenges,
        public_input: &Self::PublicInput,
    ) -> TraceTable;

    /// The boundary constraints for this run.
    fn boundary_constraints(
        &self,
        rap_challenges: &Self::RapChallenges,
        public_input: &Self::PublicInput,
    ) -> BoundaryConstraints;

    /// Evaluates every transition constraint on a frame.
    fn compute_transition(&self, frame: &Frame, rap_challenges: &Self::RapChallenges) -> Vec<Fe>;
}

} // verus!
