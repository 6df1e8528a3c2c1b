use vstd::prelude::*;

pub mod air;
pub mod backend;
pub mod domain;
pub mod evaluator;
pub mod frame;
pub mod fri;
pub mod lemmas;
pub mod model;
pub mod poly;
pub mod stark_proof;
pub mod prover;
pub mod trace;

verus! {

/// Errors reported by the proving pipeline.
#[derive(Debug)]
pub enum ProvingError {
    WrongParameter(String),
}

} // verus!
