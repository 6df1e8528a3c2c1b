//! The final proof artifact and its opening records.

use vstd::prelude::*;

use crate::backend::Fe;
use crate::frame::Frame;
use crate::fri::FriDecommitment;

verus! {

/// The Merkle proofs and evaluations of the DEEP polynomial's constituents
/// — both composition-polynomial halves and every trace column — at one
/// shared index of the extended domain.
pub struct DeepPolynomialOpenings {
    pub lde_composition_poly_even_proof: Vec<[u8; 32]>,
    pub lde_composition_poly_even_evaluation: Fe,
    pub lde_composition_poly_odd_proof: Vec<[u8; 32]>,
    pub lde_composition_poly_odd_evaluation: Fe,
    pub lde_trace_merkle_proofs: Vec<Vec<[u8; 32]>>,
    pub lde_trace_evaluations: Vec<Fe>,
}

/// A STARK proof: every commitment root, every out-of-domain evaluation, the
/// FRI layer roots with the final value, the query decommitments, and the
/// DEEP polynomial openings.
pub struct StarkProof {
    pub lde_trace_merkle_roots: Vec<[u8; 32]>,
    pub trace_ood_frame_evaluations: Frame,
    pub composition_poly_even_root: [u8; 32],
    pub composition_poly_even_ood_evaluation: Fe,
    pub composition_poly_odd_root: [u8; 32],
    pub composition_poly_odd_ood_evaluation: Fe,
    pub fri_layers_merkle_roots: Vec<[u8; 32]>,
    pub fri_last_value: Fe,
    pub query_list: Vec<FriDecommitment>,
    pub deep_poly_openings: DeepPolynomialOpenings,
}

} // verus!
