//! The four-round STARK proving pipeline: trace commitment, composition
//! polynomial, out-of-domain evaluations, and the DEEP polynomial with FRI.

use vstd::prelude::*;

use crate::air::Air;
use crate::backend::{
    commit_evals, fe_seq_vals, fe_val, max2, merkle_path_of, merkle_root_of, transcript_log,
    tree_vals, CommitTree, Fe, StarkTranscript,
};
use crate::evaluator::ConstraintEvaluator;
use crate::frame::Frame;
use crate::fri::{fri_commit_phase, fri_query_phase, FriDecommitment, FriLayer};
use crate::stark_proof::{DeepPolynomialOpenings, StarkProof};
use crate::trace::TraceTable;
use crate::domain::Domain;
use crate::lemmas::{
    lemma_coset_coarsen, lemma_next_pow2, lemma_next_pow2_min, lemma_pow2_div, lemma_pow2_mul,
};
use crate::model::{all_in_field, coset_point, eval_val, is_pow2, log2, next_pow2};
use crate::poly::Poly;
use crate::ProvingError;

verus! {

/// Evaluates `p` on the blown-up coset domain `offset * w^i` of size
/// `domain_size * blowup_factor`, subsampling when the evaluation engine
/// returns a denser grid: the `i`-th result is exactly the evaluation of `p`
/// at the `i`-th coset point. The target domain must hold at least two
/// points; the size caps are machine limits.
pub fn evaluate_polynomial_on_lde_domain(
    p: &Poly,
    blowup_factor: usize,
    domain_size: usize,
    offset: &Fe,
) -> (r: Vec<Fe>)
    requires
        blowup_factor >= 1,
        is_pow2(blowup_factor as nat),
        is_pow2(domain_size as nat),
        domain_size * blowup_factor >= 2,
        domain_size * blowup_factor <= 0x1000_0000,
        p.vals().len() <= 0x1000_0000,
    ensures
        r@.len() == domain_size * blowup_factor,
        all_in_field(fe_seq_vals(r@)),
        forall|i: int|
            0 <= i < r@.len() ==> fe_val(r@[i]) == eval_val(
                p.vals(),
                coset_point(
                    log2((domain_size * blowup_factor) as nat),
                    fe_val(*offset),
                    i as nat,
                ),
            ),
{
    let evaluations = crate::backend::poly_evaluate_offset_fft(
        p,
        blowup_factor,
        domain_size,
        offset,
    );
    let target = domain_size * blowup_factor;
    proof {
        let len = p.vals().len();
        let m = max2(len, domain_size as nat);
        lemma_next_pow2(m);
        crate::lemmas::lemma_pow2_log2(domain_size as nat);
        assert(blowup_factor <= domain_size * blowup_factor) by (nonlinear_arith)
            requires
                domain_size >= 1,
                blowup_factor >= 0;
        lemma_pow2_mul(domain_size as nat, blowup_factor as nat);
        // The padded coefficient count is at most the target size, so the
        // grid is at most `blowup` times denser than the target.
        assert(domain_size <= domain_size * blowup_factor) by (nonlinear_arith)
            requires
                blowup_factor >= 1,
                domain_size >= 0;
        assert(is_pow2(0x1000_0000nat)) by {
            crate::lemmas::lemma_is_pow2_pow2(28);
            vstd::arithmetic::power2::lemma2_to64();
            assert(vstd::arithmetic::power2::pow2(28) == 0x1000_0000nat) by {
                vstd::arithmetic::power2::lemma2_to64();
            }
        }
        lemma_next_pow2_min(m, 0x1000_0000nat);
        lemma_pow2_mul(next_pow2(m), blowup_factor as nat);
        assert(next_pow2(m) * blowup_factor >= domain_size * blowup_factor) by (
        nonlinear_arith)
            requires
                next_pow2(m) >= domain_size,
                blowup_factor >= 1;
        lemma_pow2_div(target as nat, evaluations@.len() as nat);
        vstd::arithmetic::power2::lemma2_to64();
        vstd::arithmetic::power2::lemma2_to64_rest();
        assert(evaluations@.len() <= 0x1000_0000 * 0x1000_0000) by (nonlinear_arith)
            requires
                next_pow2(m) <= 0x1000_0000,
                0 <= blowup_factor <= 0x1000_0000,
                evaluations@.len() == next_pow2(m) * blowup_factor;
        crate::lemmas::lemma_log2_le(evaluations@.len() as nat, 56);
    }
    let n_evals = evaluations.len();
    let step = n_evals / target;
    let ghost n_order: nat = log2(evaluations@.len() as nat);
    let ghost t_order: nat = log2(target as nat);
    let mut result: Vec<Fe> = Vec::new();
    let mut i: usize = 0;
    while i < target
        invariant
            i <= target,
            result@.len() == i,
            target >= 2,
            step == vstd::arithmetic::power2::pow2((n_order - t_order) as nat),
            n_evals == evaluations@.len(),
            evaluations@.len() == target * step,
            1 <= t_order <= n_order <= 192,
            n_order == log2(evaluations@.len() as nat),
            t_order == log2(target as nat),
            all_in_field(fe_seq_vals(evaluations@)),
            forall|k: int|
                0 <= k < evaluations@.len() ==> fe_val(evaluations@[k]) == eval_val(
                    p.vals(),
                    coset_point(n_order, fe_val(*offset), k as nat),
                ),
            forall|k: int|
                0 <= k < i ==> fe_val(#[trigger] result@[k]) == eval_val(
                    p.vals(),
                    coset_point(t_order, fe_val(*offset), k as nat),
                ),
        decreases target - i,
    {
        proof {
            vstd::arithmetic::power2::lemma_pow2_pos((n_order - t_order) as nat);
            assert(i * step + step <= target * step) by (nonlinear_arith)
                requires
                    i + 1 <= target,
                    step >= 1;
            lemma_coset_coarsen(n_order, t_order, fe_val(*offset), i as nat);
            assert(step * i == i * step) by (nonlinear_arith);
        }
        result.push(evaluations[i * step].dup());
        i += 1;
    }
    proof {
        assert forall|k: int| 0 <= k < result@.len() implies crate::model::in_field(
            #[trigger] fe_seq_vals(result@)[k],
        ) by {
            crate::lemmas::lemma_coset_point_in_field(t_order, fe_val(*offset), k as nat);
        }
    }
    result
}

/// Builds one Merkle tree per evaluation vector and returns the trees with
/// their roots, both in input order. Fails only on an empty vector.
pub fn batch_commit(vectors: &Vec<Vec<Fe>>) -> (r: Result<
    (Vec<CommitTree>, Vec<[u8; 32]>),
    ProvingError,
>)
    requires
        forall|j: int| 0 <= j < vectors@.len() ==> (#[trigger] vectors@[j])@.len() >= 1,
    ensures
        r.is_ok(),
        r.is_ok() ==> {
            let (trees, roots) = r.unwrap();
            &&& trees@.len() == vectors@.len()
            &&& roots@.len() == vectors@.len()
            &&& forall|j: int|
                0 <= j < vectors@.len() ==> tree_vals(#[trigger] trees@[j]) == fe_seq_vals(
                    vectors@[j]@,
                )
            &&& forall|j: int|
                0 <= j < vectors@.len() ==> (#[trigger] roots@[j])@ == merkle_root_of(
                    fe_seq_vals(vectors@[j]@),
                )
        },
{
    let mut trees: Vec<CommitTree> = Vec::new();
    let mut roots: Vec<[u8; 32]> = Vec::new();
    let mut j: usize = 0;
    while j < vectors.len()
        invariant
            j <= vectors@.len(),
            trees@.len() == j,
            roots@.len() == j,
            forall|k: int| 0 <= k < vectors@.len() ==> (#[trigger] vectors@[k])@.len() >= 1,
            forall|k: int|
                0 <= k < j ==> tree_vals(#[trigger] trees@[k]) == fe_seq_vals(vectors@[k]@),
            forall|k: int|
                0 <= k < j ==> (#[trigger] roots@[k])@ == merkle_root_of(fe_seq_vals(vectors@[k]@)),
        decreases vectors@.len() - j,
    {
        let tree = match commit_evals(&vectors[j]) {
            Some(tree) => tree,
            None => {
                proof {
                    assert(false);
                }
                return Err(ProvingError::WrongParameter("empty evaluation vector".to_string()));
            },
        };
        let root = tree.root();
        trees.push(tree);
        roots.push(root);
        j += 1;
    }
    Ok((trees, roots))
}

/// Starts the Fiat-Shamir transcript of one proof run.
fn round_0_transcript_initialization() -> StarkTranscript {
    StarkTranscript::start()
}

/// Samples `size` field elements from the transcript, in order: the `k`-th
/// challenge is drawn from the challenge bytes of the history after `k`
/// draws, and each draw is absorbed back in turn.
pub fn batch_sample_challenges(size: usize, transcript: &mut StarkTranscript) -> (r: Vec<Fe>)
    ensures
        r@.len() == size,
        all_in_field(fe_seq_vals(r@)),
        transcript_log(*final(transcript)) == crate::backend::log_after_samples(
            transcript_log(*old(transcript)),
            size as nat,
        ),
        forall|k: int|
            0 <= k < size ==> fe_val(#[trigger] r@[k]) == crate::backend::fe_from_seed(
                crate::backend::challenge_bytes_of(
                    crate::backend::log_after_samples(transcript_log(*old(transcript)), k as nat),
                ),
            ),
{
    let mut challenges: Vec<Fe> = Vec::new();
    let mut i: usize = 0;
    while i < size
        invariant
            i <= size,
            challenges@.len() == i,
            transcript_log(*transcript) == crate::backend::log_after_samples(
                transcript_log(*old(transcript)),
                i as nat,
            ),
            forall|k: int| 0 <= k < i ==> crate::model::in_field(fe_val(#[trigger] challenges@[k])),
            forall|k: int|
                0 <= k < i ==> fe_val(#[trigger] challenges@[k]) == crate::backend::fe_from_seed(
                    crate::backend::challenge_bytes_of(
                        crate::backend::log_after_samples(
                            transcript_log(*old(transcript)),
                            k as nat,
                        ),
                    ),
                ),
        decreases size - i,
    {
        challenges.push(transcript.sample_fe());
        i += 1;
    }
    proof {
        assert forall|k: int| 0 <= k < fe_seq_vals(challenges@).len() implies crate::model::in_field(
            #[trigger] fe_seq_vals(challenges@)[k],
        ) by {
            assert(fe_seq_vals(challenges@)[k] == fe_val(challenges@[k]));
        }
    }
    challenges
}

/// Pairs two equally long challenge lists into `(alpha, beta)` coefficients.
fn zip_coeffs(alphas: &Vec<Fe>, betas: &Vec<Fe>) -> (r: Vec<(Fe, Fe)>)
    requires
        alphas@.len() == betas@.len(),
    ensures
        r@.len() == alphas@.len(),
{
    let mut pairs: Vec<(Fe, Fe)> = Vec::new();
    let mut i: usize = 0;
    while i < alphas.len()
        invariant
            alphas@.len() == betas@.len(),
            i <= alphas@.len(),
            pairs@.len() == i,
        decreases alphas@.len() - i,
    {
        pairs.push((alphas[i].dup(), betas[i].dup()));
        i += 1;
    }
    pairs
}

/// The result of the first round: the trace polynomials (main columns
/// followed by auxiliary ones), their extended evaluations as a table, and
/// one Merkle tree and root per column.
pub struct Round1<A: Air> {
    pub trace_polys: Vec<Poly>,
    pub lde_trace: TraceTable,
    pub lde_trace_merkle_trees: Vec<CommitTree>,
    pub lde_trace_merkle_roots: Vec<[u8; 32]>,
    pub rap_challenges: A::RapChallenges,
    pub main_trace_cols: Ghost<Seq<Seq<int>>>,
    pub aux_trace_cols: Ghost<Seq<Seq<int>>>,
}

/// The column values of a trace table.
pub open spec fn table_col_vals(t: TraceTable) -> Seq<Seq<int>> {
    t.cols@.map_values(|c: Vec<Fe>| fe_seq_vals(c@))
}

impl<A: Air> Round1<A> {
    /// Internal consistency against the domain: each committed tree holds
    /// exactly the extended column, and each extended column holds exactly
    /// the corresponding trace polynomial's evaluations on the coset.
    pub open spec fn wf(&self, domain: Domain) -> bool {
        let lde_size = (domain.interpolation_domain_size * domain.blowup_factor) as nat;
        &&& self.trace_polys@.len() >= 1
        &&& self.lde_trace.cols@.len() == self.trace_polys@.len()
        &&& self.lde_trace.is_table()
        &&& self.lde_trace.n_rows_spec() == lde_size
        &&& self.lde_trace_merkle_trees@.len() == self.trace_polys@.len()
        &&& self.lde_trace_merkle_roots@.len() == self.trace_polys@.len()
        &&& forall|j: int|
            0 <= j < self.trace_polys@.len() ==> (#[trigger] self.trace_polys@[j]).wf()
                && self.trace_polys@[j].vals().len() <= domain.interpolation_domain_size
        &&& forall|j: int|
            0 <= j < self.lde_trace_merkle_trees@.len() ==> tree_vals(
                #[trigger] self.lde_trace_merkle_trees@[j],
            ) == fe_seq_vals(self.lde_trace.cols@[j]@)
        &&& forall|j: int|
            0 <= j < self.lde_trace_merkle_roots@.len() ==> (
            #[trigger] self.lde_trace_merkle_roots@[j])@ == merkle_root_of(
                tree_vals(self.lde_trace_merkle_trees@[j]),
            )
        &&& forall|j: int, i: int|
            0 <= j < self.lde_trace.cols@.len() && 0 <= i < lde_size ==> #[trigger] self.lde_trace.col_vals(
                j,
            )[i] == eval_val(
                self.trace_polys@[j].vals(),
                coset_point(log2(lde_size), fe_val(domain.coset_offset), i as nat),
            )
        // The polynomials interpolate the recorded main and auxiliary trace
        // columns, main first, auxiliary after.
        &&& self.main_trace_cols@.len() >= 1
        &&& self.trace_polys@.len() == self.main_trace_cols@.len() + self.aux_trace_cols@.len()
        &&& forall|j: int, i: int|
            0 <= j < self.main_trace_cols@.len() && 0 <= i < domain.interpolation_domain_size
                ==> #[trigger] eval_val(
                self.trace_polys@[j].vals(),
                coset_point(log2(domain.interpolation_domain_size as nat), 1, i as nat),
            ) == self.main_trace_cols@[j][i]
        &&& forall|j: int, i: int|
            0 <= j < self.aux_trace_cols@.len() && 0 <= i < domain.interpolation_domain_size
                ==> #[trigger] eval_val(
                self.trace_polys@[self.main_trace_cols@.len() + j].vals(),
                coset_point(log2(domain.interpolation_domain_size as nat), 1, i as nat),
            ) == self.aux_trace_cols@[j][i]
    }
}

/// Interpolates every column of a trace, evaluates the polynomials on the
/// extended coset domain, commits to each evaluation vector with a Merkle
/// tree, and appends each root to the transcript in column order — the
/// order is part of the protocol's binding.
fn interpolate_and_commit(
    trace: &TraceTable,
    domain: &Domain,
    transcript: &mut StarkTranscript,
) -> (r: Result<(Vec<Poly>, Vec<Vec<Fe>>, Vec<CommitTree>, Vec<[u8; 32]>), ProvingError>)
    requires
        domain.wf(),
        trace.is_table(),
        trace.n_rows_spec() == domain.interpolation_domain_size,
        trace.cols@.len() >= 1,
    ensures
        r.is_ok(),
        r.is_ok() ==> {
            let (polys, evaluations, trees, roots) = r.unwrap();
            let lde_size = domain.interpolation_domain_size * domain.blowup_factor;
            &&& polys@.len() == trace.cols@.len()
            &&& evaluations@.len() == trace.cols@.len()
            &&& trees@.len() == trace.cols@.len()
            &&& roots@.len() == trace.cols@.len()
            &&& forall|j: int|
                0 <= j < polys@.len() ==> (#[trigger] polys@[j]).wf() && polys@[j].vals().len()
                    <= domain.interpolation_domain_size
            &&& forall|j: int, i: int|
                0 <= j < polys@.len() && 0 <= i < trace.n_rows_spec() ==> #[trigger] eval_val(
                    polys@[j].vals(),
                    coset_point(log2(trace.n_rows_spec()), 1, i as nat),
                ) == trace.col_vals(j)[i]
            &&& forall|j: int, p: Seq<int>|
                #![trigger polys@[j], crate::model::trim_zeros(p)]
                0 <= j < polys@.len() && all_in_field(p) && p.len() <= trace.n_rows_spec() && (
                forall|i: int|
                    0 <= i < trace.n_rows_spec() ==> eval_val(
                        p,
                        coset_point(log2(trace.n_rows_spec()), 1, i as nat),
                    ) == trace.col_vals(j)[i]) ==> polys@[j].vals() == crate::model::trim_zeros(p)
            &&& forall|j: int|
                0 <= j < evaluations@.len() ==> (#[trigger] evaluations@[j])@.len() == lde_size
                    && all_in_field(fe_seq_vals(evaluations@[j]@))
            &&& forall|j: int, i: int|
                0 <= j < evaluations@.len() && 0 <= i < lde_size ==> fe_val(
                    #[trigger] evaluations@[j]@[i],
                ) == eval_val(
                    polys@[j].vals(),
                    coset_point(log2(lde_size as nat), fe_val(domain.coset_offset), i as nat),
                )
            &&& forall|j: int|
                0 <= j < trees@.len() ==> tree_vals(#[trigger] trees@[j]) == fe_seq_vals(
                    evaluations@[j]@,
                )
            &&& forall|j: int|
                0 <= j < roots@.len() ==> (#[trigger] roots@[j])@ == merkle_root_of(
                    fe_seq_vals(evaluations@[j]@),
                )
            &&& transcript_log(*final(transcript)) == transcript_log(*old(transcript))
                + roots@.map_values(|root: [u8; 32]| root@)
        },
{
    proof {
        assert(domain.interpolation_domain_size <= domain.interpolation_domain_size
            * domain.blowup_factor) by (nonlinear_arith)
            requires
                domain.blowup_factor >= 1,
                domain.interpolation_domain_size >= 0;
    }
    let trace_polys = trace.compute_trace_polys();
    let lde_size = domain.interpolation_domain_size * domain.blowup_factor;
    let mut lde_trace_evaluations: Vec<Vec<Fe>> = Vec::new();
    let mut j: usize = 0;
    while j < trace_polys.len()
        invariant
            domain.wf(),
            j <= trace_polys@.len(),
            lde_size == domain.interpolation_domain_size * domain.blowup_factor,
            domain.interpolation_domain_size <= lde_size,
            forall|c: int|
                0 <= c < trace_polys@.len() ==> (#[trigger] trace_polys@[c]).wf()
                    && trace_polys@[c].vals().len() <= domain.interpolation_domain_size,
            lde_trace_evaluations@.len() == j,
            forall|c: int|
                0 <= c < j ==> (#[trigger] lde_trace_evaluations@[c])@.len() == lde_size
                    && all_in_field(fe_seq_vals(lde_trace_evaluations@[c]@)),
            forall|c: int, i: int|
                0 <= c < j && 0 <= i < lde_size ==> fe_val(
                    #[trigger] lde_trace_evaluations@[c]@[i],
                ) == eval_val(
                    trace_polys@[c].vals(),
                    coset_point(log2(lde_size as nat), fe_val(domain.coset_offset), i as nat),
                ),
        decreases trace_polys@.len() - j,
    {
        let evaluations = evaluate_polynomial_on_lde_domain(
            &trace_polys[j],
            domain.blowup_factor,
            domain.interpolation_domain_size,
            &domain.coset_offset,
        );
        lde_trace_evaluations.push(evaluations);
        j += 1;
    }
    let (lde_trace_merkle_trees, lde_trace_merkle_roots) = batch_commit(&lde_trace_evaluations)?;
    // Send the commitments in column order: the order is part of the
    // protocol's binding.
    let mut k: usize = 0;
    while k < lde_trace_merkle_roots.len()
        invariant
            k <= lde_trace_merkle_roots@.len(),
            transcript_log(*transcript) == transcript_log(*old(transcript))
                + lde_trace_merkle_roots@.take(k as int).map_values(|root: [u8; 32]| root@),
        decreases lde_trace_merkle_roots@.len() - k,
    {
        transcript.append_bytes32(&lde_trace_merkle_roots[k]);
        proof {
            assert(transcript_log(*transcript) =~= transcript_log(*old(transcript))
                + lde_trace_merkle_roots@.take(k + 1).map_values(|root: [u8; 32]| root@));
        }
        k += 1;
    }
    proof {
        assert(lde_trace_merkle_roots@.take(lde_trace_merkle_roots@.len() as int)
            == lde_trace_merkle_roots@);
    }
    Ok((trace_polys, lde_trace_evaluations, lde_trace_merkle_trees, lde_trace_merkle_roots))
}

/// Round 1: builds the (randomized) trace and commits to it. The main trace
/// is committed first; the RAP challenges are then sampled, and a non-empty
/// auxiliary trace is committed after the main one.
fn round_1_randomized_air_with_preprocessing<A: Air>(
    air: &A,
    raw_trace: &A::RawTrace,
    domain: &Domain,
    public_input: &mut A::PublicInput,
    transcript: &mut StarkTranscript,
) -> (r: Result<Round1<A>, ProvingError>)
    requires
        domain.wf(),
    ensures
        r.is_ok() ==> r.unwrap().wf(*domain),
{
    let main_trace = match air.build_main_trace(raw_trace, public_input) {
        Ok(trace) => trace,
        Err(e) => {
            return Err(e);
        },
    };
    if main_trace.is_empty() || !main_trace.is_uniform() {
        return Err(ProvingError::WrongParameter("trace columns disagree in length".to_string()));
    }
    if main_trace.n_rows() != domain.interpolation_domain_size {
        return Err(ProvingError::WrongParameter(
            "trace length disagrees with the context".to_string(),
        ));
    }
    let (mut trace_polys, mut evaluations, mut lde_trace_merkle_trees, mut lde_trace_merkle_roots) =
        interpolate_and_commit(&main_trace, domain, transcript)?;
    let ghost n_main: int = trace_polys@.len() as int;
    let rap_challenges = air.build_rap_challenges(transcript);
    let aux_trace = air.build_auxiliary_trace(&main_trace, &rap_challenges, public_input);
    let ghost mut recorded_aux: Seq<Seq<int>> = Seq::empty();
    if !aux_trace.is_empty() {
        if !aux_trace.is_uniform() || aux_trace.n_rows() != domain.interpolation_domain_size {
            return Err(ProvingError::WrongParameter(
                "auxiliary trace disagrees with the domain".to_string(),
            ));
        }
        let (mut aux_polys, mut aux_evaluations, mut aux_trees, mut aux_roots) =
            interpolate_and_commit(&aux_trace, domain, transcript)?;
        proof {
            recorded_aux = table_col_vals(aux_trace);
        }
        trace_polys.append(&mut aux_polys);
        evaluations.append(&mut aux_evaluations);
        lde_trace_merkle_trees.append(&mut aux_trees);
        lde_trace_merkle_roots.append(&mut aux_roots);
    }
    let lde_trace = TraceTable::new_from_cols(evaluations);
    Ok(Round1 {
        trace_polys,
        lde_trace,
        lde_trace_merkle_trees,
        lde_trace_merkle_roots,
        rap_challenges,
        main_trace_cols: Ghost(table_col_vals(main_trace)),
        aux_trace_cols: Ghost(recorded_aux),
    })
}

/// The result of the second round: both composition-polynomial halves with
/// their extended evaluations, trees and roots.
pub struct Round2 {
    pub composition_poly_even: Poly,
    pub lde_composition_poly_even_evaluations: Vec<Fe>,
    pub composition_poly_even_merkle_tree: CommitTree,
    pub composition_poly_even_root: [u8; 32],
    pub composition_poly_odd: Poly,
    pub lde_composition_poly_odd_evaluations: Vec<Fe>,
    pub composition_poly_odd_merkle_tree: CommitTree,
    pub composition_poly_odd_root: [u8; 32],
    pub constraint_evaluations: Ghost<Seq<int>>,
}

impl Round2 {
    /// Internal consistency against the domain: each committed tree holds
    /// exactly one half's extended evaluations, and those are exactly the
    /// half's values on the coset.
    pub open spec fn wf(&self, domain: Domain) -> bool {
        let lde_size = (domain.interpolation_domain_size * domain.blowup_factor) as nat;
        &&& self.composition_poly_even.wf()
        &&& self.composition_poly_even.vals().len() <= lde_size
        &&& self.composition_poly_odd.wf()
        &&& self.composition_poly_odd.vals().len() <= lde_size
        &&& self.lde_composition_poly_even_evaluations@.len() == lde_size
        &&& self.lde_composition_poly_odd_evaluations@.len() == lde_size
        &&& tree_vals(self.composition_poly_even_merkle_tree) == fe_seq_vals(
            self.lde_composition_poly_even_evaluations@,
        )
        &&& tree_vals(self.composition_poly_odd_merkle_tree) == fe_seq_vals(
            self.lde_composition_poly_odd_evaluations@,
        )
        &&& self.composition_poly_even_root@ == merkle_root_of(
            tree_vals(self.composition_poly_even_merkle_tree),
        )
        &&& self.composition_poly_odd_root@ == merkle_root_of(
            tree_vals(self.composition_poly_odd_merkle_tree),
        )
        &&& self.constraint_evaluations@.len() == lde_size
        &&& exists|h: Seq<int>|
            crate::model::all_in_field(h) && h.len() <= lde_size
                && self.composition_poly_even.vals() == #[trigger] crate::model::evens(h)
                && self.composition_poly_odd.vals() == crate::model::odds(h) && (forall|i: int|
                0 <= i < lde_size ==> eval_val(
                    h,
                    #[trigger] coset_point(
                        log2(lde_size),
                        fe_val(domain.coset_offset),
                        i as nat,
                    ),
                ) == self.constraint_evaluations@[i])
        &&& forall|i: int|
            0 <= i < lde_size ==> fe_val(
                #[trigger] self.lde_composition_poly_even_evaluations@[i],
            ) == eval_val(
                self.composition_poly_even.vals(),
                coset_point(log2(lde_size), fe_val(domain.coset_offset), i as nat),
            )
        &&& forall|i: int|
            0 <= i < lde_size ==> fe_val(
                #[trigger] self.lde_composition_poly_odd_evaluations@[i],
            ) == eval_val(
                self.composition_poly_odd.vals(),
                coset_point(log2(lde_size), fe_val(domain.coset_offset), i as nat),
            )
    }
}

/// Round 2: evaluates the folded constraints on the extended domain,
/// interpolates them into the composition polynomial `H`, splits it as
/// `H(x) = H1(x^2) + x * H2(x^2)`, and commits to both halves' extended
/// evaluations.
fn round_2_compute_composition_polynomial<A: Air>(
    air: &A,
    domain: &Domain,
    round_1_result: &Round1<A>,
    public_input: &A::PublicInput,
    transition_coeffs: &Vec<(Fe, Fe)>,
    boundary_coeffs: &Vec<(Fe, Fe)>,
) -> (r: Result<Round2, ProvingError>)
    requires
        domain.wf(),
        round_1_result.wf(*domain),
        boundary_coeffs@.len() == round_1_result.lde_trace.cols@.len(),
    ensures
        r.is_ok() ==> r.unwrap().wf(*domain),
        // The recorded evaluations are the constraint evaluator's output:
        // at every coset point, a weighted boundary-plus-transition quotient
        // sum over the AIR's boundary constraints (the evaluator's own) and
        // the transition vector it returned there.
        r.is_ok() ==> evaluations_decomposed(
            *domain,
            round_1_result.lde_trace,
            crate::evaluator::coeff_vals(boundary_coeffs@),
            air.ctx_spec().transition_degrees,
            air.ctx_spec().transition_exemptions,
            crate::evaluator::coeff_vals(transition_coeffs@),
            r.unwrap().constraint_evaluations@,
        ),
{
    let evaluator = ConstraintEvaluator::new(air, &round_1_result.rap_challenges, public_input);
    let constraint_evaluations = evaluator.evaluate(
        air,
        domain,
        &round_1_result.lde_trace,
        transition_coeffs,
        boundary_coeffs,
        &round_1_result.rap_challenges,
    )?;
    proof {
        crate::lemmas::lemma_pow2_mul(
            domain.interpolation_domain_size as nat,
            domain.blowup_factor as nat,
        );
        assert(domain.interpolation_domain_size * domain.blowup_factor >= 2) by (nonlinear_arith)
            requires
                domain.interpolation_domain_size >= 2,
                domain.blowup_factor >= 1;
    }
    let composition_poly = crate::backend::poly_interpolate_offset_fft(
        &constraint_evaluations,
        &domain.coset_offset,
    );
    let (composition_poly_even, composition_poly_odd) = composition_poly.even_odd_decomposition();
    let lde_composition_poly_even_evaluations = evaluate_polynomial_on_lde_domain(
        &composition_poly_even,
        domain.blowup_factor,
        domain.interpolation_domain_size,
        &domain.coset_offset,
    );
    let lde_composition_poly_odd_evaluations = evaluate_polynomial_on_lde_domain(
        &composition_poly_odd,
        domain.blowup_factor,
        domain.interpolation_domain_size,
        &domain.coset_offset,
    );
    let even_tree = match commit_evals(&lde_composition_poly_even_evaluations) {
        Some(tree) => tree,
        None => {
            proof {
                assert(false);
            }
            return Err(ProvingError::WrongParameter("empty evaluation vector".to_string()));
        },
    };
    let odd_tree = match commit_evals(&lde_composition_poly_odd_evaluations) {
        Some(tree) => tree,
        None => {
            proof {
                assert(false);
            }
            return Err(ProvingError::WrongParameter("empty evaluation vector".to_string()));
        },
    };
    let composition_poly_even_root = even_tree.root();
    let composition_poly_odd_root = odd_tree.root();
    proof {
        let lde_size = (domain.interpolation_domain_size * domain.blowup_factor) as nat;
        assert forall|i: int|
            0 <= i < fe_seq_vals(constraint_evaluations@).len()
                implies #[trigger] crate::evaluator::composition_value_from(
            evaluator.boundary_constraints,
            fe_val(domain.trace_primitive_root),
            domain.interpolation_domain_size as int,
            round_1_result.lde_trace.row_vals(i),
            coset_point(domain.lde_root_order as nat, fe_val(domain.coset_offset), i as nat),
            crate::evaluator::coeff_vals(boundary_coeffs@),
            air.ctx_spec().transition_degrees,
            air.ctx_spec().transition_exemptions,
            crate::evaluator::coeff_vals(transition_coeffs@),
            round_1_result.lde_trace.cols@.len() as int,
            fe_seq_vals(constraint_evaluations@)[i],
        ) by {
            assert(fe_seq_vals(constraint_evaluations@)[i] == fe_val(constraint_evaluations@[i]));
        }
        assert(evaluations_decomposed_over(
            evaluator.boundary_constraints,
            *domain,
            round_1_result.lde_trace,
            crate::evaluator::coeff_vals(boundary_coeffs@),
            air.ctx_spec().transition_degrees,
            air.ctx_spec().transition_exemptions,
            crate::evaluator::coeff_vals(transition_coeffs@),
            fe_seq_vals(constraint_evaluations@),
        )) by {
            let bc0 = evaluator.boundary_constraints;
            assert(forall|i: int|
                0 <= i < fe_seq_vals(constraint_evaluations@).len()
                    ==> #[trigger] crate::evaluator::composition_value_from(
                    bc0,
                    fe_val(domain.trace_primitive_root),
                    domain.interpolation_domain_size as int,
                    round_1_result.lde_trace.row_vals(i),
                    coset_point(
                        domain.lde_root_order as nat,
                        fe_val(domain.coset_offset),
                        i as nat,
                    ),
                    crate::evaluator::coeff_vals(boundary_coeffs@),
                    air.ctx_spec().transition_degrees,
                    air.ctx_spec().transition_exemptions,
                    crate::evaluator::coeff_vals(transition_coeffs@),
                    round_1_result.lde_trace.cols@.len() as int,
                    fe_seq_vals(constraint_evaluations@)[i],
                ));
        }
        assert(crate::model::evens(composition_poly.vals()) == composition_poly_even.vals());
        assert(crate::model::odds(composition_poly.vals()) == composition_poly_odd.vals());
        assert(forall|i: int|
            0 <= i < lde_size ==> eval_val(
                composition_poly.vals(),
                #[trigger] coset_point(
                    log2(lde_size),
                    fe_val(domain.coset_offset),
                    i as nat,
                ),
            ) == fe_seq_vals(constraint_evaluations@)[i]);
    }
    let result = Round2 {
        composition_poly_even,
        lde_composition_poly_even_evaluations,
        composition_poly_even_merkle_tree: even_tree,
        composition_poly_even_root,
        composition_poly_odd,
        lde_composition_poly_odd_evaluations,
        composition_poly_odd_merkle_tree: odd_tree,
        composition_poly_odd_root,
        constraint_evaluations: Ghost(fe_seq_vals(constraint_evaluations@)),
    };
    proof {
        assert(evaluations_decomposed_over(
            evaluator.boundary_constraints,
            *domain,
            round_1_result.lde_trace,
            crate::evaluator::coeff_vals(boundary_coeffs@),
            air.ctx_spec().transition_degrees,
            air.ctx_spec().transition_exemptions,
            crate::evaluator::coeff_vals(transition_coeffs@),
            result.constraint_evaluations@,
        ));
        assert(evaluations_decomposed(
            *domain,
            round_1_result.lde_trace,
            crate::evaluator::coeff_vals(boundary_coeffs@),
            air.ctx_spec().transition_degrees,
            air.ctx_spec().transition_exemptions,
            crate::evaluator::coeff_vals(transition_coeffs@),
            result.constraint_evaluations@,
        )) by {}
    }
    Ok(result)
}

/// The result of the third round: the out-of-domain trace frame and the
/// composition-polynomial halves' claimed values at `z^2`.
pub struct Round3 {
    pub trace_ood_frame_evaluations: Frame,
    pub composition_poly_even_ood_evaluation: Fe,
    pub composition_poly_odd_ood_evaluation: Fe,
}

/// Evaluates every trace polynomial at `z * g^k` for every transition-frame
/// offset `k`: row `k` of the result holds every column's value at the
/// `k`-th shifted point.
fn get_trace_evaluations(
    trace_polys: &Vec<Poly>,
    z: &Fe,
    offsets: &Vec<usize>,
    primitive_root: &Fe,
) -> (r: Vec<Vec<Fe>>)
    ensures
        r@.len() == offsets@.len(),
        forall|k: int| 0 <= k < r@.len() ==> (#[trigger] r@[k])@.len() == trace_polys@.len(),
        forall|k: int, j: int|
            0 <= k < r@.len() && 0 <= j < r@[k]@.len() ==> crate::model::in_field(
                fe_val(#[trigger] r@[k]@[j]),
            ),
        forall|k: int, j: int|
            0 <= k < r@.len() && 0 <= j < r@[k]@.len() ==> fe_val(#[trigger] r@[k]@[j])
                == eval_val(
                trace_polys@[j].vals(),
                crate::model::shift_point(fe_val(*z), fe_val(*primitive_root), offsets@[k] as nat),
            ),
{
    let mut rows: Vec<Vec<Fe>> = Vec::new();
    let mut k: usize = 0;
    while k < offsets.len()
        invariant
            k <= offsets@.len(),
            rows@.len() == k,
            forall|w: int| 0 <= w < k ==> (#[trigger] rows@[w])@.len() == trace_polys@.len(),
            forall|w: int, j: int|
                0 <= w < k && 0 <= j < rows@[w]@.len() ==> crate::model::in_field(
                    fe_val(#[trigger] rows@[w]@[j]),
                ),
            forall|w: int, j: int|
                0 <= w < k && 0 <= j < rows@[w]@.len() ==> fe_val(#[trigger] rows@[w]@[j])
                    == eval_val(
                    trace_polys@[j].vals(),
                    crate::model::shift_point(
                        fe_val(*z),
                        fe_val(*primitive_root),
                        offsets@[w] as nat,
                    ),
                ),
        decreases offsets@.len() - k,
    {
        let point = z.mul(&primitive_root.pow_u64(offsets[k] as u64));
        let mut row: Vec<Fe> = Vec::new();
        let mut j: usize = 0;
        while j < trace_polys.len()
            invariant
                j <= trace_polys@.len(),
                row@.len() == j,
                fe_val(point) == crate::model::shift_point(
                    fe_val(*z),
                    fe_val(*primitive_root),
                    offsets@[k as int] as nat,
                ),
                forall|w: int| 0 <= w < j ==> crate::model::in_field(fe_val(#[trigger] row@[w])),
                forall|w: int|
                    0 <= w < j ==> fe_val(#[trigger] row@[w]) == eval_val(
                        trace_polys@[w].vals(),
                        fe_val(point),
                    ),
            decreases trace_polys@.len() - j,
        {
            row.push(crate::poly::poly_eval(&trace_polys[j], &point));
            j += 1;
        }
        rows.push(row);
        k += 1;
    }
    rows
}

/// Round 3: assembles the out-of-domain frame — every trace polynomial at
/// `z * g^k` for every frame offset — and the claimed values of `H1` and
/// `H2` at `z^2`. On the honest path the claims are direct evaluations of
/// the committed halves; on the adversarial path `H1(z^2)` is recomputed
/// exactly from the frame by the independent cross-check and `H2(z^2)` is
/// forced to zero, simulating a forging prover.
fn round_3_evaluate_polynomials_in_out_of_domain_element<A: Air>(
    air: &A,
    domain: &Domain,
    public_input: &A::PublicInput,
    round_1_result: &Round1<A>,
    round_2_result: &Round2,
    z: &Fe,
    boundary_coeffs: &Vec<(Fe, Fe)>,
    transition_coeffs: &Vec<(Fe, Fe)>,
    evil: bool,
) -> (r: Result<Round3, ProvingError>)
    requires
        domain.wf(),
        round_1_result.wf(*domain),
        round_2_result.wf(*domain),
    ensures
        !evil ==> r.is_ok(),
        r.is_ok() ==> r.unwrap().trace_ood_frame_evaluations.rows@.len()
            == air.ctx_spec().transition_offsets.len(),
        r.is_ok() ==> forall|k: int|
            0 <= k < r.unwrap().trace_ood_frame_evaluations.rows@.len() ==> (
            #[trigger] r.unwrap().trace_ood_frame_evaluations.rows@[k])@.len()
                == round_1_result.trace_polys@.len(),
        r.is_ok() ==> crate::model::in_field(
            fe_val(r.unwrap().composition_poly_even_ood_evaluation),
        ) && crate::model::in_field(fe_val(r.unwrap().composition_poly_odd_ood_evaluation)),
        (r.is_ok() && evil) ==> fe_val(r.unwrap().composition_poly_odd_ood_evaluation) == 0,
        // On the adversarial path the claimed even value is the exact
        // cross-check's: a composition evaluation at `z` over the AIR's own
        // boundary constraints and the transition vector it returned for
        // the out-of-domain frame.
        (r.is_ok() && evil) ==> r.unwrap().trace_ood_frame_evaluations.rows@.len() >= 1
            && exact_composition_value(
            fe_val(domain.trace_primitive_root),
            domain.interpolation_domain_size as int,
            fe_seq_vals(r.unwrap().trace_ood_frame_evaluations.rows@[0]@),
            fe_val(*z),
            crate::evaluator::coeff_vals(boundary_coeffs@),
            air.ctx_spec().transition_degrees,
            air.ctx_spec().transition_exemptions,
            crate::evaluator::coeff_vals(transition_coeffs@),
            r.unwrap().trace_ood_frame_evaluations.rows@[0]@.len() as int,
            fe_val(r.unwrap().composition_poly_even_ood_evaluation),
        ),
        (r.is_ok() && !evil) ==> fe_val(r.unwrap().composition_poly_even_ood_evaluation)
            == eval_val(
            round_2_result.composition_poly_even.vals(),
            (fe_val(*z) * fe_val(*z)) % crate::model::stark_prime(),
        ) && fe_val(r.unwrap().composition_poly_odd_ood_evaluation) == eval_val(
            round_2_result.composition_poly_odd.vals(),
            (fe_val(*z) * fe_val(*z)) % crate::model::stark_prime(),
        ),
        r.is_ok() ==> forall|k: int, u: int|
            0 <= k < r.unwrap().trace_ood_frame_evaluations.rows@.len() && 0 <= u
                < r.unwrap().trace_ood_frame_evaluations.rows@[k]@.len() ==> fe_val(
                #[trigger] r.unwrap().trace_ood_frame_evaluations.rows@[k]@[u],
            ) == eval_val(
                round_1_result.trace_polys@[u].vals(),
                crate::model::shift_point(
                    fe_val(*z),
                    fe_val(domain.trace_primitive_root),
                    air.ctx_spec().transition_offsets[k] as nat,
                ),
            ),
{
    let context = air.context();
    let ood_rows = get_trace_evaluations(
        &round_1_result.trace_polys,
        z,
        &context.transition_offsets,
        &domain.trace_primitive_root,
    );
    let trace_ood_frame_evaluations = Frame::new(ood_rows);
    let (composition_poly_even_ood_evaluation, composition_poly_odd_ood_evaluation) = if evil {
        let evaluator = ConstraintEvaluator::new(
            air,
            &round_1_result.rap_challenges,
            public_input,
        );
        let exact = evaluator.ood_evaluation_exact_from_trace(
            air,
            &trace_ood_frame_evaluations,
            domain,
            z,
            &round_1_result.rap_challenges,
            boundary_coeffs,
            transition_coeffs,
        )?;
        proof {
            assert(crate::evaluator::composition_value_from(
                evaluator.boundary_constraints,
                fe_val(domain.trace_primitive_root),
                domain.interpolation_domain_size as int,
                fe_seq_vals(trace_ood_frame_evaluations.rows@[0]@),
                fe_val(*z),
                crate::evaluator::coeff_vals(boundary_coeffs@),
                air.ctx_spec().transition_degrees,
                air.ctx_spec().transition_exemptions,
                crate::evaluator::coeff_vals(transition_coeffs@),
                trace_ood_frame_evaluations.rows@[0]@.len() as int,
                fe_val(exact),
            ));
            assert(exact_composition_value(
                fe_val(domain.trace_primitive_root),
                domain.interpolation_domain_size as int,
                fe_seq_vals(trace_ood_frame_evaluations.rows@[0]@),
                fe_val(*z),
                crate::evaluator::coeff_vals(boundary_coeffs@),
                air.ctx_spec().transition_degrees,
                air.ctx_spec().transition_exemptions,
                crate::evaluator::coeff_vals(transition_coeffs@),
                trace_ood_frame_evaluations.rows@[0]@.len() as int,
                fe_val(exact),
            )) by {
                let bc0 = evaluator.boundary_constraints;
                assert(bc0.constraints == bc0.constraints);
            }
        }
        (exact, Fe::zero())
    } else {
        let z_squared = z.mul(z);
        (
            crate::poly::poly_eval(&round_2_result.composition_poly_even, &z_squared),
            crate::poly::poly_eval(&round_2_result.composition_poly_odd, &z_squared),
        )
    };
    Ok(Round3 {
        trace_ood_frame_evaluations,
        composition_poly_even_ood_evaluation,
        composition_poly_odd_ood_evaluation,
    })
}

/// The result of the fourth round: the FRI layer roots and final value, the
/// query decommitments, and the DEEP polynomial openings.
pub struct Round4 {
    pub fri_last_value: Fe,
    pub fri_layers_merkle_roots: Vec<[u8; 32]>,
    pub deep_poly_openings: DeepPolynomialOpenings,
    pub query_list: Vec<FriDecommitment>,
    pub fri_layer_evaluations: Ghost<Seq<Seq<int>>>,
}

/// Interpolates the pointwise quotient of `num` and `denom` on a prefix of
/// the extended domain. The prefix holds `target` points: the legitimate
/// degree bound `lde / blowup` on the honest and fully adversarial paths,
/// and the deliberately looser `lde / 2` when forging a bad trace. On the
/// honest path the result's coefficients are compared against the directly
/// computed term, and any divergence — an internal consistency failure — is
/// surfaced as an error.
fn interp_from_num_denom(
    num: &Poly,
    denom: &Poly,
    domain: &Domain,
    poly_sanity_check: &Poly,
    evil: bool,
    bad_trace: bool,
) -> (r: Result<Poly, ProvingError>)
    requires
        domain.wf(),
        num.wf(),
        denom.wf(),
        num.vals().len() <= domain.interpolation_domain_size * domain.blowup_factor,
        denom.vals().len() <= domain.interpolation_domain_size * domain.blowup_factor,
    ensures
        r.is_ok() ==> r.unwrap().wf() && r.unwrap().vals().len()
            <= domain.interpolation_domain_size * domain.blowup_factor,
        (r.is_ok() && (evil || !bad_trace)) ==> r.unwrap().vals().len()
            <= domain.interpolation_domain_size,
        (r.is_ok() && !evil && bad_trace) ==> r.unwrap().vals().len() <= (
        domain.interpolation_domain_size * domain.blowup_factor) / 2,
        // On success the result is the pointwise quotient on the prefix of
        // the extended domain it was interpolated from; nothing is claimed
        // at the remaining points — that is the deliberate forgery.
        r.is_ok() ==> forall|i: int|
            0 <= i < interp_target(
                domain.interpolation_domain_size as int,
                domain.blowup_factor as int,
                evil,
                bad_trace,
            ) ==> eval_val(
                denom.vals(),
                #[trigger] coset_point(
                    domain.lde_root_order as nat,
                    fe_val(domain.coset_offset),
                    i as nat,
                ),
            ) != 0 && (eval_val(
                r.unwrap().vals(),
                coset_point(
                    domain.lde_root_order as nat,
                    fe_val(domain.coset_offset),
                    i as nat,
                ),
            ) * eval_val(
                denom.vals(),
                coset_point(
                    domain.lde_root_order as nat,
                    fe_val(domain.coset_offset),
                    i as nat,
                ),
            )) % crate::model::stark_prime() == eval_val(
                num.vals(),
                coset_point(
                    domain.lde_root_order as nat,
                    fe_val(domain.coset_offset),
                    i as nat,
                ),
            ),
        // With the honest-path comparison skipped, the denominators are the
        // only failure source.
        evil ==> (r.is_ok() <==> forall|i: int|
            0 <= i < interp_target(
                domain.interpolation_domain_size as int,
                domain.blowup_factor as int,
                evil,
                bad_trace,
            ) ==> eval_val(
                denom.vals(),
                #[trigger] coset_point(
                    domain.lde_root_order as nat,
                    fe_val(domain.coset_offset),
                    i as nat,
                ),
            ) != 0),
        (r.is_ok() && !evil) ==> forall|k: int|
            0 <= k < r.unwrap().vals().len() && k < poly_sanity_check.vals().len()
                ==> r.unwrap().vals()[k] == poly_sanity_check.vals()[k],
        // Honest reconstruction: when the compared polynomial is exactly the
        // pointwise quotient on the whole prefix, the interpolation
        // reproduces it (up to trailing zeros), the comparison passes, and
        // the call succeeds.
        (poly_sanity_check.wf() && poly_sanity_check.vals().len() <= interp_target(
            domain.interpolation_domain_size as int,
            domain.blowup_factor as int,
            evil,
            bad_trace,
        ) && quotient_prefix_matches(
            poly_sanity_check.vals(),
            num.vals(),
            denom.vals(),
            domain.lde_root_order as nat,
            fe_val(domain.coset_offset),
            interp_target(
                domain.interpolation_domain_size as int,
                domain.blowup_factor as int,
                evil,
                bad_trace,
            ),
        )) ==> r.is_ok() && r.unwrap().vals() == crate::model::trim_zeros(
            poly_sanity_check.vals(),
        ),
{
    proof {
        crate::lemmas::lemma_pow2_mul(
            domain.interpolation_domain_size as nat,
            domain.blowup_factor as nat,
        );
        assert(domain.interpolation_domain_size * domain.blowup_factor >= 2
            && domain.blowup_factor <= domain.interpolation_domain_size * domain.blowup_factor) by (
        nonlinear_arith)
            requires
                domain.interpolation_domain_size >= 2,
                domain.blowup_factor >= 1;
    }
    let lde_len = domain.interpolation_domain_size * domain.blowup_factor;
    let ghost lde_order: nat = domain.lde_root_order as nat;
    let ghost offv: int = fe_val(domain.coset_offset);
    let ghost t_spec: int = interp_target(
        domain.interpolation_domain_size as int,
        domain.blowup_factor as int,
        evil,
        bad_trace,
    );
    let target_deg = if evil || !bad_trace {
        proof {
            vstd::arithmetic::div_mod::lemma_div_multiples_vanish(
                domain.interpolation_domain_size as int,
                domain.blowup_factor as int,
            );
            assert(domain.interpolation_domain_size * domain.blowup_factor
                == domain.blowup_factor * domain.interpolation_domain_size) by (nonlinear_arith);
        }
        lde_len / domain.blowup_factor
    } else {
        lde_len / 2
    };
    let num_evals = evaluate_polynomial_on_lde_domain(
        num,
        domain.blowup_factor,
        domain.interpolation_domain_size,
        &domain.coset_offset,
    );
    let denom_evals = evaluate_polynomial_on_lde_domain(
        denom,
        domain.blowup_factor,
        domain.interpolation_domain_size,
        &domain.coset_offset,
    );
    let ghost hyp: bool = poly_sanity_check.wf() && poly_sanity_check.vals().len() <= t_spec
        && quotient_prefix_matches(
        poly_sanity_check.vals(),
        num.vals(),
        denom.vals(),
        lde_order,
        offv,
        t_spec,
    );
    let mut quotients: Vec<Fe> = Vec::new();
    let mut xs: Vec<Fe> = Vec::new();
    let ghost mut inverses: Seq<int> = Seq::empty();
    let mut i: usize = 0;
    while i < target_deg
        invariant
            i <= target_deg,
            1 <= target_deg <= lde_len,
            target_deg == t_spec,
            t_spec == interp_target(
                domain.interpolation_domain_size as int,
                domain.blowup_factor as int,
                evil,
                bad_trace,
            ),
            hyp == (poly_sanity_check.wf() && poly_sanity_check.vals().len() <= t_spec
                && quotient_prefix_matches(
                poly_sanity_check.vals(),
                num.vals(),
                denom.vals(),
                lde_order,
                offv,
                t_spec,
            )),
            inverses.len() == i,
            forall|k: int|
                0 <= k < i ==> (fe_val(denom_evals@[k]) * #[trigger] inverses[k])
                    % crate::model::stark_prime() == 1,
            forall|k: int|
                0 <= k < i ==> fe_val(#[trigger] quotients@[k]) == (fe_val(num_evals@[k])
                    * inverses[k]) % crate::model::stark_prime(),
            num_evals@.len() == lde_len,
            denom_evals@.len() == lde_len,
            lde_len == domain.interpolation_domain_size * domain.blowup_factor,
            lde_order == domain.lde_root_order as nat,
            offv == fe_val(domain.coset_offset),
            domain.wf(),
            quotients@.len() == i,
            xs@.len() == i,
            forall|k: int|
                0 <= k < lde_len ==> fe_val(#[trigger] num_evals@[k]) == eval_val(
                    num.vals(),
                    coset_point(lde_order, offv, k as nat),
                ),
            forall|k: int|
                0 <= k < lde_len ==> fe_val(#[trigger] denom_evals@[k]) == eval_val(
                    denom.vals(),
                    coset_point(lde_order, offv, k as nat),
                ) && crate::model::in_field(fe_val(denom_evals@[k])),
            forall|k: int|
                0 <= k < i ==> fe_val(#[trigger] xs@[k]) == fe_val(
                    domain.lde_roots_of_unity_coset@[k],
                ),
            forall|k: int|
                0 <= k < i ==> eval_val(
                    denom.vals(),
                    #[trigger] coset_point(lde_order, offv, k as nat),
                ) != 0 && (fe_val(quotients@[k]) * eval_val(
                    denom.vals(),
                    coset_point(lde_order, offv, k as nat),
                )) % crate::model::stark_prime() == eval_val(
                    num.vals(),
                    coset_point(lde_order, offv, k as nat),
                ),
        decreases target_deg - i,
    {
        let denom_inv = match denom_evals[i].inv() {
            Some(inverse) => inverse,
            None => {
                proof {
                    assert(eval_val(denom.vals(), coset_point(lde_order, offv, i as nat)) == 0);
                    assert(exists|w: int|
                        0 <= w < t_spec && eval_val(
                            denom.vals(),
                            #[trigger] coset_point(lde_order, offv, w as nat),
                        ) == 0) by {
                        assert(0 <= (i as int) && (i as int) < t_spec);
                        assert(eval_val(
                            denom.vals(),
                            coset_point(lde_order, offv, (i as int) as nat),
                        ) == 0);
                    }
                }
                return Err(ProvingError::WrongParameter(
                    "denominator vanishes on the evaluation domain".to_string(),
                ));
            },
        };
        let quotient = num_evals[i].mul(&denom_inv);
        proof {
            let p = crate::model::stark_prime();
            let n = fe_val(num_evals@[i as int]);
            let d = fe_val(denom_evals@[i as int]);
            let v = fe_val(denom_inv);
            vstd::arithmetic::div_mod::lemma_mul_mod_noop_left(n * v, d, p);
            vstd::arithmetic::mul::lemma_mul_is_associative(n, v, d);
            vstd::arithmetic::mul::lemma_mul_is_commutative(v, d);
            vstd::arithmetic::div_mod::lemma_mul_mod_noop_right(n, v * d, p);
            vstd::arithmetic::mul::lemma_mul_basics(n);
            vstd::arithmetic::div_mod::lemma_small_mod(n as nat, p as nat);
            assert((fe_val(quotient) * d) % p == n);
        }
        quotients.push(quotient);
        xs.push(domain.lde_roots_of_unity_coset[i].dup());
        proof {
            inverses = inverses.push(fe_val(denom_inv));
        }
        i += 1;
    }
    let result = match crate::backend::poly_interpolate(&xs, &quotients) {
        Some(poly) => poly,
        None => {
            proof {
                // The prefix points are pairwise distinct coset points.
                assert(false);
            }
            return Err(ProvingError::WrongParameter(
                "interpolation points are not distinct".to_string(),
            ));
        },
    };
    proof {
        assert forall|k: int|
            0 <= k < t_spec implies eval_val(
            denom.vals(),
            #[trigger] coset_point(lde_order, offv, k as nat),
        ) != 0 && (eval_val(result.vals(), coset_point(lde_order, offv, k as nat)) * eval_val(
            denom.vals(),
            coset_point(lde_order, offv, k as nat),
        )) % crate::model::stark_prime() == eval_val(
            num.vals(),
            coset_point(lde_order, offv, k as nat),
        ) by {
            assert(eval_val(result.vals(), fe_val(xs@[k])) == fe_val(quotients@[k]));
            assert(fe_val(xs@[k]) == coset_point(lde_order, offv, k as nat));
        }
        if hyp {
            let p = crate::model::stark_prime();
            let sv = poly_sanity_check.vals();
            assert forall|w: int|
                0 <= w < xs@.len() implies eval_val(sv, fe_val(xs@[w])) == fe_val(
                quotients@[w],
            ) by {
                let cp = coset_point(lde_order, offv, w as nat);
                let sval = eval_val(sv, cp);
                let d = fe_val(denom_evals@[w]);
                let v = inverses[w];
                let n = fe_val(num_evals@[w]);
                assert(fe_val(xs@[w]) == cp);
                assert(eval_val(denom.vals(), cp) == d);
                assert(eval_val(num.vals(), cp) == n);
                assert((sval * d) % p == n);
                assert((d * v) % p == 1);
                crate::lemmas::lemma_eval_val_in_field(sv, cp);
                vstd::arithmetic::div_mod::lemma_mul_mod_noop_right(sval, d * v, p);
                vstd::arithmetic::mul::lemma_mul_is_associative(sval, d, v);
                vstd::arithmetic::div_mod::lemma_mul_mod_noop_left(sval * d, v, p);
                vstd::arithmetic::mul::lemma_mul_basics(sval);
                vstd::arithmetic::div_mod::lemma_small_mod(sval as nat, p as nat);
                assert(sval == (n * v) % p);
                assert(fe_val(quotients@[w]) == (n * v) % p);
            }
            assert(result.vals() == crate::model::trim_zeros(sv));
        }
    }
    if !evil {
        // The interpolated reconstruction must agree with the directly
        // computed term on the honest path; divergence is an internal
        // consistency failure surfaced to the caller.
        let shorter = if result.coefficients.len() <= poly_sanity_check.coefficients.len() {
            result.coefficients.len()
        } else {
            poly_sanity_check.coefficients.len()
        };
        let mut k: usize = 0;
        while k < shorter
            invariant
                !evil,
                k <= shorter,
                shorter <= result.vals().len(),
                shorter <= poly_sanity_check.vals().len(),
                shorter == if result.vals().len() <= poly_sanity_check.vals().len() {
                    result.vals().len()
                } else {
                    poly_sanity_check.vals().len()
                },
                hyp == (poly_sanity_check.wf() && poly_sanity_check.vals().len() <= interp_target(
                    domain.interpolation_domain_size as int,
                    domain.blowup_factor as int,
                    evil,
                    bad_trace,
                ) && quotient_prefix_matches(
                    poly_sanity_check.vals(),
                    num.vals(),
                    denom.vals(),
                    domain.lde_root_order as nat,
                    fe_val(domain.coset_offset),
                    interp_target(
                        domain.interpolation_domain_size as int,
                        domain.blowup_factor as int,
                        evil,
                        bad_trace,
                    ),
                )),
                hyp ==> result.vals() == crate::model::trim_zeros(poly_sanity_check.vals()),
                forall|w: int|
                    0 <= w < k ==> result.vals()[w] == poly_sanity_check.vals()[w],
            decreases shorter - k,
        {
            if !result.coefficients[k].equals(&poly_sanity_check.coefficients[k]) {
                proof {
                    if hyp {
                        crate::lemmas::lemma_trim_prefix(poly_sanity_check.vals());
                        assert(result.vals()[k as int] == crate::model::trim_zeros(
                            poly_sanity_check.vals(),
                        )[k as int]);
                        assert(false);
                    }
                }
                return Err(ProvingError::WrongParameter(
                    "interpolated term diverges from the algebraic term".to_string(),
                ));
            }
            k += 1;
        }
    }
    Ok(result)
}

/// `cand` agrees with the pointwise quotient of `num` by `denom` on the
/// first `target` coset points: at each such point the denominator is
/// nonzero and `cand * denom` matches `num` modulo the prime.
pub open spec fn quotient_prefix_matches(
    cand: Seq<int>,
    num: Seq<int>,
    denom: Seq<int>,
    order: nat,
    off: int,
    target: int,
) -> bool {
    forall|i: int|
        0 <= i < target ==> eval_val(denom, #[trigger] coset_point(order, off, i as nat)) != 0
            && (eval_val(cand, coset_point(order, off, i as nat)) * eval_val(
            denom,
            coset_point(order, off, i as nat),
        )) % crate::model::stark_prime() == eval_val(num, coset_point(order, off, i as nat))
}

/// The forged DEEP polynomial's identity: the sum of two truncated
/// reconstructions of the composition-half terms — each agreeing with its
/// term's pointwise quotient on the kept prefix, within the kept degree
/// bound — plus the exactly divided trace terms.
pub open spec fn forged_deep_shape(
    result: Seq<int>,
    h1: Seq<int>,
    h1_claimed: int,
    h2: Seq<int>,
    h2_claimed: int,
    z: int,
    gamma_even: int,
    gamma_odd: int,
    trace_part: Seq<int>,
    order: nat,
    off: int,
    target: int,
) -> bool {
    exists|h1i: Seq<int>, h2i: Seq<int>|
        #![trigger crate::model::add_vals(crate::model::add_vals(h1i, h2i), trace_part)]
        h1i.len() <= target && h2i.len() <= target && quotient_prefix_matches(
            h1i,
            crate::model::scale_vals(gamma_even, crate::model::sub_vals(h1, seq![h1_claimed])),
            seq![(0 - ((z * z) % crate::model::stark_prime())) % crate::model::stark_prime(), 1],
            order,
            off,
            target,
        ) && quotient_prefix_matches(
            h2i,
            crate::model::scale_vals(gamma_odd, crate::model::sub_vals(h2, seq![h2_claimed])),
            seq![(0 - ((z * z) % crate::model::stark_prime())) % crate::model::stark_prime(), 1],
            order,
            off,
            target,
        ) && result == crate::model::add_vals(crate::model::add_vals(h1i, h2i), trace_part)
}

/// The number of prefix points the diagnostic interpolation keeps: the
/// legitimate bound `lde / blowup` unless forging with a bad trace, which
/// takes the deliberately looser `lde / 2`.
pub open spec fn interp_target(size: int, blowup: int, evil: bool, bad_trace: bool) -> int {
    if evil || !bad_trace {
        size
    } else {
        (size * blowup) / 2
    }
}

/// Builds the DEEP composition polynomial: the random linear combination of
/// the quotient terms of `H1`, `H2` and every trace polynomial at the
/// out-of-domain points. Each term is an exact division by a linear factor
/// on the honest path; every term is also rebuilt through the pointwise
/// interpolation path for the diagnostic comparison, and when `evil` or
/// `bad_trace` is set the committed polynomial takes the rebuilt
/// composition-half terms — the truncated-interpolation forgery — in place
/// of the exactly divided ones, keeping the exactly divided trace terms.
fn compute_deep_composition_poly<A: Air>(
    air: &A,
    domain: &Domain,
    trace_polys: &Vec<Poly>,
    round_2_result: &Round2,
    round_3_result: &Round3,
    z: &Fe,
    primitive_root: &Fe,
    gamma_even: &Fe,
    gamma_odd: &Fe,
    trace_terms_gammas: &Vec<Fe>,
    evil: bool,
    bad_trace: bool,
) -> (r: Result<Poly, ProvingError>)
    requires
        domain.wf(),
        round_2_result.wf(*domain),
        crate::model::in_field(fe_val(round_3_result.composition_poly_even_ood_evaluation)),
        crate::model::in_field(fe_val(round_3_result.composition_poly_odd_ood_evaluation)),
        forall|j: int|
            0 <= j < trace_polys@.len() ==> (#[trigger] trace_polys@[j]).wf()
                && trace_polys@[j].vals().len() <= domain.interpolation_domain_size,
    ensures
        r.is_ok() ==> r.unwrap().wf() && r.unwrap().vals().len()
            <= domain.interpolation_domain_size * domain.blowup_factor,
        // The committed forgery: interpolated composition-half terms plus
        // the exactly divided trace terms.
        (r.is_ok() && (evil || bad_trace)) ==> forged_deep_shape(
            r.unwrap().vals(),
            round_2_result.composition_poly_even.vals(),
            fe_val(round_3_result.composition_poly_even_ood_evaluation),
            round_2_result.composition_poly_odd.vals(),
            fe_val(round_3_result.composition_poly_odd_ood_evaluation),
            fe_val(*z),
            fe_val(*gamma_even),
            fe_val(*gamma_odd),
            crate::model::deep_trace_terms(
                trace_polys@.map_values(|p: Poly| p.vals()),
                fe_val(*z),
                fe_val(*primitive_root),
                air.ctx_spec().transition_offsets.map_values(|o: int| o as nat),
                fe_seq_vals(trace_terms_gammas@),
                (trace_polys@.len() * air.ctx_spec().transition_offsets.len()) as nat,
            ),
            domain.lde_root_order as nat,
            fe_val(domain.coset_offset),
            interp_target(
                domain.interpolation_domain_size as int,
                domain.blowup_factor as int,
                evil,
                bad_trace,
            ),
        ),
        (r.is_ok() && !evil && !bad_trace) ==> r.unwrap().vals() == crate::model::add_vals(
            crate::model::add_vals(
                crate::model::comp_quotient_term(
                    round_2_result.composition_poly_even.vals(),
                    fe_val(round_3_result.composition_poly_even_ood_evaluation),
                    (fe_val(*z) * fe_val(*z)) % crate::model::stark_prime(),
                    fe_val(*gamma_even),
                ),
                crate::model::comp_quotient_term(
                    round_2_result.composition_poly_odd.vals(),
                    fe_val(round_3_result.composition_poly_odd_ood_evaluation),
                    (fe_val(*z) * fe_val(*z)) % crate::model::stark_prime(),
                    fe_val(*gamma_odd),
                ),
            ),
            crate::model::deep_trace_terms(
                trace_polys@.map_values(|p: Poly| p.vals()),
                fe_val(*z),
                fe_val(*primitive_root),
                air.ctx_spec().transition_offsets.map_values(|o: int| o as nat),
                fe_seq_vals(trace_terms_gammas@),
                (trace_polys@.len() * air.ctx_spec().transition_offsets.len()) as nat,
            ),
        ),
{
    proof {
        assert(domain.interpolation_domain_size <= domain.interpolation_domain_size
            * domain.blowup_factor) by (nonlinear_arith)
            requires
                domain.blowup_factor >= 1,
                domain.interpolation_domain_size >= 0;
    }
    let ghost lde_size: nat = (domain.interpolation_domain_size * domain.blowup_factor) as nat;
    let context = air.context();
    let ghost polys_v: Seq<Seq<int>> = trace_polys@.map_values(|p: Poly| p.vals());
    let ghost offsets_v: Seq<nat> = context.transition_offsets@.map_values(|o: usize| o as nat);
    let ghost gammas_v: Seq<int> = fe_seq_vals(trace_terms_gammas@);
    proof {
        assert(offsets_v =~= air.ctx_spec().transition_offsets.map_values(|o: int| o as nat));
    }
    let z_squared = z.mul(z);
    let h_1 = &round_2_result.composition_poly_even;
    let h_1_z2 = &round_3_result.composition_poly_even_ood_evaluation;
    let h_2 = &round_2_result.composition_poly_odd;
    let h_2_z2 = &round_3_result.composition_poly_odd_ood_evaluation;
    // gamma * (H1 - H1(z^2)) / (X - z^2)
    let h_1_num = h_1.sub(&Poly::constant(h_1_z2)).scale(gamma_even);
    let h_1_denom = Poly::linear_sub(&z_squared);
    let h_1_term = crate::backend::poly_ruffini(&h_1_num, &z_squared);
    proof {
        crate::lemmas::lemma_trim_len(crate::model::ruffini_quotient(
            h_1_num.vals(),
            fe_val(z_squared),
        ));
        assert(h_1_num.vals() =~= crate::model::scale_vals(
            fe_val(*gamma_even),
            crate::model::sub_vals(h_1.vals(), seq![fe_val(*h_1_z2)]),
        ));
        assert(h_1_term.vals() == crate::model::comp_quotient_term(
            h_1.vals(),
            fe_val(*h_1_z2),
            fe_val(z_squared),
            fe_val(*gamma_even),
        ));
    }
    let h_1_from_interp = interp_from_num_denom(
        &h_1_num,
        &h_1_denom,
        domain,
        &h_1_term,
        evil,
        bad_trace,
    )?;
    // gamma' * (H2 - H2(z^2)) / (X - z^2)
    let h_2_num = h_2.sub(&Poly::constant(h_2_z2)).scale(gamma_odd);
    let h_2_denom = Poly::linear_sub(&z_squared);
    let h_2_term = crate::backend::poly_ruffini(&h_2_num, &z_squared);
    proof {
        crate::lemmas::lemma_trim_len(crate::model::ruffini_quotient(
            h_2_num.vals(),
            fe_val(z_squared),
        ));
        assert(h_2_num.vals() =~= crate::model::scale_vals(
            fe_val(*gamma_odd),
            crate::model::sub_vals(h_2.vals(), seq![fe_val(*h_2_z2)]),
        ));
        assert(h_2_term.vals() == crate::model::comp_quotient_term(
            h_2.vals(),
            fe_val(*h_2_z2),
            fe_val(z_squared),
            fe_val(*gamma_odd),
        ));
    }
    let h_2_from_interp = interp_from_num_denom(
        &h_2_num,
        &h_2_denom,
        domain,
        &h_2_term,
        evil,
        bad_trace,
    )?;
    // Sum over trace polynomials and frame offsets:
    //   gamma_{j,k} * (t_j - t_j(z g^k)) / (X - z g^k)
    let offsets = &context.transition_offsets;
    let trace_frame_evaluations = get_trace_evaluations(trace_polys, z, offsets, primitive_root);
    let mut trace_terms = Poly::zero();
    let mut i: usize = 0;
    while i < trace_polys.len()
        invariant
            domain.wf(),
            forall|j: int|
                0 <= j < trace_polys@.len() ==> (#[trigger] trace_polys@[j]).wf()
                    && trace_polys@[j].vals().len() <= domain.interpolation_domain_size,
            domain.interpolation_domain_size <= lde_size,
            lde_size == domain.interpolation_domain_size * domain.blowup_factor,
            trace_frame_evaluations@.len() == offsets@.len(),
            forall|w: int|
                0 <= w < offsets@.len() ==> (#[trigger] trace_frame_evaluations@[w])@.len()
                    == trace_polys@.len(),
            forall|w: int, u: int|
                0 <= w < trace_frame_evaluations@.len() && 0 <= u
                    < trace_frame_evaluations@[w]@.len() ==> crate::model::in_field(
                    fe_val(#[trigger] trace_frame_evaluations@[w]@[u]),
                ),
            forall|w: int, u: int|
                0 <= w < trace_frame_evaluations@.len() && 0 <= u
                    < trace_frame_evaluations@[w]@.len() ==> fe_val(
                    #[trigger] trace_frame_evaluations@[w]@[u],
                ) == eval_val(
                    trace_polys@[u].vals(),
                    crate::model::shift_point(
                        fe_val(*z),
                        fe_val(*primitive_root),
                        context.transition_offsets@[w] as nat,
                    ),
                ),
            i <= trace_polys@.len(),
            trace_terms.wf(),
            trace_terms.vals().len() <= lde_size,
            polys_v == trace_polys@.map_values(|p: Poly| p.vals()),
            offsets@ == context.transition_offsets@,
            offsets_v == context.transition_offsets@.map_values(|o: usize| o as nat),
            offsets_v.len() == offsets@.len(),
            gammas_v == fe_seq_vals(trace_terms_gammas@),
            trace_terms.vals() == crate::model::deep_trace_terms(
                polys_v,
                fe_val(*z),
                fe_val(*primitive_root),
                offsets_v,
                gammas_v,
                (i * offsets@.len()) as nat,
            ),
        decreases trace_polys@.len() - i,
    {
        let t_j = &trace_polys[i];
        let mut j: usize = 0;
        while j < offsets.len()
            invariant
                domain.wf(),
                forall|w: int|
                    0 <= w < trace_polys@.len() ==> (#[trigger] trace_polys@[w]).wf()
                        && trace_polys@[w].vals().len() <= domain.interpolation_domain_size,
                domain.interpolation_domain_size <= lde_size,
                lde_size == domain.interpolation_domain_size * domain.blowup_factor,
                trace_frame_evaluations@.len() == offsets@.len(),
                forall|w: int|
                    0 <= w < offsets@.len() ==> (#[trigger] trace_frame_evaluations@[w])@.len()
                        == trace_polys@.len(),
                forall|w: int, u: int|
                    0 <= w < trace_frame_evaluations@.len() && 0 <= u
                        < trace_frame_evaluations@[w]@.len() ==> crate::model::in_field(
                        fe_val(#[trigger] trace_frame_evaluations@[w]@[u]),
                    ),
                forall|w: int, u: int|
                    0 <= w < trace_frame_evaluations@.len() && 0 <= u
                        < trace_frame_evaluations@[w]@.len() ==> fe_val(
                        #[trigger] trace_frame_evaluations@[w]@[u],
                    ) == eval_val(
                        trace_polys@[u].vals(),
                        crate::model::shift_point(
                            fe_val(*z),
                            fe_val(*primitive_root),
                            context.transition_offsets@[w] as nat,
                        ),
                    ),
                i < trace_polys@.len(),
                j <= offsets@.len(),
                trace_terms.wf(),
                trace_terms.vals().len() <= lde_size,
                polys_v == trace_polys@.map_values(|p: Poly| p.vals()),
                offsets@ == context.transition_offsets@,
                offsets_v == context.transition_offsets@.map_values(|o: usize| o as nat),
                offsets_v.len() == offsets@.len(),
                gammas_v == fe_seq_vals(trace_terms_gammas@),
                trace_terms.vals() == crate::model::deep_trace_terms(
                    polys_v,
                    fe_val(*z),
                    fe_val(*primitive_root),
                    offsets_v,
                    gammas_v,
                    (i * offsets@.len() + j) as nat,
                ),
            decreases offsets@.len() - j,
        {
            let t_j_z = &trace_frame_evaluations[j][i];
            let z_shifted = z.mul(&primitive_root.pow_u64(offsets[j] as u64));
            let poly_num = trace_polys[i].sub(&Poly::constant(t_j_z));
            let quotient = crate::backend::poly_ruffini(&poly_num, &z_shifted);
            proof {
                crate::lemmas::lemma_trim_len(crate::model::ruffini_quotient(
                    poly_num.vals(),
                    fe_val(z_shifted),
                ));
            }
            let poly_denom = Poly::linear_sub(&z_shifted);
            let gamma_index = match i.checked_mul(offsets.len()) {
                Some(base) => {
                    if base <= usize::MAX - j {
                        base + j
                    } else {
                        return Err(ProvingError::WrongParameter(
                            "too few trace-term coefficients".to_string(),
                        ));
                    }
                },
                None => {
                    return Err(ProvingError::WrongParameter(
                        "too few trace-term coefficients".to_string(),
                    ));
                },
            };
            if gamma_index >= trace_terms_gammas.len() {
                return Err(ProvingError::WrongParameter(
                    "too few trace-term coefficients".to_string(),
                ));
            }
            let gamma = &trace_terms_gammas[gamma_index];
            let _poly_from_interp = interp_from_num_denom(
                &poly_num,
                &poly_denom,
                domain,
                &quotient,
                evil,
                bad_trace,
            )?;
            let scaled_term = quotient.scale(gamma);
            let ghost n_terms_before: int = i * offsets@.len() + j;
            proof {
                let zv = fe_val(*z);
                let rootv = fe_val(*primitive_root);
                assert(offsets@ == context.transition_offsets@);
                assert(offsets_v[j as int] == context.transition_offsets@[j as int] as nat);
                assert(offsets_v[j as int] == offsets@[j as int] as nat);
                assert(polys_v[i as int] == trace_polys@[i as int].vals());
                let pole = crate::model::shift_point(zv, rootv, offsets_v[j as int]);
                assert(fe_val(z_shifted) == (zv * (vstd::arithmetic::power::pow(
                    rootv,
                    offsets@[j as int] as nat,
                ) % crate::model::stark_prime())) % crate::model::stark_prime());
                assert(fe_val(z_shifted) == pole);
                assert(fe_val(*t_j_z) == fe_val(
                    trace_frame_evaluations@[j as int]@[i as int],
                ));
                assert(fe_val(*t_j_z) == eval_val(polys_v[i as int], pole));
                assert(poly_num.vals() =~= crate::model::sub_vals(
                    polys_v[i as int],
                    seq![fe_val(*t_j_z)],
                ));
                assert(scaled_term.vals() =~= crate::model::trace_quotient_term(
                    polys_v[i as int],
                    eval_val(polys_v[i as int], pole),
                    pole,
                    gammas_v[n_terms_before],
                ));
                assert(n_terms_before == offsets@.len() * i + j) by (nonlinear_arith)
                    requires
                        n_terms_before == i * offsets@.len() + j;
                vstd::arithmetic::div_mod::lemma_fundamental_div_mod_converse(
                    n_terms_before,
                    offsets@.len() as int,
                    i as int,
                    j as int,
                );
            }
            let next_terms = trace_terms.add(&scaled_term);
            proof {
                assert(next_terms.vals() =~= crate::model::add_vals(
                    trace_terms.vals(),
                    scaled_term.vals(),
                ));
                assert(next_terms.vals() == crate::model::deep_trace_terms(
                    polys_v,
                    fe_val(*z),
                    fe_val(*primitive_root),
                    offsets_v,
                    gammas_v,
                    (n_terms_before + 1) as nat,
                ));
            }
            trace_terms = next_terms;
            j += 1;
        }
        proof {
            assert((i + 1) * offsets@.len() == i * offsets@.len() + offsets@.len()) by (
            nonlinear_arith);
        }
        i += 1;
    }
    let h_terms = h_1_term.add(&h_2_term);
    proof {
        assert(h_terms.vals() =~= crate::model::add_vals(h_1_term.vals(), h_2_term.vals()));
    }
    let deep = h_terms.add(&trace_terms);
    proof {
        assert(deep.vals() =~= crate::model::add_vals(h_terms.vals(), trace_terms.vals()));
    }
    let h_interp_terms = h_1_from_interp.add(&h_2_from_interp);
    proof {
        assert(h_interp_terms.vals() =~= crate::model::add_vals(
            h_1_from_interp.vals(),
            h_2_from_interp.vals(),
        ));
    }
    let deep_from_interp = h_interp_terms.add(&trace_terms);
    proof {
        assert(deep_from_interp.vals() =~= crate::model::add_vals(
            h_interp_terms.vals(),
            trace_terms.vals(),
        ));
        let ghost target: int = interp_target(
            domain.interpolation_domain_size as int,
            domain.blowup_factor as int,
            evil,
            bad_trace,
        );
        let ghost denom_v: Seq<int> = seq![
            (0 - ((fe_val(*z) * fe_val(*z)) % crate::model::stark_prime()))
                % crate::model::stark_prime(),
            1,
        ];
        assert(fe_val(z_squared) == (fe_val(*z) * fe_val(*z)) % crate::model::stark_prime());
        assert(h_1_denom.vals() =~= denom_v);
        assert(h_2_denom.vals() =~= denom_v);
        assert(quotient_prefix_matches(
            h_1_from_interp.vals(),
            crate::model::scale_vals(
                fe_val(*gamma_even),
                crate::model::sub_vals(h_1.vals(), seq![fe_val(*h_1_z2)]),
            ),
            denom_v,
            domain.lde_root_order as nat,
            fe_val(domain.coset_offset),
            target,
        ));
        assert(quotient_prefix_matches(
            h_2_from_interp.vals(),
            crate::model::scale_vals(
                fe_val(*gamma_odd),
                crate::model::sub_vals(h_2.vals(), seq![fe_val(*h_2_z2)]),
            ),
            denom_v,
            domain.lde_root_order as nat,
            fe_val(domain.coset_offset),
            target,
        ));
        assert(forged_deep_shape(
            deep_from_interp.vals(),
            round_2_result.composition_poly_even.vals(),
            fe_val(round_3_result.composition_poly_even_ood_evaluation),
            round_2_result.composition_poly_odd.vals(),
            fe_val(round_3_result.composition_poly_odd_ood_evaluation),
            fe_val(*z),
            fe_val(*gamma_even),
            fe_val(*gamma_odd),
            trace_terms.vals(),
            domain.lde_root_order as nat,
            fe_val(domain.coset_offset),
            target,
        ));
    }
    if evil || bad_trace {
        Ok(deep_from_interp)
    } else {
        Ok(deep)
    }
}

/// Opens the DEEP polynomial's constituents — both composition-polynomial
/// halves and every trace column — at one index of the extended domain,
/// with a Merkle proof and the committed evaluation for each.
/// The openings record holds exactly the committed data at `idx`: the stored
/// evaluations of both composition halves and of every trace column, each
/// with the authentication path of its own tree at that position.
pub open spec fn openings_at<A: Air>(
    o: DeepPolynomialOpenings,
    round_1_result: Round1<A>,
    round_2_result: Round2,
    idx: int,
) -> bool {
    &&& fe_val(o.lde_composition_poly_even_evaluation) == fe_seq_vals(
        round_2_result.lde_composition_poly_even_evaluations@,
    )[idx]
    &&& o.lde_composition_poly_even_proof@.map_values(|n: [u8; 32]| n@) == merkle_path_of(
        tree_vals(round_2_result.composition_poly_even_merkle_tree),
        idx as nat,
    )
    &&& fe_val(o.lde_composition_poly_odd_evaluation) == fe_seq_vals(
        round_2_result.lde_composition_poly_odd_evaluations@,
    )[idx]
    &&& o.lde_composition_poly_odd_proof@.map_values(|n: [u8; 32]| n@) == merkle_path_of(
        tree_vals(round_2_result.composition_poly_odd_merkle_tree),
        idx as nat,
    )
    &&& o.lde_trace_merkle_proofs@.len() == round_1_result.trace_polys@.len()
    &&& forall|j: int|
        0 <= j < o.lde_trace_merkle_proofs@.len() ==> (
        #[trigger] o.lde_trace_merkle_proofs@[j])@.map_values(|n: [u8; 32]| n@) == merkle_path_of(
            tree_vals(round_1_result.lde_trace_merkle_trees@[j]),
            idx as nat,
        )
    &&& fe_seq_vals(o.lde_trace_evaluations@) == round_1_result.lde_trace.row_vals(idx)
}

/// `out` is an exact composition evaluation at `xv` over SOME boundary
/// constraints (the AIR's own, which the library cannot pin further) for
/// the given row of trace values.
pub open spec fn exact_composition_value(
    rootv: int,
    length: int,
    row: Seq<int>,
    xv: int,
    bcoeffs: Seq<(int, int)>,
    degrees: Seq<int>,
    exemptions: Seq<int>,
    tcoeffs: Seq<(int, int)>,
    n_cols: int,
    out: int,
) -> bool {
    exists|bc: crate::air::BoundaryConstraints|
        #![trigger bc.constraints]
        crate::evaluator::composition_value_from(
            bc,
            rootv,
            length,
            row,
            xv,
            bcoeffs,
            degrees,
            exemptions,
            tcoeffs,
            n_cols,
            out,
        )
}

/// Every recorded constraint evaluation is an exact composition value at
/// its own coset point, over the given boundary constraints.
pub open spec fn evaluations_decomposed_over(
    bc: crate::air::BoundaryConstraints,
    domain: Domain,
    lde_trace: TraceTable,
    bcoeffs: Seq<(int, int)>,
    degrees: Seq<int>,
    exemptions: Seq<int>,
    tcoeffs: Seq<(int, int)>,
    evals: Seq<int>,
) -> bool {
    forall|i: int|
        0 <= i < evals.len() ==> #[trigger] crate::evaluator::composition_value_from(
            bc,
            fe_val(domain.trace_primitive_root),
            domain.interpolation_domain_size as int,
            lde_trace.row_vals(i),
            coset_point(domain.lde_root_order as nat, fe_val(domain.coset_offset), i as nat),
            bcoeffs,
            degrees,
            exemptions,
            tcoeffs,
            lde_trace.cols@.len() as int,
            evals[i],
        )
}

/// As `evaluations_decomposed_over`, for some boundary constraints — the
/// AIR's own, which the library cannot pin further.
pub open spec fn evaluations_decomposed(
    domain: Domain,
    lde_trace: TraceTable,
    bcoeffs: Seq<(int, int)>,
    degrees: Seq<int>,
    exemptions: Seq<int>,
    tcoeffs: Seq<(int, int)>,
    evals: Seq<int>,
) -> bool {
    exists|bc: crate::air::BoundaryConstraints|
        #[trigger] evaluations_decomposed_over(
            bc,
            domain,
            lde_trace,
            bcoeffs,
            degrees,
            exemptions,
            tcoeffs,
            evals,
        )
}

/// The byte views of stored Merkle roots.
pub open spec fn root_views(roots: Seq<[u8; 32]>) -> Seq<Seq<u8>> {
    roots.map_values(|n: [u8; 32]| n@)
}

/// The absorbed history at the end of the FRI commit phase, as a function of
/// the history entering the round: the DEEP coefficients are drawn first —
/// two for the composition halves, then one per trace term — the layers
/// interleave committed roots with folding draws, and the final value closes
/// the phase.
pub open spec fn fri_output_log(
    entry_log: Seq<Seq<u8>>,
    n_trace_terms: nat,
    roots: Seq<Seq<u8>>,
    folds: nat,
    last_value: int,
) -> Seq<Seq<u8>> {
    crate::fri::fri_challenge_log(
        crate::backend::log_after_samples(entry_log, (2 + n_trace_terms) as nat),
        roots,
        (folds + 1) as nat,
    ).push(crate::backend::fe_bytes_be(last_value))
}

fn open_deep_composition_poly<A: Air>(
    domain: &Domain,
    round_1_result: &Round1<A>,
    round_2_result: &Round2,
    index_to_open: usize,
) -> (r: Result<DeepPolynomialOpenings, ProvingError>)
    requires
        domain.wf(),
        round_1_result.wf(*domain),
        round_2_result.wf(*domain),
    ensures
        r.is_ok(),
        r.is_ok() ==> r.unwrap().lde_trace_merkle_proofs@.len()
            == round_1_result.trace_polys@.len() && r.unwrap().lde_trace_evaluations@.len()
            == round_1_result.trace_polys@.len(),
        r.is_ok() ==> openings_at(
            r.unwrap(),
            *round_1_result,
            *round_2_result,
            index_to_open as int % (domain.interpolation_domain_size
                * domain.blowup_factor) as int,
        ),
{
    proof {
        crate::lemmas::lemma_pow2_mul(
            domain.interpolation_domain_size as nat,
            domain.blowup_factor as nat,
        );
        assert(domain.interpolation_domain_size * domain.blowup_factor >= 2) by (nonlinear_arith)
            requires
                domain.interpolation_domain_size >= 2,
                domain.blowup_factor >= 1;
    }
    let lde_len = domain.interpolation_domain_size * domain.blowup_factor;
    let index = index_to_open % lde_len;
    let lde_composition_poly_even_proof = match round_2_result
        .composition_poly_even_merkle_tree
        .path(index) {
        Some(path) => path,
        None => {
            proof {
                assert(false);
            }
            return Err(ProvingError::WrongParameter("opening out of range".to_string()));
        },
    };
    let lde_composition_poly_even_evaluation =
        round_2_result.lde_composition_poly_even_evaluations[index].dup();
    let lde_composition_poly_odd_proof = match round_2_result
        .composition_poly_odd_merkle_tree
        .path(index) {
        Some(path) => path,
        None => {
            proof {
                assert(false);
            }
            return Err(ProvingError::WrongParameter("opening out of range".to_string()));
        },
    };
    let lde_composition_poly_odd_evaluation =
        round_2_result.lde_composition_poly_odd_evaluations[index].dup();
    let mut lde_trace_merkle_proofs: Vec<Vec<[u8; 32]>> = Vec::new();
    let mut j: usize = 0;
    while j < round_1_result.lde_trace_merkle_trees.len()
        invariant
            round_1_result.wf(*domain),
            index < domain.interpolation_domain_size * domain.blowup_factor,
            j <= round_1_result.lde_trace_merkle_trees@.len(),
            lde_trace_merkle_proofs@.len() == j,
            forall|w: int|
                0 <= w < j ==> (#[trigger] lde_trace_merkle_proofs@[w])@.map_values(
                    |n: [u8; 32]| n@,
                ) == merkle_path_of(
                    tree_vals(round_1_result.lde_trace_merkle_trees@[w]),
                    index as nat,
                ),
        decreases round_1_result.lde_trace_merkle_trees@.len() - j,
    {
        let path = match round_1_result.lde_trace_merkle_trees[j].path(index) {
            Some(path) => path,
            None => {
                proof {
                    assert(false);
                }
                return Err(ProvingError::WrongParameter("opening out of range".to_string()));
            },
        };
        lde_trace_merkle_proofs.push(path);
        j += 1;
    }
    let lde_trace_evaluations = round_1_result.lde_trace.get_row(index);
    proof {
        assert(fe_seq_vals(lde_trace_evaluations@).len() == lde_trace_evaluations@.len());
        assert(round_1_result.lde_trace.row_vals(index as int).len()
            == round_1_result.lde_trace.cols@.len());
    }
    Ok(DeepPolynomialOpenings {
        lde_composition_poly_even_proof,
        lde_composition_poly_even_evaluation,
        lde_composition_poly_odd_proof,
        lde_composition_poly_odd_evaluation,
        lde_trace_merkle_proofs,
        lde_trace_evaluations,
    })
}

/// Round 4: samples the DEEP combination coefficients, builds the DEEP
/// composition polynomial, runs the FRI commit and query phases on it, and
/// opens the DEEP polynomial's constituents at the first query index.
#[verifier::rlimit(60)]
fn round_4_compute_and_run_fri_on_the_deep_composition_polynomial<A: Air>(
    air: &A,
    domain: &Domain,
    round_1_result: &Round1<A>,
    round_2_result: &Round2,
    round_3_result: &Round3,
    z: &Fe,
    transcript: &mut StarkTranscript,
    evil: bool,
    bad_trace: bool,
) -> (r: Result<Round4, ProvingError>)
    requires
        domain.wf(),
        domain.blowup_factor >= 2,
        round_1_result.wf(*domain),
        round_2_result.wf(*domain),
        crate::model::in_field(fe_val(round_3_result.composition_poly_even_ood_evaluation)),
        crate::model::in_field(fe_val(round_3_result.composition_poly_odd_ood_evaluation)),
    ensures
        r.is_ok() ==> r.unwrap().query_list@.len() == air.ctx_spec().fri_number_of_queries
            && r.unwrap().fri_layers_merkle_roots@.len() == domain.root_order + 1,
        // Each stored root is the Merkle root of the matching FRI layer's
        // evaluation vector, recorded alongside as a ghost value.
        r.is_ok() ==> r.unwrap().fri_layer_evaluations@.len()
            == r.unwrap().fri_layers_merkle_roots@.len() && (forall|k: int|
            0 <= k < r.unwrap().fri_layers_merkle_roots@.len() ==> (
            #[trigger] r.unwrap().fri_layers_merkle_roots@[k])@ == merkle_root_of(
                r.unwrap().fri_layer_evaluations@[k],
            ) && r.unwrap().fri_layer_evaluations@[k].len() == (
            domain.interpolation_domain_size * domain.blowup_factor) as nat / vstd::arithmetic::power2::pow2(
                k as nat,
            )),
        // The whole round's transcript effect, and the DEEP openings pinned
        // at the first query's index.
        r.is_ok() ==> crate::backend::transcript_log(*final(transcript))
            == crate::backend::log_after_samples(
            fri_output_log(
                crate::backend::transcript_log(*old(transcript)),
                (air.ctx_spec().transition_offsets.len() * air.ctx_spec().trace_columns) as nat,
                root_views(r.unwrap().fri_layers_merkle_roots@),
                domain.root_order as nat,
                fe_val(r.unwrap().fri_last_value),
            ),
            air.ctx_spec().fri_number_of_queries,
        ),
        r.is_ok() ==> openings_at(
            r.unwrap().deep_poly_openings,
            *round_1_result,
            *round_2_result,
            (if air.ctx_spec().fri_number_of_queries == 0 {
                0int
            } else {
                crate::fri::query_index(
                    fri_output_log(
                        crate::backend::transcript_log(*old(transcript)),
                        (air.ctx_spec().transition_offsets.len()
                            * air.ctx_spec().trace_columns) as nat,
                        root_views(r.unwrap().fri_layers_merkle_roots@),
                        domain.root_order as nat,
                        fe_val(r.unwrap().fri_last_value),
                    ),
                    0,
                    (domain.interpolation_domain_size * domain.blowup_factor) as int,
                )
            }),
        ),
{
    let context = air.context();
    let ghost entry_log: Seq<Seq<u8>> = crate::backend::transcript_log(*transcript);
    let composition_poly_gamma_even = transcript.sample_fe();
    proof {
        assert(crate::backend::log_after_samples(entry_log, 0) == entry_log);
        assert(crate::backend::transcript_log(*transcript) == crate::backend::log_after_samples(
            entry_log,
            1,
        ));
    }
    let composition_poly_gamma_odd = transcript.sample_fe();
    proof {
        assert(crate::backend::transcript_log(*transcript) == crate::backend::log_after_samples(
            entry_log,
            2,
        ));
    }
    let n_terms = match context.transition_offsets.len().checked_mul(context.trace_columns) {
        Some(n) => n,
        None => {
            return Err(ProvingError::WrongParameter(
                "too many trace-term coefficients".to_string(),
            ));
        },
    };
    let trace_poly_gammas = batch_sample_challenges(n_terms, transcript);
    proof {
        crate::lemmas::lemma_log_after_samples_adds(entry_log, 2, n_terms as nat);
        assert(crate::backend::transcript_log(*transcript)
            == crate::backend::log_after_samples(entry_log, (2 + n_terms) as nat));
        assert(n_terms as nat == air.ctx_spec().transition_offsets.len()
            * air.ctx_spec().trace_columns);
    }
    let ghost gamma_log: Seq<Seq<u8>> = crate::backend::transcript_log(*transcript);
    let deep_composition_poly = compute_deep_composition_poly(
        air,
        domain,
        &round_1_result.trace_polys,
        round_2_result,
        round_3_result,
        z,
        &domain.trace_primitive_root,
        &composition_poly_gamma_even,
        &composition_poly_gamma_odd,
        &trace_poly_gammas,
        evil,
        bad_trace,
    )?;
    let (fri_last_value, fri_layers, _fri_chain) = fri_commit_phase(
        domain.root_order as usize,
        deep_composition_poly,
        domain,
        transcript,
    )?;
    proof {
        crate::lemmas::lemma_pow2_mul(
            domain.interpolation_domain_size as nat,
            domain.blowup_factor as nat,
        );
        assert(domain.interpolation_domain_size * domain.blowup_factor >= 2) by (nonlinear_arith)
            requires
                domain.interpolation_domain_size >= 2,
                domain.blowup_factor >= 1;
    }
    let lde_len = domain.interpolation_domain_size * domain.blowup_factor;
    let ghost pre_query_log: Seq<Seq<u8>> = crate::backend::transcript_log(*transcript);
    let (query_list, iota_0) = fri_query_phase(
        context.options.fri_number_of_queries,
        lde_len,
        &fri_layers,
        transcript,
    )?;
    let mut fri_layers_merkle_roots: Vec<[u8; 32]> = Vec::new();
    let ghost mut fri_layer_evaluations: Seq<Seq<int>> = Seq::empty();
    let mut w: usize = 0;
    while w < fri_layers.len()
        invariant
            w <= fri_layers@.len(),
            fri_layers_merkle_roots@.len() == w,
            fri_layer_evaluations.len() == w,
            forall|u: int| 0 <= u < fri_layers@.len() ==> (#[trigger] fri_layers@[u]).wf(),
            forall|u: int|
                0 <= u < w ==> (#[trigger] fri_layers_merkle_roots@[u])@ == merkle_root_of(
                    fri_layer_evaluations[u],
                ),
            forall|u: int|
                0 <= u < w ==> #[trigger] fri_layer_evaluations[u] == fe_seq_vals(
                    fri_layers@[u].evaluations@,
                ),
        decreases fri_layers@.len() - w,
    {
        fri_layers_merkle_roots.push(fri_layers[w].merkle_tree.root());
        proof {
            fri_layer_evaluations = fri_layer_evaluations.push(
                fe_seq_vals(fri_layers@[w as int].evaluations@),
            );
        }
        w += 1;
    }
    proof {
        assert forall|u: int| 0 <= u < fri_layers_merkle_roots@.len() implies (
        #[trigger] fri_layers_merkle_roots@[u])@ == merkle_root_of(fri_layer_evaluations[u])
            && fri_layer_evaluations[u].len() == (domain.interpolation_domain_size
            * domain.blowup_factor) as nat / vstd::arithmetic::power2::pow2(u as nat) by {
            assert(fri_layer_evaluations[u] == fe_seq_vals(fri_layers@[u].evaluations@));
            assert(fe_seq_vals(fri_layers@[u].evaluations@).len()
                == fri_layers@[u].evaluations@.len());
        }
    }
    let deep_poly_openings = open_deep_composition_poly(
        domain,
        round_1_result,
        round_2_result,
        iota_0,
    )?;
    let result = Round4 {
        fri_last_value,
        fri_layers_merkle_roots,
        deep_poly_openings,
        query_list,
        fri_layer_evaluations: Ghost(fri_layer_evaluations),
    };
    proof {
        vstd::arithmetic::div_mod::lemma_small_mod(iota_0 as nat, lde_len as nat);
        assert(openings_at(
            result.deep_poly_openings,
            *round_1_result,
            *round_2_result,
            iota_0 as int,
        ));
        // The stored roots, as byte views, are the layers' roots, so the
        // pre-query history is the FRI output history over them.
        assert(root_views(result.fri_layers_merkle_roots@) =~= crate::fri::layer_roots(
            fri_layers@,
        ));
        assert(pre_query_log == fri_output_log(
            entry_log,
            (air.ctx_spec().transition_offsets.len() * air.ctx_spec().trace_columns) as nat,
            root_views(result.fri_layers_merkle_roots@),
            domain.root_order as nat,
            fe_val(result.fri_last_value),
        ));
    }
    Ok(result)
}

/// Produces a STARK proof that the trace built from `raw_trace` satisfies
/// the AIR's constraints: commits the (randomized) trace, builds and commits
/// the composition polynomial, evaluates everything at an out-of-domain
/// point, and binds it all with the DEEP polynomial and FRI, every challenge
/// coming from one sequential Fiat-Shamir transcript. The `evil` and
/// `bad_trace` flags select the adversarial/diagnostic computation of the
/// DEEP polynomial used to probe the degree test; on the honest path a
/// divergence between the interpolated and algebraic DEEP terms — an
/// internal consistency failure — is surfaced as a `WrongParameter` error.
/// A blowup factor below 2 is rejected as a configuration error: FRI needs
/// a genuinely extended domain to fold.
pub fn prove<A: Air>(
    trace: &A::RawTrace,
    air: &A,
    public_input: &mut A::PublicInput,
    evil: bool,
    bad_trace: bool,
) -> (r: Result<StarkProof, ProvingError>)
    ensures
        r.is_ok() ==> {
            let stark_proof = r.unwrap();
            &&& stark_proof.lde_trace_merkle_roots@.len() >= 1
            &&& stark_proof.query_list@.len() == air.ctx_spec().fri_number_of_queries
            &&& stark_proof.fri_layers_merkle_roots@.len() == log2(air.ctx_spec().trace_length)
                + 1
            &&& stark_proof.trace_ood_frame_evaluations.rows@.len()
                == air.ctx_spec().transition_offsets.len()
            &&& evil ==> fe_val(stark_proof.composition_poly_odd_ood_evaluation) == 0
        },
        (!crate::domain::domain_params_ok(air.ctx_spec()) || air.ctx_spec().blowup_factor < 2)
            ==> r.is_err(),
{
    let domain = Domain::new(air)?;
    if domain.blowup_factor < 2 {
        return Err(ProvingError::WrongParameter(
            "the blowup factor must extend the domain".to_string(),
        ));
    }
    let mut transcript = round_0_transcript_initialization();

    // Round 1: commit to the (randomized) trace.
    let round_1_result = round_1_randomized_air_with_preprocessing(
        air,
        trace,
        &domain,
        public_input,
        &mut transcript,
    )?;

    // Round 2: sample the constraint-combination coefficients — boundary
    // alphas, boundary betas, transition alphas, transition betas, in that
    // order — and commit to the composition polynomial's halves.
    let n_polys = round_1_result.trace_polys.len();
    let context = air.context();
    let boundary_coeffs_alphas = batch_sample_challenges(n_polys, &mut transcript);
    let boundary_coeffs_betas = batch_sample_challenges(n_polys, &mut transcript);
    let transition_coeffs_alphas = batch_sample_challenges(
        context.num_transition_constraints,
        &mut transcript,
    );
    let transition_coeffs_betas = batch_sample_challenges(
        context.num_transition_constraints,
        &mut transcript,
    );
    let boundary_coeffs = zip_coeffs(&boundary_coeffs_alphas, &boundary_coeffs_betas);
    let transition_coeffs = zip_coeffs(&transition_coeffs_alphas, &transition_coeffs_betas);
    let round_2_result = round_2_compute_composition_polynomial(
        air,
        &domain,
        &round_1_result,
        public_input,
        &transition_coeffs,
        &boundary_coeffs,
    )?;
    transcript.append_bytes32(&round_2_result.composition_poly_even_root);
    transcript.append_bytes32(&round_2_result.composition_poly_odd_root);

    // Round 3: sample the out-of-domain point, avoiding both domains, and
    // append the claimed evaluations in the fixed order: H1(z^2), H2(z^2),
    // then the frame rows in row-major order.
    let z = transcript.sample_z(&domain.lde_roots_of_unity_coset, &domain.trace_roots_of_unity);
    let round_3_result = round_3_evaluate_polynomials_in_out_of_domain_element(
        air,
        &domain,
        public_input,
        &round_1_result,
        &round_2_result,
        &z,
        &boundary_coeffs,
        &transition_coeffs,
        evil,
    )?;
    transcript.append_fe(&round_3_result.composition_poly_even_ood_evaluation);
    transcript.append_fe(&round_3_result.composition_poly_odd_ood_evaluation);
    let mut row_index: usize = 0;
    while row_index < round_3_result.trace_ood_frame_evaluations.rows.len()
        invariant
            row_index <= round_3_result.trace_ood_frame_evaluations.rows@.len(),
        decreases round_3_result.trace_ood_frame_evaluations.rows@.len() - row_index,
    {
        let row = &round_3_result.trace_ood_frame_evaluations.rows[row_index];
        let mut element_index: usize = 0;
        while element_index < row.len()
            invariant
                element_index <= row@.len(),
            decreases row@.len() - element_index,
        {
            transcript.append_fe(&row[element_index]);
            element_index += 1;
        }
        row_index += 1;
    }

    // Round 4: the DEEP polynomial, FRI, and the openings.
    let round_4_result = round_4_compute_and_run_fri_on_the_deep_composition_polynomial(
        air,
        &domain,
        &round_1_result,
        &round_2_result,
        &round_3_result,
        &z,
        &mut transcript,
        evil,
        bad_trace,
    )?;

    Ok(StarkProof {
        lde_trace_merkle_roots: round_1_result.lde_trace_merkle_roots,
        trace_ood_frame_evaluations: round_3_result.trace_ood_frame_evaluations,
        composition_poly_even_root: round_2_result.composition_poly_even_root,
        composition_poly_even_ood_evaluation: round_3_result.composition_poly_even_ood_evaluation,
        composition_poly_odd_root: round_2_result.composition_poly_odd_root,
        composition_poly_odd_ood_evaluation: round_3_result.composition_poly_odd_ood_evaluation,
        fri_layers_merkle_roots: round_4_result.fri_layers_merkle_roots,
        fri_last_value: round_4_result.fri_last_value,
        query_list: round_4_result.query_list,
        deep_poly_openings: round_4_result.deep_poly_openings,
    })
}

} // verus!
