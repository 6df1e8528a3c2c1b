//! The FRI subsystem: the commit phase folds the DEEP polynomial layer by
//! layer, halving the represented domain each time and committing every
//! layer before the next folding coefficient is sampled; the query phase
//! opens sibling positions of every layer.

use vstd::prelude::*;

use crate::backend::{
    commit_evals, fe_seq_vals, fe_val, merkle_root_of, tree_vals, CommitTree, Fe, StarkTranscript,
};
use crate::domain::Domain;
use crate::lemmas::lemma_pow2_log2;
use crate::model::{in_field, is_pow2, stark_prime};
use crate::poly::{at0, Poly};
use crate::prover::evaluate_polynomial_on_lde_domain;
use crate::ProvingError;

verus! {

/// The Merkle roots of a layer sequence, in layer order.
pub open spec fn layer_roots(layers: Seq<FriLayer>) -> Seq<Seq<u8>> {
    Seq::new(
        layers.len(),
        |k: int| crate::backend::merkle_root_of(tree_vals(layers[k].merkle_tree)),
    )
}

/// The absorbed history just before the `k`-th folding coefficient is drawn
/// (`k >= 1`): layer 0's root extends the initial history, and every later
/// draw leaves exactly the previous challenge followed by the root committed
/// after it — so no folding coefficient is derivable before the preceding
/// layer's root is absorbed.
pub open spec fn fri_challenge_log(
    initial: Seq<Seq<u8>>,
    roots: Seq<Seq<u8>>,
    k: nat,
) -> Seq<Seq<u8>>
    decreases k,
{
    if k <= 1 {
        initial.push(roots[0])
    } else {
        seq![
            crate::backend::challenge_bytes_of(fri_challenge_log(initial, roots, (k - 1) as nat)),
            roots[k - 1],
        ]
    }
}

/// One committed FRI layer: the evaluations of the folded polynomial on its
/// halved domain, and the Merkle tree over them.
pub struct FriLayer {
    pub evaluations: Vec<Fe>,
    pub merkle_tree: CommitTree,
}

impl FriLayer {
    /// The tree commits exactly to the evaluations.
    pub open spec fn wf(&self) -> bool {
        &&& tree_vals(self.merkle_tree) == fe_seq_vals(self.evaluations@)
        &&& self.evaluations@.len() >= 1
    }
}

/// The per-layer openings of one FRI query: the evaluation and Merkle path
/// of the queried position and of its folding sibling, for every layer.
pub struct FriDecommitment {
    pub layers_auth_paths: Vec<Vec<[u8; 32]>>,
    pub layers_evaluations: Vec<Fe>,
    pub layers_auth_paths_sym: Vec<Vec<[u8; 32]>>,
    pub layers_evaluations_sym: Vec<Fe>,
}

/// Folds a polynomial with the verifier's coefficient: the result, on the
/// squared domain, combines the even and odd halves as `E + beta * O`, so
/// its coefficient count is half of the input's, rounded up.
pub(crate) fn fold_polynomial(p: &Poly, beta: &Fe) -> (r: Poly)
    requires
        p.wf(),
    ensures
        r.wf(),
        r.vals().len() == (p.vals().len() + 1) / 2,
        forall|i: int|
            0 <= i < r.vals().len() ==> r.vals()[i] == (at0(p.vals(), 2 * i) + fe_val(*beta)
                * at0(p.vals(), 2 * i + 1)) % stark_prime(),
{
    let (even, odd) = p.even_odd_decomposition();
    let scaled = odd.scale(beta);
    let folded = even.add(&scaled);
    proof {
        assert forall|i: int| 0 <= i < folded.vals().len() implies folded.vals()[i] == (at0(
            p.vals(),
            2 * i,
        ) + fe_val(*beta) * at0(p.vals(), 2 * i + 1)) % stark_prime() by {
            let pr = stark_prime();
            let a = at0(even.vals(), i);
            let b = at0(scaled.vals(), i);
            if i < scaled.vals().len() {
                vstd::arithmetic::div_mod::lemma_add_mod_noop_right(
                    a,
                    fe_val(*beta) * at0(p.vals(), 2 * i + 1),
                    pr,
                );
            } else {
                assert(b == 0);
                assert(at0(p.vals(), 2 * i + 1) == 0);
                vstd::arithmetic::mul::lemma_mul_basics(fe_val(*beta));
            }
        }
    }
    folded
}

/// The FRI commit phase: commits the polynomial's evaluations on the full
/// extended domain, then folds `number_layers` times, committing each folded
/// layer on a domain of half the previous size and appending its root to the
/// transcript before the next folding coefficient is sampled. Returns the
/// first coefficient of the final folded polynomial — the constant sent in
/// the clear — and every committed layer: layer `k` has exactly
/// `lde_size / 2^k` evaluations, and when the input has at most
/// `2^number_layers` coefficients the final polynomial is a constant.
pub(crate) fn fri_commit_phase(
    number_layers: usize,
    p_0: Poly,
    domain: &Domain,
    transcript: &mut StarkTranscript,
) -> (r: Result<(Fe, Vec<FriLayer>, Ghost<(Seq<Seq<int>>, Seq<int>)>), ProvingError>)
    requires
        domain.wf(),
        p_0.wf(),
        p_0.vals().len() <= domain.interpolation_domain_size * domain.blowup_factor,
        number_layers == domain.root_order,
        domain.blowup_factor >= 2,
    ensures
        r.is_ok(),
        // The ghost chain carries the folded polynomials and their domain
        // offsets: layer 0 is the input on the full coset, every next
        // polynomial is the fold of the previous by a field coefficient, on
        // the squared-offset coset, and every layer's evaluations are
        // exactly its polynomial's values on its own coset.
        r.is_ok() ==> {
            let (last_value, layers, chain) = r.unwrap();
            &&& chain@.0.len() == layers@.len()
            &&& chain@.1.len() == layers@.len()
            &&& chain@.0[0] == p_0.vals()
            &&& chain@.1[0] == fe_val(domain.coset_offset)
            &&& forall|k: int, i: int|
                #![trigger layers@[k].evaluations@[i]]
                0 <= k < layers@.len() && 0 <= i < layers@[k].evaluations@.len() ==> fe_val(
                    layers@[k].evaluations@[i],
                ) == crate::model::eval_val(
                    chain@.0[k],
                    crate::model::coset_point(
                        crate::model::log2(layers@[k].evaluations@.len() as nat),
                        chain@.1[k],
                        i as nat,
                    ),
                )
            &&& forall|k: int|
                0 <= k < layers@.len() - 1 ==> chain@.0[k + 1] == crate::model::fold_vals(
                    #[trigger] chain@.0[k],
                    crate::backend::fe_from_seed(
                        crate::backend::challenge_bytes_of(
                            fri_challenge_log(
                                crate::backend::transcript_log(*old(transcript)),
                                layer_roots(layers@),
                                (k + 1) as nat,
                            ),
                        ),
                    ),
                )
            &&& forall|k: int|
                0 <= k < layers@.len() - 1 ==> chain@.1[k + 1] == (#[trigger] chain@.1[k]
                    * chain@.1[k]) % stark_prime()
            &&& layers@.len() == number_layers + 1
            &&& forall|k: int|
                0 <= k < layers@.len() ==> (#[trigger] layers@[k]).evaluations@.len() == (
                domain.interpolation_domain_size * domain.blowup_factor) as nat / vstd::arithmetic::power2::pow2(
                    k as nat,
                ) && layers@[k].evaluations@.len() <= domain.interpolation_domain_size
                    * domain.blowup_factor
            &&& forall|k: int| 0 <= k < layers@.len() ==> (#[trigger] layers@[k]).wf()
            &&& in_field(fe_val(last_value))
            &&& p_0.vals().len() <= vstd::arithmetic::power2::pow2(number_layers as nat)
                ==> forall|i: int|
                0 <= i < layers@.last().evaluations@.len() ==> fe_val(
                    #[trigger] layers@.last().evaluations@[i],
                ) == fe_val(last_value)
        },
        // The final history: the last committed root followed by the last
        // value, absorbed after every root.
        r.is_ok() ==> crate::backend::transcript_log(*final(transcript)) == fri_challenge_log(
            crate::backend::transcript_log(*old(transcript)),
            layer_roots(r.unwrap().1@),
            (number_layers + 1) as nat,
        ).push(crate::backend::fe_bytes_be(fe_val(r.unwrap().0))),
{
    let lde_size = domain.interpolation_domain_size * domain.blowup_factor;
    proof {
        crate::lemmas::lemma_pow2_mul(
            domain.interpolation_domain_size as nat,
            domain.blowup_factor as nat,
        );
        vstd::arithmetic::power2::lemma_pow2_unfold(1);
        assert(vstd::arithmetic::power2::pow2(0) == 1) by {
            vstd::arithmetic::power2::lemma2_to64();
        }
        assert(lde_size >= domain.blowup_factor && lde_size * 1 == lde_size) by (nonlinear_arith)
            requires
                lde_size == domain.interpolation_domain_size * domain.blowup_factor,
                domain.interpolation_domain_size >= 1,
                domain.blowup_factor >= 0;
    }
    let mut layers: Vec<FriLayer> = Vec::new();
    let mut current = p_0;
    let mut size = lde_size;
    let mut offset = domain.coset_offset.dup();
    let mut k: usize = 0;
    // Layer 0: the polynomial itself on the full domain.
    let evaluations = evaluate_polynomial_on_lde_domain(&current, 1, size, &offset);
    let tree = match commit_evals(&evaluations) {
        Some(tree) => tree,
        None => {
            proof {
                assert(false);
            }
            return Err(ProvingError::WrongParameter("empty layer".to_string()));
        },
    };
    let root = tree.root();
    transcript.append_bytes32(&root);
    let ghost p_0_len: nat = current.vals().len();
    let ghost p_0_vals: Seq<int> = current.vals();
    let ghost initial_log: Seq<Seq<u8>> = crate::backend::transcript_log(*old(transcript));
    let ghost mut polys_chain: Seq<Seq<int>> = seq![current.vals()];
    let ghost mut offs_chain: Seq<int> = seq![fe_val(domain.coset_offset)];
    let ghost mut roots_so_far: Seq<Seq<u8>> = seq![root@];
    layers.push(FriLayer { evaluations, merkle_tree: tree });
    proof {
        assert(size * 1 == size) by (nonlinear_arith);
    }
    while k < number_layers
        invariant
            p_0_len <= vstd::arithmetic::power2::pow2(number_layers as nat)
                ==> current.vals().len() <= vstd::arithmetic::power2::pow2(
                (number_layers - k) as nat,
            ),
            polys_chain.len() == k + 1,
            offs_chain.len() == k + 1,
            polys_chain[0] == p_0_vals,
            offs_chain[0] == fe_val(domain.coset_offset),
            polys_chain.last() == current.vals(),
            offs_chain.last() == fe_val(offset),
            forall|w: int, i: int|
                #![trigger layers@[w].evaluations@[i]]
                0 <= w < layers@.len() && 0 <= i < layers@[w].evaluations@.len() ==> fe_val(
                    layers@[w].evaluations@[i],
                ) == crate::model::eval_val(
                    polys_chain[w],
                    crate::model::coset_point(
                        crate::model::log2(layers@[w].evaluations@.len() as nat),
                        offs_chain[w],
                        i as nat,
                    ),
                ),
            roots_so_far =~= layer_roots(layers@),
            crate::backend::transcript_log(*transcript) == fri_challenge_log(
                initial_log,
                roots_so_far,
                (k + 1) as nat,
            ),
            initial_log == crate::backend::transcript_log(*old(transcript)),
            forall|w: int|
                0 <= w < polys_chain.len() - 1 ==> polys_chain[w + 1] == crate::model::fold_vals(
                    #[trigger] polys_chain[w],
                    crate::backend::fe_from_seed(
                        crate::backend::challenge_bytes_of(
                            fri_challenge_log(initial_log, roots_so_far, (w + 1) as nat),
                        ),
                    ),
                ),
            forall|w: int|
                0 <= w < offs_chain.len() - 1 ==> offs_chain[w + 1] == (#[trigger] offs_chain[w]
                    * offs_chain[w]) % stark_prime(),
            forall|i: int|
                0 <= i < layers@.last().evaluations@.len() ==> fe_val(
                    #[trigger] layers@.last().evaluations@[i],
                ) == crate::model::eval_val(
                    current.vals(),
                    crate::model::coset_point(
                        crate::model::log2(size as nat),
                        fe_val(offset),
                        i as nat,
                    ),
                ),
            domain.wf(),
            current.wf(),
            lde_size == domain.interpolation_domain_size * domain.blowup_factor,
            2 <= lde_size <= 0x1000_0000,
            is_pow2(lde_size as nat),
            number_layers == domain.root_order,
            domain.blowup_factor >= 2,
            k <= number_layers,
            size == lde_size as nat / vstd::arithmetic::power2::pow2(k as nat),
            size * vstd::arithmetic::power2::pow2(k as nat) == lde_size,
            is_pow2(size as nat),
            size >= domain.blowup_factor,
            in_field(fe_val(offset)),
            current.vals().len() <= size,
            layers@.len() == k + 1,
            forall|w: int|
                0 <= w < layers@.len() ==> (#[trigger] layers@[w]).evaluations@.len()
                    == lde_size as nat / vstd::arithmetic::power2::pow2(w as nat)
                    && layers@[w].evaluations@.len() <= lde_size,
            forall|w: int| 0 <= w < layers@.len() ==> (#[trigger] layers@[w]).wf(),
        decreases number_layers - k,
    {
        proof {
            // `size = lde / 2^k` is a power of two at least the blowup
            // factor, so the halved size stays at least 2.
            lemma_pow2_log2(size as nat);
        }
        let ghost log_before_draw: Seq<Seq<u8>> = crate::backend::transcript_log(*transcript);
        let beta = transcript.sample_fe();
        let folded = fold_polynomial(&current, &beta);
        let next_size = size / 2;
        let next_offset = offset.mul(&offset);
        proof {
            let ro = domain.root_order as nat;
            lemma_pow2_log2(domain.interpolation_domain_size as nat);
            // lde == blowup * 2^ro, and next_size * 2^(k+1) == lde.
            assert(vstd::arithmetic::power2::pow2((k + 1) as nat) == 2 * vstd::arithmetic::power2::pow2(
                k as nat,
            )) by {
                vstd::arithmetic::power2::lemma_pow2_adds(1, k as nat);
                vstd::arithmetic::power2::lemma2_to64();
            }
            assert(next_size * vstd::arithmetic::power2::pow2((k + 1) as nat) == lde_size) by (
            nonlinear_arith)
                requires
                    size % 2 == 0,
                    next_size == size as int / 2,
                    size * vstd::arithmetic::power2::pow2(k as nat) == lde_size,
                    vstd::arithmetic::power2::pow2((k + 1) as nat) == 2 * vstd::arithmetic::power2::pow2(
                        k as nat,
                    );
            assert(vstd::arithmetic::power2::pow2(ro) == vstd::arithmetic::power2::pow2(
                (k + 1) as nat,
            ) * vstd::arithmetic::power2::pow2((ro - k - 1) as nat)) by {
                vstd::arithmetic::power2::lemma_pow2_adds((k + 1) as nat, (ro - k - 1) as nat);
            }
            assert(lde_size == domain.blowup_factor * vstd::arithmetic::power2::pow2(ro)) by (
            nonlinear_arith)
                requires
                    lde_size == domain.interpolation_domain_size * domain.blowup_factor,
                    domain.interpolation_domain_size == vstd::arithmetic::power2::pow2(ro);
            vstd::arithmetic::power2::lemma_pow2_pos((k + 1) as nat);
            vstd::arithmetic::power2::lemma_pow2_pos((ro - k - 1) as nat);
            assert(next_size == domain.blowup_factor * vstd::arithmetic::power2::pow2(
                (ro - k - 1) as nat,
            )) by (nonlinear_arith)
                requires
                    next_size * vstd::arithmetic::power2::pow2((k + 1) as nat) == lde_size,
                    lde_size == domain.blowup_factor * (vstd::arithmetic::power2::pow2(
                        (k + 1) as nat,
                    ) * vstd::arithmetic::power2::pow2((ro - k - 1) as nat)),
                    vstd::arithmetic::power2::pow2((k + 1) as nat) >= 1;
            assert(next_size >= domain.blowup_factor) by (nonlinear_arith)
                requires
                    next_size == domain.blowup_factor * vstd::arithmetic::power2::pow2(
                        (ro - k - 1) as nat,
                    ),
                    vstd::arithmetic::power2::pow2((ro - k - 1) as nat) >= 1,
                    domain.blowup_factor >= 0;
            // The new size divides the full size as required.
            vstd::arithmetic::div_mod::lemma_div_multiples_vanish(
                next_size as int,
                vstd::arithmetic::power2::pow2((k + 1) as nat) as int,
            );
            assert(next_size * vstd::arithmetic::power2::pow2((k + 1) as nat)
                == vstd::arithmetic::power2::pow2((k + 1) as nat) * next_size) by (nonlinear_arith);
        }
        let evaluations = evaluate_polynomial_on_lde_domain(&folded, 1, next_size, &next_offset);
        let tree = match commit_evals(&evaluations) {
            Some(tree) => tree,
            None => {
                proof {
                    assert(false);
                }
                return Err(ProvingError::WrongParameter("empty layer".to_string()));
            },
        };
        let root = tree.root();
        transcript.append_bytes32(&root);
        layers.push(FriLayer { evaluations, merkle_tree: tree });
        proof {
            assert(folded.vals() =~= crate::model::fold_vals(current.vals(), fe_val(beta)));
            polys_chain = polys_chain.push(folded.vals());
            offs_chain = offs_chain.push(fe_val(next_offset));
            let ghost old_roots = roots_so_far;
            roots_so_far = roots_so_far.push(root@);
            assert(roots_so_far =~= layer_roots(layers@));
            // The drawn coefficient is the challenge of the history holding
            // the previous layer's root; the new history holds that
            // challenge and the new root.
            assert(log_before_draw == fri_challenge_log(initial_log, old_roots, (k + 1) as nat));
            crate::lemmas::lemma_fri_log_stable(initial_log, old_roots, roots_so_far, (k + 1) as nat);
            assert(fe_val(beta) == crate::backend::fe_from_seed(
                crate::backend::challenge_bytes_of(
                    fri_challenge_log(initial_log, roots_so_far, (k + 1) as nat),
                ),
            ));
            assert(crate::backend::transcript_log(*transcript) == fri_challenge_log(
                initial_log,
                roots_so_far,
                (k + 2) as nat,
            ));
            assert forall|w: int|
                0 <= w < polys_chain.len() - 1 implies polys_chain[w + 1]
                == crate::model::fold_vals(
                #[trigger] polys_chain[w],
                crate::backend::fe_from_seed(
                    crate::backend::challenge_bytes_of(
                        fri_challenge_log(initial_log, roots_so_far, (w + 1) as nat),
                    ),
                ),
            ) by {
                if w < polys_chain.len() - 2 {
                    crate::lemmas::lemma_fri_log_stable(
                        initial_log,
                        old_roots,
                        roots_so_far,
                        (w + 1) as nat,
                    );
                }
            }
            assert(next_size * 1 == next_size) by (nonlinear_arith);
            if p_0_len <= vstd::arithmetic::power2::pow2(number_layers as nat) {
                assert(vstd::arithmetic::power2::pow2((number_layers - k) as nat) == 2
                    * vstd::arithmetic::power2::pow2((number_layers - k - 1) as nat)) by {
                    vstd::arithmetic::power2::lemma_pow2_adds(1, (number_layers - k - 1) as nat);
                    vstd::arithmetic::power2::lemma2_to64();
                }
            }
        }
        current = folded;
        size = next_size;
        offset = next_offset;
        k += 1;
    }
    let last_value = if current.coefficients.len() >= 1 {
        current.coefficients[0].dup()
    } else {
        Fe::zero()
    };
    transcript.append_fe(&last_value);
    proof {
        if current.vals().len() >= 1 {
            assert(in_field(current.vals()[0]));
        }
        assert(polys_chain[0] == p_0.vals());
        assert(roots_so_far == layer_roots(layers@));
        if p_0_len <= vstd::arithmetic::power2::pow2(number_layers as nat) {
            assert(vstd::arithmetic::power2::pow2(0) == 1) by {
                vstd::arithmetic::power2::lemma2_to64();
            }
            assert(current.vals().len() <= 1);
            assert forall|i: int| 0 <= i < layers@.last().evaluations@.len() implies fe_val(
                #[trigger] layers@.last().evaluations@[i],
            ) == fe_val(last_value) by {
                let pt = crate::model::coset_point(
                    crate::model::log2(size as nat),
                    fe_val(offset),
                    i as nat,
                );
                if current.vals().len() == 0 {
                    assert(crate::model::eval_val(current.vals(), pt) == 0);
                } else {
                    assert(crate::model::eval_val(current.vals().drop_first(), pt) == 0);
                    assert(in_field(current.vals()[0]));
                    vstd::arithmetic::div_mod::lemma_small_mod(
                        current.vals()[0] as nat,
                        stark_prime() as nat,
                    );
                    assert(crate::model::eval_val(current.vals(), pt) == (current.vals()[0] + pt
                        * 0) % stark_prime());
                }
            }
        }
    }
    Ok((last_value, layers, Ghost((polys_chain, offs_chain))))
}

/// The first four bytes of a challenge, read as a big-endian integer.
fn u64_from_bytes_be(bytes: &[u8; 32]) -> (r: u64)
    ensures
        r == bytes_be4_val(bytes@),
{
    (bytes[0] as u64) * 0x100_0000 + (bytes[1] as u64) * 0x1_0000 + (bytes[2] as u64) * 0x100 + (
    bytes[3] as u64)
}

/// The integer read big-endian from the first four bytes of a challenge.
pub open spec fn bytes_be4_val(b: Seq<u8>) -> int {
    b[0] * 0x100_0000 + b[1] * 0x1_0000 + b[2] * 0x100 + b[3]
}

/// The index the `q`-th query opens: the first four challenge bytes after
/// `q` draws, reduced modulo the extended domain size.
pub open spec fn query_index(log: Seq<Seq<u8>>, q: nat, lde_size: int) -> int {
    bytes_be4_val(
        crate::backend::challenge_bytes_of(crate::backend::log_after_samples(log, q)),
    ) % lde_size
}

/// One query's decommitment opens every layer at the positions folded
/// together: the index reduced to the layer's size, and its half-shifted
/// sibling, each with the evaluation and the authentication path of that
/// layer's tree.
pub open spec fn decommitment_opens(
    dec: FriDecommitment,
    layers: Seq<FriLayer>,
    iota: int,
) -> bool {
    &&& dec.layers_evaluations@.len() == layers.len()
    &&& dec.layers_evaluations_sym@.len() == layers.len()
    &&& dec.layers_auth_paths@.len() == layers.len()
    &&& dec.layers_auth_paths_sym@.len() == layers.len()
    &&& forall|w: int|
        #![trigger dec.layers_evaluations@[w]]
        0 <= w < layers.len() ==> {
            let len_w = layers[w].evaluations@.len() as int;
            let idx = iota % len_w;
            let sym = (idx + len_w / 2) % len_w;
            &&& fe_val(dec.layers_evaluations@[w]) == fe_val(layers[w].evaluations@[idx])
            &&& fe_val(dec.layers_evaluations_sym@[w]) == fe_val(layers[w].evaluations@[sym])
            &&& dec.layers_auth_paths@[w]@.map_values(|n: [u8; 32]| n@) == crate::backend::merkle_path_of(
                tree_vals(layers[w].merkle_tree),
                idx as nat,
            )
            &&& dec.layers_auth_paths_sym@[w]@.map_values(|n: [u8; 32]| n@) == crate::backend::merkle_path_of(
                tree_vals(layers[w].merkle_tree),
                sym as nat,
            )
        }
}

/// The FRI query phase: derives each query index from the transcript's
/// challenge bytes and opens, for every layer, the queried position and its
/// folding sibling. Returns the decommitments and the first query's index,
/// which the DEEP polynomial is opened at.
#[verifier::rlimit(50)]
pub(crate) fn fri_query_phase(
    number_of_queries: usize,
    lde_size: usize,
    layers: &Vec<FriLayer>,
    transcript: &mut StarkTranscript,
) -> (r: Result<(Vec<FriDecommitment>, usize), ProvingError>)
    requires
        lde_size >= 1,
        forall|w: int| 0 <= w < layers@.len() ==> (#[trigger] layers@[w]).wf(),
        forall|w: int| 0 <= w < layers@.len() ==> (#[trigger] layers@[w]).evaluations@.len()
            <= 0x1000_0000,
    ensures
        r.is_ok(),
        r.is_ok() ==> {
            let (queries, iota_0) = r.unwrap();
            &&& queries@.len() == number_of_queries
            &&& iota_0 < lde_size
            &&& (number_of_queries >= 1 ==> iota_0 == query_index(
                crate::backend::transcript_log(*old(transcript)),
                0,
                lde_size as int,
            ))
            &&& (number_of_queries == 0 ==> iota_0 == 0)
            &&& forall|q: int|
                0 <= q < queries@.len() ==> decommitment_opens(
                    #[trigger] queries@[q],
                    layers@,
                    query_index(
                        crate::backend::transcript_log(*old(transcript)),
                        q as nat,
                        lde_size as int,
                    ),
                )
        },
        r.is_ok() ==> crate::backend::transcript_log(*final(transcript))
            == crate::backend::log_after_samples(
            crate::backend::transcript_log(*old(transcript)),
            number_of_queries as nat,
        ),
{
    let mut query_list: Vec<FriDecommitment> = Vec::new();
    let mut iota_0: usize = 0;
    let mut q: usize = 0;
    while q < number_of_queries
        invariant
            lde_size >= 1,
            forall|w: int| 0 <= w < layers@.len() ==> (#[trigger] layers@[w]).wf(),
            forall|w: int| 0 <= w < layers@.len() ==> (#[trigger] layers@[w]).evaluations@.len()
                <= 0x1000_0000,
            q <= number_of_queries,
            query_list@.len() == q,
            iota_0 < lde_size,
            crate::backend::transcript_log(*transcript) == crate::backend::log_after_samples(
                crate::backend::transcript_log(*old(transcript)),
                q as nat,
            ),
            q >= 1 ==> iota_0 == query_index(
                crate::backend::transcript_log(*old(transcript)),
                0,
                lde_size as int,
            ),
            q == 0 ==> iota_0 == 0,
            forall|v: int|
                0 <= v < q ==> decommitment_opens(
                    #[trigger] query_list@[v],
                    layers@,
                    query_index(
                        crate::backend::transcript_log(*old(transcript)),
                        v as nat,
                        lde_size as int,
                    ),
                ),
        decreases number_of_queries - q,
    {
        let challenge = transcript.sample_bytes32();
        let iota = (u64_from_bytes_be(&challenge) % (lde_size as u64)) as usize;
        proof {
            assert(iota as int == query_index(
                crate::backend::transcript_log(*old(transcript)),
                q as nat,
                lde_size as int,
            ));
        }
        if q == 0 {
            iota_0 = iota;
        }
        let mut paths: Vec<Vec<[u8; 32]>> = Vec::new();
        let mut evals: Vec<Fe> = Vec::new();
        let mut paths_sym: Vec<Vec<[u8; 32]>> = Vec::new();
        let mut evals_sym: Vec<Fe> = Vec::new();
        let mut w: usize = 0;
        while w < layers.len()
            invariant
                forall|u: int| 0 <= u < layers@.len() ==> (#[trigger] layers@[u]).wf(),
                forall|u: int| 0 <= u < layers@.len() ==> (
                #[trigger] layers@[u]).evaluations@.len() <= 0x1000_0000,
                w <= layers@.len(),
                paths@.len() == w,
                evals@.len() == w,
                paths_sym@.len() == w,
                evals_sym@.len() == w,
                forall|u: int|
                    #![trigger evals@[u]]
                    0 <= u < w ==> fe_val(evals@[u]) == fe_val(
                        layers@[u].evaluations@[iota as int % layers@[u].evaluations@.len() as int],
                    ),
                forall|u: int|
                    #![trigger evals_sym@[u]]
                    0 <= u < w ==> fe_val(evals_sym@[u]) == fe_val(
                        layers@[u].evaluations@[((iota as int % layers@[u].evaluations@.len() as int)
                            + layers@[u].evaluations@.len() as int / 2)
                            % layers@[u].evaluations@.len() as int],
                    ),
                forall|u: int|
                    #![trigger paths@[u]]
                    0 <= u < w ==> paths@[u]@.map_values(|n: [u8; 32]| n@)
                        == crate::backend::merkle_path_of(
                        tree_vals(layers@[u].merkle_tree),
                        (iota as int % layers@[u].evaluations@.len() as int) as nat,
                    ),
                forall|u: int|
                    #![trigger paths_sym@[u]]
                    0 <= u < w ==> paths_sym@[u]@.map_values(|n: [u8; 32]| n@)
                        == crate::backend::merkle_path_of(
                        tree_vals(layers@[u].merkle_tree),
                        (((iota as int % layers@[u].evaluations@.len() as int)
                            + layers@[u].evaluations@.len() as int / 2)
                            % layers@[u].evaluations@.len() as int) as nat,
                    ),
            decreases layers@.len() - w,
        {
            let layer = &layers[w];
            let len_w = layer.evaluations.len();
            let idx = iota % len_w;
            let half = len_w / 2;
            let sym = if idx >= len_w - half {
                idx - (len_w - half)
            } else {
                idx + half
            };
            proof {
                if idx >= len_w - half {
                    vstd::arithmetic::div_mod::lemma_fundamental_div_mod_converse(
                        idx + half,
                        len_w as int,
                        1,
                        idx + half - len_w,
                    );
                } else {
                    vstd::arithmetic::div_mod::lemma_small_mod(
                        (idx + half) as nat,
                        len_w as nat,
                    );
                }
                assert(sym as int == (idx as int + len_w as int / 2) % len_w as int);
                assert(tree_vals(layer.merkle_tree).len() == len_w);
            }
            let path = match layer.merkle_tree.path(idx) {
                Some(path) => path,
                None => {
                    proof {
                        assert(false);
                    }
                    return Err(ProvingError::WrongParameter("opening out of range".to_string()));
                },
            };
            let path_sym = match layer.merkle_tree.path(sym) {
                Some(path) => path,
                None => {
                    proof {
                        assert(false);
                    }
                    return Err(ProvingError::WrongParameter("opening out of range".to_string()));
                },
            };
            paths.push(path);
            evals.push(layer.evaluations[idx].dup());
            paths_sym.push(path_sym);
            evals_sym.push(layer.evaluations[sym].dup());
            proof {
                let len_u = layers@[w as int].evaluations@.len() as int;
                let idx_u = iota as int % len_u;
                let sym_u = (idx_u + len_u / 2) % len_u;
                assert(len_u == len_w as int);
                assert(idx_u == idx as int);
                assert(sym_u == sym as int);
                assert(fe_val(evals@[w as int]) == fe_val(layers@[w as int].evaluations@[idx_u]));
                assert(fe_val(evals_sym@[w as int]) == fe_val(
                    layers@[w as int].evaluations@[sym_u],
                ));
                assert(paths@[w as int]@.map_values(|n: [u8; 32]| n@)
                    == crate::backend::merkle_path_of(
                    tree_vals(layers@[w as int].merkle_tree),
                    idx_u as nat,
                ));
                assert(paths_sym@[w as int]@.map_values(|n: [u8; 32]| n@)
                    == crate::backend::merkle_path_of(
                    tree_vals(layers@[w as int].merkle_tree),
                    sym_u as nat,
                ));
            }
            w += 1;
        }
        let decommitment = FriDecommitment {
            layers_auth_paths: paths,
            layers_evaluations: evals,
            layers_auth_paths_sym: paths_sym,
            layers_evaluations_sym: evals_sym,
        };
        proof {
            assert(decommitment_opens(decommitment, layers@, iota as int));
        }
        query_list.push(decommitment);
        q += 1;
    }
    Ok((query_list, iota_0))
}

} // verus!
