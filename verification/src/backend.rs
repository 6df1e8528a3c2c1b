//! The trusted boundary around the field, FFT, Merkle-tree and transcript
//! engines of the `lambdaworks` crates. Every function here is
//! `external_body`: its contract states what the engine's source promises,
//! over the canonical integer values of field elements.

use vstd::prelude::*;

use lambdaworks_crypto::fiat_shamir::default_transcript::DefaultTranscript;
use lambdaworks_crypto::fiat_shamir::is_transcript::IsTranscript;
use lambdaworks_crypto::merkle_tree::backends::types::Keccak256Backend;
use lambdaworks_crypto::merkle_tree::merkle::MerkleTree;
use lambdaworks_math::field::element::FieldElement;
use lambdaworks_math::field::fields::fft_friendly::stark_252_prime_field::Stark252PrimeField;
use lambdaworks_math::field::traits::IsFFTField;
use lambdaworks_math::polynomial::Polynomial;
use lambdaworks_math::traits::ByteConversion;

use crate::model::{
    all_in_field, be_byte, coset_point, eval_val, in_field, is_pow2, log2, next_pow2,
    ruffini_quotient, stark_prime, trim_zeros, two_adicity,
};
use crate::poly::Poly;

verus! {

/// An element of the Stark 252-bit prime field.
#[verifier::external_body]
pub struct Fe {
    inner: FieldElement<Stark252PrimeField>,
}

/// The canonical integer value of a field element, in `[0, stark_prime())`.
pub uninterp spec fn fe_val(x: Fe) -> int;

/// The canonical values of a sequence of field elements.
pub open spec fn fe_seq_vals(s: Seq<Fe>) -> Seq<int> {
    s.map_values(|e: Fe| fe_val(e))
}

/// The larger of two sequence lengths.
pub open spec fn max2(a: nat, b: nat) -> nat {
    if a >= b {
        a
    } else {
        b
    }
}

impl Fe {
    /// Relies on `FieldElement::<Stark252PrimeField>::from::<u64>`: embeds an
    /// integer (always below the prime) into the field.
    #[verifier::external_body]
    pub fn from_u64(v: u64) -> (r: Fe)
        ensures
            fe_val(r) == v as int,
    {
        Fe { inner: FieldElement::from(v) }
    }

    /// Relies on `FieldElement::zero`.
    #[verifier::external_body]
    pub fn zero() -> (r: Fe)
        ensures
            fe_val(r) == 0,
    {
        Fe { inner: FieldElement::zero() }
    }

    /// Relies on `FieldElement::one`.
    #[verifier::external_body]
    pub fn one() -> (r: Fe)
        ensures
            fe_val(r) == 1,
    {
        Fe { inner: FieldElement::one() }
    }

    /// Relies on `Clone for FieldElement`: the copy has the same value.
    #[verifier::external_body]
    pub fn dup(&self) -> (r: Fe)
        ensures
            fe_val(r) == fe_val(*self),
    {
        Fe { inner: self.inner.clone() }
    }

    /// Relies on `Add for FieldElement`: modular addition.
    #[verifier::external_body]
    pub fn add(&self, other: &Fe) -> (r: Fe)
        ensures
            fe_val(r) == (fe_val(*self) + fe_val(*other)) % stark_prime(),
            in_field(fe_val(r)),
    {
        Fe { inner: &self.inner + &other.inner }
    }

    /// Relies on `Sub for FieldElement`: modular subtraction.
    #[verifier::external_body]
    pub fn sub(&self, other: &Fe) -> (r: Fe)
        ensures
            fe_val(r) == (fe_val(*self) - fe_val(*other)) % stark_prime(),
            in_field(fe_val(r)),
    {
        Fe { inner: &self.inner - &other.inner }
    }

    /// Relies on `Mul for FieldElement`: modular multiplication.
    #[verifier::external_body]
    pub fn mul(&self, other: &Fe) -> (r: Fe)
        ensures
            fe_val(r) == (fe_val(*self) * fe_val(*other)) % stark_prime(),
            in_field(fe_val(r)),
    {
        Fe { inner: &self.inner * &other.inner }
    }

    /// Relies on `Neg for FieldElement`: the additive inverse.
    #[verifier::external_body]
    pub fn neg(&self) -> (r: Fe)
        ensures
            fe_val(r) == (0 - fe_val(*self)) % stark_prime(),
            in_field(fe_val(r)),
    {
        Fe { inner: -&self.inner }
    }

    /// Relies on `FieldElement::inv`: fails exactly on zero, and otherwise
    /// returns the multiplicative inverse.
    #[verifier::external_body]
    pub fn inv(&self) -> (r: Option<Fe>)
        ensures
            r.is_some() <==> fe_val(*self) != 0,
            r.is_some() ==> (fe_val(*self) * fe_val(r.unwrap())) % stark_prime() == 1
                && in_field(fe_val(r.unwrap())),
    {
        match self.inner.inv() {
            Ok(v) => Some(Fe { inner: v }),
            Err(_) => None,
        }
    }

    /// Relies on `FieldElement::pow`: modular exponentiation.
    #[verifier::external_body]
    pub fn pow_u64(&self, exp: u64) -> (r: Fe)
        ensures
            fe_val(r) == vstd::arithmetic::power::pow(fe_val(*self), exp as nat) % stark_prime(),
            in_field(fe_val(r)),
    {
        Fe { inner: self.inner.pow(exp) }
    }

    /// Relies on `PartialEq for FieldElement`: representations are canonical,
    /// so representation equality is value equality.
    #[verifier::external_body]
    pub fn equals(&self, other: &Fe) -> (r: bool)
        ensures
            r <==> fe_val(*self) == fe_val(*other),
    {
        self.inner == other.inner
    }

    /// Relies on `ByteConversion::to_bytes_be` for the Stark field: the
    /// 32-byte big-endian encoding of the canonical value.
    #[verifier::external_body]
    pub fn to_bytes_be(&self) -> (r: [u8; 32])
        ensures
            r@.len() == 32,
            forall|i: int| 0 <= i < 32 ==> r@[i] == be_byte(fe_val(*self), i),
    {
        self.inner.to_bytes_be()
    }
}

/// Relies on `IsFFTField::get_primitive_root_of_unity` for the Stark field:
/// for orders up to the two-adicity it returns the two-adic generator raised
/// to `2^(192 - order)`, an order-`2^order` primitive root of unity. Being
/// primitive in a prime field, its first `2^order` powers are pairwise
/// distinct, and multiplying them by any nonzero residue keeps them so.
#[verifier::external_body]
pub(crate) fn fe_primitive_root(order: u32) -> (r: Option<Fe>)
    ensures
        r.is_some() <==> order <= two_adicity(),
        r.is_some() ==> fe_val(r.unwrap()) == crate::model::root_val(order as nat)
            && in_field(fe_val(r.unwrap())),
        r.is_some() ==> forall|off: int, a: nat, b: nat|
            #![trigger (off * vstd::arithmetic::power::pow(fe_val(r.unwrap()), a))
                % stark_prime(), (off * vstd::arithmetic::power::pow(fe_val(r.unwrap()), b))
                % stark_prime()]
            off % stark_prime() != 0 && a < b < vstd::arithmetic::power2::pow2(order as nat)
                ==> (off * vstd::arithmetic::power::pow(fe_val(r.unwrap()), a)) % stark_prime()
                != (off * vstd::arithmetic::power::pow(fe_val(r.unwrap()), b)) % stark_prime(),
{
    match Stark252PrimeField::get_primitive_root_of_unity(order as u64) {
        Ok(v) => Some(Fe { inner: v }),
        Err(_) => None,
    }
}

/// Relies on `Polynomial::evaluate_offset_fft`: returns
/// `next_pow2(max(coefficient count, domain size)) * blowup` evaluations of
/// the polynomial on the coset `offset * w^i`, where `w` is the primitive
/// root of unity of the order equal to that count.
#[verifier::external_body]
pub(crate) fn poly_evaluate_offset_fft(p: &Poly, blowup: usize, size: usize, offset: &Fe) -> (r: Vec<Fe>)
    requires
        blowup >= 1,
        is_pow2(blowup as nat),
        is_pow2(size as nat),
        p.vals().len() <= 0x1000_0000,
        size * blowup <= 0x1000_0000,
    ensures
        r@.len() == next_pow2(max2(p.vals().len(), size as nat)) * blowup,
        all_in_field(fe_seq_vals(r@)),
        forall|i: int|
            0 <= i < r@.len() ==> fe_val(r@[i]) == eval_val(
                p.vals(),
                coset_point(log2(r@.len() as nat), fe_val(*offset), i as nat),
            ),
{
    let coeffs: Vec<FieldElement<Stark252PrimeField>> =
        p.coefficients.iter().map(|e| e.inner.clone()).collect();
    let lp = Polynomial { coefficients: coeffs };
    let evals = Polynomial::evaluate_offset_fft::<Stark252PrimeField>(
        &lp, blowup, Some(size), &offset.inner).unwrap();
    evals.into_iter().map(|e| Fe { inner: e }).collect()
}

/// Relies on `Polynomial::interpolate_fft`: returns the polynomial of degree
/// below the input length whose value at `w^i` is the `i`-th input, `w` the
/// primitive root of unity of the input length's order. It is the inverse of
/// the evaluation: when the inputs are the evaluations of a polynomial of
/// degree below their count, that polynomial (up to trailing zeros) is
/// returned.
#[verifier::external_body]
pub(crate) fn poly_interpolate_fft(evals: &Vec<Fe>) -> (r: Poly)
    requires
        evals@.len() >= 1,
        is_pow2(evals@.len() as nat),
        evals@.len() <= 0x1000_0000,
    ensures
        r.wf(),
        r.vals().len() <= evals@.len(),
        forall|i: int|
            0 <= i < evals@.len() ==> eval_val(
                r.vals(),
                coset_point(log2(evals@.len() as nat), 1, i as nat),
            ) == fe_val(evals@[i]),
        forall|p: Seq<int>|
            all_in_field(p) && p.len() <= evals@.len() && (forall|i: int|
                0 <= i < evals@.len() ==> eval_val(
                    p,
                    coset_point(log2(evals@.len() as nat), 1, i as nat),
                ) == fe_val(evals@[i])) ==> r.vals() == #[trigger] trim_zeros(p),
{
    let vals: Vec<FieldElement<Stark252PrimeField>> =
        evals.iter().map(|e| e.inner.clone()).collect();
    let lp = Polynomial::interpolate_fft::<Stark252PrimeField>(&vals).unwrap();
    Poly { coefficients: lp.coefficients.into_iter().map(|e| Fe { inner: e }).collect() }
}

/// Relies on `Polynomial::interpolate_offset_fft`: as `interpolate_fft`, on
/// the coset shifted by a nonzero `offset`.
#[verifier::external_body]
pub(crate) fn poly_interpolate_offset_fft(evals: &Vec<Fe>, offset: &Fe) -> (r: Poly)
    requires
        evals@.len() >= 1,
        is_pow2(evals@.len() as nat),
        evals@.len() <= 0x1000_0000,
        fe_val(*offset) != 0,
    ensures
        r.wf(),
        r.vals().len() <= evals@.len(),
        forall|i: int|
            0 <= i < evals@.len() ==> eval_val(
                r.vals(),
                coset_point(log2(evals@.len() as nat), fe_val(*offset), i as nat),
            ) == fe_val(evals@[i]),
{
    let vals: Vec<FieldElement<Stark252PrimeField>> =
        evals.iter().map(|e| e.inner.clone()).collect();
    let lp = Polynomial::interpolate_offset_fft::<Stark252PrimeField>(&vals, &offset.inner)
        .unwrap();
    Poly { coefficients: lp.coefficients.into_iter().map(|e| Fe { inner: e }).collect() }
}

/// Relies on `Polynomial::interpolate` (Lagrange): fails exactly when the
/// point lists differ in length or share an x-coordinate; otherwise the
/// result passes through every point with degree below the point count, and
/// — the interpolant of degree below the point count being unique — equals
/// any coefficient sequence of that degree passing through the same points,
/// up to trailing zeros.
#[verifier::external_body]
pub(crate) fn poly_interpolate(xs: &Vec<Fe>, ys: &Vec<Fe>) -> (r: Option<Poly>)
    ensures
        r.is_some() <==> (xs@.len() == ys@.len() && (forall|i: int, j: int|
            0 <= i < j < xs@.len() ==> fe_val(xs@[i]) != fe_val(xs@[j]))),
        r.is_some() ==> r.unwrap().wf() && r.unwrap().vals().len() <= xs@.len(),
        r.is_some() ==> forall|i: int|
            0 <= i < xs@.len() ==> eval_val(r.unwrap().vals(), fe_val(xs@[i])) == fe_val(ys@[i]),
        r.is_some() ==> forall|p: Seq<int>|
            all_in_field(p) && p.len() <= xs@.len() && (forall|i: int|
                0 <= i < xs@.len() ==> eval_val(p, fe_val(xs@[i])) == fe_val(ys@[i]))
                ==> r.unwrap().vals() == #[trigger] trim_zeros(p),
{
    let xv: Vec<FieldElement<Stark252PrimeField>> =
        xs.iter().map(|e| e.inner.clone()).collect();
    let yv: Vec<FieldElement<Stark252PrimeField>> =
        ys.iter().map(|e| e.inner.clone()).collect();
    match Polynomial::interpolate(&xv, &yv) {
        Ok(lp) => Some(Poly {
            coefficients: lp.coefficients.into_iter().map(|e| Fe { inner: e }).collect(),
        }),
        Err(_) => None,
    }
}

/// Relies on `Polynomial::ruffini_division`: synthetic division by the
/// linear factor `x - b`, with trailing zero coefficients trimmed.
#[verifier::external_body]
pub(crate) fn poly_ruffini(p: &Poly, b: &Fe) -> (r: Poly)
    ensures
        r.wf(),
        r.vals() == trim_zeros(ruffini_quotient(p.vals(), fe_val(*b))),
{
    let coeffs: Vec<FieldElement<Stark252PrimeField>> =
        p.coefficients.iter().map(|e| e.inner.clone()).collect();
    let lp = Polynomial { coefficients: coeffs };
    let q = lp.ruffini_division(&b.inner);
    Poly { coefficients: q.coefficients.into_iter().map(|e| Fe { inner: e }).collect() }
}

/// A Merkle tree committing to a vector of field elements, with Keccak-256
/// leaf and node hashes.
#[verifier::external_body]
pub struct CommitTree {
    inner: MerkleTree<Keccak256Backend<Stark252PrimeField>>,
}

/// The canonical values of the leaves a tree was built from.
pub uninterp spec fn tree_vals(t: CommitTree) -> Seq<int>;

/// The Merkle root determined by a leaf sequence.
pub uninterp spec fn merkle_root_of(leaves: Seq<int>) -> Seq<u8>;

/// The Merkle authentication path determined by a leaf sequence and a position.
pub uninterp spec fn merkle_path_of(leaves: Seq<int>, pos: nat) -> Seq<Seq<u8>>;

/// Relies on `MerkleTree::build`: fails exactly on an empty leaf vector.
#[verifier::external_body]
pub(crate) fn commit_evals(evals: &Vec<Fe>) -> (r: Option<CommitTree>)
    ensures
        r.is_some() <==> evals@.len() >= 1,
        r.is_some() ==> tree_vals(r.unwrap()) == fe_seq_vals(evals@),
{
    let vals: Vec<FieldElement<Stark252PrimeField>> =
        evals.iter().map(|e| e.inner.clone()).collect();
    MerkleTree::build(&vals).map(|t| CommitTree { inner: t })
}

impl CommitTree {
    /// Relies on the `root` field of `MerkleTree`: a Keccak-256 hash fully
    /// determined by the leaves.
    #[verifier::external_body]
    pub fn root(&self) -> (r: [u8; 32])
        ensures
            r@ == merkle_root_of(tree_vals(*self)),
    {
        self.inner.root
    }

    /// Relies on `MerkleTree::get_proof_by_pos`: succeeds for every position
    /// below the leaf count, returning the authentication path.
    #[verifier::external_body]
    pub fn path(&self, pos: usize) -> (r: Option<Vec<[u8; 32]>>)
        ensures
            pos < tree_vals(*self).len() ==> r.is_some(),
            r.is_some() ==> r.unwrap()@.map_values(|n: [u8; 32]| n@)
                == merkle_path_of(tree_vals(*self), pos as nat),
    {
        self.inner.get_proof_by_pos(pos).map(|p| p.merkle_path)
    }
}

/// The Fiat-Shamir transcript: a running Keccak-256 state absorbing every
/// protocol message in order and emitting the verifier's challenges.
#[verifier::external_body]
pub struct StarkTranscript {
    inner: DefaultTranscript<Stark252PrimeField>,
}

/// The ordered list of byte chunks the transcript's hash state has absorbed
/// since the last challenge was drawn. Appending pushes a chunk; drawing a
/// challenge finalizes and resets the state, which then absorbs the emitted
/// challenge alone, so after a draw the list is exactly the challenge.
pub uninterp spec fn transcript_log(t: StarkTranscript) -> Seq<Seq<u8>>;

/// The 32 challenge bytes that `DefaultTranscript::sample` derives from a
/// given absorbed history: the reversed Keccak-256 digest of its chunks.
pub uninterp spec fn challenge_bytes_of(log: Seq<Seq<u8>>) -> Seq<u8>;

/// The canonical field value that `get_random_field_element_from_rng` draws
/// from a 32-byte challenge seed.
pub uninterp spec fn fe_from_seed(seed: Seq<u8>) -> int;

/// The 32-byte big-endian encoding of a canonical field value.
pub open spec fn fe_bytes_be(v: int) -> Seq<u8> {
    Seq::new(32, |i: int| be_byte(v, i))
}

/// The absorbed history after drawing `n` consecutive challenges: each draw
/// resets the state, which then holds exactly the emitted challenge.
pub open spec fn log_after_samples(log: Seq<Seq<u8>>, n: nat) -> Seq<Seq<u8>>
    decreases n,
{
    if n == 0 {
        log
    } else {
        seq![challenge_bytes_of(log_after_samples(log, (n - 1) as nat))]
    }
}

impl StarkTranscript {
    /// Relies on `DefaultTranscript::new`, which absorbs its (empty) seed.
    #[verifier::external_body]
    pub fn start() -> (r: StarkTranscript)
        ensures
            transcript_log(r) == seq![Seq::<u8>::empty()],
    {
        StarkTranscript { inner: DefaultTranscript::new(&[]) }
    }

    /// Relies on `IsTranscript::append_bytes`: absorbs the bytes.
    #[verifier::external_body]
    pub fn append_bytes32(&mut self, data: &[u8; 32])
        ensures
            transcript_log(*final(self)) == transcript_log(*old(self)).push(data@),
    {
        self.inner.append_bytes(data);
    }

    /// Relies on `IsTranscript::append_field_element`: absorbs the element's
    /// big-endian byte encoding.
    #[verifier::external_body]
    pub fn append_fe(&mut self, x: &Fe)
        ensures
            transcript_log(*final(self)) == transcript_log(*old(self)).push(fe_bytes_be(fe_val(*x))),
    {
        self.inner.append_field_element(&x.inner);
    }

    /// Relies on `IsTranscript::sample_field_element`: a canonical field
    /// element drawn from the challenge bytes of the absorbed history. The
    /// draw resets the hash state, which then absorbs the challenge alone.
    #[verifier::external_body]
    pub fn sample_fe(&mut self) -> (r: Fe)
        ensures
            in_field(fe_val(r)),
            fe_val(r) == fe_from_seed(challenge_bytes_of(transcript_log(*old(self)))),
            transcript_log(*final(self)) == seq![
                challenge_bytes_of(transcript_log(*old(self))),
            ],
    {
        Fe { inner: self.inner.sample_field_element() }
    }

    /// Relies on `DefaultTranscript::sample`: the 32 challenge bytes of the
    /// absorbed history. The draw resets the hash state, which then absorbs
    /// the challenge alone.
    #[verifier::external_body]
    pub fn sample_bytes32(&mut self) -> (r: [u8; 32])
        ensures
            r@ == challenge_bytes_of(transcript_log(*old(self))),
            transcript_log(*final(self)) == seq![r@],
    {
        self.inner.sample()
    }

    /// Relies on `IsTranscript::sample_z_ood`: a field element outside both
    /// given point lists, found by repeated sampling — the number of
    /// absorbed challenges depends on the values drawn, so nothing more is
    /// said of the resulting history.
    #[verifier::external_body]
    pub fn sample_z(&mut self, lde: &Vec<Fe>, trace: &Vec<Fe>) -> (r: Fe)
        ensures
            in_field(fe_val(r)),
            forall|i: int| 0 <= i < lde@.len() ==> fe_val(r) != fe_val(lde@[i]),
            forall|i: int| 0 <= i < trace@.len() ==> fe_val(r) != fe_val(trace@[i]),
    {
        let lv: Vec<FieldElement<Stark252PrimeField>> =
            lde.iter().map(|e| e.inner.clone()).collect();
        let tv: Vec<FieldElement<Stark252PrimeField>> =
            trace.iter().map(|e| e.inner.clone()).collect();
        Fe { inner: self.inner.sample_z_ood(&lv, &tv) }
    }
}

} // verus!
