//! The evaluation domains of a proof run: the trace's roots of unity and the
//! blown-up coset they are extended to, derived from the AIR context.

use vstd::prelude::*;

use crate::air::{Air, AirCtx};
use crate::backend::{fe_primitive_root, fe_val, Fe};
use crate::lemmas::{lemma_log2_le, lemma_pow2_log2, lemma_pow2_mul, lemma_root_pow_down};
use crate::model::{coset_point, in_field, is_pow2, log2, root_val, stark_prime, two_adicity};
use crate::ProvingError;

verus! {

/// Whether `n` is a power of two.
pub fn is_pow2_exec(n: usize) -> (r: bool)
    ensures
        r == is_pow2(n as nat),
{
    if n == 0 {
        return false;
    }
    let mut m: usize = n;
    while m % 2 == 0 && m > 1
        invariant
            m >= 1,
            is_pow2(n as nat) == is_pow2(m as nat),
        decreases m,
    {
        m = m / 2;
    }
    m == 1
}

/// The base-two logarithm of a power of two.
pub fn log2_exec(n: usize) -> (r: u32)
    requires
        is_pow2(n as nat),
    ensures
        r == log2(n as nat),
{
    proof {
        lemma_pow2_log2(n as nat);
        vstd::arithmetic::power2::lemma2_to64();
        vstd::arithmetic::power2::lemma2_to64_rest();
        lemma_log2_le(n as nat, 64);
    }
    let mut m: usize = n;
    let mut c: u32 = 0;
    while m > 1
        invariant
            m >= 1,
            is_pow2(m as nat),
            c + log2(m as nat) == log2(n as nat),
            log2(n as nat) <= 64,
        decreases m,
    {
        m = m / 2;
        c += 1;
    }
    c
}

/// The parameters under which a domain can be built: power-of-two trace
/// length and blowup, a bounded extended size, and a nonzero coset offset.
/// A one-row trace is rejected: an evaluation domain needs at least two
/// points for a root order of at least one.
pub open spec fn domain_params_ok(c: AirCtx) -> bool {
    &&& c.trace_length >= 2
    &&& is_pow2(c.trace_length)
    &&& c.blowup_factor >= 1
    &&& is_pow2(c.blowup_factor)
    &&& c.trace_length * c.blowup_factor <= 0x1000_0000
    &&& c.coset_offset >= 1
}

/// The trace and low-degree-extension evaluation domains of one proof run.
pub struct Domain {
    pub root_order: u32,
    pub lde_root_order: u32,
    pub interpolation_domain_size: usize,
    pub blowup_factor: usize,
    pub coset_offset: Fe,
    pub trace_primitive_root: Fe,
    pub trace_roots_of_unity: Vec<Fe>,
    pub lde_roots_of_unity_coset: Vec<Fe>,
}

impl Domain {
    /// The internal consistency of a domain: the orders are the logarithms
    /// of the sizes, the primitive root is the right power of the two-adic
    /// generator, and both point lists hold exactly the coset points.
    pub open spec fn wf(&self) -> bool {
        &&& self.interpolation_domain_size >= 2
        &&& is_pow2(self.interpolation_domain_size as nat)
        &&& self.blowup_factor >= 1
        &&& is_pow2(self.blowup_factor as nat)
        &&& self.interpolation_domain_size * self.blowup_factor <= 0x1000_0000
        &&& self.root_order == log2(self.interpolation_domain_size as nat)
        &&& 1 <= self.root_order
        &&& self.lde_root_order == log2(
            (self.interpolation_domain_size * self.blowup_factor) as nat,
        )
        &&& self.root_order <= self.lde_root_order <= two_adicity()
        &&& in_field(fe_val(self.coset_offset))
        &&& fe_val(self.coset_offset) != 0
        &&& fe_val(self.trace_primitive_root) == root_val(self.root_order as nat)
        &&& self.trace_roots_of_unity@.len() == self.interpolation_domain_size
        &&& forall|i: int|
            0 <= i < self.trace_roots_of_unity@.len() ==> fe_val(
                #[trigger] self.trace_roots_of_unity@[i],
            ) == coset_point(self.root_order as nat, 1, i as nat)
        &&& self.lde_roots_of_unity_coset@.len() == self.interpolation_domain_size
            * self.blowup_factor
        &&& forall|i: int|
            0 <= i < self.lde_roots_of_unity_coset@.len() ==> fe_val(
                #[trigger] self.lde_roots_of_unity_coset@[i],
            ) == coset_point(self.lde_root_order as nat, fe_val(self.coset_offset), i as nat)
        &&& forall|a: int, b: int|
            0 <= a < b < self.lde_roots_of_unity_coset@.len() ==> fe_val(
                #[trigger] self.lde_roots_of_unity_coset@[a],
            ) != fe_val(#[trigger] self.lde_roots_of_unity_coset@[b])
    }

    /// The domain matches the AIR context it was built from.
    pub open spec fn matches(&self, c: AirCtx) -> bool {
        &&& self.interpolation_domain_size == c.trace_length
        &&& self.blowup_factor == c.blowup_factor
        &&& fe_val(self.coset_offset) == c.coset_offset
    }

    /// Builds the domain of an AIR: fails exactly when the context's sizes
    /// are not valid domain orders or the coset offset is zero.
    pub fn new<A: Air>(air: &A) -> (r: Result<Domain, ProvingError>)
        ensures
            r.is_ok() <==> domain_params_ok(air.ctx_spec()),
            r.is_ok() ==> r.unwrap().wf() && r.unwrap().matches(air.ctx_spec()),
    {
        let context = air.context();
        let trace_length = context.trace_length;
        let blowup_factor = context.options.blowup_factor as usize;
        if trace_length < 2 || !is_pow2_exec(trace_length) {
            return Err(ProvingError::WrongParameter(
                "trace length is not a power of two".to_string(),
            ));
        }
        if blowup_factor < 1 || !is_pow2_exec(blowup_factor) {
            return Err(ProvingError::WrongParameter(
                "blowup factor is not a power of two".to_string(),
            ));
        }
        if trace_length > 0x1000_0000 / blowup_factor {
            proof {
                vstd::arithmetic::div_mod::lemma_fundamental_div_mod(
                    0x1000_0000,
                    blowup_factor as int,
                );
                assert(trace_length * blowup_factor > 0x1000_0000) by (nonlinear_arith)
                    requires
                        trace_length > 0x1000_0000 as int / blowup_factor as int,
                        blowup_factor >= 1,
                        0x1000_0000 as int == blowup_factor * (0x1000_0000 as int
                            / blowup_factor as int) + 0x1000_0000 as int % blowup_factor as int,
                        (0x1000_0000 as int % blowup_factor as int) < blowup_factor as int;
            }
            return Err(ProvingError::WrongParameter("domain too large".to_string()));
        }
        proof {
            assert(trace_length * blowup_factor <= 0x1000_0000) by (nonlinear_arith)
                requires
                    trace_length <= 0x1000_0000 as int / blowup_factor as int,
                    blowup_factor >= 1;
        }
        if context.options.coset_offset == 0 {
            return Err(ProvingError::WrongParameter("coset offset is zero".to_string()));
        }
        let lde_size = trace_length * blowup_factor;
        proof {
            lemma_pow2_mul(trace_length as nat, blowup_factor as nat);
        }
        let root_order = log2_exec(trace_length);
        let lde_root_order = log2_exec(lde_size);
        proof {
            vstd::arithmetic::power2::lemma2_to64();
            lemma_log2_le(lde_size as nat, 28);
            lemma_pow2_log2(blowup_factor as nat);
        }
        let lde_root = match fe_primitive_root(lde_root_order) {
            Some(root) => root,
            None => {
                proof {
                    assert(false);
                }
                return Err(ProvingError::WrongParameter("order too large".to_string()));
            },
        };
        let trace_primitive_root = lde_root.pow_u64(blowup_factor as u64);
        proof {
            lemma_root_pow_down(lde_root_order as nat, root_order as nat);
        }
        let one = Fe::one();
        let coset_offset = Fe::from_u64(context.options.coset_offset);
        let trace_root_for_powers = match fe_primitive_root(root_order) {
            Some(root) => root,
            None => {
                proof {
                    assert(false);
                }
                return Err(ProvingError::WrongParameter("order too large".to_string()));
            },
        };
        let trace_roots_of_unity = build_coset(
            &trace_root_for_powers,
            &one,
            trace_length,
            Ghost(root_order as nat),
        );
        let lde_roots_of_unity_coset = build_coset(
            &lde_root,
            &coset_offset,
            lde_size,
            Ghost(lde_root_order as nat),
        );
        proof {
            // The coset points are pairwise distinct: the root's first
            // `2^lde_root_order` powers are, and the nonzero offset keeps
            // them so.
            let p = stark_prime();
            let offv = fe_val(coset_offset);
            lemma_pow2_log2(lde_size as nat);
            vstd::arithmetic::div_mod::lemma_small_mod(offv as nat, p as nat);
            assert forall|a: int, b: int|
                0 <= a < b < lde_roots_of_unity_coset@.len() implies fe_val(
                #[trigger] lde_roots_of_unity_coset@[a],
            ) != fe_val(#[trigger] lde_roots_of_unity_coset@[b]) by {
                assert((offv * vstd::arithmetic::power::pow(fe_val(lde_root), a as nat)) % p != (
                offv * vstd::arithmetic::power::pow(fe_val(lde_root), b as nat)) % p);
            }
        }
        Ok(Domain {
            root_order,
            lde_root_order,
            interpolation_domain_size: trace_length,
            blowup_factor,
            coset_offset,
            trace_primitive_root,
            trace_roots_of_unity,
            lde_roots_of_unity_coset,
        })
    }
}

/// The powers `offset * root^i` for `i` below `count`, where `root` is the
/// primitive root of unity of order `2^order`.
fn build_coset(root: &Fe, offset: &Fe, count: usize, Ghost(order): Ghost<nat>) -> (r: Vec<Fe>)
    requires
        fe_val(*root) == root_val(order),
        in_field(fe_val(*offset)),
    ensures
        r@.len() == count,
        forall|i: int|
            0 <= i < count ==> fe_val(#[trigger] r@[i]) == coset_point(
                order,
                fe_val(*offset),
                i as nat,
            ),
{
    let mut points: Vec<Fe> = Vec::new();
    let mut power = Fe::one();
    let mut i: usize = 0;
    proof {
        vstd::arithmetic::power::lemma_pow0(root_val(order));
        vstd::arithmetic::div_mod::lemma_small_mod(1nat, stark_prime() as nat);
    }
    while i < count
        invariant
            i <= count,
            points@.len() == i,
            fe_val(*root) == root_val(order),
            in_field(fe_val(*offset)),
            fe_val(power) == vstd::arithmetic::power::pow(root_val(order), i as nat)
                % stark_prime(),
            forall|j: int|
                0 <= j < i ==> fe_val(#[trigger] points@[j]) == coset_point(
                    order,
                    fe_val(*offset),
                    j as nat,
                ),
        decreases count - i,
    {
        let point = offset.mul(&power);
        proof {
            vstd::arithmetic::div_mod::lemma_mul_mod_noop_right(
                fe_val(*offset),
                vstd::arithmetic::power::pow(root_val(order), i as nat),
                stark_prime(),
            );
        }
        points.push(point);
        let next = power.mul(root);
        proof {
            let p = stark_prime();
            let rv = root_val(order);
            let pw = vstd::arithmetic::power::pow(rv, i as nat);
            vstd::arithmetic::div_mod::lemma_mul_mod_noop_left(pw, rv, p);
            vstd::arithmetic::mul::lemma_mul_is_commutative(pw, rv);
            vstd::arithmetic::power::lemma_pow1(rv);
            vstd::arithmetic::power::lemma_pow_adds(rv, 1, i as nat);
            assert(vstd::arithmetic::power::pow(rv, (i + 1) as nat) == rv * pw);
        }
        power = next;
        i += 1;
    }
    points
}

} // verus!
