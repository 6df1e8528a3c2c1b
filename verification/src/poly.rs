//! Dense univariate polynomials over the Stark field, as plain coefficient
//! vectors (lowest degree first). Trailing zero coefficients are allowed.
//! The closed set of operations the protocol needs — addition, subtraction,
//! scaling, evaluation, the even/odd split and linear factors — is
//! implemented and verified here; interpolation, the FFT and division by a
//! linear factor are engine calls specified in `backend`.

use vstd::prelude::*;

use crate::backend::{fe_val, max2, Fe};
use crate::model::{all_in_field, in_field, stark_prime};

verus! {

/// The entry of a coefficient sequence at `i`, reading absent entries as zero.
pub open spec fn at0(s: Seq<int>, i: int) -> int {
    if 0 <= i < s.len() {
        s[i]
    } else {
        0
    }
}

/// A polynomial `c[0] + c[1] x + c[2] x^2 + ...` over the Stark field.
pub struct Poly {
    pub coefficients: Vec<Fe>,
}

impl Poly {
    /// The canonical integer values of the coefficients.
    pub open spec fn vals(&self) -> Seq<int> {
        self.coefficients@.map_values(|e: Fe| fe_val(e))
    }

    /// All coefficients are canonical field values.
    pub open spec fn wf(&self) -> bool {
        all_in_field(self.vals())
    }

    /// The zero polynomial.
    pub fn zero() -> (r: Poly)
        ensures
            r.vals() =~= Seq::<int>::empty(),
            r.wf(),
    {
        Poly { coefficients: Vec::new() }
    }

    /// The constant polynomial `c`.
    pub fn constant(c: &Fe) -> (r: Poly)
        ensures
            r.vals() =~= seq![fe_val(*c)],
            in_field(fe_val(*c)) ==> r.wf(),
    {
        let mut coefficients: Vec<Fe> = Vec::new();
        coefficients.push(c.dup());
        Poly { coefficients }
    }

    /// The linear factor `x - c`.
    pub fn linear_sub(c: &Fe) -> (r: Poly)
        ensures
            r.vals() =~= seq![(0 - fe_val(*c)) % stark_prime(), 1],
            r.wf(),
    {
        let mut coefficients: Vec<Fe> = Vec::new();
        coefficients.push(c.neg());
        coefficients.push(Fe::one());
        proof {
            assert(in_field(1)) by {
                assert(stark_prime() > 1);
            }
        }
        Poly { coefficients }
    }

    /// A copy with the same coefficient values.
    pub fn dup(&self) -> (r: Poly)
        ensures
            r.vals() =~= self.vals(),
    {
        let mut coefficients: Vec<Fe> = Vec::new();
        let mut i: usize = 0;
        while i < self.coefficients.len()
            invariant
                i <= self.coefficients.len(),
                coefficients@.len() == i,
                forall|j: int| 0 <= j < i ==> fe_val(coefficients@[j]) == fe_val(self.coefficients@[j]),
            decreases self.coefficients.len() - i,
        {
            coefficients.push(self.coefficients[i].dup());
            i += 1;
        }
        let r = Poly { coefficients };
        proof {
            assert forall|j: int| 0 <= j < r.vals().len() implies r.vals()[j] == self.vals()[j] by {}
        }
        r
    }

    /// Coefficient-wise modular addition, padding the shorter polynomial
    /// with zeros.
    pub fn add(&self, other: &Poly) -> (r: Poly)
        requires
            self.wf(),
            other.wf(),
        ensures
            r.wf(),
            r.vals().len() == max2(self.vals().len(), other.vals().len()),
            forall|i: int|
                0 <= i < r.vals().len() ==> r.vals()[i] == (at0(self.vals(), i) + at0(
                    other.vals(),
                    i,
                )) % stark_prime(),
    {
        let n = if self.coefficients.len() >= other.coefficients.len() {
            self.coefficients.len()
        } else {
            other.coefficients.len()
        };
        let mut coefficients: Vec<Fe> = Vec::new();
        let mut i: usize = 0;
        while i < n
            invariant
                self.wf(),
                other.wf(),
                i <= n,
                n == max2(self.vals().len(), other.vals().len()),
                coefficients@.len() == i,
                forall|j: int|
                    0 <= j < i ==> fe_val(#[trigger] coefficients@[j]) == (at0(self.vals(), j)
                        + at0(other.vals(), j)) % stark_prime(),
                forall|j: int| 0 <= j < i ==> in_field(fe_val(#[trigger] coefficients@[j])),
            decreases n - i,
        {
            let c = if i < self.coefficients.len() && i < other.coefficients.len() {
                self.coefficients[i].add(&other.coefficients[i])
            } else if i < self.coefficients.len() {
                proof {
                    vstd::arithmetic::div_mod::lemma_small_mod(
                        at0(self.vals(), i as int) as nat,
                        stark_prime() as nat,
                    );
                }
                self.coefficients[i].dup()
            } else {
                proof {
                    vstd::arithmetic::div_mod::lemma_small_mod(
                        at0(other.vals(), i as int) as nat,
                        stark_prime() as nat,
                    );
                }
                other.coefficients[i].dup()
            };
            coefficients.push(c);
            i += 1;
        }
        Poly { coefficients }
    }

    /// Coefficient-wise modular subtraction, padding the shorter polynomial
    /// with zeros.
    pub fn sub(&self, other: &Poly) -> (r: Poly)
        requires
            self.wf(),
            other.wf(),
        ensures
            r.wf(),
            r.vals().len() == max2(self.vals().len(), other.vals().len()),
            forall|i: int|
                0 <= i < r.vals().len() ==> r.vals()[i] == (at0(self.vals(), i) - at0(
                    other.vals(),
                    i,
                )) % stark_prime(),
    {
        let n = if self.coefficients.len() >= other.coefficients.len() {
            self.coefficients.len()
        } else {
            other.coefficients.len()
        };
        let mut coefficients: Vec<Fe> = Vec::new();
        let mut i: usize = 0;
        while i < n
            invariant
                self.wf(),
                other.wf(),
                i <= n,
                n == max2(self.vals().len(), other.vals().len()),
                coefficients@.len() == i,
                forall|j: int|
                    0 <= j < i ==> fe_val(#[trigger] coefficients@[j]) == (at0(self.vals(), j)
                        - at0(other.vals(), j)) % stark_prime(),
                forall|j: int| 0 <= j < i ==> in_field(fe_val(#[trigger] coefficients@[j])),
            decreases n - i,
        {
            let zero = Fe::zero();
            let a = if i < self.coefficients.len() {
                &self.coefficients[i]
            } else {
                &zero
            };
            let c = if i < other.coefficients.len() {
                a.sub(&other.coefficients[i])
            } else {
                proof {
                    vstd::arithmetic::div_mod::lemma_small_mod(
                        at0(self.vals(), i as int) as nat,
                        stark_prime() as nat,
                    );
                }
                a.dup()
            };
            coefficients.push(c);
            i += 1;
        }
        Poly { coefficients }
    }

    /// Multiplication by a scalar.
    pub fn scale(&self, k: &Fe) -> (r: Poly)
        ensures
            r.wf(),
            r.vals().len() == self.vals().len(),
            forall|i: int|
                0 <= i < r.vals().len() ==> r.vals()[i] == (fe_val(*k) * self.vals()[i])
                    % stark_prime(),
    {
        let mut coefficients: Vec<Fe> = Vec::new();
        let mut i: usize = 0;
        while i < self.coefficients.len()
            invariant
                i <= self.coefficients.len(),
                coefficients@.len() == i,
                forall|j: int|
                    0 <= j < i ==> fe_val(#[trigger] coefficients@[j]) == (fe_val(*k)
                        * self.vals()[j]) % stark_prime(),
                forall|j: int| 0 <= j < i ==> in_field(fe_val(#[trigger] coefficients@[j])),
            decreases self.coefficients.len() - i,
        {
            coefficients.push(k.mul(&self.coefficients[i]));
            i += 1;
        }
        Poly { coefficients }
    }

    /// The even/odd coefficient split: polynomials `E` and `O` with
    /// `P(x) = E(x^2) + x * O(x^2)` — the value-level identity is
    /// `crate::lemmas::lemma_even_odd_eval`.
    pub fn even_odd_decomposition(&self) -> (r: (Poly, Poly))
        ensures
            r.0.vals() == crate::model::evens(self.vals()),
            r.1.vals() == crate::model::odds(self.vals()),
            r.0.vals().len() == (self.vals().len() + 1) / 2,
            r.1.vals().len() == self.vals().len() / 2,
            self.wf() ==> r.0.wf() && r.1.wf(),
    {
        let n = self.coefficients.len();
        let mut even: Vec<Fe> = Vec::new();
        let mut odd: Vec<Fe> = Vec::new();
        let mut i: usize = 0;
        while i < n / 2
            invariant
                i <= n / 2,
                n == self.vals().len(),
                even@.len() == i,
                odd@.len() == i,
                forall|j: int|
                    0 <= j < i ==> fe_val(#[trigger] even@[j]) == self.vals()[2 * j],
                forall|j: int|
                    0 <= j < i ==> fe_val(#[trigger] odd@[j]) == self.vals()[2 * j + 1],
            decreases n / 2 - i,
        {
            even.push(self.coefficients[2 * i].dup());
            odd.push(self.coefficients[2 * i + 1].dup());
            i += 1;
        }
        if n % 2 == 1 {
            even.push(self.coefficients[n - 1].dup());
        }
        let e = Poly { coefficients: even };
        let o = Poly { coefficients: odd };
        proof {
            assert(e.vals() =~= crate::model::evens(self.vals()));
            assert(o.vals() =~= crate::model::odds(self.vals()));
            if self.wf() {
                assert forall|j: int| 0 <= j < e.vals().len() implies in_field(
                    #[trigger] e.vals()[j],
                ) by {
                    assert(e.vals()[j] == self.vals()[2 * j]);
                    assert(in_field(self.vals()[2 * j]));
                }
                assert forall|j: int| 0 <= j < o.vals().len() implies in_field(
                    #[trigger] o.vals()[j],
                ) by {
                    assert(o.vals()[j] == self.vals()[2 * j + 1]);
                    assert(in_field(self.vals()[2 * j + 1]));
                }
            }
        }
        (e, o)
    }
}

/// Evaluates a polynomial at `x` by Horner's rule over the field
/// operations: the running value is the evaluation of the coefficients not
/// yet folded in.
pub(crate) fn poly_eval(p: &Poly, x: &Fe) -> (r: Fe)
    ensures
        fe_val(r) == crate::model::eval_val(p.vals(), fe_val(*x)),
        in_field(fe_val(r)),
{
    let mut acc = Fe::zero();
    let mut k: usize = p.coefficients.len();
    proof {
        assert(p.vals().skip(k as int).len() == 0);
        assert(stark_prime() > 0);
    }
    while k > 0
        invariant
            k <= p.vals().len(),
            fe_val(acc) == crate::model::eval_val(p.vals().skip(k as int), fe_val(*x)),
            in_field(fe_val(acc)),
        decreases k,
    {
        k -= 1;
        let folded = p.coefficients[k].add(&x.mul(&acc));
        proof {
            let c = p.vals();
            let xv = fe_val(*x);
            assert(c.skip(k as int).drop_first() =~= c.skip(k as int + 1));
            assert(c.skip(k as int)[0] == c[k as int]);
            vstd::arithmetic::div_mod::lemma_add_mod_noop_right(
                c[k as int],
                xv * crate::model::eval_val(c.skip(k as int + 1), xv),
                stark_prime(),
            );
        }
        acc = folded;
    }
    proof {
        assert(p.vals().skip(0) =~= p.vals());
    }
    acc
}

} // verus!
