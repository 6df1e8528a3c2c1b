//! The mathematical model of the prover: integer values of field elements,
//! polynomial evaluation over those values, and the two-adic roots of unity
//! of the Stark 252-bit prime field.

use vstd::prelude::*;

use vstd::arithmetic::power::pow;
use vstd::arithmetic::power2::pow2;

verus! {

/// The Stark prime `2^251 + 17 * 2^192 + 1`: the order of the base field.
pub open spec fn stark_prime() -> int {
    0x800000000000011000000000000000000000000000000000000000000000001int
}

/// The canonical value of the field's two-adic generator: a primitive root
/// of unity of order `2^192`.
pub open spec fn two_adic_root() -> int {
    0x5282db87529cfa3f0464519c8b0fa5ad187148e11a61616070024f42f8ef94int
}

/// The two-adicity of the field: `two_adic_root()` has order `2^192`.
pub open spec fn two_adicity() -> nat {
    192
}

/// A canonical field value: an integer in `[0, stark_prime())`.
pub open spec fn in_field(v: int) -> bool {
    0 <= v < stark_prime()
}

/// Every entry of the sequence is a canonical field value.
pub open spec fn all_in_field(s: Seq<int>) -> bool {
    forall|i: int| 0 <= i < s.len() ==> in_field(#[trigger] s[i])
}

/// The canonical value of the primitive root of unity of order `2^order`,
/// derived from the two-adic generator by repeated squaring.
pub open spec fn root_val(order: nat) -> int {
    if order == 0 {
        1
    } else {
        pow(two_adic_root(), pow2((two_adicity() - order) as nat)) % stark_prime()
    }
}

/// The `i`-th point of the coset of order `2^order` shifted by `offset`:
/// `offset * root^i` as a canonical value.
pub open spec fn coset_point(order: nat, offset: int, i: nat) -> int {
    (offset * pow(root_val(order), i)) % stark_prime()
}

/// Horner evaluation of a coefficient sequence (lowest degree first) at `x`,
/// reduced modulo the prime at every step.
pub open spec fn eval_val(c: Seq<int>, x: int) -> int
    decreases c.len(),
{
    if c.len() == 0 {
        0
    } else {
        (c[0] + x * eval_val(c.drop_first(), x)) % stark_prime()
    }
}

/// The quotient of dividing the polynomial with coefficients `c` by the
/// linear factor `x - b` (synthetic division): the `i`-th quotient
/// coefficient is the Horner evaluation of the coefficients above degree `i`.
pub open spec fn ruffini_quotient(c: Seq<int>, b: int) -> Seq<int> {
    if c.len() == 0 {
        Seq::empty()
    } else {
        Seq::new((c.len() - 1) as nat, |i: int| eval_val(c.skip(i + 1), b))
    }
}

/// `c` with its trailing zero entries removed.
pub open spec fn trim_zeros(c: Seq<int>) -> Seq<int>
    decreases c.len(),
{
    if c.len() == 0 {
        c
    } else if c.last() == 0 {
        trim_zeros(c.drop_last())
    } else {
        c
    }
}

/// The out-of-domain point shifted by the `off`-th power of the trace
/// domain's generator: `z * root^off` as a canonical value.
pub open spec fn shift_point(z: int, root: int, off: nat) -> int {
    (z * (pow(root, off) % stark_prime())) % stark_prime()
}

/// The even-indexed coefficients of `c`: the even half of the split.
pub open spec fn evens(c: Seq<int>) -> Seq<int> {
    Seq::new((c.len() + 1) / 2, |i: int| c[2 * i])
}

/// The odd-indexed coefficients of `c`: the odd half of the split.
pub open spec fn odds(c: Seq<int>) -> Seq<int> {
    Seq::new(c.len() / 2, |i: int| c[2 * i + 1])
}

/// The smallest power of two that is at least `max(n, 1)`.
pub open spec fn next_pow2(n: nat) -> nat
    decreases n,
{
    if n <= 1 {
        1
    } else {
        2 * next_pow2(((n + 1) / 2) as nat)
    }
}

/// `n` is a power of two.
pub open spec fn is_pow2(n: nat) -> bool
    decreases n,
{
    if n == 0 {
        false
    } else if n == 1 {
        true
    } else {
        n % 2 == 0 && is_pow2((n / 2) as nat)
    }
}

/// The base-two logarithm of `n`, rounded down.
pub open spec fn log2(n: nat) -> nat
    decreases n,
{
    if n <= 1 {
        0
    } else {
        1 + log2((n / 2) as nat)
    }
}

/// Big-endian byte `i` (of 32) of the canonical value `v`.
pub open spec fn be_byte(v: int, i: int) -> u8 {
    ((v / pow(256, (31 - i) as nat)) % 256) as u8
}

/// Coefficient-wise modular addition of coefficient sequences, padding the
/// shorter one with zeros.
pub open spec fn add_vals(a: Seq<int>, b: Seq<int>) -> Seq<int> {
    Seq::new(
        if a.len() >= b.len() {
            a.len()
        } else {
            b.len()
        },
        |i: int|
            ((if 0 <= i < a.len() {
                a[i]
            } else {
                0
            }) + (if 0 <= i < b.len() {
                b[i]
            } else {
                0
            })) % stark_prime(),
    )
}

/// Coefficient-wise modular subtraction, padding the shorter sequence with
/// zeros.
pub open spec fn sub_vals(a: Seq<int>, b: Seq<int>) -> Seq<int> {
    Seq::new(
        if a.len() >= b.len() {
            a.len()
        } else {
            b.len()
        },
        |i: int|
            ((if 0 <= i < a.len() {
                a[i]
            } else {
                0
            }) - (if 0 <= i < b.len() {
                b[i]
            } else {
                0
            })) % stark_prime(),
    )
}

/// Multiplication of a coefficient sequence by a scalar.
pub open spec fn scale_vals(k: int, a: Seq<int>) -> Seq<int> {
    Seq::new(a.len(), |i: int| (k * a[i]) % stark_prime())
}

/// A composition-half term of the DEEP polynomial:
/// `gamma * (H_half - claimed) / (x - pole)`, the scalar applied before the
/// exact division by the linear factor.
pub open spec fn comp_quotient_term(c: Seq<int>, claimed: int, pole: int, gamma: int) -> Seq<
    int,
> {
    trim_zeros(ruffini_quotient(scale_vals(gamma, sub_vals(c, seq![claimed])), pole))
}

/// A trace term of the DEEP polynomial:
/// `gamma * (t_j - t_j(z g^k)) / (x - z g^k)`, the scalar applied after the
/// exact division by the linear factor.
pub open spec fn trace_quotient_term(c: Seq<int>, claimed: int, pole: int, gamma: int) -> Seq<
    int,
> {
    scale_vals(gamma, trim_zeros(ruffini_quotient(sub_vals(c, seq![claimed]), pole)))
}

/// The sum of the first `n` trace terms of the DEEP polynomial, taken in
/// the protocol's order: trace polynomial by trace polynomial, frame offset
/// by frame offset within each, with one coefficient per pair. Each term's
/// claimed value is the true evaluation at the shifted point.
pub open spec fn deep_trace_terms(
    polys: Seq<Seq<int>>,
    z: int,
    root: int,
    offsets: Seq<nat>,
    gammas: Seq<int>,
    n: nat,
) -> Seq<int>
    decreases n,
{
    if n == 0 || offsets.len() == 0 {
        Seq::empty()
    } else {
        let i = (n - 1) as int / offsets.len() as int;
        let j = (n - 1) as int % offsets.len() as int;
        let pole = shift_point(z, root, offsets[j]);
        add_vals(
            deep_trace_terms(polys, z, root, offsets, gammas, (n - 1) as nat),
            trace_quotient_term(polys[i], eval_val(polys[i], pole), pole, gammas[n - 1]),
        )
    }
}

/// One FRI folding step on coefficient sequences: entry `i` of the result
/// combines the even and odd coefficients as `c[2i] + beta * c[2i+1]`.
pub open spec fn fold_vals(c: Seq<int>, beta: int) -> Seq<int> {
    Seq::new(
        ((c.len() + 1) / 2) as nat,
        |i: int|
            (c[2 * i] + beta * (if 2 * i + 1 < c.len() {
                c[2 * i + 1]
            } else {
                0
            })) % stark_prime(),
    )
}

} // verus!
