//! Proofs about powers of two and about the coset points of the model:
//! the facts that let a denser evaluation grid be subsampled to a coarser
//! coset, and a root of unity be coarsened by powering.

use vstd::prelude::*;

use vstd::arithmetic::div_mod::{lemma_mul_mod_noop_right, lemma_mul_mod_noop_left};
use vstd::arithmetic::mul::lemma_mul_is_associative;
use vstd::arithmetic::power::{lemma_pow_mod_noop, lemma_pow_multiplies, pow};
use vstd::arithmetic::power2::{lemma_pow2_adds, pow2};

use crate::model::{
    coset_point, eval_val, in_field, is_pow2, log2, next_pow2, root_val, stark_prime,
    two_adic_root, two_adicity,
};

verus! {

/// `next_pow2` returns a power of two no smaller than its argument, and is
/// the identity on powers of two.
pub proof fn lemma_next_pow2(n: nat)
    ensures
        is_pow2(next_pow2(n)),
        next_pow2(n) >= n,
        next_pow2(n) >= 1,
        is_pow2(n) ==> next_pow2(n) == n,
    decreases n,
{
    if n <= 1 {
    } else {
        lemma_next_pow2(((n + 1) / 2) as nat);
    }
}

/// Every power of two in the `pow2` sense satisfies the recursive predicate.
pub proof fn lemma_is_pow2_pow2(k: nat)
    ensures
        is_pow2(pow2(k)),
    decreases k,
{
    if k == 0 {
        assert(pow2(0) == 1) by {
            vstd::arithmetic::power2::lemma_pow2(0);
            vstd::arithmetic::power::lemma_pow0(2);
        }
    } else {
        vstd::arithmetic::power2::lemma_pow2_unfold(k);
        lemma_is_pow2_pow2((k - 1) as nat);
        vstd::arithmetic::power2::lemma_pow2_pos((k - 1) as nat);
    }
}

/// The logarithm of `pow2(k)` is `k`.
pub proof fn lemma_log2_pow2(k: nat)
    ensures
        log2(pow2(k)) == k,
    decreases k,
{
    if k == 0 {
        assert(pow2(0) == 1) by {
            vstd::arithmetic::power2::lemma_pow2(0);
            vstd::arithmetic::power::lemma_pow0(2);
        }
    } else {
        vstd::arithmetic::power2::lemma_pow2_unfold(k);
        lemma_log2_pow2((k - 1) as nat);
        vstd::arithmetic::power2::lemma_pow2_pos((k - 1) as nat);
    }
}

/// A power of two is `pow2` of its logarithm.
pub proof fn lemma_pow2_log2(n: nat)
    requires
        is_pow2(n),
    ensures
        pow2(log2(n)) == n,
        n >= 1,
    decreases n,
{
    if n == 1 {
        assert(pow2(0) == 1) by {
            vstd::arithmetic::power2::lemma_pow2(0);
            vstd::arithmetic::power::lemma_pow0(2);
        }
    } else {
        lemma_pow2_log2((n / 2) as nat);
        vstd::arithmetic::power2::lemma_pow2_unfold(log2(n));
    }
}

/// The product of two powers of two is a power of two whose logarithm is
/// the sum of the logarithms.
pub proof fn lemma_pow2_mul(a: nat, b: nat)
    requires
        is_pow2(a),
        is_pow2(b),
    ensures
        is_pow2(a * b),
        log2(a * b) == log2(a) + log2(b),
{
    lemma_pow2_log2(a);
    lemma_pow2_log2(b);
    lemma_pow2_adds(log2(a), log2(b));
    lemma_is_pow2_pow2(log2(a) + log2(b));
    lemma_log2_pow2(log2(a) + log2(b));
}

/// A larger power of two is divisible by a smaller one, and the quotient is
/// the power of two of the difference of the logarithms.
pub proof fn lemma_pow2_div(a: nat, b: nat)
    requires
        is_pow2(a),
        is_pow2(b),
        a <= b,
    ensures
        log2(a) <= log2(b),
        b == a * pow2((log2(b) - log2(a)) as nat),
        b % a == 0,
        b / a == pow2((log2(b) - log2(a)) as nat),
{
    lemma_pow2_log2(a);
    lemma_pow2_log2(b);
    if log2(b) < log2(a) {
        vstd::arithmetic::power2::lemma_pow2_strictly_increases(log2(b), log2(a));
        assert(false);
    }
    lemma_pow2_adds(log2(a), (log2(b) - log2(a)) as nat);
    let q = pow2((log2(b) - log2(a)) as nat);
    assert(b == a * q);
    vstd::arithmetic::power2::lemma_pow2_pos(log2(a));
    vstd::arithmetic::div_mod::lemma_mod_multiples_basic(q as int, a as int);
    assert((a * q) as int % a as int == 0) by {
        vstd::arithmetic::mul::lemma_mul_is_commutative(a as int, q as int);
    }
    vstd::arithmetic::div_mod::lemma_div_multiples_vanish(q as int, a as int);
    assert((a * q) as int / a as int == q) by {
        vstd::arithmetic::mul::lemma_mul_is_commutative(a as int, q as int);
    }
}

/// Coarsening a coset: the `(2^(n-m) * i)`-th point of the order-`2^n`
/// coset is the `i`-th point of the order-`2^m` coset with the same offset.
pub proof fn lemma_coset_coarsen(n: nat, m: nat, off: int, i: nat)
    requires
        1 <= m <= n <= two_adicity(),
    ensures
        coset_point(n, off, pow2((n - m) as nat) * i) == coset_point(m, off, i),
{
    let p = stark_prime();
    let g = two_adic_root();
    let en = pow2((two_adicity() - n) as nat);
    let em = pow2((two_adicity() - m) as nat);
    let s = pow2((n - m) as nat);
    // root_val(n) == pow(g, en) % p, and powering it by s * i lands on the
    // same residue as powering root_val(m) by i.
    lemma_pow_mod_noop(pow(g, en), (s * i) as nat, p);
    lemma_pow_multiplies(g, en, (s * i) as nat);
    assert(en * (s * i) == (en * s) * i) by {
        lemma_mul_is_associative(en as int, s as int, i as int);
    }
    lemma_pow2_adds((two_adicity() - n) as nat, (n - m) as nat);
    assert(en * s == em);
    lemma_pow_multiplies(g, em, i);
    lemma_pow_mod_noop(pow(g, em), i, p);
    assert(pow(root_val(n), (s * i) as nat) % p == pow(root_val(m), i) % p);
    lemma_mul_mod_noop_right(off, pow(root_val(n), (s * i) as nat), p);
    lemma_mul_mod_noop_right(off, pow(root_val(m), i), p);
}

/// Powering the order-`2^n` primitive root by `2^(n-m)` yields the
/// order-`2^m` primitive root.
pub proof fn lemma_root_pow_down(n: nat, m: nat)
    requires
        1 <= m <= n <= two_adicity(),
    ensures
        pow(root_val(n), pow2((n - m) as nat)) % stark_prime() == root_val(m),
{
    let p = stark_prime();
    let g = two_adic_root();
    let en = pow2((two_adicity() - n) as nat);
    let em = pow2((two_adicity() - m) as nat);
    let s = pow2((n - m) as nat);
    lemma_pow_mod_noop(pow(g, en), s, p);
    lemma_pow_multiplies(g, en, s);
    lemma_pow2_adds((two_adicity() - n) as nat, (n - m) as nat);
    assert(pow(root_val(n), s) % p == pow(g, em) % p);
    vstd::arithmetic::div_mod::lemma_mod_mod(pow(g, em), p, 1);
    assert(root_val(m) == pow(g, em) % p);
    vstd::arithmetic::div_mod::lemma_mod_bound(pow(g, em), p);
    vstd::arithmetic::div_mod::lemma_small_mod((pow(g, em) % p) as nat, p as nat);
}

/// A coset point is a canonical field value.
pub proof fn lemma_coset_point_in_field(order: nat, off: int, i: nat)
    ensures
        in_field(coset_point(order, off, i)),
{
    vstd::arithmetic::div_mod::lemma_mod_bound(off * pow(root_val(order), i), stark_prime());
}

/// A power of two no larger than `pow2(k)` has logarithm at most `k`.
pub proof fn lemma_log2_le(n: nat, k: nat)
    requires
        is_pow2(n),
        n <= pow2(k),
    ensures
        log2(n) <= k,
{
    lemma_pow2_log2(n);
    if log2(n) > k {
        vstd::arithmetic::power2::lemma_pow2_strictly_increases(k, log2(n));
        assert(false);
    }
}

/// `next_pow2(n)` is the least power of two at least `n`: any power of two
/// at least `n` is at least `next_pow2(n)`.
pub proof fn lemma_next_pow2_min(n: nat, m: nat)
    requires
        is_pow2(m),
        m >= n,
    ensures
        next_pow2(n) <= m,
    decreases n,
{
    if n <= 1 {
        lemma_pow2_log2(m);
    } else {
        assert(m % 2 == 0 && is_pow2((m / 2) as nat));
        lemma_next_pow2_min(((n + 1) / 2) as nat, (m / 2) as nat);
    }
}

/// Trimming trailing zeros never lengthens a sequence.
pub proof fn lemma_trim_len(s: Seq<int>)
    ensures
        crate::model::trim_zeros(s).len() <= s.len(),
    decreases s.len(),
{
    if s.len() != 0 && s.last() == 0 {
        lemma_trim_len(s.drop_last());
    }
}

/// The even/odd decomposition law: a polynomial's value at `x` is the even
/// half's value at `x^2` plus `x` times the odd half's value at `x^2`. This
/// is what lets the composition polynomial be carried as two halves of half
/// the degree.
pub proof fn lemma_even_odd_eval(c: Seq<int>, x: int)
    ensures
        eval_val(c, x) == (eval_val(crate::model::evens(c), (x * x) % stark_prime()) + x
            * eval_val(crate::model::odds(c), (x * x) % stark_prime())) % stark_prime(),
    decreases c.len(),
{
    let p = stark_prime();
    let y = (x * x) % p;
    let ev = crate::model::evens(c);
    let od = crate::model::odds(c);
    if c.len() == 0 {
        assert(ev.len() == 0 && od.len() == 0);
        assert((0 + x * 0) % p == 0) by {
            vstd::arithmetic::mul::lemma_mul_basics(x);
            vstd::arithmetic::div_mod::lemma_small_mod(0nat, p as nat);
        }
    } else if c.len() == 1 {
        assert(ev =~= seq![c[0]] && od.len() == 0);
        assert(eval_val(c, x) == (c[0] + x * eval_val(c.drop_first(), x)) % p);
        assert(c.drop_first().len() == 0);
        vstd::arithmetic::mul::lemma_mul_basics(x);
        vstd::arithmetic::mul::lemma_mul_basics(y);
        assert(ev[0] == c[0]);
        assert(eval_val(ev.drop_first(), y) == 0) by {
            assert(ev.drop_first().len() == 0);
        }
        assert(eval_val(ev, y) == (c[0] + y * 0) % p);
        vstd::arithmetic::div_mod::lemma_mod_bound(c[0], p);
        vstd::arithmetic::div_mod::lemma_small_mod((c[0] % p) as nat, p as nat);
    } else {
        let rest = c.skip(2);
        lemma_even_odd_eval(rest, x);
        let e2 = eval_val(crate::model::evens(rest), y);
        let o2 = eval_val(crate::model::odds(rest), y);
        assert(ev.drop_first() =~= crate::model::evens(rest));
        assert(od.drop_first() =~= crate::model::odds(rest));
        assert(c.drop_first().drop_first() =~= rest);
        // The recursive evaluations, written out.
        let inner = eval_val(rest, x);
        let mid = eval_val(c.drop_first(), x);
        assert(mid == (c[1] + x * inner) % p);
        assert(eval_val(c, x) == (c[0] + x * mid) % p);
        assert(eval_val(ev, y) == (c[0] + y * e2) % p);
        assert(eval_val(od, y) == (c[1] + y * o2) % p);
        // Left side: c[0] + x*c[1] + x^2*e2 + x^3*o2, modulo p.
        assert(inner == (e2 + x * o2) % p);
        lemma_mod_subst_mul(x, (e2 + x * o2), p);
        lemma_mod_subst_add(c[1] as int, x * (e2 + x * o2), x * inner, p);
        lemma_mod_subst_mul_general(x, c[1] + x * (e2 + x * o2), mid, p);
        lemma_mod_subst_add(c[0] as int, x * (c[1] + x * (e2 + x * o2)), x * mid, p);
        // Right side: the same sum.
        vstd::arithmetic::div_mod::lemma_mul_mod_noop_left(x * x, e2, p);
        lemma_mod_subst_add(c[0] as int, (x * x) * e2, y * e2, p);
        vstd::arithmetic::div_mod::lemma_mul_mod_noop_left(x * x, o2, p);
        lemma_mod_subst_add(c[1] as int, (x * x) * o2, y * o2, p);
        lemma_mod_subst_mul_general(x, c[1] + (x * x) * o2, eval_val(od, y), p);
        lemma_mod_subst_add(
            (c[0] + (x * x) * e2) % p,
            x * (c[1] + (x * x) * o2),
            x * eval_val(od, y),
            p,
        );
        vstd::arithmetic::div_mod::lemma_add_mod_noop(
            c[0] + (x * x) * e2,
            x * (c[1] + (x * x) * o2),
            p,
        );
        assert((c[0] + (x * x) * e2) % p % p == (c[0] + (x * x) * e2) % p) by {
            vstd::arithmetic::div_mod::lemma_mod_bound(c[0] + (x * x) * e2, p);
            vstd::arithmetic::div_mod::lemma_small_mod(
                ((c[0] + (x * x) * e2) % p) as nat,
                p as nat,
            );
        }
        assert(x * (c[1] + x * (e2 + x * o2)) == x * c[1] + (x * x) * e2 + (x * x) * (x * o2)) by (
        nonlinear_arith);
        assert(c[0] + (x * x) * e2 + x * (c[1] + (x * x) * o2) == c[0] + x * (c[1] + x * (e2 + x
            * o2)) - (x * x) * (x * o2) + x * ((x * x) * o2)) by (nonlinear_arith);
        assert((x * x) * (x * o2) == x * ((x * x) * o2)) by (nonlinear_arith);
    }
}

/// Congruence of multiplication: equal residues stay equal under a shared
/// left factor.
proof fn lemma_mod_subst_mul(x: int, a: int, m: int)
    requires
        m > 0,
    ensures
        (x * (a % m)) % m == (x * a) % m,
{
    vstd::arithmetic::div_mod::lemma_mul_mod_noop_right(x, a, m);
}

/// Congruence of multiplication with an already-reduced right factor.
proof fn lemma_mod_subst_mul_general(x: int, a: int, b: int, m: int)
    requires
        m > 0,
        a % m == b % m,
    ensures
        (x * a) % m == (x * b) % m,
{
    vstd::arithmetic::div_mod::lemma_mul_mod_noop_right(x, a, m);
    vstd::arithmetic::div_mod::lemma_mul_mod_noop_right(x, b, m);
}

/// Congruence of addition: equal residues stay equal under a shared summand.
proof fn lemma_mod_subst_add(c: int, a: int, b: int, m: int)
    requires
        m > 0,
        a % m == b % m,
    ensures
        (c + a) % m == (c + b) % m,
{
    vstd::arithmetic::div_mod::lemma_add_mod_noop_right(c, a, m);
    vstd::arithmetic::div_mod::lemma_add_mod_noop_right(c, b, m);
}

/// A trimmed sequence is a prefix of the sequence it came from.
pub proof fn lemma_trim_prefix(s: Seq<int>)
    ensures
        crate::model::trim_zeros(s).len() <= s.len(),
        forall|k: int|
            0 <= k < crate::model::trim_zeros(s).len() ==> #[trigger] crate::model::trim_zeros(
                s,
            )[k] == s[k],
    decreases s.len(),
{
    if s.len() != 0 && s.last() == 0 {
        lemma_trim_prefix(s.drop_last());
    }
}

/// Horner evaluation lands in the canonical range.
pub proof fn lemma_eval_val_in_field(c: Seq<int>, x: int)
    ensures
        in_field(eval_val(c, x)),
{
    if c.len() == 0 {
    } else {
        vstd::arithmetic::div_mod::lemma_mod_bound(
            c[0] + x * eval_val(c.drop_first(), x),
            stark_prime(),
        );
    }
}

/// The pre-draw history of the FRI commit phase depends only on the roots
/// of the layers already committed: extending the root list leaves it
/// unchanged.
pub proof fn lemma_fri_log_stable(
    initial: Seq<Seq<u8>>,
    roots1: Seq<Seq<u8>>,
    roots2: Seq<Seq<u8>>,
    k: nat,
)
    requires
        1 <= k <= roots1.len(),
        roots1.len() <= roots2.len(),
        forall|i: int| 0 <= i < roots1.len() ==> roots1[i] == roots2[i],
    ensures
        crate::fri::fri_challenge_log(initial, roots1, k) == crate::fri::fri_challenge_log(
            initial,
            roots2,
            k,
        ),
    decreases k,
{
    assert(roots1[0] == roots2[0]);
    if k > 1 {
        lemma_fri_log_stable(initial, roots1, roots2, (k - 1) as nat);
        assert(roots1[k - 1] == roots2[k - 1]);
    }
}

/// Drawing `a` then `b` challenges is drawing `a + b`.
pub proof fn lemma_log_after_samples_adds(log: Seq<Seq<u8>>, a: nat, b: nat)
    ensures
        crate::backend::log_after_samples(crate::backend::log_after_samples(log, a), b)
            == crate::backend::log_after_samples(log, a + b),
    decreases b,
{
    if b > 0 {
        lemma_log_after_samples_adds(log, a, (b - 1) as nat);
    }
}

} // verus!
