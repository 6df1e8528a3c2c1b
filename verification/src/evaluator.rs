//! The constraint evaluator: folds every boundary and transition constraint
//! into one composition-polynomial evaluation per point of the extended
//! domain, using verifier-sampled combination coefficients. The same term
//! arithmetic is reused at the out-of-domain point, so the diagnostic
//! cross-check of the adversarial path compares like with like.

use vstd::prelude::*;

use crate::air::{Air, BoundaryConstraints};
use crate::backend::{fe_seq_vals, fe_val, Fe};
use crate::poly::poly_eval;
use crate::domain::Domain;
use crate::frame::Frame;
use crate::model::{all_in_field, eval_val, in_field, stark_prime};
use vstd::arithmetic::power::pow;
use crate::poly::Poly;
use crate::trace::TraceTable;
use crate::ProvingError;

verus! {

/// The data of one column's boundary constraints, prepared once: the points
/// `root^step`, the interpolated boundary polynomial, and the degree
/// adjustment exponent.
struct BoundaryColumn {
    points: Vec<Fe>,
    poly: Poly,
    adjustment: u64,
}

/// The random-combination weight of one constraint: `alpha * x^adj + beta`.
pub open spec fn weight_val(alpha: int, beta: int, x: int, adj: nat) -> int {
    (((alpha * (pow(x, adj) % stark_prime())) % stark_prime()) + beta) % stark_prime()
}

/// The product of the first `n` linear factors `x - points[k]`.
pub open spec fn zerofier_val(points: Seq<int>, x: int, n: nat) -> int
    decreases n,
{
    if n == 0 {
        1
    } else {
        (zerofier_val(points, x, (n - 1) as nat) * ((x - points[n - 1]) % stark_prime()))
            % stark_prime()
    }
}

/// The modular sum of the first `n` terms.
pub open spec fn sum_prefix(terms: Seq<int>, n: nat) -> int
    decreases n,
{
    if n == 0 {
        0
    } else {
        (sum_prefix(terms, (n - 1) as nat) + terms[n - 1]) % stark_prime()
    }
}

/// The values of a coefficient-pair list.
pub open spec fn coeff_vals(coeffs: Seq<(Fe, Fe)>) -> Seq<(int, int)> {
    coeffs.map_values(|c: (Fe, Fe)| (fe_val(c.0), fe_val(c.1)))
}

/// A prefix sum depends only on the entries below the cut.
proof fn lemma_sum_prefix_stable(s1: Seq<int>, s2: Seq<int>, n: nat)
    requires
        n <= s1.len(),
        s1.len() <= s2.len(),
        forall|i: int| 0 <= i < s1.len() ==> s1[i] == s2[i],
    ensures
        sum_prefix(s1, n) == sum_prefix(s2, n),
    decreases n,
{
    if n > 0 {
        lemma_sum_prefix_stable(s1, s2, (n - 1) as nat);
    }
}

/// The boundary quotient sum at `x`: `out` is the sum of one term per
/// column, where each term, multiplied by the column's (nonvanishing)
/// zerofier over its boundary points, gives the weighted difference between
/// the trace value and the boundary polynomial's value.
pub open spec fn boundary_sum_spec(
    bpoints: Seq<Seq<int>>,
    bpolys: Seq<Seq<int>>,
    adjustments: Seq<int>,
    row: Seq<int>,
    xv: int,
    coeffs: Seq<(int, int)>,
    out: int,
) -> bool {
    exists|terms: Seq<int>|
        #![trigger sum_prefix(terms, bpoints.len())]
        terms.len() == bpoints.len() && out == sum_prefix(terms, bpoints.len()) && (forall|j: int|
            0 <= j < bpoints.len() ==> zerofier_val(bpoints[j], xv, bpoints[j].len()) != 0 && (
            #[trigger] terms[j] * zerofier_val(bpoints[j], xv, bpoints[j].len()))
                % stark_prime() == (((row[j] - eval_val(bpolys[j], xv)) % stark_prime())
                * weight_val(coeffs[j].0, coeffs[j].1, xv, adjustments[j] as nat))
                % stark_prime())
}

/// The degree-adjustment exponent of one transition constraint: the shared
/// target `2L - 1` less the quotient's degree `d(L-1) - (L - e)`.
pub open spec fn transition_adjustment(degree: int, exemption: int, length: int) -> int {
    2 * length - 1 - (degree * (length - 1) + exemption - length)
}

/// The product of the exemption factors `x - root^(L-e)` for `e` in
/// `1..=count`.
pub open spec fn exemption_prod_val(rootv: int, length: int, xv: int, count: nat) -> int
    decreases count,
{
    if count == 0 {
        1
    } else {
        (exemption_prod_val(rootv, length, xv, (count - 1) as nat) * ((xv - (pow(
            rootv,
            (length - count) as nat,
        ) % stark_prime())) % stark_prime())) % stark_prime()
    }
}

/// The transition quotient sum at `x` over the constraint evaluations the
/// AIR returned: `out` is the sum of one term per constraint, where each
/// term, multiplied by the (nonvanishing) trace-domain vanishing value
/// `x^L - 1`, gives the weighted evaluation restored by its exemption
/// factors.
pub open spec fn transition_sum_spec(
    evals: Seq<int>,
    degrees: Seq<int>,
    exemptions: Seq<int>,
    rootv: int,
    length: int,
    xv: int,
    coeffs: Seq<(int, int)>,
    out: int,
) -> bool {
    exists|terms: Seq<int>|
        #![trigger sum_prefix(terms, evals.len())]
        terms.len() == evals.len() && out == sum_prefix(terms, evals.len()) && (forall|k: int|
            0 <= k < evals.len() ==> ((pow(xv, length as nat) % stark_prime()) - 1)
                % stark_prime() != 0 && (#[trigger] terms[k] * (((pow(xv, length as nat)
                % stark_prime()) - 1) % stark_prime())) % stark_prime() == (((evals[k]
                * exemption_prod_val(rootv, length, xv, exemptions[k] as nat)) % stark_prime())
                * weight_val(
                coeffs[k].0,
                coeffs[k].1,
                xv,
                transition_adjustment(degrees[k], exemptions[k], length) as nat,
            )) % stark_prime())
}

/// Evaluates the boundary quotient sum at one point `x`, where `row` holds
/// every trace column's value at `x`.
#[verifier::rlimit(100)]
fn boundary_sum_at(
    columns: &Vec<BoundaryColumn>,
    row: &Vec<Fe>,
    x: &Fe,
    boundary_coeffs: &Vec<(Fe, Fe)>,
) -> (r: Result<Fe, ProvingError>)
    requires
        columns@.len() == row@.len(),
        boundary_coeffs@.len() == row@.len(),
    ensures
        r.is_ok() ==> in_field(fe_val(r.unwrap())),
        r.is_ok() ==> boundary_sum_spec(
            columns@.map_values(|c: BoundaryColumn| fe_seq_vals(c.points@)),
            columns@.map_values(|c: BoundaryColumn| c.poly.vals()),
            columns@.map_values(|c: BoundaryColumn| c.adjustment as int),
            fe_seq_vals(row@),
            fe_val(*x),
            coeff_vals(boundary_coeffs@),
            fe_val(r.unwrap()),
        ),
{
    let ghost p = stark_prime();
    let ghost xv = fe_val(*x);
    let mut acc = Fe::zero();
    let ghost mut terms: Seq<int> = Seq::empty();
    let mut j: usize = 0;
    while j < columns.len()
        invariant
            columns@.len() == row@.len(),
            boundary_coeffs@.len() == row@.len(),
            j <= columns@.len(),
            in_field(fe_val(acc)),
            p == stark_prime(),
            xv == fe_val(*x),
            terms.len() == j,
            fe_val(acc) == sum_prefix(terms, j as nat),
            forall|w: int|
                0 <= w < j ==> #[trigger] zerofier_val(
                    fe_seq_vals(columns@[w].points@),
                    xv,
                    columns@[w].points@.len(),
                ) != 0,
            forall|w: int|
                0 <= w < j ==> ((#[trigger] terms[w]) * zerofier_val(
                    fe_seq_vals(columns@[w].points@),
                    xv,
                    columns@[w].points@.len(),
                )) % p == (((fe_val(row@[w]) - eval_val(columns@[w].poly.vals(), xv)) % p)
                    * weight_val(
                    fe_val(boundary_coeffs@[w].0),
                    fe_val(boundary_coeffs@[w].1),
                    xv,
                    columns@[w].adjustment as nat,
                )) % p,
        decreases columns@.len() - j,
    {
        let column = &columns[j];
        let mut zerofier = Fe::one();
        let mut s: usize = 0;
        while s < column.points.len()
            invariant
                s <= column.points@.len(),
                xv == fe_val(*x),
                fe_val(zerofier) == zerofier_val(fe_seq_vals(column.points@), xv, s as nat),
            decreases column.points@.len() - s,
        {
            zerofier = zerofier.mul(&x.sub(&column.points[s]));
            s += 1;
        }
        let zerofier_inv = match zerofier.inv() {
            Some(inverse) => inverse,
            None => {
                return Err(ProvingError::WrongParameter(
                    "boundary zerofier vanishes on the evaluation domain".to_string(),
                ));
            },
        };
        let quotient = row[j].sub(&poly_eval(&column.poly, x)).mul(&zerofier_inv);
        let alpha = &boundary_coeffs[j].0;
        let beta = &boundary_coeffs[j].1;
        let weight = alpha.mul(&x.pow_u64(column.adjustment)).add(beta);
        let term = quotient.mul(&weight);
        proof {
            let zf = zerofier_val(fe_seq_vals(column.points@), xv, column.points@.len());
            let v = fe_val(zerofier_inv);
            let dif = (fe_val(row@[j as int]) - eval_val(column.poly.vals(), xv)) % p;
            let wv = fe_val(weight);
            let q = fe_val(quotient);
            let t = fe_val(term);
            assert(wv == weight_val(fe_val(*alpha), fe_val(*beta), xv, column.adjustment as nat));
            assert(q == (dif * v) % p);
            assert((zf * v) % p == 1);
            vstd::arithmetic::div_mod::lemma_mul_mod_noop_left(q * wv, zf, p);
            vstd::arithmetic::mul::lemma_mul_is_associative(q, wv, zf);
            vstd::arithmetic::div_mod::lemma_mul_mod_noop_left(dif * v, wv * zf, p);
            assert((dif * v) * (wv * zf) == (dif * wv) * (v * zf)) by (nonlinear_arith);
            vstd::arithmetic::div_mod::lemma_mul_mod_noop_right(dif * wv, v * zf, p);
            vstd::arithmetic::mul::lemma_mul_is_commutative(v, zf);
            vstd::arithmetic::mul::lemma_mul_basics(dif * wv);
            assert((t * zf) % p == (dif * wv) % p);
        }
        let new_acc = acc.add(&term);
        proof {
            let old_terms = terms;
            terms = terms.push(fe_val(term));
            lemma_sum_prefix_stable(old_terms, terms, j as nat);
            assert(sum_prefix(terms, (j + 1) as nat) == (sum_prefix(terms, j as nat)
                + terms[j as int]) % p);
            assert(fe_val(new_acc) == sum_prefix(terms, (j + 1) as nat));
            assert(terms[j as int] == fe_val(term));
            assert forall|w: int|
                0 <= w < j + 1 implies #[trigger] zerofier_val(
                fe_seq_vals(columns@[w].points@),
                xv,
                columns@[w].points@.len(),
            ) != 0 by {}
            assert forall|w: int|
                0 <= w < j + 1 implies ((#[trigger] terms[w]) * zerofier_val(
                fe_seq_vals(columns@[w].points@),
                xv,
                columns@[w].points@.len(),
            )) % p == (((fe_val(row@[w]) - eval_val(columns@[w].poly.vals(), xv)) % p)
                * weight_val(
                fe_val(boundary_coeffs@[w].0),
                fe_val(boundary_coeffs@[w].1),
                xv,
                columns@[w].adjustment as nat,
            )) % p by {
                if w < j {
                    assert(terms[w] == old_terms[w]);
                } else {
                    assert(terms[w] == fe_val(term));
                }
            }
        }
        acc = new_acc;
        j += 1;
    }
    proof {
        let bpoints = columns@.map_values(|c: BoundaryColumn| fe_seq_vals(c.points@));
        let bpolys = columns@.map_values(|c: BoundaryColumn| c.poly.vals());
        let adjs = columns@.map_values(|c: BoundaryColumn| c.adjustment as int);
        let rowv = fe_seq_vals(row@);
        let cv = coeff_vals(boundary_coeffs@);
        assert(terms.len() == bpoints.len() && fe_val(acc) == sum_prefix(terms, bpoints.len()));
        assert forall|w: int|
            0 <= w < bpoints.len() implies zerofier_val(bpoints[w], xv, bpoints[w].len()) != 0
            && (#[trigger] terms[w] * zerofier_val(bpoints[w], xv, bpoints[w].len())) % p == ((
        (rowv[w] - eval_val(bpolys[w], xv)) % p) * weight_val(
            cv[w].0,
            cv[w].1,
            xv,
            adjs[w] as nat,
        )) % p by {
            assert(bpoints[w] == fe_seq_vals(columns@[w].points@));
            assert(bpolys[w] == columns@[w].poly.vals());
            assert(adjs[w] == columns@[w].adjustment as int);
            assert(rowv[w] == fe_val(row@[w]));
            assert(cv[w] == (fe_val(boundary_coeffs@[w].0), fe_val(boundary_coeffs@[w].1)));
        }
    }
    Ok(acc)
}

/// Evaluates the transition quotient sum at one point `x`, where
/// `transition_evals` holds every transition constraint evaluated on the
/// frame read at `x`.
fn transition_sum_at(
    transition_evals: &Vec<Fe>,
    degrees: &Vec<usize>,
    exemptions: &Vec<usize>,
    trace_root: &Fe,
    trace_length: usize,
    x: &Fe,
    transition_coeffs: &Vec<(Fe, Fe)>,
) -> (r: Result<Fe, ProvingError>)
    requires
        trace_length >= 2,
        transition_coeffs@.len() == transition_evals@.len(),
        degrees@.len() == transition_evals@.len(),
        exemptions@.len() == transition_evals@.len(),
        trace_length <= 0x1000_0000,
    ensures
        r.is_ok() ==> in_field(fe_val(r.unwrap())),
        r.is_ok() ==> transition_sum_spec(
            fe_seq_vals(transition_evals@),
            degrees@.map_values(|d: usize| d as int),
            exemptions@.map_values(|d: usize| d as int),
            fe_val(*trace_root),
            trace_length as int,
            fe_val(*x),
            coeff_vals(transition_coeffs@),
            fe_val(r.unwrap()),
        ),
{
    let ghost p = stark_prime();
    let ghost xv = fe_val(*x);
    let ghost rootv = fe_val(*trace_root);
    // x^L - 1: the vanishing polynomial of the whole trace domain at x.
    let one = Fe::one();
    let vanishing = x.pow_u64(trace_length as u64).sub(&one);
    let vanishing_inv = match vanishing.inv() {
        Some(inverse) => inverse,
        None => {
            return Err(ProvingError::WrongParameter(
                "trace vanishing polynomial vanishes on the evaluation domain".to_string(),
            ));
        },
    };
    let mut acc = Fe::zero();
    let ghost mut terms: Seq<int> = Seq::empty();
    let mut k: usize = 0;
    while k < transition_evals.len()
        invariant
            transition_coeffs@.len() == transition_evals@.len(),
            degrees@.len() == transition_evals@.len(),
            exemptions@.len() == transition_evals@.len(),
            trace_length >= 2,
            trace_length <= 0x1000_0000,
            k <= transition_evals@.len(),
            in_field(fe_val(acc)),
            p == stark_prime(),
            xv == fe_val(*x),
            rootv == fe_val(*trace_root),
            fe_val(vanishing) == ((vstd::arithmetic::power::pow(xv, trace_length as nat) % p)
                - 1) % p,
            fe_val(vanishing) != 0,
            (fe_val(vanishing) * fe_val(vanishing_inv)) % p == 1,
            terms.len() == k,
            fe_val(acc) == sum_prefix(terms, k as nat),
            forall|w: int|
                0 <= w < k ==> (#[trigger] terms[w] * (((vstd::arithmetic::power::pow(
                    xv,
                    trace_length as nat,
                ) % p) - 1) % p)) % p == (((fe_val(transition_evals@[w]) * exemption_prod_val(
                    rootv,
                    trace_length as int,
                    xv,
                    exemptions@[w] as nat,
                )) % p) * weight_val(
                    fe_val(transition_coeffs@[w].0),
                    fe_val(transition_coeffs@[w].1),
                    xv,
                    transition_adjustment(
                        degrees@[w] as int,
                        exemptions@[w] as int,
                        trace_length as int,
                    ) as nat,
                )) % p,
        decreases transition_evals@.len() - k,
    {
        let exemption_count = if exemptions[k] < trace_length {
            exemptions[k]
        } else {
            return Err(ProvingError::WrongParameter(
                "transition exemption count exceeds the trace".to_string(),
            ));
        };
        // The exempt rows at the end of the trace leave the zerofier:
        // multiply their factors back in.
        let mut exemption_prod = Fe::one();
        let mut e: usize = 1;
        while e <= exemption_count
            invariant
                e >= 1,
                e <= exemption_count + 1,
                exemption_count < trace_length,
                trace_length <= 0x1000_0000,
                p == stark_prime(),
                xv == fe_val(*x),
                rootv == fe_val(*trace_root),
                fe_val(exemption_prod) == exemption_prod_val(
                    rootv,
                    trace_length as int,
                    xv,
                    (e - 1) as nat,
                ),
            decreases exemption_count + 1 - e,
        {
            let row_point = trace_root.pow_u64((trace_length - e) as u64);
            exemption_prod = exemption_prod.mul(&x.sub(&row_point));
            e += 1;
        }
        // Degree adjustment: raise the quotient to the shared target degree
        // `2 * L - 1`.
        let d = match degrees[k].checked_mul(trace_length - 1) {
            Some(d) => d,
            None => {
                return Err(ProvingError::WrongParameter(
                    "transition constraint degree out of range".to_string(),
                ));
            },
        };
        if d > 2 * trace_length || d + exemption_count < trace_length {
            return Err(ProvingError::WrongParameter(
                "transition constraint degree out of range".to_string(),
            ));
        }
        let quotient_degree = d + exemption_count - trace_length;
        if quotient_degree > 2 * trace_length - 1 {
            return Err(ProvingError::WrongParameter(
                "transition constraint degree out of range".to_string(),
            ));
        }
        let adjustment = (2 * trace_length - 1 - quotient_degree) as u64;
        let quotient = transition_evals[k].mul(&exemption_prod).mul(&vanishing_inv);
        let alpha = &transition_coeffs[k].0;
        let beta = &transition_coeffs[k].1;
        let weight = alpha.mul(&x.pow_u64(adjustment)).add(beta);
        let term = quotient.mul(&weight);
        proof {
            let vv = fe_val(vanishing);
            let v = fe_val(vanishing_inv);
            let ep = exemption_prod_val(rootv, trace_length as int, xv, exemption_count as nat);
            let m = (fe_val(transition_evals@[k as int]) * ep) % p;
            let wv = fe_val(weight);
            let q = fe_val(quotient);
            let t = fe_val(term);
            assert(adjustment as int == transition_adjustment(
                degrees@[k as int] as int,
                exemptions@[k as int] as int,
                trace_length as int,
            ));
            assert(wv == weight_val(fe_val(*alpha), fe_val(*beta), xv, adjustment as nat));
            assert(q == (m * v) % p);
            vstd::arithmetic::div_mod::lemma_mul_mod_noop_left(q * wv, vv, p);
            vstd::arithmetic::mul::lemma_mul_is_associative(q, wv, vv);
            vstd::arithmetic::div_mod::lemma_mul_mod_noop_left(m * v, wv * vv, p);
            assert((m * v) * (wv * vv) == (m * wv) * (v * vv)) by (nonlinear_arith);
            vstd::arithmetic::div_mod::lemma_mul_mod_noop_right(m * wv, v * vv, p);
            vstd::arithmetic::mul::lemma_mul_is_commutative(v, vv);
            vstd::arithmetic::mul::lemma_mul_basics(m * wv);
            assert((t * vv) % p == (m * wv) % p);
        }
        let new_acc = acc.add(&term);
        proof {
            let old_terms = terms;
            terms = terms.push(fe_val(term));
            lemma_sum_prefix_stable(old_terms, terms, k as nat);
            assert(sum_prefix(terms, (k + 1) as nat) == (sum_prefix(terms, k as nat)
                + terms[k as int]) % p);
            assert(fe_val(new_acc) == sum_prefix(terms, (k + 1) as nat));
            assert(terms[k as int] == fe_val(term));
            assert(forall|w: int| 0 <= w < k ==> #[trigger] terms[w] == old_terms[w]);
        }
        acc = new_acc;
        k += 1;
    }
    proof {
        let evals_v = fe_seq_vals(transition_evals@);
        let dv = degrees@.map_values(|d: usize| d as int);
        let ev = exemptions@.map_values(|d: usize| d as int);
        let cv = coeff_vals(transition_coeffs@);
        assert(terms.len() == evals_v.len() && fe_val(acc) == sum_prefix(terms, evals_v.len()));
        assert forall|w: int|
            0 <= w < evals_v.len() implies ((vstd::arithmetic::power::pow(
            xv,
            trace_length as nat,
        ) % p) - 1) % p != 0 && (#[trigger] terms[w] * (((vstd::arithmetic::power::pow(
            xv,
            trace_length as nat,
        ) % p) - 1) % p)) % p == (((evals_v[w] * exemption_prod_val(
            rootv,
            trace_length as int,
            xv,
            ev[w] as nat,
        )) % p) * weight_val(
            cv[w].0,
            cv[w].1,
            xv,
            transition_adjustment(dv[w], ev[w], trace_length as int) as nat,
        )) % p by {
            assert(evals_v[w] == fe_val(transition_evals@[w]));
            assert(dv[w] == degrees@[w] as int);
            assert(ev[w] == exemptions@[w] as int);
            assert(cv[w] == (fe_val(transition_coeffs@[w].0), fe_val(transition_coeffs@[w].1)));
        }
    }
    Ok(acc)
}

/// The prepared boundary data is exactly what the constraints dictate: per
/// column, the points are the trace-root powers of the constraint steps,
/// the polynomial passes through the constraint values at those points with
/// degree below their count, and the adjustment raises the quotient to the
/// shared target degree.
pub open spec fn boundary_prepared(
    bc: BoundaryConstraints,
    rootv: int,
    length: int,
    bpoints: Seq<Seq<int>>,
    bpolys: Seq<Seq<int>>,
    adjustments: Seq<int>,
    n_cols: int,
) -> bool {
    &&& bpoints.len() == n_cols
    &&& bpolys.len() == n_cols
    &&& adjustments.len() == n_cols
    &&& forall|j: int|
        0 <= j < n_cols ==> (#[trigger] bpoints[j]).len() == bc.steps_spec(j).len() && (forall|
            s: int,
        |
            0 <= s < bpoints[j].len() ==> #[trigger] bpoints[j][s] == pow(
                rootv,
                bc.steps_spec(j)[s] as nat,
            ) % stark_prime()) && bpolys[j].len() <= bpoints[j].len() && (forall|s: int|
            0 <= s < bpoints[j].len() ==> eval_val(bpolys[j], #[trigger] bpoints[j][s])
                == bc.values_spec(j)[s]) && adjustments[j] == length + bc.steps_spec(j).len()
}

/// One composition-polynomial evaluation decomposes as the boundary quotient
/// sum plus the transition quotient sum over some vector of transition
/// values (the AIR's, which the library cannot pin further).
pub open spec fn composition_point_value(
    bpoints: Seq<Seq<int>>,
    bpolys: Seq<Seq<int>>,
    adjustments: Seq<int>,
    row: Seq<int>,
    xv: int,
    bcoeffs: Seq<(int, int)>,
    degrees: Seq<int>,
    exemptions: Seq<int>,
    rootv: int,
    length: int,
    tcoeffs: Seq<(int, int)>,
    out: int,
) -> bool {
    exists|tv: Seq<int>, b: int, t: int|
        #![trigger boundary_sum_spec(bpoints, bpolys, adjustments, row, xv, bcoeffs, b),
            transition_sum_spec(tv, degrees, exemptions, rootv, length, xv, tcoeffs, t)]
        boundary_sum_spec(bpoints, bpolys, adjustments, row, xv, bcoeffs, b)
            && tv.len() == tcoeffs.len() && transition_sum_spec(
            tv,
            degrees,
            exemptions,
            rootv,
            length,
            xv,
            tcoeffs,
            t,
        ) && out == (b + t) % stark_prime()
}

/// `out` is a composition-polynomial evaluation at `xv` for the given
/// boundary constraints: the boundary quotient sum over correctly prepared
/// per-column data, plus the transition quotient sum over some transition
/// vector.
pub open spec fn composition_value_from(
    bc: BoundaryConstraints,
    rootv: int,
    length: int,
    row: Seq<int>,
    xv: int,
    bcoeffs: Seq<(int, int)>,
    degrees: Seq<int>,
    exemptions: Seq<int>,
    tcoeffs: Seq<(int, int)>,
    n_cols: int,
    out: int,
) -> bool {
    exists|bpoints: Seq<Seq<int>>, bpolys: Seq<Seq<int>>, adjustments: Seq<int>|
        #![trigger boundary_prepared(bc, rootv, length, bpoints, bpolys, adjustments, n_cols)]
        boundary_prepared(bc, rootv, length, bpoints, bpolys, adjustments, n_cols)
            && composition_point_value(
            bpoints,
            bpolys,
            adjustments,
            row,
            xv,
            bcoeffs,
            degrees,
            exemptions,
            rootv,
            length,
            tcoeffs,
            out,
        )
}

/// The constraint evaluator of one proof run: owns the boundary constraints
/// and prepares their per-column data against a domain.
pub struct ConstraintEvaluator {
    pub boundary_constraints: BoundaryConstraints,
}

impl ConstraintEvaluator {
    /// Builds the evaluator from the AIR's boundary constraints.
    pub fn new<A: Air>(
        air: &A,
        rap_challenges: &A::RapChallenges,
        public_input: &A::PublicInput,
    ) -> (r: ConstraintEvaluator) {
        ConstraintEvaluator { boundary_constraints: air.boundary_constraints(
            rap_challenges,
            public_input,
        ) }
    }

    /// Prepares the per-column boundary data: interpolation points, the
    /// boundary polynomial, and the degree-adjustment exponent.
    fn prepare_columns(
        &self,
        n_cols: usize,
        trace_root: &Fe,
        trace_length: usize,
    ) -> (r: Result<Vec<BoundaryColumn>, ProvingError>)
        requires
            trace_length >= 2,
            trace_length <= 0x1000_0000,
        ensures
            r.is_ok() ==> r.unwrap()@.len() == n_cols,
            r.is_ok() ==> boundary_prepared(
                self.boundary_constraints,
                fe_val(*trace_root),
                trace_length as int,
                r.unwrap()@.map_values(|c: BoundaryColumn| fe_seq_vals(c.points@)),
                r.unwrap()@.map_values(|c: BoundaryColumn| c.poly.vals()),
                r.unwrap()@.map_values(|c: BoundaryColumn| c.adjustment as int),
                n_cols as int,
            ),
    {
        let ghost rv = fe_val(*trace_root);
        let mut columns: Vec<BoundaryColumn> = Vec::new();
        let mut j: usize = 0;
        while j < n_cols
            invariant
                j <= n_cols,
                columns@.len() == j,
                trace_length >= 2,
                trace_length <= 0x1000_0000,
                rv == fe_val(*trace_root),
                forall|w: int|
                    0 <= w < j ==> (#[trigger] columns@[w]).points@.len()
                        == self.boundary_constraints.steps_spec(w).len() && (forall|t: int|
                        0 <= t < columns@[w].points@.len() ==> fe_val(
                            #[trigger] columns@[w].points@[t],
                        ) == pow(
                            rv,
                            self.boundary_constraints.steps_spec(w)[t] as nat,
                        ) % stark_prime()) && columns@[w].poly.vals().len()
                        <= columns@[w].points@.len() && (forall|t: int|
                        0 <= t < columns@[w].points@.len() ==> eval_val(
                            columns@[w].poly.vals(),
                            fe_val(#[trigger] columns@[w].points@[t]),
                        ) == self.boundary_constraints.values_spec(w)[t])
                        && columns@[w].adjustment as int == trace_length
                        + self.boundary_constraints.steps_spec(w).len(),
            decreases n_cols - j,
        {
            let (steps, values) = self.boundary_constraints.for_column(j);
            if steps.len() >= trace_length {
                return Err(ProvingError::WrongParameter(
                    "more boundary constraints than trace rows".to_string(),
                ));
            }
            let mut points: Vec<Fe> = Vec::new();
            let mut s: usize = 0;
            while s < steps.len()
                invariant
                    s <= steps@.len(),
                    points@.len() == s,
                    rv == fe_val(*trace_root),
                    forall|t: int|
                        0 <= t < s ==> fe_val(#[trigger] points@[t]) == pow(
                            rv,
                            steps@[t] as nat,
                        ) % stark_prime(),
                decreases steps@.len() - s,
            {
                points.push(trace_root.pow_u64(steps[s] as u64));
                s += 1;
            }
            let poly = match crate::backend::poly_interpolate(&points, &values) {
                Some(p) => p,
                None => {
                    return Err(ProvingError::WrongParameter(
                        "boundary constraint steps are not distinct".to_string(),
                    ));
                },
            };
            // Quotient degree (L - 1) - steps; adjust to the target 2L - 1.
            let adjustment = (trace_length + steps.len()) as u64;
            proof {
                assert(steps@.map_values(|x: usize| x as int)
                    == self.boundary_constraints.steps_spec(j as int));
                assert(values@.map_values(|e: Fe| fe_val(e))
                    == self.boundary_constraints.values_spec(j as int));
                assert forall|t: int|
                    0 <= t < points@.len() implies fe_val(#[trigger] points@[t]) == pow(
                    rv,
                    self.boundary_constraints.steps_spec(j as int)[t] as nat,
                ) % stark_prime() by {
                    assert(steps@[t] as int == self.boundary_constraints.steps_spec(j as int)[t]);
                }
                assert forall|t: int|
                    0 <= t < points@.len() implies eval_val(
                    poly.vals(),
                    fe_val(#[trigger] points@[t]),
                ) == self.boundary_constraints.values_spec(j as int)[t] by {
                    assert(eval_val(poly.vals(), fe_val(points@[t])) == fe_val(values@[t]));
                    assert(fe_val(values@[t])
                        == self.boundary_constraints.values_spec(j as int)[t]);
                }
            }
            columns.push(BoundaryColumn { points, poly, adjustment });
            j += 1;
        }
        proof {
            let bpoints = columns@.map_values(|c: BoundaryColumn| fe_seq_vals(c.points@));
            let bpolys = columns@.map_values(|c: BoundaryColumn| c.poly.vals());
            let adjs = columns@.map_values(|c: BoundaryColumn| c.adjustment as int);
            assert forall|w: int|
                0 <= w < n_cols implies (#[trigger] bpoints[w]).len()
                == self.boundary_constraints.steps_spec(w).len() && (forall|t: int|
                0 <= t < bpoints[w].len() ==> #[trigger] bpoints[w][t] == pow(
                    rv,
                    self.boundary_constraints.steps_spec(w)[t] as nat,
                ) % stark_prime()) && bpolys[w].len() <= bpoints[w].len() && (forall|t: int|
                0 <= t < bpoints[w].len() ==> eval_val(bpolys[w], #[trigger] bpoints[w][t])
                    == self.boundary_constraints.values_spec(w)[t]) && adjs[w] == trace_length
                + self.boundary_constraints.steps_spec(w).len() by {
                assert(bpoints[w] == fe_seq_vals(columns@[w].points@));
                assert(bpolys[w] == columns@[w].poly.vals());
                assert(adjs[w] == columns@[w].adjustment as int);
            }
        }
        Ok(columns)
    }

    /// Evaluates the composition polynomial on every point of the extended
    /// domain: the weighted sum of every boundary and transition quotient.
    pub fn evaluate<A: Air>(
        &self,
        air: &A,
        domain: &Domain,
        lde_trace: &TraceTable,
        transition_coeffs: &Vec<(Fe, Fe)>,
        boundary_coeffs: &Vec<(Fe, Fe)>,
        rap_challenges: &A::RapChallenges,
    ) -> (r: Result<Vec<Fe>, ProvingError>)
        requires
            domain.wf(),
            lde_trace.is_table(),
            lde_trace.n_rows_spec() == domain.interpolation_domain_size * domain.blowup_factor,
            boundary_coeffs@.len() == lde_trace.cols@.len(),
        ensures
            r.is_ok() ==> r.unwrap()@.len() == domain.interpolation_domain_size
                * domain.blowup_factor,
            r.is_ok() ==> all_in_field(fe_seq_vals(r.unwrap()@)),
            // Every entry is the weighted boundary-plus-transition quotient
            // sum at its own coset point, over this evaluator's boundary
            // constraints and the transition vector the AIR returned there.
            r.is_ok() ==> forall|i: int|
                0 <= i < r.unwrap()@.len() ==> #[trigger] composition_value_from(
                    self.boundary_constraints,
                    fe_val(domain.trace_primitive_root),
                    domain.interpolation_domain_size as int,
                    lde_trace.row_vals(i),
                    crate::model::coset_point(
                        domain.lde_root_order as nat,
                        fe_val(domain.coset_offset),
                        i as nat,
                    ),
                    coeff_vals(boundary_coeffs@),
                    air.ctx_spec().transition_degrees,
                    air.ctx_spec().transition_exemptions,
                    coeff_vals(transition_coeffs@),
                    lde_trace.cols@.len() as int,
                    fe_seq_vals(r.unwrap()@)[i],
                ),
    {
        let context = air.context();
        let trace_length = domain.interpolation_domain_size;
        proof {
            assert(trace_length <= 0x1000_0000) by (nonlinear_arith)
                requires
                    trace_length * domain.blowup_factor <= 0x1000_0000,
                    domain.blowup_factor >= 1,
                    trace_length >= 0;
        }
        let columns = self.prepare_columns(
            lde_trace.n_cols(),
            &domain.trace_primitive_root,
            trace_length,
        )?;
        let n_constraints = context.num_transition_constraints;
        if transition_coeffs.len() != n_constraints
            || context.transition_degrees.len() != n_constraints
            || context.transition_exemptions.len() != n_constraints {
            return Err(ProvingError::WrongParameter(
                "transition constraint metadata lengths disagree".to_string(),
            ));
        }
        let mut o: usize = 0;
        while o < context.transition_offsets.len()
            invariant
                o <= context.transition_offsets@.len(),
                forall|w: int|
                    0 <= w < o ==> (#[trigger] context.transition_offsets@[w])
                        * domain.blowup_factor < 0x4000_0000,
            decreases context.transition_offsets@.len() - o,
        {
            let offset = context.transition_offsets[o];
            let prod = if domain.blowup_factor >= 1 && offset <= 0x4000_0000 / domain.blowup_factor
            {
                proof {
                    vstd::arithmetic::div_mod::lemma_fundamental_div_mod(
                        0x4000_0000,
                        domain.blowup_factor as int,
                    );
                    assert(offset * domain.blowup_factor <= 0x4000_0000) by (nonlinear_arith)
                        requires
                            offset <= 0x4000_0000 as int / domain.blowup_factor as int,
                            domain.blowup_factor >= 1,
                            0x4000_0000 as int == domain.blowup_factor * (0x4000_0000 as int
                                / domain.blowup_factor as int) + (0x4000_0000 as int
                                % domain.blowup_factor as int),
                            0 <= (0x4000_0000 as int % domain.blowup_factor as int);
                }
                offset * domain.blowup_factor
            } else {
                return Err(ProvingError::WrongParameter(
                    "transition offsets too large".to_string(),
                ));
            };
            if prod >= 0x4000_0000 {
                return Err(ProvingError::WrongParameter(
                    "transition offsets too large".to_string(),
                ));
            }
            o += 1;
        }
        let lde_len = lde_trace.n_rows();
        let ghost bpoints: Seq<Seq<int>> = columns@.map_values(
            |c: BoundaryColumn| fe_seq_vals(c.points@),
        );
        let ghost bpolys: Seq<Seq<int>> = columns@.map_values(|c: BoundaryColumn| c.poly.vals());
        let ghost adjs: Seq<int> = columns@.map_values(|c: BoundaryColumn| c.adjustment as int);
        let mut evaluations: Vec<Fe> = Vec::new();
        let mut i: usize = 0;
        while i < lde_len
            invariant
                bpoints == columns@.map_values(|c: BoundaryColumn| fe_seq_vals(c.points@)),
                bpolys == columns@.map_values(|c: BoundaryColumn| c.poly.vals()),
                adjs == columns@.map_values(|c: BoundaryColumn| c.adjustment as int),
                boundary_prepared(
                    self.boundary_constraints,
                    fe_val(domain.trace_primitive_root),
                    domain.interpolation_domain_size as int,
                    bpoints,
                    bpolys,
                    adjs,
                    lde_trace.cols@.len() as int,
                ),
                context.transition_degrees@.map_values(|d: usize| d as int)
                    == air.ctx_spec().transition_degrees,
                context.transition_exemptions@.map_values(|d: usize| d as int)
                    == air.ctx_spec().transition_exemptions,
                forall|k: int|
                    0 <= k < i ==> #[trigger] composition_value_from(
                        self.boundary_constraints,
                        fe_val(domain.trace_primitive_root),
                        domain.interpolation_domain_size as int,
                        lde_trace.row_vals(k),
                        crate::model::coset_point(
                            domain.lde_root_order as nat,
                            fe_val(domain.coset_offset),
                            k as nat,
                        ),
                        coeff_vals(boundary_coeffs@),
                        air.ctx_spec().transition_degrees,
                        air.ctx_spec().transition_exemptions,
                        coeff_vals(transition_coeffs@),
                        lde_trace.cols@.len() as int,
                        fe_val(evaluations@[k]),
                    ),
                domain.wf(),
                lde_trace.is_table(),
                lde_trace.n_rows_spec() == domain.interpolation_domain_size
                    * domain.blowup_factor,
                boundary_coeffs@.len() == lde_trace.cols@.len(),
                columns@.len() == lde_trace.cols@.len(),
                transition_coeffs@.len() == context.transition_degrees@.len(),
                transition_coeffs@.len() == context.transition_exemptions@.len(),
                lde_len == lde_trace.n_rows_spec(),
                trace_length == domain.interpolation_domain_size,
                trace_length <= 0x1000_0000,
                forall|w: int|
                    0 <= w < context.transition_offsets@.len() ==> (
                    #[trigger] context.transition_offsets@[w]) * domain.blowup_factor
                        < 0x4000_0000,
                i <= lde_len,
                evaluations@.len() == i,
                forall|k: int| 0 <= k < i ==> in_field(fe_val(#[trigger] evaluations@[k])),
            decreases lde_len - i,
        {
            let x = domain.lde_roots_of_unity_coset[i].dup();
            let row = lde_trace.get_row(i);
            proof {
                assert(fe_seq_vals(row@).len() == row@.len());
                assert(lde_trace.row_vals(i as int).len() == lde_trace.cols@.len());
            }
            let boundary = boundary_sum_at(&columns, &row, &x, boundary_coeffs)?;
            let frame = Frame::read_from_trace(
                lde_trace,
                i,
                domain.blowup_factor,
                &context.transition_offsets,
            );
            let transition_evals = air.compute_transition(&frame, rap_challenges);
            if transition_evals.len() != transition_coeffs.len() {
                return Err(ProvingError::WrongParameter(
                    "transition evaluation count disagrees with the context".to_string(),
                ));
            }
            let transition = transition_sum_at(
                &transition_evals,
                &context.transition_degrees,
                &context.transition_exemptions,
                &domain.trace_primitive_root,
                trace_length,
                &x,
                transition_coeffs,
            )?;
            let total = boundary.add(&transition);
            proof {
                let rootv = fe_val(domain.trace_primitive_root);
                let lenv = domain.interpolation_domain_size as int;
                let xv = crate::model::coset_point(
                    domain.lde_root_order as nat,
                    fe_val(domain.coset_offset),
                    i as nat,
                );
                assert(fe_val(x) == xv);
                assert(fe_seq_vals(row@) == lde_trace.row_vals(i as int));
                assert(boundary_sum_spec(
                    bpoints,
                    bpolys,
                    adjs,
                    lde_trace.row_vals(i as int),
                    xv,
                    coeff_vals(boundary_coeffs@),
                    fe_val(boundary),
                ));
                assert(transition_sum_spec(
                    fe_seq_vals(transition_evals@),
                    air.ctx_spec().transition_degrees,
                    air.ctx_spec().transition_exemptions,
                    rootv,
                    lenv,
                    xv,
                    coeff_vals(transition_coeffs@),
                    fe_val(transition),
                ));
                assert(composition_point_value(
                    bpoints,
                    bpolys,
                    adjs,
                    lde_trace.row_vals(i as int),
                    xv,
                    coeff_vals(boundary_coeffs@),
                    air.ctx_spec().transition_degrees,
                    air.ctx_spec().transition_exemptions,
                    rootv,
                    lenv,
                    coeff_vals(transition_coeffs@),
                    fe_val(total),
                ));
                assert(composition_value_from(
                    self.boundary_constraints,
                    rootv,
                    lenv,
                    lde_trace.row_vals(i as int),
                    xv,
                    coeff_vals(boundary_coeffs@),
                    air.ctx_spec().transition_degrees,
                    air.ctx_spec().transition_exemptions,
                    coeff_vals(transition_coeffs@),
                    lde_trace.cols@.len() as int,
                    fe_val(total),
                ));
            }
            evaluations.push(total);
            i += 1;
        }
        proof {
            assert forall|k: int| 0 <= k < fe_seq_vals(evaluations@).len() implies in_field(
                #[trigger] fe_seq_vals(evaluations@)[k],
            ) by {
                assert(fe_seq_vals(evaluations@)[k] == fe_val(evaluations@[k]));
            }
            assert(forall|k: int|
                0 <= k < evaluations@.len() ==> fe_seq_vals(evaluations@)[k] == fe_val(
                    #[trigger] evaluations@[k],
                ));
        }
        Ok(evaluations)
    }

    /// Recomputes the composition polynomial's value at the out-of-domain
    /// point directly from the out-of-domain trace frame: the algebraically
    /// exact counterpart of the committed, interpolation-derived value, used
    /// by the adversarial/diagnostic path.
    pub fn ood_evaluation_exact_from_trace<A: Air>(
        &self,
        air: &A,
        ood_frame: &Frame,
        domain: &Domain,
        z: &Fe,
        rap_challenges: &A::RapChallenges,
        boundary_coeffs: &Vec<(Fe, Fe)>,
        transition_coeffs: &Vec<(Fe, Fe)>,
    ) -> (r: Result<Fe, ProvingError>)
        requires
            domain.wf(),
        ensures
            r.is_ok() ==> in_field(fe_val(r.unwrap())),
            // The exact cross-check's value: the boundary quotient sum over
            // the evaluator's own constraints, prepared against the trace
            // root, plus the transition quotient sum over the vector the
            // AIR returned for the frame, all at the out-of-domain point.
            r.is_ok() ==> ood_frame.rows@.len() >= 1 && composition_value_from(
                self.boundary_constraints,
                fe_val(domain.trace_primitive_root),
                domain.interpolation_domain_size as int,
                fe_seq_vals(ood_frame.rows@[0]@),
                fe_val(*z),
                coeff_vals(boundary_coeffs@),
                air.ctx_spec().transition_degrees,
                air.ctx_spec().transition_exemptions,
                coeff_vals(transition_coeffs@),
                ood_frame.rows@[0]@.len() as int,
                fe_val(r.unwrap()),
            ),
    {
        let context = air.context();
        let trace_length = domain.interpolation_domain_size;
        proof {
            assert(trace_length <= 0x1000_0000) by (nonlinear_arith)
                requires
                    trace_length * domain.blowup_factor <= 0x1000_0000,
                    domain.blowup_factor >= 1,
                    trace_length >= 0;
        }
        if ood_frame.rows.len() == 0 {
            return Err(ProvingError::WrongParameter(
                "out-of-domain frame is empty".to_string(),
            ));
        }
        let row = &ood_frame.rows[0];
        let columns = self.prepare_columns(row.len(), &domain.trace_primitive_root, trace_length)?;
        if boundary_coeffs.len() != row.len() {
            return Err(ProvingError::WrongParameter(
                "boundary coefficient count disagrees with the frame".to_string(),
            ));
        }
        let row_copy = dup_fe_vec(row);
        let boundary = boundary_sum_at(&columns, &row_copy, z, boundary_coeffs)?;
        let transition_evals = air.compute_transition(ood_frame, rap_challenges);
        if transition_evals.len() != transition_coeffs.len()
            || context.transition_degrees.len() != transition_coeffs.len()
            || context.transition_exemptions.len() != transition_coeffs.len() {
            return Err(ProvingError::WrongParameter(
                "transition evaluation count disagrees with the context".to_string(),
            ));
        }
        let transition = transition_sum_at(
            &transition_evals,
            &context.transition_degrees,
            &context.transition_exemptions,
            &domain.trace_primitive_root,
            trace_length,
            z,
            transition_coeffs,
        )?;
        let total = boundary.add(&transition);
        proof {
            let rootv = fe_val(domain.trace_primitive_root);
            let lenv = trace_length as int;
            let rowv = fe_seq_vals(ood_frame.rows@[0]@);
            let zv = fe_val(*z);
            let bcv = coeff_vals(boundary_coeffs@);
            let tcv = coeff_vals(transition_coeffs@);
            let bpoints = columns@.map_values(|c: BoundaryColumn| fe_seq_vals(c.points@));
            let bpolys = columns@.map_values(|c: BoundaryColumn| c.poly.vals());
            let adjs = columns@.map_values(|c: BoundaryColumn| c.adjustment as int);
            assert(fe_seq_vals(row_copy@) == rowv);
            assert(boundary_sum_spec(bpoints, bpolys, adjs, rowv, zv, bcv, fe_val(boundary)));
            assert(context.transition_degrees@.map_values(|d: usize| d as int)
                == air.ctx_spec().transition_degrees);
            assert(context.transition_exemptions@.map_values(|d: usize| d as int)
                == air.ctx_spec().transition_exemptions);
            assert(transition_sum_spec(
                fe_seq_vals(transition_evals@),
                air.ctx_spec().transition_degrees,
                air.ctx_spec().transition_exemptions,
                rootv,
                lenv,
                zv,
                tcv,
                fe_val(transition),
            ));
            assert(composition_point_value(
                bpoints,
                bpolys,
                adjs,
                rowv,
                zv,
                bcv,
                air.ctx_spec().transition_degrees,
                air.ctx_spec().transition_exemptions,
                rootv,
                lenv,
                tcv,
                fe_val(total),
            ));
            assert(composition_value_from(
                self.boundary_constraints,
                rootv,
                lenv,
                rowv,
                zv,
                bcv,
                air.ctx_spec().transition_degrees,
                air.ctx_spec().transition_exemptions,
                tcv,
                ood_frame.rows@[0]@.len() as int,
                fe_val(total),
            ));
        }
        Ok(total)
    }
}

/// A copy of a vector of field elements, value for value.
pub fn dup_fe_vec(v: &Vec<Fe>) -> (r: Vec<Fe>)
    ensures
        fe_seq_vals(r@) == fe_seq_vals(v@),
        r@.len() == v@.len(),
{
    let mut out: Vec<Fe> = Vec::new();
    let mut i: usize = 0;
    while i < v.len()
        invariant
            i <= v@.len(),
            out@.len() == i,
            forall|k: int| 0 <= k < i ==> fe_val(#[trigger] out@[k]) == fe_val(v@[k]),
        decreases v@.len() - i,
    {
        out.push(v[i].dup());
        i += 1;
    }
    proof {
        assert(fe_seq_vals(out@) =~= fe_seq_vals(v@));
    }
    out
}

} // verus!
