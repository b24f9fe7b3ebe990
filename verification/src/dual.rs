//! The differentiating evaluator: forward-mode differentiation of the
//! weighted-model-counting fold.
//!
//! A dual number carries a probability together with one partial derivative
//! per fact.  Multiplication follows the product rule, probabilistic sum the
//! matching rule `d(a + b - ab) = (1-b) da + (1-a) db`.  A derivative may be
//! negative (through negated literals), so it is carried as a non-negative
//! part minus a non-positive part; both parts stay within
//! `clause count * UNIT`.

use vstd::prelude::*;

use crate::disjunctions::Disjunctions;
use crate::eval::{clause_conflict, clause_prod, formula_value, probs_wf};
use crate::fixed::{
    lemma_pmul_bounds, lemma_pmul_scale, pmul, por, prob_mul, prob_or, prob_scale, UNIT,
};
use crate::formula::{
    clause_bounded, clause_wf, formula_bounded, formula_wf, lit_id, Clause, DNFFormula, Literal,
};

verus! {

/// The most clauses the differentiating evaluator accepts in one formula:
/// keeps every derivative part below `u64::MAX` and inside `i64` range.
pub const MAX_RECOVER_CLAUSES: u64 = 1_000_000_000_000;

/// An all-zero derivative vector over `n` facts.
pub open spec fn zeros(n: int) -> Seq<int> {
    Seq::new(n as nat, |j: int| 0)
}

/// The derivative vector that is `UNIT` at fact `i` and zero elsewhere.
pub open spec fn unit_at(n: int, i: int) -> Seq<int> {
    Seq::new(n as nat, |j: int| if j == i { UNIT as int } else { 0 })
}

/// The dual number of one literal: its value, and derivative one (scaled)
/// with respect to its own fact, positive for `Pos`, negative for `Neg`.
pub open spec fn dual_lit(l: Literal, probs: Seq<u64>, n: int) -> (int, Seq<int>, Seq<int>) {
    match l {
        Literal::Pos(i) => (probs[i as int] as int, unit_at(n, i as int), zeros(n)),
        Literal::Neg(i) => (UNIT - probs[i as int], zeros(n), unit_at(n, i as int)),
    }
}

/// Product rule on dual numbers.
pub open spec fn dual_mul(
    a: (int, Seq<int>, Seq<int>),
    b: (int, Seq<int>, Seq<int>),
    n: int,
) -> (int, Seq<int>, Seq<int>) {
    (
        pmul(a.0, b.0),
        Seq::new(n as nat, |j: int| pmul(a.0, b.1[j]) + pmul(b.0, a.1[j])),
        Seq::new(n as nat, |j: int| pmul(a.0, b.2[j]) + pmul(b.0, a.2[j])),
    )
}

/// Probabilistic-sum rule on dual numbers.
pub open spec fn dual_or(
    a: (int, Seq<int>, Seq<int>),
    b: (int, Seq<int>, Seq<int>),
    n: int,
) -> (int, Seq<int>, Seq<int>) {
    (
        por(a.0, b.0),
        Seq::new(n as nat, |j: int| pmul(UNIT - b.0, a.1[j]) + pmul(UNIT - a.0, b.1[j])),
        Seq::new(n as nat, |j: int| pmul(UNIT - b.0, a.2[j]) + pmul(UNIT - a.0, b.2[j])),
    )
}

/// The dual fold over one clause's literals.
pub open spec fn clause_dual_prod(c: Seq<Literal>, probs: Seq<u64>, n: int) -> (
    int,
    Seq<int>,
    Seq<int>,
)
    decreases c.len(),
{
    if c.len() == 0 {
        (UNIT as int, zeros(n), zeros(n))
    } else {
        dual_mul(clause_dual_prod(c.drop_last(), probs, n), dual_lit(c.last(), probs, n), n)
    }
}

/// The dual value of one clause: zero on a disjunction conflict.
pub open spec fn clause_dual(c: Seq<Literal>, probs: Seq<u64>, d: Map<usize, usize>, n: int) -> (
    int,
    Seq<int>,
    Seq<int>,
) {
    if clause_conflict(c, d) {
        (0, zeros(n), zeros(n))
    } else {
        clause_dual_prod(c, probs, n)
    }
}

/// The dual fold over a formula's clauses: probability and gradient in one
/// traversal.
pub open spec fn formula_dual(
    f: Seq<Seq<Literal>>,
    probs: Seq<u64>,
    d: Map<usize, usize>,
    n: int,
) -> (int, Seq<int>, Seq<int>)
    decreases f.len(),
{
    if f.len() == 0 {
        (0, zeros(n), zeros(n))
    } else {
        dual_or(
            formula_dual(f.drop_last(), probs, d, n),
            clause_dual(f.last(), probs, d, n),
            n,
        )
    }
}

/// Whether fact `j` occurs in the clause, under either polarity.
pub open spec fn clause_mentions(c: Seq<Literal>, j: int) -> bool {
    exists|i: int| 0 <= i < c.len() && lit_id(c[i]) as int == j
}

/// Whether fact `j` occurs anywhere in the formula.
pub open spec fn formula_mentions(f: Seq<Seq<Literal>>, j: int) -> bool {
    exists|ci: int| 0 <= ci < f.len() && clause_mentions(f[ci], j)
}


/// Every entry of the first `n` within `[0, b]`.
pub open spec fn seq_bounded(s: Seq<int>, n: int, b: int) -> bool {
    forall|j: int| 0 <= j < n ==> 0 <= #[trigger] s[j] <= b
}

/// Both derivative parts within `[0, b]` at every fact below `n`.
pub open spec fn parts_bounded(s: (int, Seq<int>, Seq<int>), n: int, b: int) -> bool {
    seq_bounded(s.1, n, b) && seq_bounded(s.2, n, b)
}

/// The probability part of the dual fold is exactly the plain evaluator's value:
/// recovering a probability and weighing a tag agree.
pub proof fn lemma_clause_dual_real(c: Seq<Literal>, probs: Seq<u64>, n: int)
    ensures
        clause_dual_prod(c, probs, n).0 == clause_prod(c, probs),
    decreases c.len(),
{
    if c.len() > 0 {
        lemma_clause_dual_real(c.drop_last(), probs, n);
    }
}

/// See `lemma_clause_dual_real`: the agreement lifted to whole formulas.
pub proof fn lemma_formula_dual_real(
    f: Seq<Seq<Literal>>,
    probs: Seq<u64>,
    d: Map<usize, usize>,
    n: int,
)
    ensures
        formula_dual(f, probs, d, n).0 == formula_value(f, probs, d),
    decreases f.len(),
{
    if f.len() > 0 {
        lemma_formula_dual_real(f.drop_last(), probs, d, n);
        lemma_clause_dual_real(f.last(), probs, n);
    }
}

/// Derivative parts of a well-formed clause stay in `[0, UNIT]`, and vanish
/// on facts the clause does not mention.
#[verifier::spinoff_prover]
#[verifier::rlimit(60)]
pub proof fn lemma_clause_dual_bounds(c: Seq<Literal>, probs: Seq<u64>, n: int)
    requires
        probs_wf(probs),
        clause_wf(c),
        clause_bounded(c, probs.len() as int),
        n == probs.len(),
    ensures
        0 <= clause_dual_prod(c, probs, n).0 <= UNIT,
        clause_dual_prod(c, probs, n).1.len() == n,
        clause_dual_prod(c, probs, n).2.len() == n,
        parts_bounded(clause_dual_prod(c, probs, n), n, UNIT as int),
        forall|j: int|
            0 <= j < n && !clause_mentions(c, j) ==> clause_dual_prod(c, probs, n).1[j] == 0
                && clause_dual_prod(c, probs, n).2[j] == 0,
    decreases c.len(),
{
    lemma_clause_dual_real(c, probs, n);
    crate::eval::lemma_clause_prod_bounds(c, probs);
    let r = clause_dual_prod(c, probs, n);
    let s1 = r.1;
    let s2 = r.2;
    if c.len() == 0 {
        assert forall|j: int| 0 <= j < n implies 0 <= #[trigger] s1[j] <= UNIT by {
            assert(s1[j] == 0);
        }
        assert forall|j: int| 0 <= j < n implies 0 <= #[trigger] s2[j] <= UNIT by {
            assert(s2[j] == 0);
        }
        assert(seq_bounded(s1, n, UNIT as int));
        assert(seq_bounded(s2, n, UNIT as int));
    } else {
        let c0 = c.drop_last();
        let l = c.last();
        let a = clause_dual_prod(c0, probs, n);
        let b = dual_lit(l, probs, n);
        lemma_clause_dual_bounds(c0, probs, n);
        lemma_clause_dual_real(c0, probs, n);
        crate::eval::lemma_clause_prod_bounds(c0, probs);
        let id = lit_id(l) as int;
        assert(!clause_mentions(c0, id)) by {
            assert forall|i: int| 0 <= i < c0.len() implies lit_id(c0[i]) as int != id by {
                assert(lit_id(c[i]) < lit_id(c[c.len() - 1]));
            }
        }
        assert(0 <= b.0 <= UNIT);
        assert forall|j: int| 0 <= j < n implies 0 <= #[trigger] s1[j] <= UNIT by {
            assert(0 <= a.1[j] <= UNIT && 0 <= a.2[j] <= UNIT);
            assert(s1[j] == pmul(a.0, b.1[j]) + pmul(b.0, a.1[j]));
            lemma_pmul_scale(a.0, b.1[j]);
            lemma_pmul_scale(b.0, a.1[j]);
            if j == id {
                assert(a.1[j] == 0 && a.2[j] == 0);
                lemma_pmul_bounds(a.0, UNIT as int);
            } else {
                assert(b.1[j] == 0);
            }
        }
        assert forall|j: int| 0 <= j < n implies 0 <= #[trigger] s2[j] <= UNIT by {
            assert(0 <= a.1[j] <= UNIT && 0 <= a.2[j] <= UNIT);
            assert(s2[j] == pmul(a.0, b.2[j]) + pmul(b.0, a.2[j]));
            lemma_pmul_scale(a.0, b.2[j]);
            lemma_pmul_scale(b.0, a.2[j]);
            if j == id {
                assert(a.1[j] == 0 && a.2[j] == 0);
                lemma_pmul_bounds(a.0, UNIT as int);
            } else {
                assert(b.2[j] == 0);
            }
        }
        assert(seq_bounded(s1, n, UNIT as int));
        assert(seq_bounded(s2, n, UNIT as int));
        assert forall|j: int| 0 <= j < n && !clause_mentions(c, j) implies #[trigger] clause_dual_prod(
            c,
            probs,
            n,
        ).1[j] == 0 && clause_dual_prod(c, probs, n).2[j] == 0 by {
            assert(j != id);
            assert(!clause_mentions(c0, j)) by {
                if clause_mentions(c0, j) {
                    let i = choose|i: int| 0 <= i < c0.len() && lit_id(c0[i]) as int == j;
                    assert(lit_id(c[i]) as int == j);
                }
            }
            assert(a.1[j] == 0 && a.2[j] == 0);
            assert(b.1[j] == 0 && b.2[j] == 0);
        }
    }
}

/// Derivative parts of a well-formed formula stay within its clause count
/// times `UNIT`.
#[verifier::spinoff_prover]
#[verifier::rlimit(60)]
pub proof fn lemma_formula_dual_bounds(
    f: Seq<Seq<Literal>>,
    probs: Seq<u64>,
    d: Map<usize, usize>,
    n: int,
)
    requires
        probs_wf(probs),
        formula_wf(f),
        formula_bounded(f, probs.len() as int),
        n == probs.len(),
    ensures
        0 <= formula_dual(f, probs, d, n).0 <= UNIT,
        formula_dual(f, probs, d, n).1.len() == n,
        formula_dual(f, probs, d, n).2.len() == n,
        parts_bounded(formula_dual(f, probs, d, n), n, f.len() * (UNIT as int)),
    decreases f.len(),
{
    lemma_formula_dual_real(f, probs, d, n);
    crate::eval::lemma_formula_value_bounds(f, probs, d);
    let r = formula_dual(f, probs, d, n);
    let s1 = r.1;
    let s2 = r.2;
    if f.len() == 0 {
        assert forall|j: int| 0 <= j < n implies 0 <= #[trigger] s1[j] <= f.len() * (UNIT as int) by {
            assert(s1[j] == 0);
        }
        assert forall|j: int| 0 <= j < n implies 0 <= #[trigger] s2[j] <= f.len() * (UNIT as int) by {
            assert(s2[j] == 0);
        }
        assert(seq_bounded(s1, n, f.len() * (UNIT as int)));
        assert(seq_bounded(s2, n, f.len() * (UNIT as int)));
    } else {
        let f0 = f.drop_last();
        let c = f.last();
        let a = formula_dual(f0, probs, d, n);
        let b = clause_dual(c, probs, d, n);
        assert(formula_wf(f0) && formula_bounded(f0, probs.len() as int));
        lemma_formula_dual_bounds(f0, probs, d, n);
        lemma_clause_dual_bounds(c, probs, n);
        lemma_formula_dual_real(f0, probs, d, n);
        crate::eval::lemma_formula_value_bounds(f0, probs, d);
        crate::eval::lemma_clause_value_bounds(c, probs, d);
        lemma_clause_dual_real(c, probs, n);
        assert(0 <= b.0 <= UNIT);
        assert forall|j: int| 0 <= j < n implies 0 <= #[trigger] s1[j] <= f.len() * (
        UNIT as int) by {
            assert(0 <= a.1[j] <= f0.len() * (UNIT as int));
            assert(0 <= b.1[j] <= UNIT);
            assert(s1[j] == pmul(UNIT - b.0, a.1[j]) + pmul(UNIT - a.0, b.1[j]));
            lemma_pmul_scale(UNIT - b.0, a.1[j]);
            lemma_pmul_scale(UNIT - a.0, b.1[j]);
            assert(f0.len() * (UNIT as int) + (UNIT as int) == f.len() * (UNIT as int))
                by (nonlinear_arith)
                requires
                    f0.len() + 1 == f.len(),
            ;
        }
        assert forall|j: int| 0 <= j < n implies 0 <= #[trigger] s2[j] <= f.len() * (
        UNIT as int) by {
            assert(0 <= a.2[j] <= f0.len() * (UNIT as int));
            assert(0 <= b.2[j] <= UNIT);
            assert(s2[j] == pmul(UNIT - b.0, a.2[j]) + pmul(UNIT - a.0, b.2[j]));
            lemma_pmul_scale(UNIT - b.0, a.2[j]);
            lemma_pmul_scale(UNIT - a.0, b.2[j]);
            assert(f0.len() * (UNIT as int) + (UNIT as int) == f.len() * (UNIT as int))
                by (nonlinear_arith)
                requires
                    f0.len() + 1 == f.len(),
            ;
        }
        assert(seq_bounded(s1, n, f.len() * (UNIT as int)));
        assert(seq_bounded(s2, n, f.len() * (UNIT as int)));
    }
}

/// A probability with its gradient: the non-negative and non-positive
/// derivative parts, per fact.
pub struct DualNumber {
    pub prob: u64,
    pub dpos: Vec<u64>,
    pub dneg: Vec<u64>,
}

/// The exec dual number matches a spec dual triple.
pub open spec fn dual_matches(v: DualNumber, s: (int, Seq<int>, Seq<int>), n: int) -> bool {
    &&& v.prob as int == s.0
    &&& v.dpos@.len() == n
    &&& v.dneg@.len() == n
    &&& forall|j: int| 0 <= j < n ==> #[trigger] v.dpos@[j] as int == s.1[j]
    &&& forall|j: int| 0 <= j < n ==> #[trigger] v.dneg@[j] as int == s.2[j]
}

fn zero_vec(n: usize) -> (r: Vec<u64>)
    ensures
        r@.len() == n,
        forall|j: int| 0 <= j < n ==> #[trigger] r@[j] == 0,
{
    let mut r: Vec<u64> = Vec::new();
    let mut i: usize = 0;
    while i < n
        invariant
            i <= n,
            r@.len() == i,
            forall|j: int| 0 <= j < i ==> #[trigger] r@[j] == 0,
        decreases n - i,
    {
        r.push(0);
        i = i + 1;
    }
    r
}

/// The differentiating evaluator on one clause.
fn eval_clause_dual(c: &Clause, probs: &Vec<u64>, d: &Disjunctions) -> (r: DualNumber)
    requires
        probs_wf(probs@),
        clause_wf(c@),
        clause_bounded(c@, probs@.len() as int),
        crate::disjunctions::assignments_wf(d.assignments@),
    ensures
        dual_matches(r, clause_dual(c@, probs@, d@, probs@.len() as int), probs@.len() as int),
        r.prob <= UNIT,
        forall|j: int| 0 <= j < probs@.len() ==> #[trigger] r.dpos@[j] <= UNIT,
        forall|j: int| 0 <= j < probs@.len() ==> #[trigger] r.dneg@[j] <= UNIT,
{
    let n = probs.len();
    proof {
        lemma_clause_dual_bounds(c@, probs@, n as int);
    }
    if crate::eval::clause_has_conflict(c, d) {
        return DualNumber { prob: 0, dpos: zero_vec(n), dneg: zero_vec(n) };
    }
    let mut prob: u64 = UNIT;
    let mut dpos = zero_vec(n);
    let mut dneg = zero_vec(n);
    let len = c.literals.len();
    let mut i: usize = 0;
    proof {
        assert(c@.take(0) =~= Seq::<Literal>::empty());
    }
    while i < len
        invariant
            len == c.literals.len(),
            i <= len,
            n == probs.len(),
            probs_wf(probs@),
            clause_wf(c@),
            clause_bounded(c@, probs@.len() as int),
            dual_matches(
                DualNumber { prob, dpos, dneg },
                clause_dual_prod(c@.take(i as int), probs@, n as int),
                n as int,
            ),
            prob <= UNIT,
            forall|j: int| 0 <= j < n ==> #[trigger] dpos@[j] <= UNIT,
            forall|j: int| 0 <= j < n ==> #[trigger] dneg@[j] <= UNIT,
        decreases len - i,
    {
        let ghost prefix = c@.take(i as int);
        let ghost acc_spec = clause_dual_prod(prefix, probs@, n as int);
        let ghost lit_spec = dual_lit(c@[i as int], probs@, n as int);
        proof {
            assert(clause_wf(prefix));
            assert(clause_bounded(prefix, probs@.len() as int));
            lemma_clause_dual_bounds(prefix, probs@, n as int);
            assert(c@.take(i + 1).drop_last() =~= prefix);
            assert(c@.take(i + 1).last() == c@[i as int]);
        }
        let (id, v, pos): (usize, u64, bool) = match c.literals[i] {
            Literal::Pos(id) => (id, probs[id], true),
            Literal::Neg(id) => (id, UNIT - probs[id], false),
        };
        let old_real = prob;
        prob = prob_mul(prob, v);
        proof {
            assert(id == lit_id(c@[i as int]));
            assert(!clause_mentions(prefix, id as int)) by {
                if clause_mentions(prefix, id as int) {
                    let w = choose|w: int|
                        0 <= w < prefix.len() && lit_id(prefix[w]) as int == id as int;
                    assert(lit_id(c@[w]) < lit_id(c@[i as int]));
                }
            }
            assert(acc_spec.1[id as int] == 0 && acc_spec.2[id as int] == 0);
        }
        let mut j: usize = 0;
        while j < n
            invariant
                n == probs.len(),
                j <= n,
                id < n,
                v <= UNIT,
                old_real <= UNIT,
                dpos@.len() == n,
                dneg@.len() == n,
                acc_spec == clause_dual_prod(prefix, probs@, n as int),
                lit_spec == dual_lit(c@[i as int], probs@, n as int),
                v as int == lit_spec.0,
                old_real as int == acc_spec.0,
                forall|jj: int| j <= jj < n ==> #[trigger] dpos@[jj] as int == acc_spec.1[jj],
                forall|jj: int| j <= jj < n ==> #[trigger] dneg@[jj] as int == acc_spec.2[jj],
                forall|jj: int| j <= jj < n ==> #[trigger] dpos@[jj] <= UNIT,
                forall|jj: int| j <= jj < n ==> #[trigger] dneg@[jj] <= UNIT,
                forall|jj: int|
                    0 <= jj < j ==> #[trigger] dpos@[jj] as int == pmul(acc_spec.0, lit_spec.1[jj])
                        + pmul(lit_spec.0, acc_spec.1[jj]),
                forall|jj: int|
                    0 <= jj < j ==> #[trigger] dneg@[jj] as int == pmul(acc_spec.0, lit_spec.2[jj])
                        + pmul(lit_spec.0, acc_spec.2[jj]),
                forall|jj: int| 0 <= jj < j ==> #[trigger] dpos@[jj] <= UNIT,
                forall|jj: int| 0 <= jj < j ==> #[trigger] dneg@[jj] <= UNIT,
                forall|jj: int|
                    0 <= jj < n && jj != id ==> lit_spec.1[jj] == 0 && lit_spec.2[jj] == 0,
                acc_spec.1[id as int] == 0 && acc_spec.2[id as int] == 0,
                pos ==> lit_spec.1[id as int] == UNIT && lit_spec.2[id as int] == 0,
                !pos ==> lit_spec.1[id as int] == 0 && lit_spec.2[id as int] == UNIT,
            decreases n - j,
        {
            proof {
                lemma_pmul_scale(v as int, dpos@[j as int] as int);
                lemma_pmul_scale(v as int, dneg@[j as int] as int);
                lemma_pmul_scale(old_real as int, lit_spec.1[j as int]);
                lemma_pmul_scale(old_real as int, lit_spec.2[j as int]);
                lemma_pmul_bounds(old_real as int, UNIT as int);
            }
            let scaled_p = prob_scale(v, dpos[j]);
            let scaled_n = prob_scale(v, dneg[j]);
            if j == id {
                if pos {
                    let add_p = prob_scale(old_real, UNIT);
                    dpos.set(j, scaled_p + add_p);
                    dneg.set(j, scaled_n);
                } else {
                    let add_n = prob_scale(old_real, UNIT);
                    dpos.set(j, scaled_p);
                    dneg.set(j, scaled_n + add_n);
                }
            } else {
                dpos.set(j, scaled_p);
                dneg.set(j, scaled_n);
            }
            j = j + 1;
        }
        proof {
            let next = clause_dual_prod(c@.take(i + 1), probs@, n as int);
            assert(next == dual_mul(acc_spec, lit_spec, n as int));
            assert forall|jj: int| 0 <= jj < n implies #[trigger] dpos@[jj] as int == next.1[jj]
                && dneg@[jj] as int == next.2[jj] by {}
            lemma_clause_dual_bounds(c@.take(i + 1), probs@, n as int);
            assert forall|jj: int| 0 <= jj < n implies #[trigger] dpos@[jj] <= UNIT && dneg@[jj]
                <= UNIT by {}
        }
        i = i + 1;
    }
    proof {
        assert(c@.take(len as int) =~= c@);
    }
    DualNumber { prob, dpos, dneg }
}

/// The differentiating evaluator on a formula: probability and exact
/// gradient of the fold, in one traversal.
pub fn eval_formula_dual(f: &DNFFormula, probs: &Vec<u64>, d: &Disjunctions) -> (r: DualNumber)
    requires
        probs_wf(probs@),
        formula_wf(f@),
        formula_bounded(f@, probs@.len() as int),
        crate::disjunctions::assignments_wf(d.assignments@),
        f@.len() <= MAX_RECOVER_CLAUSES,
    ensures
        dual_matches(r, formula_dual(f@, probs@, d@, probs@.len() as int), probs@.len() as int),
        r.prob <= UNIT,
        forall|j: int|
            0 <= j < probs@.len() ==> #[trigger] r.dpos@[j] as int <= f@.len() * (UNIT as int),
        forall|j: int|
            0 <= j < probs@.len() ==> #[trigger] r.dneg@[j] as int <= f@.len() * (UNIT as int),
{
    let n = probs.len();
    let len = f.clauses.len();
    let mut prob: u64 = 0;
    let mut dpos = zero_vec(n);
    let mut dneg = zero_vec(n);
    let mut i: usize = 0;
    proof {
        assert(f@.take(0) =~= Seq::<Seq<Literal>>::empty());
    }
    while i < len
        invariant
            len == f.clauses.len(),
            i <= len,
            n == probs.len(),
            probs_wf(probs@),
            formula_wf(f@),
            formula_bounded(f@, probs@.len() as int),
            crate::disjunctions::assignments_wf(d.assignments@),
            len <= MAX_RECOVER_CLAUSES,
            dual_matches(
                DualNumber { prob, dpos, dneg },
                formula_dual(f@.take(i as int), probs@, d@, n as int),
                n as int,
            ),
            prob <= UNIT,
            forall|j: int| 0 <= j < n ==> #[trigger] dpos@[j] as int <= i * (UNIT as int),
            forall|j: int| 0 <= j < n ==> #[trigger] dneg@[j] as int <= i * (UNIT as int),
        decreases len - i,
    {
        let ghost prefix = f@.take(i as int);
        let ghost acc_spec = formula_dual(prefix, probs@, d@, n as int);
        proof {
            assert(formula_wf(prefix) && formula_bounded(prefix, probs@.len() as int));
            lemma_formula_dual_bounds(prefix, probs@, d@, n as int);
            assert(f@[i as int] == f.clauses@[i as int]@);
            assert(clause_wf(f@[i as int]) && clause_bounded(f@[i as int], probs@.len() as int));
            assert(f@.take(i + 1).drop_last() =~= prefix);
            assert(f@.take(i + 1).last() == f@[i as int]);
        }
        let cv = eval_clause_dual(&f.clauses[i], probs, d);
        let ghost cv_spec = clause_dual(f@[i as int], probs@, d@, n as int);
        let old_real = prob;
        prob = prob_or(prob, cv.prob);
        let ca = UNIT - cv.prob;
        let cb = UNIT - old_real;
        let mut j: usize = 0;
        while j < n
            invariant
                n == probs.len(),
                j <= n,
                i < len,
                len == f.clauses.len(),
                i < f@.len(),
                len <= MAX_RECOVER_CLAUSES,
                ca <= UNIT,
                cb <= UNIT,
                dpos@.len() == n,
                dneg@.len() == n,
                cv.dpos@.len() == n,
                cv.dneg@.len() == n,
                acc_spec == formula_dual(prefix, probs@, d@, n as int),
                cv_spec == clause_dual(f@[i as int], probs@, d@, n as int),
                ca as int == (UNIT as int) - cv_spec.0,
                cb as int == (UNIT as int) - acc_spec.0,
                forall|jj: int| 0 <= jj < n ==> #[trigger] cv.dpos@[jj] as int == cv_spec.1[jj],
                forall|jj: int| 0 <= jj < n ==> #[trigger] cv.dneg@[jj] as int == cv_spec.2[jj],
                forall|jj: int| 0 <= jj < n ==> #[trigger] cv.dpos@[jj] <= UNIT,
                forall|jj: int| 0 <= jj < n ==> #[trigger] cv.dneg@[jj] <= UNIT,
                forall|jj: int| j <= jj < n ==> #[trigger] dpos@[jj] as int == acc_spec.1[jj],
                forall|jj: int| j <= jj < n ==> #[trigger] dneg@[jj] as int == acc_spec.2[jj],
                forall|jj: int| j <= jj < n ==> #[trigger] dpos@[jj] as int <= i * (UNIT as int),
                forall|jj: int| j <= jj < n ==> #[trigger] dneg@[jj] as int <= i * (UNIT as int),
                forall|jj: int|
                    0 <= jj < j ==> #[trigger] dpos@[jj] as int == pmul(
                        (UNIT as int) - cv_spec.0,
                        acc_spec.1[jj],
                    ) + pmul((UNIT as int) - acc_spec.0, cv_spec.1[jj]),
                forall|jj: int|
                    0 <= jj < j ==> #[trigger] dneg@[jj] as int == pmul(
                        (UNIT as int) - cv_spec.0,
                        acc_spec.2[jj],
                    ) + pmul((UNIT as int) - acc_spec.0, cv_spec.2[jj]),
                forall|jj: int|
                    0 <= jj < j ==> #[trigger] dpos@[jj] as int <= (i + 1) * (UNIT as int),
                forall|jj: int|
                    0 <= jj < j ==> #[trigger] dneg@[jj] as int <= (i + 1) * (UNIT as int),
            decreases n - j,
        {
            proof {
                lemma_pmul_scale(ca as int, dpos@[j as int] as int);
                lemma_pmul_scale(ca as int, dneg@[j as int] as int);
                lemma_pmul_scale(cb as int, cv.dpos@[j as int] as int);
                lemma_pmul_scale(cb as int, cv.dneg@[j as int] as int);
                assert(i * (UNIT as int) + (UNIT as int) == (i + 1) * (UNIT as int))
                    by (nonlinear_arith);
                assert((i + 1) * (UNIT as int) <= (MAX_RECOVER_CLAUSES as int) * (UNIT as int))
                    by (nonlinear_arith)
                    requires
                        0 <= i + 1 <= MAX_RECOVER_CLAUSES as int,
                ;
            }
            let tp = prob_scale(ca, dpos[j]) + prob_scale(cb, cv.dpos[j]);
            let tn = prob_scale(ca, dneg[j]) + prob_scale(cb, cv.dneg[j]);
            dpos.set(j, tp);
            dneg.set(j, tn);
            j = j + 1;
        }
        proof {
            let next = formula_dual(f@.take(i + 1), probs@, d@, n as int);
            assert(next == dual_or(acc_spec, cv_spec, n as int));
            assert forall|jj: int| 0 <= jj < n implies #[trigger] dpos@[jj] as int == next.1[jj]
                && dneg@[jj] as int == next.2[jj] by {}
        }
        i = i + 1;
    }
    proof {
        assert(f@.take(len as int) =~= f@);
    }
    DualNumber { prob, dpos, dneg }
}

} // verus!
