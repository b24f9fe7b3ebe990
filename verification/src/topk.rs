//! The top-k-bounded DNF algebra.
//!
//! `add` is union of clause sets, `mult` the pairwise conjunction of
//! clauses, `negate` the De-Morgan expansion of the complement; after each,
//! only the `k` clauses of greatest estimated weight (ties resolved toward
//! the earlier clause) are retained, keeping formula size and evaluation
//! cost bounded at the price of approximation.

use vstd::prelude::*;

use crate::disjunctions::Disjunctions;
use crate::eval::{clause_value, eval_clause, probs_wf};
use crate::formula::{
    clause_bounded, clause_wf, formula_bounded, formula_wf, lit_id, Clause, DNFFormula, Literal,
};

verus! {

/// The complement of one literal.
pub open spec fn spec_negate_lit(l: Literal) -> Literal {
    match l {
        Literal::Pos(i) => Literal::Neg(i),
        Literal::Neg(i) => Literal::Pos(i),
    }
}

/// Union of two sorted clauses: the conjunction of both, `None` when they
/// assert a fact under both polarities (a contradiction).
pub open spec fn merge_lits(a: Seq<Literal>, b: Seq<Literal>) -> Option<Seq<Literal>>
    decreases a.len() + b.len(),
{
    if a.len() == 0 {
        Some(b)
    } else if b.len() == 0 {
        Some(a)
    } else if lit_id(a[0]) < lit_id(b[0]) {
        match merge_lits(a.skip(1), b) {
            Option::None => Option::None,
            Option::Some(r) => Some(seq![a[0]] + r),
        }
    } else if lit_id(b[0]) < lit_id(a[0]) {
        match merge_lits(a, b.skip(1)) {
            Option::None => Option::None,
            Option::Some(r) => Some(seq![b[0]] + r),
        }
    } else if a[0] == b[0] {
        match merge_lits(a.skip(1), b.skip(1)) {
            Option::None => Option::None,
            Option::Some(r) => Some(seq![a[0]] + r),
        }
    } else {
        Option::None
    }
}

/// Appends a clause unless an equal one is already present.
pub open spec fn push_new(acc: Seq<Seq<Literal>>, c: Seq<Literal>) -> Seq<Seq<Literal>> {
    if acc.contains(c) {
        acc
    } else {
        acc.push(c)
    }
}

/// The clause set of `f1` extended with the clauses of the first `i` of
/// `f2`: the exact disjunction of the two formulas.
pub open spec fn union_clauses(f1: Seq<Seq<Literal>>, f2: Seq<Seq<Literal>>, i: int) -> Seq<
    Seq<Literal>,
>
    decreases i,
{
    if i <= 0 {
        f1
    } else {
        push_new(union_clauses(f1, f2, i - 1), f2[i - 1])
    }
}

/// `acc` extended with the conjunctions of `c1` against the first `j`
/// clauses of `f2`, contradictions dropped.
pub open spec fn mult_row(
    acc: Seq<Seq<Literal>>,
    c1: Seq<Literal>,
    f2: Seq<Seq<Literal>>,
    j: int,
) -> Seq<Seq<Literal>>
    decreases j,
{
    if j <= 0 {
        acc
    } else {
        let prev = mult_row(acc, c1, f2, j - 1);
        match merge_lits(c1, f2[j - 1]) {
            Option::None => prev,
            Option::Some(c) => push_new(prev, c),
        }
    }
}

/// Every pairwise conjunction of a clause of the first `i` of `f1` with a
/// clause of `f2`: the exact distributed conjunction of the two formulas.
pub open spec fn mult_all(f1: Seq<Seq<Literal>>, f2: Seq<Seq<Literal>>, i: int) -> Seq<
    Seq<Literal>,
>
    decreases i,
{
    if i <= 0 {
        Seq::empty()
    } else {
        mult_row(mult_all(f1, f2, i - 1), f1[i - 1], f2, f2.len() as int)
    }
}

/// Clause `j` outranks clause `i`: strictly greater estimated weight, or
/// equal weight and the earlier position.
pub open spec fn outranks(
    f: Seq<Seq<Literal>>,
    probs: Seq<u64>,
    d: Map<usize, usize>,
    j: int,
    i: int,
) -> bool {
    ||| clause_value(f[j], probs, d) > clause_value(f[i], probs, d)
    ||| (clause_value(f[j], probs, d) == clause_value(f[i], probs, d) && j < i)
}

/// How many of the first `upto` clauses outrank clause `i`.
pub open spec fn count_outranking(
    f: Seq<Seq<Literal>>,
    probs: Seq<u64>,
    d: Map<usize, usize>,
    i: int,
    upto: int,
) -> int
    decreases upto,
{
    if upto <= 0 {
        0
    } else {
        count_outranking(f, probs, d, i, upto - 1) + if outranks(f, probs, d, upto - 1, i) {
            1int
        } else {
            0int
        }
    }
}

/// A clause is retained when fewer than `k` clauses outrank it.
pub open spec fn retained(
    f: Seq<Seq<Literal>>,
    probs: Seq<u64>,
    d: Map<usize, usize>,
    k: int,
    i: int,
) -> bool {
    count_outranking(f, probs, d, i, f.len() as int) < k
}

/// The first `i` clauses filtered down to the retained ones, stopped at
/// `k`: the top-k selection, in original clause order.
pub open spec fn keep_topk(
    f: Seq<Seq<Literal>>,
    probs: Seq<u64>,
    d: Map<usize, usize>,
    k: int,
    i: int,
) -> Seq<Seq<Literal>>
    decreases i,
{
    if i <= 0 {
        Seq::empty()
    } else {
        let prev = keep_topk(f, probs, d, k, i - 1);
        if retained(f, probs, d, k, i - 1) && prev.len() < k {
            prev.push(f[i - 1])
        } else {
            prev
        }
    }
}

/// The top-k disjunction of two formulas.
pub open spec fn spec_add(
    f1: Seq<Seq<Literal>>,
    f2: Seq<Seq<Literal>>,
    probs: Seq<u64>,
    d: Map<usize, usize>,
    k: int,
) -> Seq<Seq<Literal>> {
    let u = union_clauses(f1, f2, f2.len() as int);
    keep_topk(u, probs, d, k, u.len() as int)
}

/// The top-k conjunction of two formulas.
pub open spec fn spec_mult(
    f1: Seq<Seq<Literal>>,
    f2: Seq<Seq<Literal>>,
    probs: Seq<u64>,
    d: Map<usize, usize>,
    k: int,
) -> Seq<Seq<Literal>> {
    let m = mult_all(f1, f2, f1.len() as int);
    keep_topk(m, probs, d, k, m.len() as int)
}

/// One clause's complement as a formula: the disjunction of its negated
/// literals.
pub open spec fn neg_clause_formula(c: Seq<Literal>) -> Seq<Seq<Literal>> {
    Seq::new(c.len(), |i: int| seq![spec_negate_lit(c[i])])
}

/// The top-k complement of the first `i` clauses: the conjunction, clause
/// by clause, of each clause's complement.
pub open spec fn spec_negate(
    f: Seq<Seq<Literal>>,
    probs: Seq<u64>,
    d: Map<usize, usize>,
    k: int,
    i: int,
) -> Seq<Seq<Literal>>
    decreases i,
{
    if i <= 0 {
        seq![Seq::<Literal>::empty()]
    } else {
        spec_mult(spec_negate(f, probs, d, k, i - 1), neg_clause_formula(f[i - 1]), probs, d, k)
    }
}

/// Everything `merge_lits` builds from well-formed clauses is well formed,
/// and mentions exactly the facts of its two operands.
pub proof fn lemma_merge_lits_props(a: Seq<Literal>, b: Seq<Literal>)
    requires
        clause_wf(a),
        clause_wf(b),
    ensures
        merge_lits(a, b) matches Some(m) ==> clause_wf(m) && (forall|x: Literal|
            m.contains(x) ==> a.contains(x) || b.contains(x)),
    decreases a.len() + b.len(),
{
    if a.len() == 0 || b.len() == 0 {
    } else {
        let a1 = a.skip(1);
        let b1 = b.skip(1);
        assert(clause_wf(a1)) by {
            assert(forall|i: int, j: int|
                0 <= i < j < a1.len() ==> lit_id(a1[i]) == lit_id(a[i + 1]) && lit_id(a1[j])
                    == lit_id(a[j + 1]));
        }
        assert(clause_wf(b1)) by {
            assert(forall|i: int, j: int|
                0 <= i < j < b1.len() ==> lit_id(b1[i]) == lit_id(b[i + 1]) && lit_id(b1[j])
                    == lit_id(b[j + 1]));
        }
        if lit_id(a[0]) < lit_id(b[0]) {
            lemma_merge_lits_props(a1, b);
            if merge_lits(a1, b) is Some {
                let r = merge_lits(a1, b)->Some_0;
                let m = seq![a[0]] + r;
                assert forall|i: int, j: int| 0 <= i < j < m.len() implies lit_id(m[i]) < lit_id(
                    m[j],
                ) by {
                    if i == 0 {
                        assert(m[j] == r[j - 1]);
                        assert(r.contains(r[j - 1]));
                        if a1.contains(r[j - 1]) {
                            let w = choose|w: int| 0 <= w < a1.len() && a1[w] == r[j - 1];
                            assert(a1[w] == a[w + 1]);
                            assert(lit_id(a[0]) < lit_id(a[w + 1]));
                        } else {
                            let w = choose|w: int| 0 <= w < b.len() && b[w] == r[j - 1];
                            assert(lit_id(b[0]) <= lit_id(b[w]));
                        }
                    } else {
                        assert(m[i] == r[i - 1] && m[j] == r[j - 1]);
                    }
                }
                assert forall|x: Literal| m.contains(x) implies a.contains(x) || b.contains(
                    x,
                ) by {
                    let w = choose|w: int| 0 <= w < m.len() && m[w] == x;
                    if w == 0 {
                        assert(a[0] == x);
                    } else {
                        assert(r.contains(x));
                        if a1.contains(x) {
                            let v = choose|v: int| 0 <= v < a1.len() && a1[v] == x;
                            assert(a[v + 1] == x);
                        }
                    }
                }
            }
        } else if lit_id(b[0]) < lit_id(a[0]) {
            lemma_merge_lits_props(a, b1);
            if merge_lits(a, b1) is Some {
                let r = merge_lits(a, b1)->Some_0;
                let m = seq![b[0]] + r;
                assert forall|i: int, j: int| 0 <= i < j < m.len() implies lit_id(m[i]) < lit_id(
                    m[j],
                ) by {
                    if i == 0 {
                        assert(m[j] == r[j - 1]);
                        assert(r.contains(r[j - 1]));
                        if b1.contains(r[j - 1]) {
                            let w = choose|w: int| 0 <= w < b1.len() && b1[w] == r[j - 1];
                            assert(b1[w] == b[w + 1]);
                            assert(lit_id(b[0]) < lit_id(b[w + 1]));
                        } else {
                            let w = choose|w: int| 0 <= w < a.len() && a[w] == r[j - 1];
                            assert(lit_id(a[0]) <= lit_id(a[w]));
                        }
                    } else {
                        assert(m[i] == r[i - 1] && m[j] == r[j - 1]);
                    }
                }
                assert forall|x: Literal| m.contains(x) implies a.contains(x) || b.contains(
                    x,
                ) by {
                    let w = choose|w: int| 0 <= w < m.len() && m[w] == x;
                    if w == 0 {
                        assert(b[0] == x);
                    } else {
                        assert(r.contains(x));
                        if b1.contains(x) {
                            let v = choose|v: int| 0 <= v < b1.len() && b1[v] == x;
                            assert(b[v + 1] == x);
                        }
                    }
                }
            }
        } else if a[0] == b[0] {
            lemma_merge_lits_props(a1, b1);
            if merge_lits(a1, b1) is Some {
                let r = merge_lits(a1, b1)->Some_0;
                let m = seq![a[0]] + r;
                assert forall|i: int, j: int| 0 <= i < j < m.len() implies lit_id(m[i]) < lit_id(
                    m[j],
                ) by {
                    if i == 0 {
                        assert(m[j] == r[j - 1]);
                        assert(r.contains(r[j - 1]));
                        if a1.contains(r[j - 1]) {
                            let w = choose|w: int| 0 <= w < a1.len() && a1[w] == r[j - 1];
                            assert(a1[w] == a[w + 1]);
                        } else {
                            let w = choose|w: int| 0 <= w < b1.len() && b1[w] == r[j - 1];
                            assert(b1[w] == b[w + 1]);
                            assert(lit_id(b[0]) < lit_id(b[w + 1]));
                        }
                    } else {
                        assert(m[i] == r[i - 1] && m[j] == r[j - 1]);
                    }
                }
                assert forall|x: Literal| m.contains(x) implies a.contains(x) || b.contains(
                    x,
                ) by {
                    let w = choose|w: int| 0 <= w < m.len() && m[w] == x;
                    if w == 0 {
                        assert(a[0] == x);
                    } else {
                        assert(r.contains(x));
                        if a1.contains(x) {
                            let v = choose|v: int| 0 <= v < a1.len() && a1[v] == x;
                            assert(a[v + 1] == x);
                        } else {
                            let v = choose|v: int| 0 <= v < b1.len() && b1[v] == x;
                            assert(b[v + 1] == x);
                        }
                    }
                }
            }
        }
    }
}

/// A merged clause of bounded operands is bounded.
pub proof fn lemma_merge_lits_bounded(a: Seq<Literal>, b: Seq<Literal>, n: int)
    requires
        clause_wf(a),
        clause_wf(b),
        clause_bounded(a, n),
        clause_bounded(b, n),
    ensures
        merge_lits(a, b) matches Some(m) ==> clause_bounded(m, n),
{
    lemma_merge_lits_props(a, b);
    if merge_lits(a, b) is Some {
        let m = merge_lits(a, b)->Some_0;
        assert forall|i: int| 0 <= i < m.len() implies lit_id(m[i]) < n by {
            assert(m.contains(m[i]));
            if a.contains(m[i]) {
                let w = choose|w: int| 0 <= w < a.len() && a[w] == m[i];
            } else {
                let w = choose|w: int| 0 <= w < b.len() && b[w] == m[i];
            }
        }
    }
}


/// Both structural invariants at once: well-formed, and every fact below
/// `n`.
pub open spec fn all_wf(f: Seq<Seq<Literal>>, n: int) -> bool {
    formula_wf(f) && formula_bounded(f, n)
}

proof fn lemma_push_new_props(acc: Seq<Seq<Literal>>, c: Seq<Literal>)
    ensures
        forall|x: Seq<Literal>|
            push_new(acc, c).contains(x) <==> acc.contains(x) || x == c,
        acc.len() <= push_new(acc, c).len() <= acc.len() + 1,
        (forall|i: int, j: int| 0 <= i < j < acc.len() ==> acc[i] != acc[j]) ==> (forall|
            i: int,
            j: int,
        |
            0 <= i < j < push_new(acc, c).len() ==> push_new(acc, c)[i] != push_new(acc, c)[j]),
{
    let r = push_new(acc, c);
    assert forall|x: Seq<Literal>| r.contains(x) <==> acc.contains(x) || x == c by {
        if acc.contains(c) {
        } else {
            if r.contains(x) {
                let w = choose|w: int| 0 <= w < r.len() && r[w] == x;
                if w < acc.len() {
                    assert(acc[w] == x);
                }
            }
            if acc.contains(x) {
                let w = choose|w: int| 0 <= w < acc.len() && acc[w] == x;
                assert(r[w] == x);
            }
            if x == c {
                assert(r[acc.len() as int] == x);
            }
        }
    }
    if !acc.contains(c) {
        if forall|i: int, j: int| 0 <= i < j < acc.len() ==> acc[i] != acc[j] {
            assert forall|i: int, j: int| 0 <= i < j < r.len() implies r[i] != r[j] by {
                if j < acc.len() {
                    assert(r[i] == acc[i] && r[j] == acc[j]);
                } else {
                    assert(r[j] == c && r[i] == acc[i]);
                    assert(acc.contains(acc[i]));
                }
            }
        }
    }
}

/// The union holds exactly the clauses of its operands, and keeps the
/// structural invariants.
pub proof fn lemma_union_props(f1: Seq<Seq<Literal>>, f2: Seq<Seq<Literal>>, n: int, i: int)
    requires
        all_wf(f1, n),
        all_wf(f2, n),
        0 <= i <= f2.len(),
    ensures
        forall|x: Seq<Literal>|
            union_clauses(f1, f2, i).contains(x) <==> f1.contains(x) || exists|w: int|
                0 <= w < i && f2[w] == x,
        all_wf(union_clauses(f1, f2, i), n),
        union_clauses(f1, f2, i).len() <= f1.len() + i,
    decreases i,
{
    if i > 0 {
        lemma_union_props(f1, f2, n, i - 1);
        let prev = union_clauses(f1, f2, i - 1);
        lemma_push_new_props(prev, f2[i - 1]);
        let u = union_clauses(f1, f2, i);
        assert forall|x: Seq<Literal>| u.contains(x) implies f1.contains(x) || exists|w: int|
            0 <= w < i && f2[w] == x by {
            if x == f2[i - 1] {
                assert(f2[i - 1] == x);
            }
        }
        assert forall|x: Seq<Literal>|
            f1.contains(x) || exists|w: int| 0 <= w < i && f2[w] == x implies u.contains(x) by {
            if !f1.contains(x) {
                let w = choose|w: int| 0 <= w < i && f2[w] == x;
                if w < i - 1 {
                    assert(prev.contains(x));
                }
            }
        }
        assert forall|a: int| 0 <= a < u.len() implies clause_wf(#[trigger] u[a])
            && clause_bounded(u[a], n) by {
            assert(u.contains(u[a]));
            if f1.contains(u[a]) {
                let w = choose|w: int| 0 <= w < f1.len() && f1[w] == u[a];
            } else {
                let w = choose|w: int| 0 <= w < i && f2[w] == u[a];
            }
        }
    }
}

/// Every clause a `mult` builds is a contradiction-free conjunction of one
/// clause of each operand; the structural invariants carry over.
pub proof fn lemma_mult_row_props(
    acc: Seq<Seq<Literal>>,
    c1: Seq<Literal>,
    f2: Seq<Seq<Literal>>,
    n: int,
    j: int,
)
    requires
        all_wf(acc, n),
        clause_wf(c1),
        clause_bounded(c1, n),
        all_wf(f2, n),
        0 <= j <= f2.len(),
    ensures
        all_wf(mult_row(acc, c1, f2, j), n),
        mult_row(acc, c1, f2, j).len() <= acc.len() + j,
    decreases j,
{
    if j > 0 {
        lemma_mult_row_props(acc, c1, f2, n, j - 1);
        let prev = mult_row(acc, c1, f2, j - 1);
        let r = mult_row(acc, c1, f2, j);
        lemma_merge_lits_props(c1, f2[j - 1]);
        lemma_merge_lits_bounded(c1, f2[j - 1], n);
        match merge_lits(c1, f2[j - 1]) {
            Option::None => {},
            Option::Some(c) => {
                if !prev.contains(c) {
                    assert(r == prev.push(c));
                    assert forall|a: int, b: int| 0 <= a < b < r.len() implies r[a] != r[b] by {
                        if b < prev.len() {
                            assert(r[a] == prev[a] && r[b] == prev[b]);
                        } else {
                            assert(r[b] == c && r[a] == prev[a]);
                            assert(prev.contains(prev[a]));
                        }
                    }
                    assert forall|a: int| 0 <= a < r.len() implies clause_wf(#[trigger] r[a])
                        && clause_bounded(r[a], n) by {
                        if a < prev.len() {
                            assert(r[a] == prev[a]);
                        } else {
                            assert(r[a] == c);
                        }
                    }
                }
            },
        }
    }
}

/// See `lemma_mult_row_props`, over every clause of the first operand.
pub proof fn lemma_mult_all_props(f1: Seq<Seq<Literal>>, f2: Seq<Seq<Literal>>, n: int, i: int)
    requires
        all_wf(f1, n),
        all_wf(f2, n),
        0 <= i <= f1.len(),
    ensures
        all_wf(mult_all(f1, f2, i), n),
        mult_all(f1, f2, i).len() <= i * f2.len(),
    decreases i,
{
    if i > 0 {
        lemma_mult_all_props(f1, f2, n, i - 1);
        lemma_mult_row_props(mult_all(f1, f2, i - 1), f1[i - 1], f2, n, f2.len() as int);
        assert((i - 1) * f2.len() + f2.len() == i * f2.len()) by (nonlinear_arith);
    }
}

/// The retained clauses are clauses of `f`, in their original order, at
/// most `k` of them; the structural invariants carry over.
pub proof fn lemma_keep_topk_props(
    f: Seq<Seq<Literal>>,
    probs: Seq<u64>,
    d: Map<usize, usize>,
    n: int,
    k: int,
    i: int,
)
    requires
        all_wf(f, n),
        0 <= i <= f.len(),
        k >= 0,
    ensures
        keep_topk(f, probs, d, k, i).len() <= k,
        forall|x: Seq<Literal>|
            keep_topk(f, probs, d, k, i).contains(x) ==> exists|w: int| 0 <= w < i && f[w] == x,
        all_wf(keep_topk(f, probs, d, k, i), n),
    decreases i,
{
    if i > 0 {
        lemma_keep_topk_props(f, probs, d, n, k, i - 1);
        let prev = keep_topk(f, probs, d, k, i - 1);
        let r = keep_topk(f, probs, d, k, i);
        assert forall|x: Seq<Literal>| r.contains(x) implies exists|w: int|
            0 <= w < i && f[w] == x by {
            let w = choose|w: int| 0 <= w < r.len() && r[w] == x;
            if w < prev.len() {
                assert(prev.contains(x));
            } else {
                assert(x == f[i - 1]);
            }
        }
        assert forall|a: int, b: int| 0 <= a < b < r.len() implies r[a] != r[b] by {
            if b < prev.len() {
            } else if r != prev {
                assert(r[b] == f[i - 1]);
                assert(prev.contains(prev[a]));
                let w = choose|w: int| 0 <= w < i - 1 && f[w] == prev[a];
                assert(f[w] != f[i - 1]);
            }
        }
        assert forall|a: int| 0 <= a < r.len() implies clause_wf(#[trigger] r[a])
            && clause_bounded(r[a], n) by {
            assert(r.contains(r[a]));
            let w = choose|w: int| 0 <= w < i && f[w] == r[a];
        }
    }
}


/// The complement of one clause is a well-formed formula of distinct
/// singleton clauses.
pub proof fn lemma_neg_clause_formula_wf(c: Seq<Literal>, n: int)
    requires
        clause_wf(c),
        clause_bounded(c, n),
    ensures
        all_wf(neg_clause_formula(c), n),
        neg_clause_formula(c).len() == c.len(),
{
    let g = neg_clause_formula(c);
    assert forall|i: int| 0 <= i < g.len() implies clause_wf(#[trigger] g[i]) && clause_bounded(
        g[i],
        n,
    ) by {
        assert(g[i] == seq![spec_negate_lit(c[i])]);
        assert(lit_id(spec_negate_lit(c[i])) == lit_id(c[i]));
    }
    assert forall|i: int, j: int| 0 <= i < j < g.len() implies g[i] != g[j] by {
        assert(lit_id(c[i]) < lit_id(c[j]));
        assert(g[i] == seq![spec_negate_lit(c[i])] && g[j] == seq![spec_negate_lit(c[j])]);
        if g[i] == g[j] {
            assert(g[i][0] == g[j][0]);
            assert(lit_id(spec_negate_lit(c[i])) == lit_id(spec_negate_lit(c[j])));
        }
    }
}

/// The clause sequences a list of clauses stands for.
pub open spec fn cv(s: Seq<Clause>) -> Seq<Seq<Literal>> {
    s.map_values(|c: Clause| c@)
}

/// The complement of one literal.
pub fn negate_lit(l: Literal) -> (r: Literal)
    ensures
        r == spec_negate_lit(l),
{
    match l {
        Literal::Pos(i) => Literal::Neg(i),
        Literal::Neg(i) => Literal::Pos(i),
    }
}

fn copy_lit_tail(v: &Vec<Literal>, from: usize) -> (r: Vec<Literal>)
    requires
        from <= v.len(),
    ensures
        r@ == v@.skip(from as int),
{
    let mut r: Vec<Literal> = Vec::new();
    let mut i: usize = from;
    while i < v.len()
        invariant
            from <= i <= v.len(),
            r@ == v@.subrange(from as int, i as int),
        decreases v.len() - i,
    {
        r.push(v[i]);
        proof {
            assert(r@ =~= v@.subrange(from as int, i + 1));
        }
        i = i + 1;
    }
    proof {
        assert(v@.subrange(from as int, v.len() as int) =~= v@.skip(from as int));
    }
    r
}

fn merge_lit_tail(a: &Vec<Literal>, b: &Vec<Literal>, i: usize, j: usize) -> (r: Option<
    Vec<Literal>,
>)
    requires
        i <= a.len(),
        j <= b.len(),
    ensures
        match r {
            Option::Some(v) => merge_lits(a@.skip(i as int), b@.skip(j as int)) == Some(v@),
            Option::None => merge_lits(a@.skip(i as int), b@.skip(j as int)) is None,
        },
    decreases a.len() - i + b.len() - j,
{
    let ghost sa = a@.skip(i as int);
    let ghost sb = b@.skip(j as int);
    if i == a.len() {
        proof {
            assert(sa.len() == 0);
        }
        return Some(copy_lit_tail(b, j));
    }
    if j == b.len() {
        proof {
            assert(sb.len() == 0);
        }
        return Some(copy_lit_tail(a, i));
    }
    let x = a[i];
    let y = b[j];
    proof {
        assert(sa[0] == a@[i as int] && sb[0] == b@[j as int]);
        assert(sa.skip(1) =~= a@.skip(i + 1));
        assert(sb.skip(1) =~= b@.skip(j + 1));
    }
    let xid = match x {
        Literal::Pos(p) => p,
        Literal::Neg(p) => p,
    };
    let yid = match y {
        Literal::Pos(p) => p,
        Literal::Neg(p) => p,
    };
    if xid < yid {
        match merge_lit_tail(a, b, i + 1, j) {
            Option::Some(mut v) => {
                v.insert(0, x);
                proof {
                    assert(v@ =~= seq![x] + merge_lits(a@.skip(i + 1), b@.skip(j as int))->Some_0);
                }
                Some(v)
            },
            Option::None => None,
        }
    } else if yid < xid {
        match merge_lit_tail(a, b, i, j + 1) {
            Option::Some(mut v) => {
                v.insert(0, y);
                proof {
                    assert(v@ =~= seq![y] + merge_lits(a@.skip(i as int), b@.skip(j + 1))->Some_0);
                }
                Some(v)
            },
            Option::None => None,
        }
    } else if x == y {
        match merge_lit_tail(a, b, i + 1, j + 1) {
            Option::Some(mut v) => {
                v.insert(0, x);
                proof {
                    assert(v@ =~= seq![x] + merge_lits(a@.skip(i + 1), b@.skip(j + 1))->Some_0);
                }
                Some(v)
            },
            Option::None => None,
        }
    } else {
        None
    }
}

/// The conjunction of two clauses, `None` on a contradiction.
pub fn merge_clause(a: &Clause, b: &Clause) -> (r: Option<Clause>)
    ensures
        match r {
            Option::Some(c) => merge_lits(a@, b@) == Some(c@),
            Option::None => merge_lits(a@, b@) is None,
        },
{
    proof {
        assert(a@.skip(0) =~= a@);
        assert(b@.skip(0) =~= b@);
    }
    match merge_lit_tail(&a.literals, &b.literals, 0, 0) {
        Option::Some(v) => Some(Clause { literals: v }),
        Option::None => None,
    }
}

fn vec_contains_clause(v: &Vec<Clause>, c: &Clause) -> (r: bool)
    ensures
        r == cv(v@).contains(c@),
{
    let n = v.len();
    let mut i: usize = 0;
    while i < n
        invariant
            n == v.len(),
            i <= n,
            forall|w: int| 0 <= w < i ==> cv(v@)[w] != c@,
        decreases n - i,
    {
        if v[i].eq_clause(c) {
            proof {
                assert(cv(v@)[i as int] == c@);
            }
            return true;
        }
        i = i + 1;
    }
    proof {
        assert(forall|w: int| 0 <= w < cv(v@).len() ==> cv(v@)[w] != c@);
    }
    false
}

/// Retains, of a candidate clause list, the at most `k` clauses of greatest
/// estimated weight, earlier clauses winning ties, in their original order.
pub fn retain_top_k(cands: &Vec<Clause>, probs: &Vec<u64>, d: &Disjunctions, k: usize) -> (r: Vec<
    Clause,
>)
    requires
        probs_wf(probs@),
        crate::disjunctions::assignments_wf(d.assignments@),
        all_wf(cv(cands@), probs@.len() as int),
    ensures
        cv(r@) == keep_topk(cv(cands@), probs@, d@, k as int, cands@.len() as int),
        r@.len() <= k,
        all_wf(cv(r@), probs@.len() as int),
{
    let ghost f = cv(cands@);
    let n = cands.len();
    let mut weights: Vec<u64> = Vec::new();
    let mut i: usize = 0;
    while i < n
        invariant
            n == cands.len(),
            i <= n,
            probs_wf(probs@),
            crate::disjunctions::assignments_wf(d.assignments@),
            all_wf(f, probs@.len() as int),
            f == cv(cands@),
            weights@.len() == i,
            forall|w: int| 0 <= w < i ==> #[trigger] weights@[w] as int == clause_value(
                f[w],
                probs@,
                d@,
            ),
        decreases n - i,
    {
        proof {
            assert(f[i as int] == cands@[i as int]@);
        }
        let wv = eval_clause(&cands[i], probs, d);
        weights.push(wv);
        i = i + 1;
    }
    let mut out: Vec<Clause> = Vec::new();
    let mut i: usize = 0;
    proof {
        assert(cv(out@) =~= keep_topk(f, probs@, d@, k as int, 0));
    }
    while i < n
        invariant
            n == cands.len(),
            i <= n,
            weights@.len() == n,
            f == cv(cands@),
            forall|w: int| 0 <= w < n ==> #[trigger] weights@[w] as int == clause_value(
                f[w],
                probs@,
                d@,
            ),
            cv(out@) == keep_topk(f, probs@, d@, k as int, i as int),
            out@.len() <= k,
        decreases n - i,
    {
        let mut count: usize = 0;
        let mut j: usize = 0;
        while j < n
            invariant
                n == cands.len(),
                i < n,
                j <= n,
                weights@.len() == n,
                f == cv(cands@),
                forall|w: int| 0 <= w < n ==> #[trigger] weights@[w] as int == clause_value(
                    f[w],
                    probs@,
                    d@,
                ),
                count <= j,
                count as int == count_outranking(f, probs@, d@, i as int, j as int),
            decreases n - j,
        {
            if weights[j] > weights[i] || (weights[j] == weights[i] && j < i) {
                count = count + 1;
            }
            j = j + 1;
        }
        if count < k && out.len() < k {
            out.push(cands[i].clone());
            proof {
                assert(cv(out@) =~= keep_topk(f, probs@, d@, k as int, i + 1));
            }
        } else {
            proof {
                assert(cv(out@) =~= keep_topk(f, probs@, d@, k as int, i + 1));
            }
        }
        i = i + 1;
    }
    proof {
        lemma_keep_topk_props(f, probs@, d@, probs@.len() as int, k as int, n as int);
    }
    out
}

/// The top-k-bounded disjunction of two formulas: the union of their clause
/// sets, retained to the `k` heaviest clauses.
pub fn top_k_add(
    t1: &DNFFormula,
    t2: &DNFFormula,
    probs: &Vec<u64>,
    d: &Disjunctions,
    k: usize,
) -> (r: DNFFormula)
    requires
        probs_wf(probs@),
        crate::disjunctions::assignments_wf(d.assignments@),
        all_wf(t1@, probs@.len() as int),
        all_wf(t2@, probs@.len() as int),
    ensures
        r@ == spec_add(t1@, t2@, probs@, d@, k as int),
        r@.len() <= k,
        all_wf(r@, probs@.len() as int),
{
    let mut cands: Vec<Clause> = Vec::new();
    let n1 = t1.clauses.len();
    let mut i: usize = 0;
    while i < n1
        invariant
            n1 == t1.clauses.len(),
            i <= n1,
            cv(cands@) == t1@.take(i as int),
        decreases n1 - i,
    {
        let ghost prev_cands = cands@;
        cands.push(t1.clauses[i].clone());
        proof {
            assert(cv(prev_cands).len() == prev_cands.len());
            assert(prev_cands.len() == i);
            assert forall|w: int| 0 <= w < i implies #[trigger] cands@[w]@ == t1@[w] by {
                assert(cands@[w] == prev_cands[w]);
                assert(cv(prev_cands)[w] == prev_cands[w]@);
                assert(cv(prev_cands)[w] == t1@.take(i as int)[w]);
            }
            assert(cv(cands@) =~= t1@.take(i + 1));
        }
        i = i + 1;
    }
    proof {
        assert(t1@.take(n1 as int) =~= t1@);
        assert(cv(cands@) =~= union_clauses(t1@, t2@, 0));
    }
    let n2 = t2.clauses.len();
    let mut j: usize = 0;
    while j < n2
        invariant
            n2 == t2.clauses.len(),
            j <= n2,
            cv(cands@) == union_clauses(t1@, t2@, j as int),
        decreases n2 - j,
    {
        let c = &t2.clauses[j];
        proof {
            assert(t2@[j as int] == c@);
        }
        if !vec_contains_clause(&cands, c) {
            cands.push(c.clone());
            proof {
                assert(cv(cands@) =~= push_new(union_clauses(t1@, t2@, j as int), t2@[j as int]));
            }
        } else {
            proof {
                assert(cv(cands@) =~= push_new(union_clauses(t1@, t2@, j as int), t2@[j as int]));
            }
        }
        j = j + 1;
    }
    proof {
        lemma_union_props(t1@, t2@, probs@.len() as int, n2 as int);
    }
    let kept = retain_top_k(&cands, probs, d, k);
    let r = DNFFormula { clauses: kept };
    proof {
        assert(r@ == cv(r.clauses@));
    }
    r
}

/// The top-k-bounded conjunction of two formulas: every pairwise
/// conjunction of clauses, contradictions dropped, retained to the `k`
/// heaviest.
pub fn top_k_mult(
    t1: &DNFFormula,
    t2: &DNFFormula,
    probs: &Vec<u64>,
    d: &Disjunctions,
    k: usize,
) -> (r: DNFFormula)
    requires
        probs_wf(probs@),
        crate::disjunctions::assignments_wf(d.assignments@),
        all_wf(t1@, probs@.len() as int),
        all_wf(t2@, probs@.len() as int),
    ensures
        r@ == spec_mult(t1@, t2@, probs@, d@, k as int),
        r@.len() <= k,
        all_wf(r@, probs@.len() as int),
{
    let mut cands: Vec<Clause> = Vec::new();
    let n1 = t1.clauses.len();
    let n2 = t2.clauses.len();
    let mut i: usize = 0;
    proof {
        assert(cv(cands@) =~= mult_all(t1@, t2@, 0));
    }
    while i < n1
        invariant
            n1 == t1.clauses.len(),
            n2 == t2.clauses.len(),
            i <= n1,
            cv(cands@) == mult_all(t1@, t2@, i as int),
        decreases n1 - i,
    {
        let mut j: usize = 0;
        proof {
            assert(t1@[i as int] == t1.clauses@[i as int]@);
        }
        while j < n2
            invariant
                n1 == t1.clauses.len(),
                n2 == t2.clauses.len(),
                i < n1,
                j <= n2,
                cv(cands@) == mult_row(mult_all(t1@, t2@, i as int), t1@[i as int], t2@, j as int),
            decreases n2 - j,
        {
            proof {
                assert(t1@[i as int] == t1.clauses@[i as int]@);
                assert(t2@[j as int] == t2.clauses@[j as int]@);
            }
            let ghost prev = mult_row(mult_all(t1@, t2@, i as int), t1@[i as int], t2@, j as int);
            match merge_clause(&t1.clauses[i], &t2.clauses[j]) {
                Option::Some(c) => {
                    if !vec_contains_clause(&cands, &c) {
                        cands.push(c);
                        proof {
                            assert(cv(cands@) =~= push_new(prev, c@));
                        }
                    } else {
                        proof {
                            assert(cv(cands@) =~= push_new(prev, c@));
                        }
                    }
                },
                Option::None => {},
            }
            j = j + 1;
        }
        i = i + 1;
    }
    proof {
        lemma_mult_all_props(t1@, t2@, probs@.len() as int, n1 as int);
    }
    let kept = retain_top_k(&cands, probs, d, k);
    let r = DNFFormula { clauses: kept };
    proof {
        assert(r@ == cv(r.clauses@));
    }
    r
}

/// The top-k-bounded complement of a formula: the conjunction of each
/// clause's negated literals, bounded after every step.
pub fn top_k_negate(
    t: &DNFFormula,
    probs: &Vec<u64>,
    d: &Disjunctions,
    k: usize,
) -> (r: DNFFormula)
    requires
        probs_wf(probs@),
        crate::disjunctions::assignments_wf(d.assignments@),
        all_wf(t@, probs@.len() as int),
    ensures
        r@ == spec_negate(t@, probs@, d@, k as int, t@.len() as int),
        all_wf(r@, probs@.len() as int),
{
    let mut acc = DNFFormula::one();
    let n = t.clauses.len();
    let mut i: usize = 0;
    proof {
        assert(acc@ =~= spec_negate(t@, probs@, d@, k as int, 0));
        assert(all_wf(acc@, probs@.len() as int));
    }
    while i < n
        invariant
            n == t.clauses.len(),
            i <= n,
            probs_wf(probs@),
            crate::disjunctions::assignments_wf(d.assignments@),
            all_wf(t@, probs@.len() as int),
            acc@ == spec_negate(t@, probs@, d@, k as int, i as int),
            all_wf(acc@, probs@.len() as int),
        decreases n - i,
    {
        let c = &t.clauses[i];
        proof {
            assert(t@[i as int] == c@);
        }
        let m = c.literals.len();
        let mut neg_clauses: Vec<Clause> = Vec::new();
        let mut j: usize = 0;
        while j < m
            invariant
                m == c.literals.len(),
                j <= m,
                neg_clauses@.len() == j,
                forall|w: int|
                    0 <= w < j ==> #[trigger] neg_clauses@[w]@ == seq![spec_negate_lit(c@[w])],
            decreases m - j,
        {
            let mut lits: Vec<Literal> = Vec::new();
            lits.push(negate_lit(c.literals[j]));
            let nc = Clause { literals: lits };
            proof {
                assert(nc@ =~= seq![spec_negate_lit(c@[j as int])]);
            }
            neg_clauses.push(nc);
            j = j + 1;
        }
        let nf = DNFFormula { clauses: neg_clauses };
        proof {
            assert(nf@ =~= neg_clause_formula(c@));
            lemma_neg_clause_formula_wf(c@, probs@.len() as int);
        }
        acc = top_k_mult(&acc, &nf, probs, d, k);
        i = i + 1;
    }
    acc
}

} // verus!
