//! Algebraic laws of the top-k provenance, proved once and for all: the
//! identity laws of the tag algebra below the clause bound, the
//! independence law of the exists aggregate's probability, and the
//! nullity of mutually exclusive conjunctions.

use vstd::prelude::*;

use crate::disjunctions::facts_conflict;
use crate::eval::{
    clause_conflict, clause_prod, clause_value, formula_value, lemma_formula_value_bounds, pos_ids,
    probs_wf,
};
use crate::fixed::{lemma_pmul_scale, lemma_por_complement, pmul, por, UNIT};

use crate::dual::formula_dual;
use crate::formula::{formula_wf, lit_id, lit_pos, Literal};
use crate::topk::{
    count_outranking, keep_topk, merge_lits, mult_all, mult_row, outranks, push_new, retained,
    spec_add, spec_mult, union_clauses,
};

verus! {

proof fn lemma_count_outranking_bound(
    f: Seq<Seq<Literal>>,
    probs: Seq<u64>,
    d: Map<usize, usize>,
    i: int,
    upto: int,
)
    requires
        0 <= upto,
    ensures
        count_outranking(f, probs, d, i, upto) <= upto,
        0 <= i < upto ==> count_outranking(f, probs, d, i, upto) <= upto - 1,
    decreases upto,
{
    if upto > 0 {
        lemma_count_outranking_bound(f, probs, d, i, upto - 1);
        assert(!outranks(f, probs, d, i, i));
    }
}

/// Below the clause bound the top-k selection keeps everything: a formula
/// of at most `k` clauses passes through unchanged.
pub proof fn lemma_keep_topk_identity(
    f: Seq<Seq<Literal>>,
    probs: Seq<u64>,
    d: Map<usize, usize>,
    k: int,
    i: int,
)
    requires
        f.len() <= k,
        0 <= i <= f.len(),
    ensures
        keep_topk(f, probs, d, k, i) == f.take(i),
    decreases i,
{
    if i > 0 {
        lemma_keep_topk_identity(f, probs, d, k, i - 1);
        lemma_count_outranking_bound(f, probs, d, i - 1, f.len() as int);
        assert(retained(f, probs, d, k, i - 1));
        assert(keep_topk(f, probs, d, k, i) =~= f.take(i));
    } else {
        assert(keep_topk(f, probs, d, k, i) =~= f.take(i));
    }
}

/// Identity law of disjunction: `add(f, zero()) == f` for any formula of
/// at most `k` clauses.  (Once clause counts exceed `k`, the law holds
/// only modulo top-k truncation.)
pub proof fn lemma_add_zero_identity(
    f: Seq<Seq<Literal>>,
    probs: Seq<u64>,
    d: Map<usize, usize>,
    k: int,
)
    requires
        f.len() <= k,
    ensures
        spec_add(f, Seq::empty(), probs, d, k) == f,
{
    let u = union_clauses(f, Seq::empty(), 0);
    assert(u == f);
    lemma_keep_topk_identity(f, probs, d, k, f.len() as int);
    assert(f.take(f.len() as int) =~= f);
}

proof fn lemma_mult_one_candidates(f: Seq<Seq<Literal>>, i: int)
    requires
        formula_wf(f),
        0 <= i <= f.len(),
    ensures
        mult_all(f, seq![Seq::<Literal>::empty()], i) == f.take(i),
    decreases i,
{
    if i > 0 {
        lemma_mult_one_candidates(f, i - 1);
        let one_f = seq![Seq::<Literal>::empty()];
        let prev = mult_all(f, one_f, i - 1);
        assert(prev == f.take(i - 1));
        assert(one_f[0] =~= Seq::<Literal>::empty());
        assert(merge_lits(f[i - 1], one_f[0]) == Some(f[i - 1])) by {
            if f[i - 1].len() == 0 {
                assert(merge_lits(f[i - 1], one_f[0]) == Some(one_f[0]));
                assert(one_f[0] =~= f[i - 1]);
            }
        }
        assert(mult_row(prev, f[i - 1], one_f, 0) == prev);
        assert(mult_row(prev, f[i - 1], one_f, 1) == push_new(prev, f[i - 1]));
        assert(!prev.contains(f[i - 1])) by {
            if prev.contains(f[i - 1]) {
                let w = choose|w: int| 0 <= w < prev.len() && prev[w] == f[i - 1];
                assert(f[w] == f[i - 1]);
            }
        }
        assert(mult_all(f, one_f, i) =~= f.take(i));
    } else {
        assert(mult_all(f, seq![Seq::<Literal>::empty()], i) =~= f.take(i));
    }
}

/// Identity law of conjunction: `mult(f, one()) == f` for any well-formed
/// formula of at most `k` clauses.  (Beyond `k` clauses the law holds only
/// modulo top-k truncation.)
pub proof fn lemma_mult_one_identity(
    f: Seq<Seq<Literal>>,
    probs: Seq<u64>,
    d: Map<usize, usize>,
    k: int,
)
    requires
        formula_wf(f),
        f.len() <= k,
    ensures
        spec_mult(f, seq![Seq::<Literal>::empty()], probs, d, k) == f,
{
    lemma_mult_one_candidates(f, f.len() as int);
    lemma_keep_topk_identity(f, probs, d, k, f.len() as int);
    assert(f.take(f.len() as int) =~= f);
}

/// A clause asserting two facts of one disjunction group evaluates to
/// probability zero, regardless of the facts' own probabilities.
pub proof fn lemma_conflict_clause_zero(
    c: Seq<Literal>,
    probs: Seq<u64>,
    d: Map<usize, usize>,
    i: int,
    j: int,
)
    requires
        0 <= i < c.len(),
        0 <= j < c.len(),
        lit_pos(c[i]),
        lit_pos(c[j]),
        lit_id(c[i]) != lit_id(c[j]),
        d.contains_key(lit_id(c[i])),
        d.contains_key(lit_id(c[j])),
        d[lit_id(c[i])] == d[lit_id(c[j])],
    ensures
        clause_value(c, probs, d) == 0,
{
    let pred = |l: Literal| lit_pos(l);
    let filtered = c.filter(pred);
    c.lemma_filter_contains(pred, i);
    c.lemma_filter_contains(pred, j);
    let p = pos_ids(c);
    let wi = choose|w: int| 0 <= w < filtered.len() && filtered[w] == c[i];
    let wj = choose|w: int| 0 <= w < filtered.len() && filtered[w] == c[j];
    assert(p[wi] == lit_id(c[i]));
    assert(p[wj] == lit_id(c[j]));
    assert(facts_conflict(p, d));
    assert(clause_conflict(c, d));
}

/// The complement-product fold: the probability that none of the listed
/// facts holds, under independence.
pub open spec fn comp_prod(ids: Seq<usize>, probs: Seq<u64>) -> int
    decreases ids.len(),
{
    if ids.len() == 0 {
        UNIT as int
    } else {
        pmul(comp_prod(ids.drop_last(), probs), UNIT - probs[ids.last() as int])
    }
}

/// The singleton tags minted for a list of facts: one one-literal clause
/// each.
pub open spec fn singleton_tags(ids: Seq<usize>) -> Seq<Seq<Seq<Literal>>> {
    Seq::new(ids.len(), |w: int| seq![seq![Literal::Pos(ids[w])]])
}

proof fn lemma_any_tag_of_singletons(
    ids: Seq<usize>,
    probs: Seq<u64>,
    d: Map<usize, usize>,
    k: int,
    i: int,
)
    requires
        forall|a: int, b: int| 0 <= a < b < ids.len() ==> ids[a] != ids[b],
        ids.len() <= k,
        0 <= i <= ids.len(),
    ensures
        crate::aggregate::spec_any_tag(singleton_tags(ids), probs, d, k, i) == Seq::new(
            i as nat,
            |w: int| seq![Literal::Pos(ids[w])],
        ),
    decreases i,
{
    let tags = singleton_tags(ids);
    let goal = |i: int| Seq::new(i as nat, |w: int| seq![Literal::Pos(ids[w])]);
    if i > 0 {
        lemma_any_tag_of_singletons(ids, probs, d, k, i - 1);
        let prev = goal(i - 1);
        let newc = seq![Literal::Pos(ids[i - 1])];
        assert(tags[i - 1] == seq![newc]);
        let u = union_clauses(prev, tags[i - 1], 1);
        assert(tags[i - 1][0] == newc);
        assert(union_clauses(prev, tags[i - 1], 0) == prev);
        assert(u == push_new(prev, newc));
        assert(!prev.contains(newc)) by {
            if prev.contains(newc) {
                let w = choose|w: int| 0 <= w < prev.len() && prev[w] == newc;
                assert(prev[w] == seq![Literal::Pos(ids[w])]);
                assert(prev[w][0] == newc[0]);
                assert(ids[w] == ids[i - 1]);
            }
        }
        assert(u =~= goal(i));
        lemma_keep_topk_identity(u, probs, d, k, u.len() as int);
        assert(u.take(u.len() as int) =~= u);
        assert(crate::aggregate::spec_any_tag(tags, probs, d, k, i) == u);
    } else {
        assert(crate::aggregate::spec_any_tag(tags, probs, d, k, i) =~= goal(0));
    }
}

/// Independence law of the exists aggregate: over facts with distinct
/// identifiers and no disjunction groups, the "true" tag's probability is
/// one minus the product of the facts' complement probabilities — the
/// fixed-point rendering of `1 - prod(1 - p_i)`.
pub proof fn lemma_exists_independence(
    ids: Seq<usize>,
    probs: Seq<u64>,
    d: Map<usize, usize>,
    k: int,
)
    requires
        probs_wf(probs),
        forall|a: int, b: int| 0 <= a < b < ids.len() ==> ids[a] != ids[b],
        forall|a: int| 0 <= a < ids.len() ==> (#[trigger] ids[a]) < probs.len(),
        forall|a: int| 0 <= a < ids.len() ==> !d.contains_key(#[trigger] ids[a]),
        ids.len() <= k,
    ensures
        formula_value(
            crate::aggregate::spec_any_tag(singleton_tags(ids), probs, d, k, ids.len() as int),
            probs,
            d,
        ) == UNIT - comp_prod(ids, probs),
{
    lemma_any_tag_of_singletons(ids, probs, d, k, ids.len() as int);
    lemma_exists_value_fold(ids, probs, d, ids.len() as int);
    assert(ids.take(ids.len() as int) =~= ids);
}

proof fn lemma_exists_value_fold(ids: Seq<usize>, probs: Seq<u64>, d: Map<usize, usize>, i: int)
    requires
        probs_wf(probs),
        forall|a: int| 0 <= a < ids.len() ==> (#[trigger] ids[a]) < probs.len(),
        forall|a: int| 0 <= a < ids.len() ==> !d.contains_key(#[trigger] ids[a]),
        0 <= i <= ids.len(),
    ensures
        formula_value(Seq::new(i as nat, |w: int| seq![Literal::Pos(ids[w])]), probs, d) == UNIT
            - comp_prod(ids.take(i), probs),
    decreases i,
{
    let form = |i: int| Seq::new(i as nat, |w: int| seq![Literal::Pos(ids[w])]);
    if i == 0 {
        assert(formula_value(form(0), probs, d) == 0);
        assert(comp_prod(ids.take(0), probs) == UNIT) by {
            assert(ids.take(0).len() == 0);
        }
    } else {
        lemma_exists_value_fold(ids, probs, d, i - 1);
        let f = form(i);
        let f0 = form(i - 1);
        assert(f.drop_last() =~= f0);
        let c = f.last();
        assert(c == seq![Literal::Pos(ids[i - 1])]);
        assert(!clause_conflict(c, d)) by {
            let p = pos_ids(c);
            if facts_conflict(p, d) {
                let (a, b) = choose|a: int, b: int|
                    0 <= a < p.len() && 0 <= b < p.len() && p[a] != p[b] && d.contains_key(p[a])
                        && d.contains_key(p[b]) && d[p[a]] == d[p[b]];
                assert(c.filter(|l: Literal| lit_pos(l)) =~= c) by {
                    reveal_with_fuel(Seq::filter, 2);
                    assert(c.drop_last() =~= Seq::<Literal>::empty());
                    assert(c.drop_last().filter(|l: Literal| lit_pos(l)) == c.drop_last());
                }
                assert(p.len() == 1);
            }
        }
        assert(clause_value(c, probs, d) == clause_prod(c, probs));
        assert(clause_prod(c, probs) == pmul(
            clause_prod(c.drop_last(), probs),
            UNIT as int - (UNIT - probs[ids[i - 1] as int]),
        )) by {
            assert(c.drop_last() =~= Seq::<Literal>::empty());
        }
        assert(clause_prod(c, probs) == probs[ids[i - 1] as int] as int) by {
            lemma_pmul_scale(UNIT as int, probs[ids[i - 1] as int] as int);
            assert(c.drop_last() =~= Seq::<Literal>::empty());
        }
        let pv = probs[ids[i - 1] as int] as int;
        let acc = formula_value(f0, probs, d);
        assert(formula_value(f, probs, d) == por(acc, pv));
        lemma_formula_value_bounds(f0, probs, d);
        lemma_por_complement(acc, pv);
        let cp0 = comp_prod(ids.take(i - 1), probs);
        assert(acc == UNIT - cp0);
        assert(ids.take(i).drop_last() =~= ids.take(i - 1));
        assert(ids.take(i).last() == ids[i - 1]);
        assert(comp_prod(ids.take(i), probs) == pmul(cp0, UNIT - probs[ids[i - 1] as int]));
        assert(por(acc, pv) == UNIT - pmul(UNIT - acc, UNIT - pv));
        assert(UNIT - acc == cp0);
        assert(UNIT - pv == UNIT - probs[ids[i - 1] as int]);
    }
}


/// Tagging/recovery round trip, for any fact and any probability: the
/// singleton tag a fact is minted with recovers to exactly the fact's
/// probability, with derivative one (scaled) with respect to that fact and
/// zero with respect to every other.
pub proof fn lemma_singleton_recovery(i: usize, probs: Seq<u64>, d: Map<usize, usize>, n: int)
    requires
        probs_wf(probs),
        i < probs.len(),
        n == probs.len(),
    ensures
        formula_dual(seq![seq![Literal::Pos(i)]], probs, d, n).0 == probs[i as int],
        formula_dual(seq![seq![Literal::Pos(i)]], probs, d, n).1[i as int] == UNIT,
        formula_dual(seq![seq![Literal::Pos(i)]], probs, d, n).2[i as int] == 0,
        forall|j: int|
            0 <= j < n && j != i ==> formula_dual(seq![seq![Literal::Pos(i)]], probs, d, n).1[j]
                == 0 && formula_dual(seq![seq![Literal::Pos(i)]], probs, d, n).2[j] == 0,
{
    let c = seq![Literal::Pos(i)];
    let f = seq![c];
    let p = probs[i as int] as int;
    assert(!clause_conflict(c, d)) by {
        let q = pos_ids(c);
        if facts_conflict(q, d) {
            let (a, b) = choose|a: int, b: int|
                0 <= a < q.len() && 0 <= b < q.len() && q[a] != q[b] && d.contains_key(q[a])
                    && d.contains_key(q[b]) && d[q[a]] == d[q[b]];
            assert(c.filter(|l: Literal| lit_pos(l)) =~= c) by {
                reveal_with_fuel(Seq::filter, 2);
                assert(c.drop_last() =~= Seq::<Literal>::empty());
                assert(c.drop_last().filter(|l: Literal| lit_pos(l)) == c.drop_last());
            }
            assert(q.len() == 1);
        }
    }
    let cd = crate::dual::clause_dual_prod(c, probs, n);
    assert(c.drop_last() =~= Seq::<Literal>::empty());
    let one_d = crate::dual::clause_dual_prod(Seq::<Literal>::empty(), probs, n);
    assert(one_d.0 == UNIT as int);
    lemma_pmul_scale(UNIT as int, p);
    lemma_pmul_scale(UNIT as int, UNIT as int);
    lemma_pmul_scale(p, 0);
    assert(cd.0 == p);
    assert(cd.1[i as int] == pmul(UNIT as int, UNIT as int) + pmul(p, 0));
    assert(cd.1[i as int] == UNIT as int);
    assert(cd.2[i as int] == pmul(UNIT as int, 0) + pmul(p, 0));
    let fd = formula_dual(f, probs, d, n);
    assert(f.drop_last() =~= Seq::<Seq<Literal>>::empty());
    let zero_d = formula_dual(Seq::<Seq<Literal>>::empty(), probs, d, n);
    assert(zero_d.0 == 0);
    lemma_pmul_scale(UNIT - p, 0);
    assert(fd.0 == por(0, p));
    assert(pmul(0, p) == 0) by {
        lemma_pmul_scale(0, p);
    }
    assert(fd.1[i as int] == pmul((UNIT as int) - p, 0) + pmul(UNIT as int, UNIT as int));
    assert(fd.2[i as int] == pmul((UNIT as int) - p, 0) + pmul(UNIT as int, 0));
    assert forall|j: int| 0 <= j < n && j != i implies fd.1[j] == 0 && fd.2[j] == 0 by {
        assert(cd.1[j] == pmul(UNIT as int, 0) + pmul(p, 0));
        assert(cd.2[j] == pmul(UNIT as int, 0) + pmul(p, 0));
        assert(fd.1[j] == pmul((UNIT as int) - p, 0) + pmul(UNIT as int, cd.1[j]));
        assert(fd.2[j] == pmul((UNIT as int) - p, 0) + pmul(UNIT as int, cd.2[j]));
    }
}

} // verus!
