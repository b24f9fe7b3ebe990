//! Semiring evaluators: weighted model counting over a DNF formula.
//!
//! A clause is folded by fixed-point multiplication across its literals
//! (`Pos i` is worth the fact's probability, `Neg i` its complement), a
//! formula by probabilistic sum across its clauses.  A clause whose positive
//! literals hold two facts of one disjunction group evaluates to zero:
//! a mutually exclusive conjunction is impossible.  The differentiating
//! evaluator that runs the same folds over dual numbers lives beside this
//! one, and its probability part provably agrees with the plain fold here.

use vstd::prelude::*;

use crate::disjunctions::{facts_conflict, Disjunctions};
use crate::fixed::{lemma_pmul_bounds, lemma_por_bounds, pmul, por, prob_mul, prob_or, UNIT};
use crate::formula::{
    clause_bounded, formula_bounded, lit_id, lit_pos, Clause, DNFFormula, Literal,
};

verus! {

/// All fact probabilities are fixed-point values in `[0, UNIT]`.
pub open spec fn probs_wf(probs: Seq<u64>) -> bool {
    forall|i: int| 0 <= i < probs.len() ==> #[trigger] probs[i] <= UNIT
}

/// The worth of one literal: the fact's probability, or its complement for a
/// negated fact.
pub open spec fn lit_value(l: Literal, probs: Seq<u64>) -> int {
    match l {
        Literal::Pos(i) => probs[i as int] as int,
        Literal::Neg(i) => UNIT - probs[i as int],
    }
}

/// The fact identifiers a clause asserts positively.
pub open spec fn pos_ids(c: Seq<Literal>) -> Seq<usize> {
    c.filter(|l: Literal| lit_pos(l)).map_values(|l: Literal| lit_id(l))
}

/// Whether a clause asserts two facts of one disjunction group.
pub open spec fn clause_conflict(c: Seq<Literal>, d: Map<usize, usize>) -> bool {
    facts_conflict(pos_ids(c), d)
}

/// The product of a clause's literal values, folded left to right.
pub open spec fn clause_prod(c: Seq<Literal>, probs: Seq<u64>) -> int
    decreases c.len(),
{
    if c.len() == 0 {
        UNIT as int
    } else {
        pmul(clause_prod(c.drop_last(), probs), lit_value(c.last(), probs))
    }
}

/// A clause's estimated probability: zero on a disjunction conflict, else
/// the product of its literal values.
pub open spec fn clause_value(c: Seq<Literal>, probs: Seq<u64>, d: Map<usize, usize>) -> int {
    if clause_conflict(c, d) {
        0
    } else {
        clause_prod(c, probs)
    }
}

/// A formula's probability: the probabilistic sum of its clause values,
/// folded left to right.
pub open spec fn formula_value(f: Seq<Seq<Literal>>, probs: Seq<u64>, d: Map<usize, usize>) -> int
    decreases f.len(),
{
    if f.len() == 0 {
        0
    } else {
        por(formula_value(f.drop_last(), probs, d), clause_value(f.last(), probs, d))
    }
}

pub proof fn lemma_clause_prod_bounds(c: Seq<Literal>, probs: Seq<u64>)
    requires
        probs_wf(probs),
        clause_bounded(c, probs.len() as int),
    ensures
        0 <= clause_prod(c, probs) <= UNIT,
    decreases c.len(),
{
    if c.len() > 0 {
        lemma_clause_prod_bounds(c.drop_last(), probs);
        assert(lit_id(c.last()) < probs.len());
        lemma_pmul_bounds(clause_prod(c.drop_last(), probs), lit_value(c.last(), probs));
    }
}

pub proof fn lemma_clause_value_bounds(c: Seq<Literal>, probs: Seq<u64>, d: Map<usize, usize>)
    requires
        probs_wf(probs),
        clause_bounded(c, probs.len() as int),
    ensures
        0 <= clause_value(c, probs, d) <= UNIT,
{
    lemma_clause_prod_bounds(c, probs);
}

pub proof fn lemma_formula_value_bounds(f: Seq<Seq<Literal>>, probs: Seq<u64>, d: Map<usize, usize>)
    requires
        probs_wf(probs),
        formula_bounded(f, probs.len() as int),
    ensures
        0 <= formula_value(f, probs, d) <= UNIT,
    decreases f.len(),
{
    if f.len() > 0 {
        lemma_formula_value_bounds(f.drop_last(), probs, d);
        lemma_clause_value_bounds(f.last(), probs, d);
        lemma_por_bounds(formula_value(f.drop_last(), probs, d), clause_value(f.last(), probs, d));
    }
}

/// Collects the positively asserted fact identifiers of a clause.
pub fn collect_pos_ids(c: &Clause) -> (r: Vec<usize>)
    ensures
        r@ == pos_ids(c@),
{
    let mut r: Vec<usize> = Vec::new();
    let n = c.literals.len();
    let mut i: usize = 0;
    proof {
        assert(c@.take(0) =~= Seq::<Literal>::empty());
        assert(r@ =~= pos_ids(c@.take(0)));
    }
    while i < n
        invariant
            n == c.literals.len(),
            i <= n,
            r@ == pos_ids(c@.take(i as int)),
        decreases n - i,
    {
        proof {
            assert(c@.take(i + 1).drop_last() =~= c@.take(i as int));
            reveal_with_fuel(Seq::filter, 2);
        }
        match c.literals[i] {
            Literal::Pos(id) => {
                r.push(id);
            },
            Literal::Neg(_) => {},
        }
        i = i + 1;
    }
    proof {
        assert(c@.take(n as int) =~= c@);
    }
    r
}

/// Whether a clause's positive facts hit a disjunction conflict.
pub fn clause_has_conflict(c: &Clause, d: &Disjunctions) -> (r: bool)
    requires
        crate::disjunctions::assignments_wf(d.assignments@),
    ensures
        r == clause_conflict(c@, d@),
{
    let pos = collect_pos_ids(c);
    d.has_conflict(&pos)
}

/// The plain evaluator on one clause.
pub fn eval_clause(c: &Clause, probs: &Vec<u64>, d: &Disjunctions) -> (r: u64)
    requires
        probs_wf(probs@),
        clause_bounded(c@, probs@.len() as int),
        crate::disjunctions::assignments_wf(d.assignments@),
    ensures
        r == clause_value(c@, probs@, d@),
        r <= UNIT,
{
    proof {
        lemma_clause_value_bounds(c@, probs@, d@);
    }
    if clause_has_conflict(c, d) {
        return 0;
    }
    let n = c.literals.len();
    let mut acc: u64 = UNIT;
    let mut i: usize = 0;
    proof {
        assert(c@.take(0) =~= Seq::<Literal>::empty());
    }
    while i < n
        invariant
            n == c.literals.len(),
            i <= n,
            probs_wf(probs@),
            clause_bounded(c@, probs@.len() as int),
            acc == clause_prod(c@.take(i as int), probs@),
            acc <= UNIT,
        decreases n - i,
    {
        let v: u64 = match c.literals[i] {
            Literal::Pos(id) => probs[id],
            Literal::Neg(id) => UNIT - probs[id],
        };
        proof {
            assert(c@.take(i + 1).drop_last() =~= c@.take(i as int));
            assert(c@.take(i + 1).last() == c@[i as int]);
            assert(v as int == lit_value(c@[i as int], probs@));
        }
        acc = prob_mul(acc, v);
        i = i + 1;
    }
    proof {
        assert(c@.take(n as int) =~= c@);
    }
    acc
}

/// The plain evaluator on a formula: its weighted-model-counting
/// probability.
pub fn eval_formula(f: &DNFFormula, probs: &Vec<u64>, d: &Disjunctions) -> (r: u64)
    requires
        probs_wf(probs@),
        formula_bounded(f@, probs@.len() as int),
        crate::disjunctions::assignments_wf(d.assignments@),
    ensures
        r == formula_value(f@, probs@, d@),
        r <= UNIT,
{
    let n = f.clauses.len();
    let mut acc: u64 = 0;
    let mut i: usize = 0;
    proof {
        assert(f@.take(0) =~= Seq::<Seq<Literal>>::empty());
    }
    while i < n
        invariant
            n == f.clauses.len(),
            i <= n,
            probs_wf(probs@),
            formula_bounded(f@, probs@.len() as int),
            crate::disjunctions::assignments_wf(d.assignments@),
            acc == formula_value(f@.take(i as int), probs@, d@),
            acc <= UNIT,
        decreases n - i,
    {
        proof {
            assert(f@[i as int] == f.clauses@[i as int]@);
            assert(clause_bounded(f@[i as int], probs@.len() as int));
        }
        let cv = eval_clause(&f.clauses[i], probs, d);
        proof {
            assert(f@.take(i + 1).drop_last() =~= f@.take(i as int));
            assert(f@.take(i + 1).last() == f@[i as int]);
        }
        acc = prob_or(acc, cv);
        i = i + 1;
    }
    proof {
        assert(f@.take(n as int) =~= f@);
    }
    acc
}

} // verus!
