//! The concrete top-k differentiable provenance context.
//!
//! It owns the append-only fact table (probability and opaque label per
//! fact, identifiers minted densely in tagging order), the disjunction
//! registry, and the proof-count bound `k`, and implements the provenance
//! algebra: tagging, the top-k combinators, plain weighing and
//! differentiating recovery.
//!
//! The fact table's ownership is a pluggable policy: held exclusively, or
//! behind a shared reference-counted handle whose mutation path copies the
//! data, so that independent handles never observe each other's writes.

use vstd::prelude::*;

use std::rc::Rc;

use crate::disjunctions::{assignments_wf, facts_conflict, Disjunctions};
use crate::dual::{
    eval_formula_dual, formula_dual, formula_mentions, lemma_formula_dual_bounds,
    lemma_formula_dual_real, MAX_RECOVER_CLAUSES,
};
use crate::eval::{eval_formula, formula_value, probs_wf};
use crate::fixed::UNIT;
use crate::formula::{DNFFormula, Literal};
use crate::topk::{
    all_wf, spec_add, spec_mult, spec_negate, top_k_add, top_k_mult, top_k_negate,
};

verus! {

/// One probabilistic input fact, as supplied when first observed: its
/// probability, an opaque label for the learning loop, and the disjunction
/// group it is mutually exclusive within, if any.
pub struct InputExclusiveDiffProb<T> {
    pub prob: u64,
    pub tag: T,
    pub exclusion: Option<usize>,
}

/// A recovered output: the probability of a tag, and for every fact the tag
/// mentions its identifier, the partial derivative of that probability with
/// respect to the fact's probability, and the fact's label.
pub struct OutputDiffProb<T>(pub u64, pub Vec<(usize, i64, T)>);

/// The fact table: probability and label per fact identifier.
pub struct FactTable<T> {
    pub probs: Vec<u64>,
    pub labels: Vec<T>,
}

impl<T: Clone> Clone for FactTable<T> {
    /// A structural copy: probabilities equal, labels cloned entry for
    /// entry.
    fn clone(&self) -> (r: FactTable<T>)
        ensures
            r.probs@ == self.probs@,
            r.labels@.len() == self.labels@.len(),
            forall|i: int|
                0 <= i < self.labels@.len() ==> cloned::<T>(self.labels@[i], #[trigger] r.labels@[i]),
    {
        let mut probs: Vec<u64> = Vec::new();
        let mut i: usize = 0;
        while i < self.probs.len()
            invariant
                i <= self.probs@.len(),
                probs@ == self.probs@.take(i as int),
            decreases self.probs@.len() - i,
        {
            probs.push(self.probs[i]);
            proof {
                assert(probs@ =~= self.probs@.take(i + 1));
            }
            i = i + 1;
        }
        proof {
            assert(self.probs@.take(self.probs@.len() as int) =~= self.probs@);
        }
        let mut labels: Vec<T> = Vec::new();
        let mut j: usize = 0;
        while j < self.labels.len()
            invariant
                j <= self.labels@.len(),
                labels@.len() == j,
                forall|w: int|
                    0 <= w < j ==> cloned::<T>(self.labels@[w], #[trigger] labels@[w]),
            decreases self.labels@.len() - j,
        {
            labels.push(self.labels[j].clone());
            j = j + 1;
        }
        FactTable { probs, labels }
    }
}

/// The ownership policy for the fact table: an exclusively owned buffer, or
/// a shared reference-counted handle.  Mutation of a shared table copies
/// the data into a fresh handle, so sibling handles never see the change.
pub enum TableStore<T> {
    Exclusive(FactTable<T>),
    Shared(Rc<FactTable<T>>),
}

impl<T> TableStore<T> {
    /// The fact table this store holds, whichever way it is owned.
    pub open spec fn spec_table(&self) -> FactTable<T> {
        match self {
            TableStore::Exclusive(t) => *t,
            TableStore::Shared(rc) => **rc,
        }
    }

    /// Whether this store uses the shared, reference-counted policy.
    pub open spec fn is_shared(&self) -> bool {
        self is Shared
    }

    /// Uniform read access to the fact table.
    pub fn table_ref(&self) -> (r: &FactTable<T>)
        ensures
            *r == self.spec_table(),
    {
        match self {
            TableStore::Exclusive(t) => t,
            TableStore::Shared(rc) => &**rc,
        }
    }
}

impl<T: Clone> TableStore<T> {
    /// Appends one fact, preserving the ownership policy; under the shared
    /// policy the data is copied first, so other handles are untouched.
    pub fn push_fact(&mut self, prob: u64, label: T)
        requires
            old(self).spec_table().probs@.len() == old(self).spec_table().labels@.len(),
        ensures
            final(self).is_shared() == old(self).is_shared(),
            final(self).spec_table().probs@ == old(self).spec_table().probs@.push(prob),
            final(self).spec_table().labels@.len() == old(self).spec_table().labels@.len() + 1,
            forall|i: int|
                0 <= i < old(self).spec_table().labels@.len() ==> cloned::<T>(
                    old(self).spec_table().labels@[i],
                    #[trigger] final(self).spec_table().labels@[i],
                ),
            final(self).spec_table().labels@.last() == label,
    {
        match self {
            TableStore::Exclusive(t) => {
                t.probs.push(prob);
                t.labels.push(label);
            },
            TableStore::Shared(rc) => {
                let mut copy: FactTable<T> = (**rc).clone();
                copy.probs.push(prob);
                copy.labels.push(label);
                *self = TableStore::Shared(Rc::new(copy));
            },
        }
    }

    /// A deep copy under the same policy: a fresh buffer, or a fresh handle
    /// around copied data, never an alias.
    pub fn deep_clone(&self) -> (r: TableStore<T>)
        ensures
            r.is_shared() == self.is_shared(),
            r.spec_table().probs@ == self.spec_table().probs@,
            r.spec_table().labels@.len() == self.spec_table().labels@.len(),
            forall|i: int|
                0 <= i < self.spec_table().labels@.len() ==> cloned::<T>(
                    self.spec_table().labels@[i],
                    #[trigger] r.spec_table().labels@[i],
                ),
    {
        match self {
            TableStore::Exclusive(t) => TableStore::Exclusive(t.clone()),
            TableStore::Shared(rc) => TableStore::Shared(Rc::new((**rc).clone())),
        }
    }
}

/// The top-k differentiable provenance context.
pub struct DiffTopKProofsProvenance<T> {
    pub k: usize,
    pub diff_probs: TableStore<T>,
    pub disjunctions: Disjunctions,
}

impl<T: Clone> Clone for DiffTopKProofsProvenance<T> {
    /// A deep copy, never an alias: see `deep_clone`.
    fn clone(&self) -> (r: DiffTopKProofsProvenance<T>)
        ensures
            r.k == self.k,
            r.diff_probs.is_shared() == self.diff_probs.is_shared(),
            r.diff_probs.spec_table().probs@ == self.diff_probs.spec_table().probs@,
            r.diff_probs.spec_table().labels@.len()
                == self.diff_probs.spec_table().labels@.len(),
            forall|i: int|
                0 <= i < self.diff_probs.spec_table().labels@.len() ==> cloned::<T>(
                    self.diff_probs.spec_table().labels@[i],
                    #[trigger] r.diff_probs.spec_table().labels@[i],
                ),
            r.disjunctions.assignments@ == self.disjunctions.assignments@,
            self.wf() ==> r.wf(),
    {
        self.deep_clone()
    }
}

impl<T> DiffTopKProofsProvenance<T> {
    /// The context's structural invariant: probabilities and labels in
    /// step, every probability a fixed-point value in `[0, UNIT]`, a
    /// well-formed registry, and every registered fact already minted.
    pub open spec fn wf(&self) -> bool {
        &&& self.diff_probs.spec_table().probs@.len() == self.diff_probs.spec_table().labels@.len()
        &&& probs_wf(self.diff_probs.spec_table().probs@)
        &&& assignments_wf(self.disjunctions.assignments@)
        &&& forall|fact: usize|
            #[trigger] self.spec_disj().contains_key(fact) ==> (fact as int)
                < self.spec_num_facts()
    }

    /// The number of facts tagged so far; also the next fact identifier.
    pub open spec fn spec_num_facts(&self) -> int {
        self.diff_probs.spec_table().probs@.len() as int
    }

    /// The fact probabilities, by identifier.
    pub open spec fn spec_probs(&self) -> Seq<u64> {
        self.diff_probs.spec_table().probs@
    }

    /// The disjunction registry as a map from fact to group.
    pub open spec fn spec_disj(&self) -> Map<usize, usize> {
        self.disjunctions@
    }

    /// A tag every identifier of which names a fact of this context.
    pub open spec fn tag_valid(&self, f: Seq<Seq<Literal>>) -> bool {
        all_wf(f, self.spec_num_facts())
    }

    /// The provenance strategy's name.
    pub fn name() -> &'static str {
        "diff-top-k-proofs"
    }

    /// A fresh context with proof-count bound `k` and an exclusively owned
    /// fact table.
    pub fn new(k: usize) -> (r: DiffTopKProofsProvenance<T>)
        ensures
            r.wf(),
            r.k == k,
            r.spec_num_facts() == 0,
            r.spec_disj() == Map::<usize, usize>::empty(),
            !r.diff_probs.is_shared(),
    {
        DiffTopKProofsProvenance {
            k,
            diff_probs: TableStore::Exclusive(FactTable { probs: Vec::new(), labels: Vec::new() }),
            disjunctions: Disjunctions::new(),
        }
    }

    /// A fresh context whose fact table sits behind a shared handle.
    pub fn new_shared(k: usize) -> (r: DiffTopKProofsProvenance<T>)
        ensures
            r.wf(),
            r.k == k,
            r.spec_num_facts() == 0,
            r.spec_disj() == Map::<usize, usize>::empty(),
            r.diff_probs.is_shared(),
    {
        DiffTopKProofsProvenance {
            k,
            diff_probs: TableStore::Shared(
                Rc::new(FactTable { probs: Vec::new(), labels: Vec::new() }),
            ),
            disjunctions: Disjunctions::new(),
        }
    }

    /// Adjusts the proof-count bound for subsequent operations; facts and
    /// registry are untouched.
    pub fn set_k(&mut self, k: usize)
        ensures
            final(self).k == k,
            final(self).diff_probs == old(self).diff_probs,
            final(self).disjunctions == old(self).disjunctions,
    {
        self.k = k;
    }

    /// A fact's current probability.
    pub fn fact_probability(&self, id: &usize) -> (r: u64)
        requires
            self.wf(),
            *id < self.spec_num_facts(),
        ensures
            r == self.spec_probs()[*id as int],
    {
        self.diff_probs.table_ref().probs[*id]
    }

    /// Whether two distinct facts of `pos_facts` share a disjunction group.
    pub fn has_disjunction_conflict(&self, pos_facts: &Vec<usize>) -> (r: bool)
        requires
            self.wf(),
        ensures
            r == facts_conflict(pos_facts@, self.spec_disj()),
    {
        self.disjunctions.has_conflict(pos_facts)
    }

    /// The additive identity: the empty formula, logical false.
    pub fn zero(&self) -> (r: DNFFormula)
        ensures
            r@ == Seq::<Seq<Literal>>::empty(),
            self.tag_valid(r@),
    {
        DNFFormula::zero()
    }

    /// The multiplicative identity: one empty clause, logical true.
    pub fn one(&self) -> (r: DNFFormula)
        ensures
            r@ =~= seq![Seq::<Literal>::empty()],
            self.tag_valid(r@),
    {
        let r = DNFFormula::one();
        proof {
            assert(crate::formula::formula_bounded(r@, self.spec_num_facts()));
        }
        r
    }

    /// A tag that is guaranteed to contribute nothing: the empty formula.
    pub fn discard(&self, t: &DNFFormula) -> (r: bool)
        ensures
            r == (t@.len() == 0),
    {
        t.is_empty()
    }

    /// The fixpoint test: syntactic equality of successive tags.
    pub fn saturated(&self, t_old: &DNFFormula, t_new: &DNFFormula) -> (r: bool)
        ensures
            r == (t_old@ == t_new@),
    {
        t_old.eq_formula(t_new)
    }
}

impl<T: Clone> DiffTopKProofsProvenance<T> {
    /// The labels of all facts tagged so far, in identifier order.
    pub fn input_tags(&self) -> (r: Vec<T>)
        requires
            self.wf(),
        ensures
            r@.len() == self.spec_num_facts(),
            forall|i: int|
                0 <= i < r@.len() ==> cloned::<T>(
                    self.diff_probs.spec_table().labels@[i],
                    #[trigger] r@[i],
                ),
    {
        let table = self.diff_probs.table_ref();
        let mut r: Vec<T> = Vec::new();
        let mut i: usize = 0;
        while i < table.labels.len()
            invariant
                table == self.diff_probs.spec_table(),
                i <= table.labels@.len(),
                r@.len() == i,
                forall|w: int|
                    0 <= w < i ==> cloned::<T>(table.labels@[w], #[trigger] r@[w]),
            decreases table.labels@.len() - i,
        {
            r.push(table.labels[i].clone());
            i = i + 1;
        }
        r
    }

    /// Mints the next fact identifier, stores the fact's probability and
    /// label, registers its exclusivity if declared, and returns the
    /// singleton tag proving it.  Each call mints a new identifier, even
    /// for a semantically identical fact.
    pub fn tagging_fn(&mut self, input_tag: InputExclusiveDiffProb<T>) -> (r: DNFFormula)
        requires
            old(self).wf(),
            input_tag.prob <= UNIT,
        ensures
            final(self).wf(),
            final(self).k == old(self).k,
            final(self).diff_probs.is_shared() == old(self).diff_probs.is_shared(),
            final(self).spec_num_facts() == old(self).spec_num_facts() + 1,
            final(self).spec_probs() == old(self).spec_probs().push(input_tag.prob),
            forall|i: int|
                0 <= i < old(self).spec_num_facts() ==> cloned::<T>(
                    old(self).diff_probs.spec_table().labels@[i],
                    #[trigger] final(self).diff_probs.spec_table().labels@[i],
                ),
            final(self).diff_probs.spec_table().labels@.last() == input_tag.tag,
            input_tag.exclusion is None ==> final(self).spec_disj() == old(self).spec_disj(),
            input_tag.exclusion matches Some(g) ==> final(self).spec_disj() == old(
                self,
            ).spec_disj().insert(old(self).spec_num_facts() as usize, g),
            r@ =~= seq![seq![Literal::Pos(old(self).spec_num_facts() as usize)]],
            final(self).tag_valid(r@),
    {
        let InputExclusiveDiffProb { prob, tag, exclusion } = input_tag;
        let fact_id = self.diff_probs.table_ref().probs.len();
        self.diff_probs.push_fact(prob, tag);
        proof {
            assert(self.spec_disj() == old(self).spec_disj());
            assert(!old(self).spec_disj().contains_key(fact_id));
        }
        match exclusion {
            Option::Some(disjunction_id) => {
                self.disjunctions.add_disjunction(disjunction_id, fact_id);
            },
            Option::None => {},
        }
        proof {
            assert forall|fact: usize| #[trigger] self.spec_disj().contains_key(fact) implies (
            fact as int) < self.spec_num_facts() by {
                if fact != fact_id {
                    assert(old(self).spec_disj().contains_key(fact));
                }
            }
        }
        DNFFormula::singleton(fact_id)
    }

    /// A deep copy: the bound, the fact table (under its ownership policy)
    /// and the registry are duplicated, so that this context and the copy
    /// never observe each other's subsequent changes.
    pub fn deep_clone(&self) -> (r: DiffTopKProofsProvenance<T>)
        ensures
            r.k == self.k,
            r.diff_probs.is_shared() == self.diff_probs.is_shared(),
            r.spec_probs() == self.spec_probs(),
            r.diff_probs.spec_table().labels@.len()
                == self.diff_probs.spec_table().labels@.len(),
            forall|i: int|
                0 <= i < self.diff_probs.spec_table().labels@.len() ==> cloned::<T>(
                    self.diff_probs.spec_table().labels@[i],
                    #[trigger] r.diff_probs.spec_table().labels@[i],
                ),
            r.spec_disj() == self.spec_disj(),
            r.disjunctions.assignments@ == self.disjunctions.assignments@,
    {
        DiffTopKProofsProvenance {
            k: self.k,
            diff_probs: self.diff_probs.deep_clone(),
            disjunctions: self.disjunctions.clone(),
        }
    }
}

impl<T> DiffTopKProofsProvenance<T> {
    /// The top-k disjunction of two tags, for a derived fact with several
    /// derivations.
    pub fn add(&self, t1: &DNFFormula, t2: &DNFFormula) -> (r: DNFFormula)
        requires
            self.wf(),
            self.tag_valid(t1@),
            self.tag_valid(t2@),
        ensures
            r@ == spec_add(t1@, t2@, self.spec_probs(), self.spec_disj(), self.k as int),
            r@.len() <= self.k,
            self.tag_valid(r@),
    {
        let table = self.diff_probs.table_ref();
        top_k_add(t1, t2, &table.probs, &self.disjunctions, self.k)
    }

    /// The top-k conjunction of two tags, for a rule conjoining premises.
    pub fn mult(&self, t1: &DNFFormula, t2: &DNFFormula) -> (r: DNFFormula)
        requires
            self.wf(),
            self.tag_valid(t1@),
            self.tag_valid(t2@),
        ensures
            r@ == spec_mult(t1@, t2@, self.spec_probs(), self.spec_disj(), self.k as int),
            r@.len() <= self.k,
            self.tag_valid(r@),
    {
        let table = self.diff_probs.table_ref();
        top_k_mult(t1, t2, &table.probs, &self.disjunctions, self.k)
    }

    /// The top-k complement of a tag.  Negation is an optional capability
    /// of the provenance contract; this provenance always supports it, so
    /// the result is always present.
    pub fn negate(&self, t: &DNFFormula) -> (r: Option<DNFFormula>)
        requires
            self.wf(),
            self.tag_valid(t@),
        ensures
            r matches Some(f) && f@ == spec_negate(
                t@,
                self.spec_probs(),
                self.spec_disj(),
                self.k as int,
                t@.len() as int,
            ),
            r matches Some(f) ==> self.tag_valid(f@),
    {
        let table = self.diff_probs.table_ref();
        Some(top_k_negate(t, &table.probs, &self.disjunctions, self.k))
    }

    /// The plain evaluator on a tag: its probability under the current fact
    /// table, without gradient information.
    pub fn weight(&self, t: &DNFFormula) -> (r: u64)
        requires
            self.wf(),
            self.tag_valid(t@),
        ensures
            r as int == formula_value(t@, self.spec_probs(), self.spec_disj()),
            r <= UNIT,
    {
        let table = self.diff_probs.table_ref();
        eval_formula(t, &table.probs, &self.disjunctions)
    }
}


/// The fact identifiers below `n` that the formula mentions, in ascending
/// order: the facts a recovered gradient reports on.
pub open spec fn mentioned_ids(f: Seq<Seq<Literal>>, n: int) -> Seq<usize>
    decreases n,
{
    if n <= 0 {
        Seq::empty()
    } else if formula_mentions(f, n - 1) {
        mentioned_ids(f, n - 1).push((n - 1) as usize)
    } else {
        mentioned_ids(f, n - 1)
    }
}

/// Whether the formula mentions fact `j`, under either polarity.
fn formula_mentions_exec(t: &DNFFormula, j: usize) -> (r: bool)
    ensures
        r == formula_mentions(t@, j as int),
{
    let nc = t.clauses.len();
    let mut ci: usize = 0;
    while ci < nc
        invariant
            nc == t.clauses.len(),
            ci <= nc,
            forall|w: int|
                0 <= w < ci ==> !crate::dual::clause_mentions(#[trigger] t@[w], j as int),
        decreases nc - ci,
    {
        let c = &t.clauses[ci];
        proof {
            assert(c@ == t@[ci as int]);
        }
        let m = c.literals.len();
        let mut li: usize = 0;
        while li < m
            invariant
                nc == t.clauses.len(),
                ci < nc,
                c@ == t@[ci as int],
                m == c.literals.len(),
                li <= m,
                forall|w: int| 0 <= w < li ==> crate::formula::lit_id(c@[w]) as int != j as int,
            decreases m - li,
        {
            let id = match c.literals[li] {
                Literal::Pos(p) => p,
                Literal::Neg(p) => p,
            };
            if id == j {
                proof {
                    assert(crate::formula::lit_id(c@[li as int]) as int == j as int);
                    assert(crate::dual::clause_mentions(t@[ci as int], j as int));
                }
                return true;
            }
            li = li + 1;
        }
        proof {
            assert(!crate::dual::clause_mentions(t@[ci as int], j as int));
        }
        ci = ci + 1;
    }
    proof {
        assert(forall|w: int|
            0 <= w < t@.len() ==> !crate::dual::clause_mentions(#[trigger] t@[w], j as int));
    }
    false
}

impl<T: Clone> DiffTopKProofsProvenance<T> {
    /// Runs the differentiating evaluator over a tag: the recovered
    /// probability, and, for every fact the tag mentions, the partial
    /// derivative of that probability with respect to the fact's
    /// probability, together with the fact's label.  The probability part
    /// agrees exactly with `weight`.
    pub fn recover_fn(&self, t: &DNFFormula) -> (r: OutputDiffProb<T>)
        requires
            self.wf(),
            self.tag_valid(t@),
            t@.len() <= MAX_RECOVER_CLAUSES,
        ensures
            r.0 as int == formula_value(t@, self.spec_probs(), self.spec_disj()),
            r.0 <= UNIT,
            ({
                let ids = mentioned_ids(t@, self.spec_num_facts());
                let dd = formula_dual(
                    t@,
                    self.spec_probs(),
                    self.spec_disj(),
                    self.spec_num_facts(),
                );
                &&& r.1@.len() == ids.len()
                &&& forall|w: int| 0 <= w < ids.len() ==> (#[trigger] r.1@[w]).0 == ids[w]
                &&& forall|w: int|
                    0 <= w < ids.len() ==> (#[trigger] r.1@[w]).1 as int == dd.1[ids[w] as int]
                        - dd.2[ids[w] as int]
                &&& forall|w: int|
                    0 <= w < ids.len() ==> cloned::<T>(
                        self.diff_probs.spec_table().labels@[ids[w] as int],
                        (#[trigger] r.1@[w]).2,
                    )
            }),
    {
        let table = self.diff_probs.table_ref();
        let n = table.probs.len();
        let ghost probs = self.spec_probs();
        let ghost dm = self.spec_disj();
        let dual = eval_formula_dual(t, &table.probs, &self.disjunctions);
        proof {
            lemma_formula_dual_real(t@, probs, dm, n as int);
            lemma_formula_dual_bounds(t@, probs, dm, n as int);
        }
        let ghost dd = formula_dual(t@, probs, dm, n as int);
        let mut deriv: Vec<(usize, i64, T)> = Vec::new();
        let mut j: usize = 0;
        while j < n
            invariant
                self.wf(),
                self.tag_valid(t@),
                t@.len() <= MAX_RECOVER_CLAUSES,
                n == table.probs@.len(),
                table == self.diff_probs.spec_table(),
                probs == self.spec_probs(),
                dm == self.spec_disj(),
                dd == formula_dual(t@, probs, dm, n as int),
                crate::dual::dual_matches(dual, dd, n as int),
                forall|w: int|
                    0 <= w < n ==> #[trigger] dual.dpos@[w] as int <= t@.len() * (UNIT as int),
                forall|w: int|
                    0 <= w < n ==> #[trigger] dual.dneg@[w] as int <= t@.len() * (UNIT as int),
                j <= n,
                deriv@.len() == mentioned_ids(t@, j as int).len(),
                forall|w: int|
                    0 <= w < deriv@.len() ==> (#[trigger] deriv@[w]).0 == mentioned_ids(
                        t@,
                        j as int,
                    )[w],
                forall|w: int|
                    0 <= w < deriv@.len() ==> (#[trigger] deriv@[w]).1 as int == dd.1[mentioned_ids(
                        t@,
                        j as int,
                    )[w] as int] - dd.2[mentioned_ids(t@, j as int)[w] as int],
                forall|w: int|
                    0 <= w < deriv@.len() ==> cloned::<T>(
                        table.labels@[mentioned_ids(t@, j as int)[w] as int],
                        (#[trigger] deriv@[w]).2,
                    ),
            decreases n - j,
        {
            let ghost prev_ids = mentioned_ids(t@, j as int);
            if formula_mentions_exec(t, j) {
                let dp = dual.dpos[j];
                let dn = dual.dneg[j];
                proof {
                    assert(dp as int == dd.1[j as int] && dn as int == dd.2[j as int]);
                    assert(t@.len() * (UNIT as int) <= (MAX_RECOVER_CLAUSES as int) * (
                    UNIT as int)) by (nonlinear_arith)
                        requires
                            0 <= t@.len() <= MAX_RECOVER_CLAUSES,
                    ;
                    assert(dp <= 1_000_000_000_000_000_000u64);
                    assert(dn <= 1_000_000_000_000_000_000u64);
                }
                let dv: i64 = if dp >= dn {
                    (dp - dn) as i64
                } else {
                    let m = dn - dp;
                    -(m as i64)
                };
                deriv.push((j, dv, table.labels[j].clone()));
                proof {
                    assert(mentioned_ids(t@, j + 1) == prev_ids.push(j));
                }
            } else {
                proof {
                    assert(mentioned_ids(t@, j + 1) == prev_ids);
                }
            }
            j = j + 1;
        }
        proof {
            assert(dual.prob as int == dd.0);
        }
        OutputDiffProb(dual.prob, deriv)
    }
}

} // verus!
