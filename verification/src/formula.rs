//! Boolean proof representation: disjunctive-normal-form formulas over fact
//! identifiers.
//!
//! A formula is a set of clauses; a clause is a conjunction of literals, each
//! a positive or negated fact identifier.  The empty formula is logical false
//! ("zero"); the formula with one empty clause is logical true ("one").
//! Well-formed clauses keep their literals strictly sorted by fact identifier
//! (so a fact occurs at most once per clause), and well-formed formulas hold
//! no duplicate clause.

use vstd::prelude::*;

verus! {

/// One literal of a clause: a fact identifier, asserted or negated.
#[derive(Clone, Copy, PartialEq, Eq, Structural, Hash, Debug)]
pub enum Literal {
    Pos(usize),
    Neg(usize),
}

/// The fact identifier a literal speaks of.
pub open spec fn lit_id(l: Literal) -> usize {
    match l {
        Literal::Pos(i) => i,
        Literal::Neg(i) => i,
    }
}

/// Whether a literal asserts its fact positively.
pub open spec fn lit_pos(l: Literal) -> bool {
    match l {
        Literal::Pos(_) => true,
        Literal::Neg(_) => false,
    }
}

/// A conjunction of literals.
#[derive(Debug)]
pub struct Clause {
    pub literals: Vec<Literal>,
}

impl Clone for Clause {
    /// A structural copy, equal to the original literal for literal.
    fn clone(&self) -> (r: Clause)
        ensures
            r@ == self@,
    {
        let mut literals: Vec<Literal> = Vec::new();
        let n = self.literals.len();
        let mut i: usize = 0;
        while i < n
            invariant
                n == self.literals.len(),
                i <= n,
                literals@ == self.literals@.take(i as int),
            decreases n - i,
        {
            literals.push(self.literals[i]);
            proof {
                assert(literals@ =~= self.literals@.take(i + 1));
            }
            i = i + 1;
        }
        proof {
            assert(self.literals@.take(n as int) =~= self.literals@);
        }
        Clause { literals }
    }
}

impl View for Clause {
    type V = Seq<Literal>;

    open spec fn view(&self) -> Seq<Literal> {
        self.literals@
    }
}

/// Literals strictly sorted by fact identifier: each fact occurs at most
/// once, under a single polarity.
pub open spec fn clause_wf(c: Seq<Literal>) -> bool {
    forall|i: int, j: int| 0 <= i < j < c.len() ==> lit_id(c[i]) < lit_id(c[j])
}

/// Every fact identifier in the clause is below `n`.
pub open spec fn clause_bounded(c: Seq<Literal>, n: int) -> bool {
    forall|i: int| 0 <= i < c.len() ==> lit_id(c[i]) < n
}

/// A disjunction of clauses.
#[derive(Debug)]
pub struct DNFFormula {
    pub clauses: Vec<Clause>,
}

impl Clone for DNFFormula {
    /// A structural copy, equal to the original clause for clause.
    fn clone(&self) -> (r: DNFFormula)
        ensures
            r@ == self@,
    {
        let mut clauses: Vec<Clause> = Vec::new();
        let n = self.clauses.len();
        let mut i: usize = 0;
        while i < n
            invariant
                n == self.clauses.len(),
                i <= n,
                clauses@.len() == i,
                forall|j: int| 0 <= j < i ==> clauses@[j]@ == self@[j],
            decreases n - i,
        {
            clauses.push(self.clauses[i].clone());
            i = i + 1;
        }
        let r = DNFFormula { clauses };
        proof {
            assert(r@ =~= self@);
        }
        r
    }
}

impl View for DNFFormula {
    type V = Seq<Seq<Literal>>;

    open spec fn view(&self) -> Seq<Seq<Literal>> {
        self.clauses@.map_values(|c: Clause| c@)
    }
}

/// Each clause well-formed, and no clause repeated.
pub open spec fn formula_wf(f: Seq<Seq<Literal>>) -> bool {
    &&& forall|i: int| 0 <= i < f.len() ==> clause_wf(#[trigger] f[i])
    &&& forall|i: int, j: int| 0 <= i < j < f.len() ==> f[i] != f[j]
}

/// Every fact identifier in the formula is below `n`.
pub open spec fn formula_bounded(f: Seq<Seq<Literal>>, n: int) -> bool {
    forall|i: int| 0 <= i < f.len() ==> clause_bounded(#[trigger] f[i], n)
}

impl Clause {
    /// The empty conjunction: logical true.
    pub fn empty() -> (r: Clause)
        ensures
            r@ == Seq::<Literal>::empty(),
    {
        let r = Clause { literals: Vec::new() };
        proof {
            assert(r@ =~= Seq::<Literal>::empty());
        }
        r
    }

    /// The conjunction of a single positive fact.
    pub fn singleton(fact_id: usize) -> (r: Clause)
        ensures
            r@ =~= seq![Literal::Pos(fact_id)],
            clause_wf(r@),
    {
        let mut literals: Vec<Literal> = Vec::new();
        literals.push(Literal::Pos(fact_id));
        let r = Clause { literals };
        proof {
            assert(r@ =~= seq![Literal::Pos(fact_id)]);
        }
        r
    }

    /// Structural equality of two clauses; on well-formed clauses this is
    /// equality of the literal sets.
    pub fn eq_clause(&self, other: &Clause) -> (r: bool)
        ensures
            r == (self@ == other@),
    {
        if self.literals.len() != other.literals.len() {
            proof {
                assert(self@ != other@);
            }
            return false;
        }
        let n = self.literals.len();
        let mut i: usize = 0;
        while i < n
            invariant
                n == self.literals.len() == other.literals.len(),
                i <= n,
                forall|j: int| 0 <= j < i ==> self@[j] == other@[j],
            decreases n - i,
        {
            if self.literals[i] != other.literals[i] {
                return false;
            }
            i = i + 1;
        }
        proof {
            assert(self@ =~= other@);
        }
        true
    }
}

impl DNFFormula {
    /// The empty disjunction: logical false, the additive identity.
    pub fn zero() -> (r: DNFFormula)
        ensures
            r@ == Seq::<Seq<Literal>>::empty(),
            formula_wf(r@),
    {
        let r = DNFFormula { clauses: Vec::new() };
        proof {
            assert(r@ =~= Seq::<Seq<Literal>>::empty());
        }
        r
    }

    /// The disjunction of one empty clause: logical true, the multiplicative
    /// identity.
    pub fn one() -> (r: DNFFormula)
        ensures
            r@ =~= seq![Seq::<Literal>::empty()],
            formula_wf(r@),
    {
        let mut clauses: Vec<Clause> = Vec::new();
        clauses.push(Clause::empty());
        let r = DNFFormula { clauses };
        proof {
            assert(r@ =~= seq![Seq::<Literal>::empty()]);
        }
        r
    }

    /// The minimal proof of a single fact: one clause with one positive
    /// literal.
    pub fn singleton(fact_id: usize) -> (r: DNFFormula)
        ensures
            r@ =~= seq![seq![Literal::Pos(fact_id)]],
            formula_wf(r@),
    {
        let mut clauses: Vec<Clause> = Vec::new();
        clauses.push(Clause::singleton(fact_id));
        let r = DNFFormula { clauses };
        proof {
            assert(r@ =~= seq![seq![Literal::Pos(fact_id)]]);
        }
        r
    }

    /// A formula with no clauses has no proofs at all: it is logical false.
    pub fn is_empty(&self) -> (r: bool)
        ensures
            r == (self@.len() == 0),
    {
        self.clauses.len() == 0
    }

    /// Whether `other` holds a clause structurally equal to `c`.
    pub fn contains_clause(&self, c: &Clause) -> (r: bool)
        ensures
            r == self@.contains(c@),
    {
        let n = self.clauses.len();
        let mut i: usize = 0;
        while i < n
            invariant
                n == self.clauses.len(),
                i <= n,
                forall|j: int| 0 <= j < i ==> self@[j] != c@,
            decreases n - i,
        {
            if self.clauses[i].eq_clause(c) {
                proof {
                    assert(self@[i as int] == c@);
                }
                return true;
            }
            i = i + 1;
        }
        proof {
            assert(forall|j: int| 0 <= j < self@.len() ==> self@[j] != c@);
        }
        false
    }

    /// Syntactic equality of two formulas, the fixpoint ("saturation") test.
    pub fn eq_formula(&self, other: &DNFFormula) -> (r: bool)
        ensures
            r == (self@ == other@),
    {
        if self.clauses.len() != other.clauses.len() {
            proof {
                assert(self@.len() != other@.len());
            }
            return false;
        }
        let n = self.clauses.len();
        let mut i: usize = 0;
        while i < n
            invariant
                n == self.clauses.len() == other.clauses.len(),
                i <= n,
                forall|j: int| 0 <= j < i ==> self@[j] == other@[j],
            decreases n - i,
        {
            if !self.clauses[i].eq_clause(&other.clauses[i]) {
                proof {
                    assert(self@[i as int] != other@[i as int]);
                }
                return false;
            }
            i = i + 1;
        }
        proof {
            assert(self@ =~= other@);
        }
        true
    }
}

} // verus!
