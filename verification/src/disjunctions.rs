//! Registry of mutual-exclusivity ("disjunction") groups among facts.
//!
//! Each fact identifier belongs to at most one group.  A set of positively
//! asserted facts has a conflict when two distinct members share a group:
//! their conjunction is impossible and contributes no probability mass.

use vstd::prelude::*;

verus! {

/// Maps fact identifiers to their disjunction group, first registration
/// winning; a fact is in at most one group.
#[derive(Debug)]
pub struct Disjunctions {
    pub assignments: Vec<(usize, usize)>,
}

impl Clone for Disjunctions {
    /// A structural copy: the registry of the copy reads the same.
    fn clone(&self) -> (r: Disjunctions)
        ensures
            r.assignments@ == self.assignments@,
    {
        let mut assignments: Vec<(usize, usize)> = Vec::new();
        let n = self.assignments.len();
        let mut i: usize = 0;
        while i < n
            invariant
                n == self.assignments.len(),
                i <= n,
                assignments@ == self.assignments@.take(i as int),
            decreases n - i,
        {
            assignments.push(self.assignments[i]);
            proof {
                assert(assignments@ =~= self.assignments@.take(i + 1));
            }
            i = i + 1;
        }
        proof {
            assert(self.assignments@.take(n as int) =~= self.assignments@);
        }
        Disjunctions { assignments }
    }
}

impl View for Disjunctions {
    type V = Map<usize, usize>;

    open spec fn view(&self) -> Map<usize, usize> {
        assignments_map(self.assignments@)
    }
}

/// The fact-to-group map a list of (fact, group) pairs denotes, earlier
/// entries taking precedence.
pub open spec fn assignments_map(s: Seq<(usize, usize)>) -> Map<usize, usize>
    decreases s.len(),
{
    if s.len() == 0 {
        Map::empty()
    } else {
        assignments_map(s.drop_last()).insert(s.last().0, s.last().1)
    }
}

/// Unique fact keys, so the list and the map agree entry for entry.
pub open spec fn assignments_wf(s: Seq<(usize, usize)>) -> bool {
    forall|i: int, j: int| 0 <= i < j < s.len() ==> (#[trigger] s[i]).0 != (#[trigger] s[j]).0
}

/// Two distinct facts of the list share a disjunction group.
pub open spec fn facts_conflict(s: Seq<usize>, d: Map<usize, usize>) -> bool {
    exists|i: int, j: int|
        0 <= i < s.len() && 0 <= j < s.len() && s[i] != s[j] && d.contains_key(s[i])
            && d.contains_key(s[j]) && d[s[i]] == d[s[j]]
}

proof fn lemma_assignments_map_entry(s: Seq<(usize, usize)>, i: int)
    requires
        assignments_wf(s),
        0 <= i < s.len(),
    ensures
        assignments_map(s).contains_key(s[i].0),
        assignments_map(s)[s[i].0] == s[i].1,
    decreases s.len(),
{
    if i < s.len() - 1 {
        lemma_assignments_map_entry(s.drop_last(), i);
    }
}

proof fn lemma_assignments_map_domain(s: Seq<(usize, usize)>, fact: usize)
    requires
        assignments_map(s).contains_key(fact),
    ensures
        exists|i: int| 0 <= i < s.len() && (#[trigger] s[i]).0 == fact,
    decreases s.len(),
{
    if s.len() > 0 {
        if s.last().0 != fact {
            lemma_assignments_map_domain(s.drop_last(), fact);
            let i = choose|i: int| 0 <= i < s.drop_last().len() && (#[trigger] s.drop_last()[i]).0 == fact;
            assert(s[i].0 == fact);
        } else {
            assert(s[s.len() - 1].0 == fact);
        }
    }
}

impl Disjunctions {
    /// A registry with no groups.
    pub fn new() -> (r: Disjunctions)
        ensures
            r@ == Map::<usize, usize>::empty(),
            assignments_wf(r.assignments@),
    {
        let r = Disjunctions { assignments: Vec::new() };
        r
    }

    /// The group a fact was registered into, if any.
    pub fn group_of(&self, fact: usize) -> (r: Option<usize>)
        requires
            assignments_wf(self.assignments@),
        ensures
            r matches Some(g) ==> self@.contains_key(fact) && self@[fact] == g,
            r is None ==> !self@.contains_key(fact),
    {
        let n = self.assignments.len();
        let mut i: usize = 0;
        while i < n
            invariant
                assignments_wf(self.assignments@),
                n == self.assignments.len(),
                i <= n,
                forall|j: int| 0 <= j < i ==> (#[trigger] self.assignments@[j]).0 != fact,
            decreases n - i,
        {
            let (f, g) = self.assignments[i];
            if f == fact {
                proof {
                    lemma_assignments_map_entry(self.assignments@, i as int);
                }
                return Some(g);
            }
            i = i + 1;
        }
        proof {
            if self@.contains_key(fact) {
                lemma_assignments_map_domain(self.assignments@, fact);
            }
        }
        None
    }

    /// Registers `fact` into group `disjunction_id`; a fact already placed in
    /// a group keeps its first placement, so each fact belongs to at most one
    /// group.
    pub fn add_disjunction(&mut self, disjunction_id: usize, fact: usize)
        requires
            assignments_wf(old(self).assignments@),
        ensures
            assignments_wf(final(self).assignments@),
            old(self)@.contains_key(fact) ==> final(self)@ == old(self)@,
            !old(self)@.contains_key(fact) ==> final(self)@ == old(self)@.insert(
                fact,
                disjunction_id,
            ),
    {
        let present = match self.group_of(fact) {
            Some(_) => true,
            None => false,
        };
        if !present {
            proof {
                assert forall|i: int| 0 <= i < self.assignments@.len() implies (
                #[trigger] self.assignments@[i]).0 != fact by {
                    lemma_assignments_map_entry(self.assignments@, i);
                }
            }
            self.assignments.push((fact, disjunction_id));
            proof {
                assert(self.assignments@.drop_last() =~= old(self).assignments@);
            }
        }
    }

    /// Whether two distinct facts of `pos_facts` share a disjunction group.
    pub fn has_conflict(&self, pos_facts: &Vec<usize>) -> (r: bool)
        requires
            assignments_wf(self.assignments@),
        ensures
            r == facts_conflict(pos_facts@, self@),
    {
        let n = pos_facts.len();
        let mut i: usize = 0;
        while i < n
            invariant
                assignments_wf(self.assignments@),
                n == pos_facts.len(),
                i <= n,
                forall|a: int, b: int|
                    0 <= a < i && 0 <= b < n && pos_facts@[a] != pos_facts@[b] && self@.contains_key(
                        pos_facts@[a],
                    ) && self@.contains_key(pos_facts@[b]) ==> self@[pos_facts@[a]]
                        != self@[pos_facts@[b]],
            decreases n - i,
        {
            let fi = pos_facts[i];
            match self.group_of(fi) {
                Some(gi) => {
                    let mut j: usize = 0;
                    while j < n
                        invariant
                            assignments_wf(self.assignments@),
                            n == pos_facts.len(),
                            i < n,
                            j <= n,
                            fi == pos_facts@[i as int],
                            self@.contains_key(fi) && self@[fi] == gi,
                            forall|b: int|
                                0 <= b < j && pos_facts@[b] != fi && self@.contains_key(
                                    pos_facts@[b],
                                ) ==> self@[pos_facts@[b]] != gi,
                        decreases n - j,
                    {
                        let fj = pos_facts[j];
                        if fj != fi {
                            match self.group_of(fj) {
                                Some(gj) => {
                                    if gi == gj {
                                        return true;
                                    }
                                },
                                None => {},
                            }
                        }
                        j = j + 1;
                    }
                },
                None => {},
            }
            i = i + 1;
        }
        proof {
            assert forall|a: int, b: int|
                0 <= a < n && 0 <= b < n && pos_facts@[a] != pos_facts@[b] && self@.contains_key(
                    pos_facts@[a],
                ) && self@.contains_key(pos_facts@[b]) implies self@[pos_facts@[a]]
                != self@[pos_facts@[b]] by {}
        }
        false
    }
}

} // verus!
