//! Aggregate combinators over batches of tagged tuples: count, min, max
//! and exists, built purely from the provenance algebra's identities and
//! top-k combinators.
//!
//! Each combinator comes in a runtime-typed-tuple form (tuples of scalar
//! [`Value`]s) and a compile-time-typed form (any tuple type implementing
//! [`StaticTupleTrait`]); the tag semantics of the two forms are
//! identical.

use vstd::prelude::*;

use itertools::Itertools;

use crate::formula::{DNFFormula, Literal};
use crate::provenance::DiffTopKProofsProvenance;
use crate::topk::{spec_add, spec_mult, spec_negate};
use crate::value::Value;

verus! {

/// A runtime-typed tagged tuple: a row of scalar values with its proof
/// tag.
pub struct DynamicElement {
    pub tuple: Vec<Value>,
    pub tag: DNFFormula,
}

/// A batch of runtime-typed tagged tuples.
pub type DynamicElements = Vec<DynamicElement>;

/// The tuple payload of a compile-time-typed element.
pub trait StaticTupleTrait: Clone {

}

impl StaticTupleTrait for bool {

}

impl StaticTupleTrait for usize {

}

impl StaticTupleTrait for u64 {

}

impl StaticTupleTrait for i64 {

}

impl StaticTupleTrait for String {

}

impl StaticTupleTrait for Value {

}

/// A compile-time-typed tagged tuple.
pub struct StaticElement<Tup: StaticTupleTrait> {
    pub tuple: Tup,
    pub tag: DNFFormula,
}

/// A batch of compile-time-typed tagged tuples.
pub type StaticElements<Tup> = Vec<StaticElement<Tup>>;

/// `2^n`.
pub open spec fn pow2(n: nat) -> nat
    decreases n,
{
    if n == 0 {
        1
    } else {
        2 * pow2((n - 1) as nat)
    }
}

/// A strictly increasing sequence of indices below `n`: the canonical
/// writing of a subset of `0..n`.
pub open spec fn subset_seq_wf(q: Seq<usize>, n: int) -> bool {
    &&& forall|i: int, j: int| 0 <= i < j < q.len() ==> q[i] < q[j]
    &&& forall|i: int| 0 <= i < q.len() ==> (#[trigger] q[i]) < n
}

/// What an enumeration of the power set of `0..n` looks like: one entry
/// per subset, each in canonical writing, none repeated, listed by
/// ascending size.
pub open spec fn powerset_props(cs: Seq<Seq<usize>>, n: int) -> bool {
    &&& cs.len() == pow2(n as nat)
    &&& forall|i: int| 0 <= i < cs.len() ==> subset_seq_wf(#[trigger] cs[i], n)
    &&& forall|i: int, j: int| 0 <= i < j < cs.len() ==> cs[i] != cs[j]
    &&& forall|i: int, j: int| 0 <= i < j < cs.len() ==> cs[i].len() <= cs[j].len()
    &&& forall|q: Seq<usize>| subset_seq_wf(q, n) ==> cs.contains(q)
}

/// Every `k`-element strictly increasing index vector over `start..n`, in
/// lexicographic order: first the vectors opening with `start`, then the
/// rest.
pub open spec fn combs_from(start: int, n: int, k: int) -> Seq<Seq<usize>>
    decreases n - start,
{
    if k <= 0 {
        seq![Seq::<usize>::empty()]
    } else if start >= n {
        Seq::empty()
    } else {
        combs_from(start + 1, n, k - 1).map_values(|q: Seq<usize>| seq![start as usize] + q)
            + combs_from(start + 1, n, k)
    }
}

/// The size classes up to `k - 1` elements, concatenated in ascending
/// size.
pub open spec fn powerset_cat(n: int, k: int) -> Seq<Seq<usize>>
    decreases k,
{
    if k <= 0 {
        Seq::empty()
    } else {
        powerset_cat(n, k - 1) + combs_from(0, n, k - 1)
    }
}

/// The canonical enumeration of the power set of `0..n`: every subset as a
/// strictly increasing index vector, by ascending size, each size class in
/// lexicographic order.  This is the order the count aggregates report
/// their result rows in, whichever tuple convention carries them.
pub open spec fn powerset_seq(n: int) -> Seq<Seq<usize>> {
    powerset_cat(n, n + 1)
}

/// Relies on itertools' `powerset` over `0..n`: it yields every subset of
/// the range exactly once, each as a strictly increasing index vector, by
/// ascending size with each size class in lexicographic order — exactly
/// the canonical enumeration `powerset_seq` — `2^n` in all.  The bound on
/// `n` keeps `2^n` inside `usize`.
#[verifier::external_body]
fn index_powerset(n: usize) -> (r: Vec<Vec<usize>>)
    requires
        n <= 62,
    ensures
        r.deep_view() == powerset_seq(n as int),
        powerset_props(r.deep_view(), n as int),
{
    (0..n).powerset().collect()
}

/// The tag views of a batch's elements.
pub open spec fn fv(tags: Seq<DNFFormula>) -> Seq<Seq<Seq<Literal>>> {
    tags.map_values(|t: DNFFormula| t@)
}

/// The tag of "exactly the chosen ones among the first `i` elements
/// hold": the top-k conjunction of the chosen tags and the negations of
/// the unchosen ones, in element order.
pub open spec fn spec_chosen_tag(
    tags: Seq<Seq<Seq<Literal>>>,
    chosen: Seq<usize>,
    probs: Seq<u64>,
    d: Map<usize, usize>,
    k: int,
    i: int,
) -> Seq<Seq<Literal>>
    decreases i,
{
    if i <= 0 {
        seq![Seq::<Literal>::empty()]
    } else {
        let prev = spec_chosen_tag(tags, chosen, probs, d, k, i - 1);
        if chosen.contains((i - 1) as usize) {
            spec_mult(prev, tags[i - 1], probs, d, k)
        } else {
            spec_mult(
                prev,
                spec_negate(tags[i - 1], probs, d, k, tags[i - 1].len() as int),
                probs,
                d,
                k,
            )
        }
    }
}

/// The tag of "none of the first `i` elements holds".
pub open spec fn spec_none_tag(
    tags: Seq<Seq<Seq<Literal>>>,
    probs: Seq<u64>,
    d: Map<usize, usize>,
    k: int,
    i: int,
) -> Seq<Seq<Literal>>
    decreases i,
{
    if i <= 0 {
        seq![Seq::<Literal>::empty()]
    } else {
        spec_mult(
            spec_none_tag(tags, probs, d, k, i - 1),
            spec_negate(tags[i - 1], probs, d, k, tags[i - 1].len() as int),
            probs,
            d,
            k,
        )
    }
}

/// The tag of "some of the first `i` elements holds": the top-k
/// disjunction of their tags.
pub open spec fn spec_any_tag(
    tags: Seq<Seq<Seq<Literal>>>,
    probs: Seq<u64>,
    d: Map<usize, usize>,
    k: int,
    i: int,
) -> Seq<Seq<Literal>>
    decreases i,
{
    if i <= 0 {
        Seq::empty()
    } else {
        spec_add(spec_any_tag(tags, probs, d, k, i - 1), tags[i - 1], probs, d, k)
    }
}

/// The tag of "element `i` is the minimum": element `i` holds and no
/// earlier (higher-priority) element does.
pub open spec fn spec_min_tag(
    tags: Seq<Seq<Seq<Literal>>>,
    probs: Seq<u64>,
    d: Map<usize, usize>,
    k: int,
    i: int,
) -> Seq<Seq<Literal>> {
    spec_mult(spec_none_tag(tags, probs, d, k, i), tags[i], probs, d, k)
}

/// The fold behind `spec_max_tag`: element `i`'s tag conjoined with the
/// negations of the elements after it, up to `j`.
pub open spec fn spec_max_fold(
    tags: Seq<Seq<Seq<Literal>>>,
    probs: Seq<u64>,
    d: Map<usize, usize>,
    k: int,
    i: int,
    j: int,
) -> Seq<Seq<Literal>>
    decreases j - i,
{
    if j <= i + 1 {
        tags[i]
    } else {
        spec_mult(
            spec_max_fold(tags, probs, d, k, i, j - 1),
            spec_negate(tags[j - 1], probs, d, k, tags[j - 1].len() as int),
            probs,
            d,
            k,
        )
    }
}

/// The tag of "element `i` is the maximum": element `i` holds and no
/// later element does.
pub open spec fn spec_max_tag(
    tags: Seq<Seq<Seq<Literal>>>,
    probs: Seq<u64>,
    d: Map<usize, usize>,
    k: int,
    i: int,
    len: int,
) -> Seq<Seq<Literal>> {
    spec_max_fold(tags, probs, d, k, i, len)
}

fn clone_tuple(t: &Vec<Value>) -> (r: Vec<Value>)
    ensures
        r@ == t@,
{
    let mut r: Vec<Value> = Vec::new();
    let mut i: usize = 0;
    while i < t.len()
        invariant
            i <= t@.len(),
            r@ == t@.take(i as int),
        decreases t@.len() - i,
    {
        r.push(t[i].clone());
        proof {
            assert(r@ =~= t@.take(i + 1));
        }
        i = i + 1;
    }
    proof {
        assert(t@.take(t@.len() as int) =~= t@);
    }
    r
}

impl<T> DiffTopKProofsProvenance<T> {
    /// All tags of a batch valid for this context.
    pub open spec fn batch_valid_dyn(&self, batch: Seq<DynamicElement>) -> bool {
        forall|i: int| 0 <= i < batch.len() ==> self.tag_valid(#[trigger] batch[i].tag@)
    }

    /// The negation of a tag, which this provenance always supports.
    fn negate_tag(&self, t: &DNFFormula) -> (r: DNFFormula)
        requires
            self.wf(),
            self.tag_valid(t@),
        ensures
            r@ == spec_negate(
                t@,
                self.spec_probs(),
                self.spec_disj(),
                self.k as int,
                t@.len() as int,
            ),
            self.tag_valid(r@),
    {
        match self.negate(t) {
            Option::Some(f) => f,
            Option::None => unreached(),
        }
    }

    /// The tag of "exactly the chosen elements hold": chosen tags
    /// conjoined with the negations of the unchosen ones, top-k-bounded at
    /// every step.
    pub fn top_k_tag_of_chosen_set(&self, tags: &Vec<DNFFormula>, chosen: &Vec<usize>) -> (r:
        DNFFormula)
        requires
            self.wf(),
            forall|i: int| 0 <= i < tags@.len() ==> self.tag_valid(#[trigger] tags@[i]@),
        ensures
            r@ == spec_chosen_tag(
                fv(tags@),
                chosen@,
                self.spec_probs(),
                self.spec_disj(),
                self.k as int,
                tags@.len() as int,
            ),
            self.tag_valid(r@),
    {
        let ghost tviews = fv(tags@);
        let mut acc = self.one();
        let n = tags.len();
        let mut i: usize = 0;
        while i < n
            invariant
                n == tags@.len(),
                i <= n,
                self.wf(),
                forall|w: int| 0 <= w < n ==> self.tag_valid(#[trigger] tags@[w]@),
                tviews == fv(tags@),
                acc@ == spec_chosen_tag(
                    tviews,
                    chosen@,
                    self.spec_probs(),
                    self.spec_disj(),
                    self.k as int,
                    i as int,
                ),
                self.tag_valid(acc@),
            decreases n - i,
        {
            proof {
                assert(tviews[i as int] == tags@[i as int]@);
            }
            let mut member: bool = false;
            let mut w: usize = 0;
            while w < chosen.len()
                invariant
                    w <= chosen@.len(),
                    member == exists|v: int| 0 <= v < w && chosen@[v] == i,
                decreases chosen@.len() - w,
            {
                if chosen[w] == i {
                    member = true;
                }
                w = w + 1;
            }
            proof {
                assert(member == chosen@.contains(i));
            }
            if member {
                acc = self.mult(&acc, &tags[i]);
            } else {
                let neg = self.negate_tag(&tags[i]);
                acc = self.mult(&acc, &neg);
            }
            i = i + 1;
        }
        acc
    }
}


/// The tag views of a runtime-typed batch.
pub open spec fn dyn_tags(batch: Seq<DynamicElement>) -> Seq<Seq<Seq<Literal>>> {
    batch.map_values(|e: DynamicElement| e.tag@)
}

/// The tag views of a compile-time-typed batch.
pub open spec fn stat_tags<Tup: StaticTupleTrait>(batch: Seq<StaticElement<Tup>>) -> Seq<
    Seq<Seq<Literal>>,
> {
    batch.map_values(|e: StaticElement<Tup>| e.tag@)
}

fn collect_tags_dyn(batch: &Vec<DynamicElement>) -> (r: Vec<DNFFormula>)
    ensures
        r@.len() == batch@.len(),
        forall|i: int| 0 <= i < batch@.len() ==> (#[trigger] r@[i])@ == batch@[i].tag@,
{
    let mut r: Vec<DNFFormula> = Vec::new();
    let mut i: usize = 0;
    while i < batch.len()
        invariant
            i <= batch@.len(),
            r@.len() == i,
            forall|w: int| 0 <= w < i ==> (#[trigger] r@[w])@ == batch@[w].tag@,
        decreases batch@.len() - i,
    {
        r.push(batch[i].tag.clone());
        i = i + 1;
    }
    r
}

fn collect_tags_stat<Tup: StaticTupleTrait>(batch: &Vec<StaticElement<Tup>>) -> (r: Vec<
    DNFFormula,
>)
    ensures
        r@.len() == batch@.len(),
        forall|i: int| 0 <= i < batch@.len() ==> (#[trigger] r@[i])@ == batch@[i].tag@,
{
    let mut r: Vec<DNFFormula> = Vec::new();
    let mut i: usize = 0;
    while i < batch.len()
        invariant
            i <= batch@.len(),
            r@.len() == i,
            forall|w: int| 0 <= w < i ==> (#[trigger] r@[w])@ == batch@[w].tag@,
        decreases batch@.len() - i,
    {
        r.push(batch[i].tag.clone());
        i = i + 1;
    }
    r
}

impl<T> DiffTopKProofsProvenance<T> {
    /// All tags of a compile-time-typed batch valid for this context.
    pub open spec fn batch_valid_stat<Tup: StaticTupleTrait>(
        &self,
        batch: Seq<StaticElement<Tup>>,
    ) -> bool {
        forall|i: int| 0 <= i < batch.len() ==> self.tag_valid(#[trigger] batch[i].tag@)
    }

    /// The count aggregate over a runtime-typed batch: one result element
    /// per subset of the batch, carrying the subset's size and the tag
    /// "exactly that subset holds".  Exponential in the batch length by
    /// construction; the bound on the length keeps the subset count within
    /// `usize`.
    pub fn dynamic_count(&self, batch: &DynamicElements) -> (r: DynamicElements)
        requires
            self.wf(),
            self.batch_valid_dyn(batch@),
            batch@.len() <= 62,
        ensures
            r@.len() == powerset_seq(batch@.len() as int).len(),
            forall|j: int|
                0 <= j < r@.len() ==> (#[trigger] r@[j]).tuple@ == seq![
                    Value::USize(powerset_seq(batch@.len() as int)[j].len() as usize),
                ] && r@[j].tag@ == spec_chosen_tag(
                    dyn_tags(batch@),
                    powerset_seq(batch@.len() as int)[j],
                    self.spec_probs(),
                    self.spec_disj(),
                    self.k as int,
                    batch@.len() as int,
                ),
            forall|j: int| 0 <= j < r@.len() ==> self.tag_valid((#[trigger] r@[j]).tag@),
    {
        let tags = collect_tags_dyn(batch);
        proof {
            assert(fv(tags@) =~= dyn_tags(batch@));
            assert(forall|w: int| 0 <= w < tags@.len() ==> self.tag_valid((#[trigger] tags@[w])@));
        }
        let cs = index_powerset(batch.len());
        let mut elems: Vec<DynamicElement> = Vec::new();
        let mut j: usize = 0;
        while j < cs.len()
            invariant
                self.wf(),
                tags@.len() == batch@.len(),
                forall|w: int| 0 <= w < tags@.len() ==> self.tag_valid((#[trigger] tags@[w])@),
                fv(tags@) == dyn_tags(batch@),
                cs.deep_view() == powerset_seq(batch@.len() as int),
                powerset_props(cs.deep_view(), batch@.len() as int),
                cs.deep_view().len() == cs@.len(),
                j <= cs@.len(),
                elems@.len() == j,
                forall|w: int|
                    0 <= w < j ==> (#[trigger] elems@[w]).tuple@ == seq![
                        Value::USize(cs.deep_view()[w].len() as usize),
                    ] && elems@[w].tag@ == spec_chosen_tag(
                        dyn_tags(batch@),
                        cs.deep_view()[w],
                        self.spec_probs(),
                        self.spec_disj(),
                        self.k as int,
                        batch@.len() as int,
                    ),
                forall|w: int| 0 <= w < j ==> self.tag_valid((#[trigger] elems@[w]).tag@),
            decreases cs@.len() - j,
        {
            let chosen = &cs[j];
            proof {
                assert(cs.deep_view()[j as int] == cs@[j as int]@);
            }
            let count = chosen.len();
            let tag = self.top_k_tag_of_chosen_set(&tags, chosen);
            let mut tuple: Vec<Value> = Vec::new();
            tuple.push(Value::USize(count));
            let e = DynamicElement { tuple, tag };
            proof {
                assert(e.tuple@ =~= seq![Value::USize(count)]);
            }
            elems.push(e);
            j = j + 1;
        }
        proof {
            assert(cs.deep_view() == powerset_seq(batch@.len() as int));
        }
        elems
    }

    /// The min aggregate over a batch already ordered by ascending
    /// priority: element `i` is tagged "it holds and nothing before it
    /// does".
    pub fn dynamic_min(&self, batch: &DynamicElements) -> (r: DynamicElements)
        requires
            self.wf(),
            self.batch_valid_dyn(batch@),
        ensures
            r@.len() == batch@.len(),
            forall|i: int|
                0 <= i < r@.len() ==> (#[trigger] r@[i]).tuple@ == batch@[i].tuple@
                    && r@[i].tag@ == spec_min_tag(
                    dyn_tags(batch@),
                    self.spec_probs(),
                    self.spec_disj(),
                    self.k as int,
                    i,
                ),
            forall|i: int| 0 <= i < r@.len() ==> self.tag_valid((#[trigger] r@[i]).tag@),
    {
        let ghost tviews = dyn_tags(batch@);
        let n = batch.len();
        let mut elems: Vec<DynamicElement> = Vec::new();
        let mut i: usize = 0;
        while i < n
            invariant
                n == batch@.len(),
                i <= n,
                self.wf(),
                self.batch_valid_dyn(batch@),
                tviews == dyn_tags(batch@),
                elems@.len() == i,
                forall|w: int|
                    0 <= w < i ==> (#[trigger] elems@[w]).tuple@ == batch@[w].tuple@
                        && elems@[w].tag@ == spec_min_tag(
                        tviews,
                        self.spec_probs(),
                        self.spec_disj(),
                        self.k as int,
                        w,
                    ),
                forall|w: int| 0 <= w < i ==> self.tag_valid((#[trigger] elems@[w]).tag@),
            decreases n - i,
        {
            let mut agg = self.one();
            let mut j: usize = 0;
            while j < i
                invariant
                    n == batch@.len(),
                    i < n,
                    j <= i,
                    self.wf(),
                    self.batch_valid_dyn(batch@),
                    tviews == dyn_tags(batch@),
                    agg@ == spec_none_tag(
                        tviews,
                        self.spec_probs(),
                        self.spec_disj(),
                        self.k as int,
                        j as int,
                    ),
                    self.tag_valid(agg@),
                decreases i - j,
            {
                proof {
                    assert(tviews[j as int] == batch@[j as int].tag@);
                }
                let neg = self.negate_tag(&batch[j].tag);
                agg = self.mult(&agg, &neg);
                j = j + 1;
            }
            proof {
                assert(tviews[i as int] == batch@[i as int].tag@);
            }
            let agg = self.mult(&agg, &batch[i].tag);
            elems.push(DynamicElement { tuple: clone_tuple(&batch[i].tuple), tag: agg });
            i = i + 1;
        }
        elems
    }

    /// The max aggregate over a batch already ordered by ascending
    /// priority: element `i` is tagged "it holds and nothing after it
    /// does".
    pub fn dynamic_max(&self, batch: &DynamicElements) -> (r: DynamicElements)
        requires
            self.wf(),
            self.batch_valid_dyn(batch@),
        ensures
            r@.len() == batch@.len(),
            forall|i: int|
                0 <= i < r@.len() ==> (#[trigger] r@[i]).tuple@ == batch@[i].tuple@
                    && r@[i].tag@ == spec_max_tag(
                    dyn_tags(batch@),
                    self.spec_probs(),
                    self.spec_disj(),
                    self.k as int,
                    i,
                    batch@.len() as int,
                ),
            forall|i: int| 0 <= i < r@.len() ==> self.tag_valid((#[trigger] r@[i]).tag@),
    {
        let ghost tviews = dyn_tags(batch@);
        let n = batch.len();
        let mut elems: Vec<DynamicElement> = Vec::new();
        let mut i: usize = 0;
        while i < n
            invariant
                n == batch@.len(),
                i <= n,
                self.wf(),
                self.batch_valid_dyn(batch@),
                tviews == dyn_tags(batch@),
                elems@.len() == i,
                forall|w: int|
                    0 <= w < i ==> (#[trigger] elems@[w]).tuple@ == batch@[w].tuple@
                        && elems@[w].tag@ == spec_max_tag(
                        tviews,
                        self.spec_probs(),
                        self.spec_disj(),
                        self.k as int,
                        w,
                        n as int,
                    ),
                forall|w: int| 0 <= w < i ==> self.tag_valid((#[trigger] elems@[w]).tag@),
            decreases n - i,
        {
            proof {
                assert(tviews[i as int] == batch@[i as int].tag@);
            }
            let mut agg = batch[i].tag.clone();
            let mut j: usize = i + 1;
            while j < n
                invariant
                    n == batch@.len(),
                    i < n,
                    i + 1 <= j <= n,
                    self.wf(),
                    self.batch_valid_dyn(batch@),
                    tviews == dyn_tags(batch@),
                    agg@ == spec_max_fold(
                        tviews,
                        self.spec_probs(),
                        self.spec_disj(),
                        self.k as int,
                        i as int,
                        j as int,
                    ),
                    self.tag_valid(agg@),
                decreases n - j,
            {
                proof {
                    assert(tviews[j as int] == batch@[j as int].tag@);
                }
                let neg = self.negate_tag(&batch[j].tag);
                agg = self.mult(&agg, &neg);
                j = j + 1;
            }
            elems.push(DynamicElement { tuple: clone_tuple(&batch[i].tuple), tag: agg });
            i = i + 1;
        }
        elems
    }

    /// The exists aggregate: a two-element batch carrying the "true"
    /// result (the disjunction of all element tags) and the "false" result
    /// (the conjunction of their negations), so downstream consumers see
    /// the full probability split.
    pub fn dynamic_exists(&self, batch: &DynamicElements) -> (r: DynamicElements)
        requires
            self.wf(),
            self.batch_valid_dyn(batch@),
        ensures
            r@.len() == 2,
            r@[0].tuple@ == seq![Value::Bool(true)],
            r@[1].tuple@ == seq![Value::Bool(false)],
            r@[0].tag@ == spec_any_tag(
                dyn_tags(batch@),
                self.spec_probs(),
                self.spec_disj(),
                self.k as int,
                batch@.len() as int,
            ),
            r@[1].tag@ == spec_none_tag(
                dyn_tags(batch@),
                self.spec_probs(),
                self.spec_disj(),
                self.k as int,
                batch@.len() as int,
            ),
            self.tag_valid(r@[0].tag@),
            self.tag_valid(r@[1].tag@),
    {
        let ghost tviews = dyn_tags(batch@);
        let n = batch.len();
        let mut exists_tag = self.zero();
        let mut not_exists_tag = self.one();
        let mut i: usize = 0;
        while i < n
            invariant
                n == batch@.len(),
                i <= n,
                self.wf(),
                self.batch_valid_dyn(batch@),
                tviews == dyn_tags(batch@),
                exists_tag@ == spec_any_tag(
                    tviews,
                    self.spec_probs(),
                    self.spec_disj(),
                    self.k as int,
                    i as int,
                ),
                not_exists_tag@ == spec_none_tag(
                    tviews,
                    self.spec_probs(),
                    self.spec_disj(),
                    self.k as int,
                    i as int,
                ),
                self.tag_valid(exists_tag@),
                self.tag_valid(not_exists_tag@),
            decreases n - i,
        {
            proof {
                assert(tviews[i as int] == batch@[i as int].tag@);
            }
            exists_tag = self.add(&exists_tag, &batch[i].tag);
            let neg = self.negate_tag(&batch[i].tag);
            not_exists_tag = self.mult(&not_exists_tag, &neg);
            i = i + 1;
        }
        let mut tuple_t: Vec<Value> = Vec::new();
        tuple_t.push(Value::Bool(true));
        let mut tuple_f: Vec<Value> = Vec::new();
        tuple_f.push(Value::Bool(false));
        let t = DynamicElement { tuple: tuple_t, tag: exists_tag };
        let f = DynamicElement { tuple: tuple_f, tag: not_exists_tag };
        proof {
            assert(t.tuple@ =~= seq![Value::Bool(true)]);
            assert(f.tuple@ =~= seq![Value::Bool(false)]);
        }
        let mut r: Vec<DynamicElement> = Vec::new();
        r.push(t);
        r.push(f);
        r
    }
}


impl<T> DiffTopKProofsProvenance<T> {
    /// See `dynamic_count`: the same tag semantics, with the count carried
    /// as a plain `usize` tuple.
    pub fn static_count<Tup: StaticTupleTrait>(&self, batch: &StaticElements<Tup>) -> (r:
        StaticElements<usize>)
        requires
            self.wf(),
            self.batch_valid_stat(batch@),
            batch@.len() <= 62,
        ensures
            r@.len() == powerset_seq(batch@.len() as int).len(),
            forall|j: int|
                0 <= j < r@.len() ==> (#[trigger] r@[j]).tuple == powerset_seq(
                    batch@.len() as int,
                )[j].len() && r@[j].tag@ == spec_chosen_tag(
                    stat_tags(batch@),
                    powerset_seq(batch@.len() as int)[j],
                    self.spec_probs(),
                    self.spec_disj(),
                    self.k as int,
                    batch@.len() as int,
                ),
            forall|j: int| 0 <= j < r@.len() ==> self.tag_valid((#[trigger] r@[j]).tag@),
    {
        let tags = collect_tags_stat(batch);
        proof {
            assert(fv(tags@) =~= stat_tags(batch@));
            assert(forall|w: int| 0 <= w < tags@.len() ==> self.tag_valid((#[trigger] tags@[w])@));
        }
        let cs = index_powerset(batch.len());
        let mut elems: Vec<StaticElement<usize>> = Vec::new();
        let mut j: usize = 0;
        while j < cs.len()
            invariant
                self.wf(),
                tags@.len() == batch@.len(),
                forall|w: int| 0 <= w < tags@.len() ==> self.tag_valid((#[trigger] tags@[w])@),
                fv(tags@) == stat_tags(batch@),
                cs.deep_view() == powerset_seq(batch@.len() as int),
                powerset_props(cs.deep_view(), batch@.len() as int),
                cs.deep_view().len() == cs@.len(),
                j <= cs@.len(),
                elems@.len() == j,
                forall|w: int|
                    0 <= w < j ==> (#[trigger] elems@[w]).tuple == cs.deep_view()[w].len()
                        && elems@[w].tag@ == spec_chosen_tag(
                        stat_tags(batch@),
                        cs.deep_view()[w],
                        self.spec_probs(),
                        self.spec_disj(),
                        self.k as int,
                        batch@.len() as int,
                    ),
                forall|w: int| 0 <= w < j ==> self.tag_valid((#[trigger] elems@[w]).tag@),
            decreases cs@.len() - j,
        {
            let chosen = &cs[j];
            proof {
                assert(cs.deep_view()[j as int] == cs@[j as int]@);
            }
            let count = chosen.len();
            let tag = self.top_k_tag_of_chosen_set(&tags, chosen);
            elems.push(StaticElement { tuple: count, tag });
            j = j + 1;
        }
        proof {
            assert(cs.deep_view() == powerset_seq(batch@.len() as int));
        }
        elems
    }

    /// See `dynamic_min`: the same tag semantics over compile-time-typed
    /// tuples.
    pub fn static_min<Tup: StaticTupleTrait>(&self, batch: &StaticElements<Tup>) -> (r:
        StaticElements<Tup>)
        requires
            self.wf(),
            self.batch_valid_stat(batch@),
        ensures
            r@.len() == batch@.len(),
            forall|i: int|
                0 <= i < r@.len() ==> cloned::<Tup>(batch@[i].tuple, (#[trigger] r@[i]).tuple)
                    && r@[i].tag@ == spec_min_tag(
                    stat_tags(batch@),
                    self.spec_probs(),
                    self.spec_disj(),
                    self.k as int,
                    i,
                ),
            forall|i: int| 0 <= i < r@.len() ==> self.tag_valid((#[trigger] r@[i]).tag@),
    {
        let ghost tviews = stat_tags(batch@);
        let n = batch.len();
        let mut elems: Vec<StaticElement<Tup>> = Vec::new();
        let mut i: usize = 0;
        while i < n
            invariant
                n == batch@.len(),
                i <= n,
                self.wf(),
                self.batch_valid_stat(batch@),
                tviews == stat_tags(batch@),
                elems@.len() == i,
                forall|w: int|
                    0 <= w < i ==> cloned::<Tup>(batch@[w].tuple, (#[trigger] elems@[w]).tuple)
                        && elems@[w].tag@ == spec_min_tag(
                        tviews,
                        self.spec_probs(),
                        self.spec_disj(),
                        self.k as int,
                        w,
                    ),
                forall|w: int| 0 <= w < i ==> self.tag_valid((#[trigger] elems@[w]).tag@),
            decreases n - i,
        {
            let mut agg = self.one();
            let mut j: usize = 0;
            while j < i
                invariant
                    n == batch@.len(),
                    i < n,
                    j <= i,
                    self.wf(),
                    self.batch_valid_stat(batch@),
                    tviews == stat_tags(batch@),
                    agg@ == spec_none_tag(
                        tviews,
                        self.spec_probs(),
                        self.spec_disj(),
                        self.k as int,
                        j as int,
                    ),
                    self.tag_valid(agg@),
                decreases i - j,
            {
                proof {
                    assert(tviews[j as int] == batch@[j as int].tag@);
                }
                let neg = self.negate_tag(&batch[j].tag);
                agg = self.mult(&agg, &neg);
                j = j + 1;
            }
            proof {
                assert(tviews[i as int] == batch@[i as int].tag@);
            }
            let agg = self.mult(&agg, &batch[i].tag);
            elems.push(StaticElement { tuple: batch[i].tuple.clone(), tag: agg });
            i = i + 1;
        }
        elems
    }

    /// See `dynamic_max`: the same tag semantics over compile-time-typed
    /// tuples.
    pub fn static_max<Tup: StaticTupleTrait>(&self, batch: &StaticElements<Tup>) -> (r:
        StaticElements<Tup>)
        requires
            self.wf(),
            self.batch_valid_stat(batch@),
        ensures
            r@.len() == batch@.len(),
            forall|i: int|
                0 <= i < r@.len() ==> cloned::<Tup>(batch@[i].tuple, (#[trigger] r@[i]).tuple)
                    && r@[i].tag@ == spec_max_tag(
                    stat_tags(batch@),
                    self.spec_probs(),
                    self.spec_disj(),
                    self.k as int,
                    i,
                    batch@.len() as int,
                ),
            forall|i: int| 0 <= i < r@.len() ==> self.tag_valid((#[trigger] r@[i]).tag@),
    {
        let ghost tviews = stat_tags(batch@);
        let n = batch.len();
        let mut elems: Vec<StaticElement<Tup>> = Vec::new();
        let mut i: usize = 0;
        while i < n
            invariant
                n == batch@.len(),
                i <= n,
                self.wf(),
                self.batch_valid_stat(batch@),
                tviews == stat_tags(batch@),
                elems@.len() == i,
                forall|w: int|
                    0 <= w < i ==> cloned::<Tup>(batch@[w].tuple, (#[trigger] elems@[w]).tuple)
                        && elems@[w].tag@ == spec_max_tag(
                        tviews,
                        self.spec_probs(),
                        self.spec_disj(),
                        self.k as int,
                        w,
                        n as int,
                    ),
                forall|w: int| 0 <= w < i ==> self.tag_valid((#[trigger] elems@[w]).tag@),
            decreases n - i,
        {
            proof {
                assert(tviews[i as int] == batch@[i as int].tag@);
            }
            let mut agg = batch[i].tag.clone();
            let mut j: usize = i + 1;
            while j < n
                invariant
                    n == batch@.len(),
                    i < n,
                    i + 1 <= j <= n,
                    self.wf(),
                    self.batch_valid_stat(batch@),
                    tviews == stat_tags(batch@),
                    agg@ == spec_max_fold(
                        tviews,
                        self.spec_probs(),
                        self.spec_disj(),
                        self.k as int,
                        i as int,
                        j as int,
                    ),
                    self.tag_valid(agg@),
                decreases n - j,
            {
                proof {
                    assert(tviews[j as int] == batch@[j as int].tag@);
                }
                let neg = self.negate_tag(&batch[j].tag);
                agg = self.mult(&agg, &neg);
                j = j + 1;
            }
            elems.push(StaticElement { tuple: batch[i].tuple.clone(), tag: agg });
            i = i + 1;
        }
        elems
    }

    /// See `dynamic_exists`: the same two-element result over plain `bool`
    /// tuples.
    pub fn static_exists<Tup: StaticTupleTrait>(&self, batch: &StaticElements<Tup>) -> (r:
        StaticElements<bool>)
        requires
            self.wf(),
            self.batch_valid_stat(batch@),
        ensures
            r@.len() == 2,
            r@[0].tuple == true,
            r@[1].tuple == false,
            r@[0].tag@ == spec_any_tag(
                stat_tags(batch@),
                self.spec_probs(),
                self.spec_disj(),
                self.k as int,
                batch@.len() as int,
            ),
            r@[1].tag@ == spec_none_tag(
                stat_tags(batch@),
                self.spec_probs(),
                self.spec_disj(),
                self.k as int,
                batch@.len() as int,
            ),
            self.tag_valid(r@[0].tag@),
            self.tag_valid(r@[1].tag@),
    {
        let ghost tviews = stat_tags(batch@);
        let n = batch.len();
        let mut exists_tag = self.zero();
        let mut not_exists_tag = self.one();
        let mut i: usize = 0;
        while i < n
            invariant
                n == batch@.len(),
                i <= n,
                self.wf(),
                self.batch_valid_stat(batch@),
                tviews == stat_tags(batch@),
                exists_tag@ == spec_any_tag(
                    tviews,
                    self.spec_probs(),
                    self.spec_disj(),
                    self.k as int,
                    i as int,
                ),
                not_exists_tag@ == spec_none_tag(
                    tviews,
                    self.spec_probs(),
                    self.spec_disj(),
                    self.k as int,
                    i as int,
                ),
                self.tag_valid(exists_tag@),
                self.tag_valid(not_exists_tag@),
            decreases n - i,
        {
            proof {
                assert(tviews[i as int] == batch@[i as int].tag@);
            }
            exists_tag = self.add(&exists_tag, &batch[i].tag);
            let neg = self.negate_tag(&batch[i].tag);
            not_exists_tag = self.mult(&not_exists_tag, &neg);
            i = i + 1;
        }
        let mut r: Vec<StaticElement<bool>> = Vec::new();
        r.push(StaticElement { tuple: true, tag: exists_tag });
        r.push(StaticElement { tuple: false, tag: not_exists_tag });
        r
    }
}

} // verus!
