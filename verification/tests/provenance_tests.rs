use provenance::fixed::UNIT;
use provenance::formula::DNFFormula;
use provenance::provenance::{DiffTopKProofsProvenance, InputExclusiveDiffProb};

fn input(prob: u64, tag: &str, exclusion: Option<usize>) -> InputExclusiveDiffProb<String> {
    InputExclusiveDiffProb { prob, tag: tag.to_string(), exclusion }
}

#[test]
fn unit_is_one_million() {
    assert_eq!(UNIT, 1_000_000);
}

#[test]
fn tagging_mints_dense_identifiers() {
    let mut prov: DiffTopKProofsProvenance<String> = DiffTopKProofsProvenance::new(3);
    let t0 = prov.tagging_fn(input(700_000, "a", None));
    let t1 = prov.tagging_fn(input(500_000, "b", None));
    assert_eq!(prov.fact_probability(&0), 700_000);
    assert_eq!(prov.fact_probability(&1), 500_000);
    assert_eq!(prov.input_tags(), vec!["a".to_string(), "b".to_string()]);
    assert!(!t0.eq_formula(&t1));
}

#[test]
fn tagging_recovery_round_trip() {
    // A fact of probability 0.7 with label "a": recovering its own
    // singleton tag returns 0.7 and one derivative entry of exactly one.
    let mut prov: DiffTopKProofsProvenance<String> = DiffTopKProofsProvenance::new(3);
    let t = prov.tagging_fn(input(700_000, "a", None));
    let out = prov.recover_fn(&t);
    assert_eq!(out.0, 700_000);
    assert_eq!(out.1.len(), 1);
    assert_eq!(out.1[0].0, 0);
    assert_eq!(out.1[0].1, 1_000_000);
    assert_eq!(out.1[0].2, "a".to_string());
}

#[test]
fn add_zero_and_mult_one_are_identities() {
    let mut prov: DiffTopKProofsProvenance<String> = DiffTopKProofsProvenance::new(3);
    let t = prov.tagging_fn(input(300_000, "a", None));
    let t2 = prov.tagging_fn(input(400_000, "b", None));
    let both = prov.add(&t, &t2);
    let zero = prov.zero();
    let one = prov.one();
    assert!(prov.add(&both, &zero).eq_formula(&both));
    assert!(prov.mult(&both, &one).eq_formula(&both));
    assert!(prov.add(&t, &zero).eq_formula(&t));
    assert!(prov.mult(&t, &one).eq_formula(&t));
}

#[test]
fn weight_of_combinators() {
    let mut prov: DiffTopKProofsProvenance<String> = DiffTopKProofsProvenance::new(4);
    let t0 = prov.tagging_fn(input(500_000, "a", None));
    let t1 = prov.tagging_fn(input(250_000, "b", None));
    // or: 0.5 + 0.25 - 0.125
    assert_eq!(prov.weight(&prov.add(&t0, &t1)), 625_000);
    // and: 0.5 * 0.25
    assert_eq!(prov.weight(&prov.mult(&t0, &t1)), 125_000);
    assert_eq!(prov.weight(&prov.zero()), 0);
    assert_eq!(prov.weight(&prov.one()), UNIT);
}

#[test]
fn negate_of_identities_and_singleton() {
    let mut prov: DiffTopKProofsProvenance<String> = DiffTopKProofsProvenance::new(4);
    let t = prov.tagging_fn(input(300_000, "a", None));
    let zero = prov.zero();
    let one = prov.one();
    let not_zero = prov.negate(&zero).unwrap();
    let not_one = prov.negate(&one).unwrap();
    let not_t = prov.negate(&t).unwrap();
    assert_eq!(prov.weight(&not_zero), UNIT);
    assert_eq!(prov.weight(&not_one), 0);
    assert_eq!(prov.weight(&not_t), 700_000);
}

#[test]
fn top_k_bound_caps_clause_count() {
    // With k = 1 every add and mult collapses to at most one clause, the
    // heaviest one.
    let mut prov: DiffTopKProofsProvenance<String> = DiffTopKProofsProvenance::new(1);
    let t0 = prov.tagging_fn(input(300_000, "a", None));
    let t1 = prov.tagging_fn(input(900_000, "b", None));
    let sum = prov.add(&t0, &t1);
    assert!(sum.clauses.len() <= 1);
    assert_eq!(prov.weight(&sum), 900_000);
    let prod = prov.mult(&t0, &t1);
    assert!(prod.clauses.len() <= 1);
    assert_eq!(prov.weight(&prod), 270_000);
}

#[test]
fn conflicting_conjunction_weighs_nothing() {
    // Two facts in one exclusivity group: a clause asserting both holds
    // no probability mass, whatever their individual probabilities.
    let mut prov: DiffTopKProofsProvenance<String> = DiffTopKProofsProvenance::new(4);
    let ta = prov.tagging_fn(input(500_000, "a", Some(7)));
    let tb = prov.tagging_fn(input(500_000, "b", Some(7)));
    let both = prov.mult(&ta, &tb);
    assert_eq!(prov.weight(&both), 0);
    // An independent third fact conjoins normally.
    let tc = prov.tagging_fn(input(400_000, "c", None));
    assert_eq!(prov.weight(&prov.mult(&ta, &tc)), 200_000);
}

#[test]
fn has_disjunction_conflict_reports_shared_groups() {
    let mut prov: DiffTopKProofsProvenance<String> = DiffTopKProofsProvenance::new(4);
    prov.tagging_fn(input(500_000, "a", Some(7)));
    prov.tagging_fn(input(500_000, "b", Some(7)));
    prov.tagging_fn(input(500_000, "c", Some(8)));
    assert!(prov.has_disjunction_conflict(&vec![0, 1]));
    assert!(!prov.has_disjunction_conflict(&vec![0, 2]));
    assert!(!prov.has_disjunction_conflict(&vec![0]));
}

#[test]
fn discard_and_saturated() {
    let mut prov: DiffTopKProofsProvenance<String> = DiffTopKProofsProvenance::new(3);
    let t = prov.tagging_fn(input(300_000, "a", None));
    let zero = prov.zero();
    assert!(prov.discard(&zero));
    assert!(!prov.discard(&t));
    assert!(prov.saturated(&t, &t));
    assert!(!prov.saturated(&t, &zero));
    assert!(prov.saturated(&DNFFormula::singleton(0), &t));
}

#[test]
fn set_k_changes_only_the_bound() {
    let mut prov: DiffTopKProofsProvenance<String> = DiffTopKProofsProvenance::new(3);
    prov.tagging_fn(input(300_000, "a", None));
    prov.set_k(1);
    assert_eq!(prov.k, 1);
    assert_eq!(prov.fact_probability(&0), 300_000);
    assert_eq!(prov.input_tags().len(), 1);
}

#[test]
fn deep_clone_isolates_contexts() {
    let mut prov: DiffTopKProofsProvenance<String> = DiffTopKProofsProvenance::new(3);
    prov.tagging_fn(input(300_000, "a", None));
    let snapshot = prov.deep_clone();
    prov.tagging_fn(input(400_000, "b", None));
    assert_eq!(prov.input_tags().len(), 2);
    assert_eq!(snapshot.input_tags().len(), 1);
    assert_eq!(snapshot.fact_probability(&0), 300_000);
}

#[test]
fn shared_store_copies_on_write() {
    let mut prov: DiffTopKProofsProvenance<String> = DiffTopKProofsProvenance::new(3);
    prov.tagging_fn(input(300_000, "a", None));
    let mut fork = prov.deep_clone();
    fork.tagging_fn(input(900_000, "b", None));
    assert_eq!(prov.input_tags().len(), 1);
    assert_eq!(fork.input_tags().len(), 2);
    assert_eq!(fork.fact_probability(&1), 900_000);
    let mut shared: DiffTopKProofsProvenance<String> = DiffTopKProofsProvenance::new_shared(2);
    shared.tagging_fn(input(250_000, "s", None));
    assert_eq!(shared.fact_probability(&0), 250_000);
    assert_eq!(shared.input_tags(), vec!["s".to_string()]);
}

#[test]
fn gradient_matches_finite_difference() {
    // For an untruncated two-fact conjunction, the recovered partial
    // derivative equals a central finite-difference estimate of the
    // weight.
    let h: u64 = 10_000;
    let build = |p0: u64| -> (DiffTopKProofsProvenance<String>, DNFFormula) {
        let mut prov: DiffTopKProofsProvenance<String> = DiffTopKProofsProvenance::new(4);
        let t0 = prov.tagging_fn(input(p0, "a", None));
        let t1 = prov.tagging_fn(input(250_000, "b", None));
        let tag = prov.mult(&t0, &t1);
        (prov, tag)
    };
    let (mid, tag) = build(500_000);
    let out = mid.recover_fn(&tag);
    let d0 = out.1.iter().find(|e| e.0 == 0).unwrap().1;
    let (hi, tag_hi) = build(500_000 + h);
    let (lo, tag_lo) = build(500_000 - h);
    let w_hi = hi.weight(&tag_hi) as i64;
    let w_lo = lo.weight(&tag_lo) as i64;
    let fd = (w_hi - w_lo) * (UNIT as i64) / (2 * h as i64);
    assert!((d0 - fd).abs() <= 2_000, "derivative {} vs finite difference {}", d0, fd);
    // The same for the second fact.
    let d1 = out.1.iter().find(|e| e.0 == 1).unwrap().1;
    assert_eq!(d1, 500_000);
    assert_eq!(d0, 250_000);
}

#[test]
fn recover_agrees_with_weight() {
    let mut prov: DiffTopKProofsProvenance<String> = DiffTopKProofsProvenance::new(4);
    let t0 = prov.tagging_fn(input(500_000, "a", None));
    let t1 = prov.tagging_fn(input(250_000, "b", None));
    let tag = prov.add(&prov.mult(&t0, &t1), &t1);
    let out = prov.recover_fn(&tag);
    assert_eq!(out.0, prov.weight(&tag));
}

#[test]
fn formula_constants() {
    let zero = DNFFormula::zero();
    let one = DNFFormula::one();
    let s = DNFFormula::singleton(4);
    assert!(zero.is_empty());
    assert!(!one.is_empty());
    assert!(!s.is_empty());
    assert_eq!(zero.clauses.len(), 0);
    assert_eq!(one.clauses.len(), 1);
    assert_eq!(one.clauses[0].literals.len(), 0);
    assert_eq!(s.clauses.len(), 1);
    assert_eq!(s.clauses[0].literals.len(), 1);
    assert!(!zero.eq_formula(&one));
    assert!(s.eq_formula(&DNFFormula::singleton(4)));
    assert!(!s.eq_formula(&DNFFormula::singleton(5)));
}

#[test]
fn provenance_name() {
    assert_eq!(DiffTopKProofsProvenance::<String>::name(), "diff-top-k-proofs");
}
