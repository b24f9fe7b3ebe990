use provenance::aggregate::{DynamicElement, StaticElement};
use provenance::fixed::UNIT;
use provenance::provenance::{DiffTopKProofsProvenance, InputExclusiveDiffProb};
use provenance::value::Value;

fn input(prob: u64, tag: &str, exclusion: Option<usize>) -> InputExclusiveDiffProb<String> {
    InputExclusiveDiffProb { prob, tag: tag.to_string(), exclusion }
}

fn dyn_elem(v: Value, prov: &mut DiffTopKProofsProvenance<String>, prob: u64) -> DynamicElement {
    let tag = prov.tagging_fn(input(prob, "x", None));
    DynamicElement { tuple: vec![v], tag }
}

#[test]
fn exists_independence_probability() {
    // Three independent facts: the "true" tag of exists evaluates to
    // 1 - (1-p0)(1-p1)(1-p2) = 0.7 exactly at this granularity.
    let mut prov: DiffTopKProofsProvenance<String> = DiffTopKProofsProvenance::new(8);
    let batch = vec![
        dyn_elem(Value::U64(1), &mut prov, 500_000),
        dyn_elem(Value::U64(2), &mut prov, 250_000),
        dyn_elem(Value::U64(3), &mut prov, 200_000),
    ];
    let r = prov.dynamic_exists(&batch);
    assert_eq!(r.len(), 2);
    assert_eq!(r[0].tuple, vec![Value::Bool(true)]);
    assert_eq!(r[1].tuple, vec![Value::Bool(false)]);
    assert_eq!(prov.weight(&r[0].tag), 700_000);
    assert_eq!(prov.weight(&r[1].tag), 300_000);
}

#[test]
fn exists_over_exclusive_pair() {
    // Two facts of one exclusivity group, each probability one half.  The
    // clause-wise evaluator folds the two singleton proofs under its
    // independence assumption, while the conjunction of both is
    // recognized as impossible.
    let mut prov: DiffTopKProofsProvenance<String> = DiffTopKProofsProvenance::new(8);
    let ta = prov.tagging_fn(input(500_000, "a", Some(1)));
    let tb = prov.tagging_fn(input(500_000, "b", Some(1)));
    assert_eq!(prov.weight(&prov.mult(&ta, &tb)), 0);
    let batch = vec![
        DynamicElement { tuple: vec![Value::Str("a")], tag: ta },
        DynamicElement { tuple: vec![Value::Str("b")], tag: tb },
    ];
    let r = prov.dynamic_exists(&batch);
    assert_eq!(prov.weight(&r[0].tag), 750_000);
    assert_eq!(prov.weight(&r[1].tag), 250_000);
}

#[test]
fn count_enumerates_every_subset() {
    let mut prov: DiffTopKProofsProvenance<String> = DiffTopKProofsProvenance::new(8);
    let batch = vec![
        dyn_elem(Value::U64(10), &mut prov, 500_000),
        dyn_elem(Value::U64(20), &mut prov, 500_000),
    ];
    let r = prov.dynamic_count(&batch);
    assert_eq!(r.len(), 4);
    let counts: Vec<Value> = r.iter().map(|e| e.tuple[0].clone()).collect();
    assert_eq!(
        counts,
        vec![Value::USize(0), Value::USize(1), Value::USize(1), Value::USize(2)]
    );
    for e in &r {
        assert_eq!(prov.weight(&e.tag), 250_000);
    }
}

#[test]
fn count_of_empty_batch() {
    let prov: DiffTopKProofsProvenance<String> = DiffTopKProofsProvenance::new(8);
    let r = prov.dynamic_count(&vec![]);
    assert_eq!(r.len(), 1);
    assert_eq!(r[0].tuple, vec![Value::USize(0)]);
    assert_eq!(prov.weight(&r[0].tag), UNIT);
}

#[test]
fn min_tags_by_priority() {
    let mut prov: DiffTopKProofsProvenance<String> = DiffTopKProofsProvenance::new(8);
    let batch = vec![
        dyn_elem(Value::U64(1), &mut prov, 500_000),
        dyn_elem(Value::U64(2), &mut prov, 400_000),
        dyn_elem(Value::U64(3), &mut prov, 200_000),
    ];
    let r = prov.dynamic_min(&batch);
    assert_eq!(r.len(), 3);
    assert_eq!(r[0].tuple, vec![Value::U64(1)]);
    assert_eq!(prov.weight(&r[0].tag), 500_000);
    assert_eq!(prov.weight(&r[1].tag), 200_000);
    assert_eq!(prov.weight(&r[2].tag), 60_000);
}

#[test]
fn max_tags_by_priority() {
    let mut prov: DiffTopKProofsProvenance<String> = DiffTopKProofsProvenance::new(8);
    let batch = vec![
        dyn_elem(Value::U64(1), &mut prov, 500_000),
        dyn_elem(Value::U64(2), &mut prov, 400_000),
        dyn_elem(Value::U64(3), &mut prov, 200_000),
    ];
    let r = prov.dynamic_max(&batch);
    assert_eq!(r.len(), 3);
    assert_eq!(r[2].tuple, vec![Value::U64(3)]);
    assert_eq!(prov.weight(&r[0].tag), 240_000);
    assert_eq!(prov.weight(&r[1].tag), 320_000);
    assert_eq!(prov.weight(&r[2].tag), 200_000);
}

fn stat_elem(v: u64, prov: &mut DiffTopKProofsProvenance<String>, prob: u64) -> StaticElement<u64> {
    let tag = prov.tagging_fn(input(prob, "x", None));
    StaticElement { tuple: v, tag }
}

#[test]
fn static_aggregates_match_dynamic_semantics() {
    let mut prov: DiffTopKProofsProvenance<String> = DiffTopKProofsProvenance::new(8);
    let batch = vec![
        stat_elem(1, &mut prov, 500_000),
        stat_elem(2, &mut prov, 400_000),
        stat_elem(3, &mut prov, 200_000),
    ];
    let mins = prov.static_min(&batch);
    assert_eq!(mins.len(), 3);
    assert_eq!(mins[0].tuple, 1);
    assert_eq!(prov.weight(&mins[1].tag), 200_000);
    let maxs = prov.static_max(&batch);
    assert_eq!(prov.weight(&maxs[1].tag), 320_000);
    let ex = prov.static_exists(&batch);
    assert_eq!(ex[0].tuple, true);
    assert_eq!(ex[1].tuple, false);
    assert_eq!(prov.weight(&ex[0].tag), 760_000);
    let counts = prov.static_count(&batch);
    assert_eq!(counts.len(), 8);
    assert_eq!(counts[0].tuple, 0);
    assert_eq!(counts[7].tuple, 3);
    assert_eq!(prov.weight(&counts[7].tag), 40_000);
}

#[test]
fn count_conventions_agree_element_for_element() {
    // The two tuple conventions enumerate subsets in the same canonical
    // order, so the (count, tag) rows agree position by position.
    let mut prov: DiffTopKProofsProvenance<String> = DiffTopKProofsProvenance::new(8);
    let t0 = prov.tagging_fn(input(500_000, "a", None));
    let t1 = prov.tagging_fn(input(400_000, "b", None));
    let t2 = prov.tagging_fn(input(200_000, "c", None));
    let dyn_batch = vec![
        DynamicElement { tuple: vec![Value::U64(1)], tag: t0.clone() },
        DynamicElement { tuple: vec![Value::U64(2)], tag: t1.clone() },
        DynamicElement { tuple: vec![Value::U64(3)], tag: t2.clone() },
    ];
    let stat_batch = vec![
        StaticElement { tuple: 1u64, tag: t0 },
        StaticElement { tuple: 2u64, tag: t1 },
        StaticElement { tuple: 3u64, tag: t2 },
    ];
    let d = prov.dynamic_count(&dyn_batch);
    let s = prov.static_count(&stat_batch);
    assert_eq!(d.len(), s.len());
    for (de, se) in d.iter().zip(s.iter()) {
        assert_eq!(de.tuple, vec![Value::USize(se.tuple)]);
        assert!(prov.saturated(&de.tag, &se.tag));
    }
}
