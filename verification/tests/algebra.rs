use infset::btree::InfBTreeSet;

fn negate(set: &InfBTreeSet) -> InfBTreeSet {
    let storage: Vec<u64> = set.as_storage().iter().copied().collect();
    if set.is_union() {
        InfBTreeSet::from_excluded_elements(storage)
    } else {
        InfBTreeSet::from_elements(storage)
    }
}

fn sample_operands() -> Vec<InfBTreeSet> {
    vec![
        InfBTreeSet::new(),
        InfBTreeSet::all(),
        InfBTreeSet::from_elements(vec![1, 2, 3]),
        InfBTreeSet::from_elements(vec![2, 4]),
        InfBTreeSet::from_excluded_elements(vec![2]),
        InfBTreeSet::from_excluded_elements(vec![3, 4, 5]),
    ]
}

#[test]
fn union_of_unions() {
    let a = InfBTreeSet::from_elements(vec![1, 2]);
    let b = InfBTreeSet::from_elements(vec![2, 3]);
    let c = a.union(&b);
    assert!(c.is_union());
    assert_eq!(c, InfBTreeSet::from_elements(vec![1, 2, 3]));
}

#[test]
fn union_mixed_drops_exclusions() {
    let union = InfBTreeSet::from_elements(vec![1, 2]);
    let complement = InfBTreeSet::from_excluded_elements(vec![2, 3]);
    let c = union.union(&complement);
    assert!(c.is_complement());
    assert_eq!(c, InfBTreeSet::from_excluded_elements(vec![3]));
    assert!(c.contains(&1));
    assert!(c.contains(&2));
    assert!(!c.contains(&3));
}

#[test]
fn union_of_complements_intersects_exclusions() {
    let a = InfBTreeSet::from_excluded_elements(vec![1, 2]);
    let b = InfBTreeSet::from_excluded_elements(vec![2, 3]);
    let c = a.union(&b);
    assert!(c.is_complement());
    assert_eq!(c, InfBTreeSet::from_excluded_elements(vec![2]));
}

#[test]
fn intersection_of_unions() {
    let a = InfBTreeSet::from_elements(vec![1, 2]);
    let b = InfBTreeSet::from_elements(vec![2, 3]);
    let c = a.intersection(&b);
    assert!(c.is_union());
    assert_eq!(c, InfBTreeSet::from_elements(vec![2]));
}

#[test]
fn intersection_of_complements_unions_exclusions() {
    let a = InfBTreeSet::from_excluded_elements(vec![1]);
    let b = InfBTreeSet::from_excluded_elements(vec![2]);
    let c = a.intersection(&b);
    assert!(c.is_complement());
    assert_eq!(c, InfBTreeSet::from_excluded_elements(vec![1, 2]));
}

#[test]
fn scenario_intersection_mixed() {
    let union = InfBTreeSet::from_elements(vec![1, 2, 3]);
    let complement = InfBTreeSet::from_excluded_elements(vec![2]);
    let c = union.intersection(&complement);
    // The effective membership is {1, 3}: the union's elements that the
    // complement does not exclude.
    assert!(c.contains(&1));
    assert!(!c.contains(&2));
    assert!(c.contains(&3));
    assert!(!c.contains(&4));
    // By the De Morgan rule the result is a finite union of the survivors.
    assert!(c.is_union());
    assert_eq!(c, InfBTreeSet::from_elements(vec![1, 3]));
}

#[test]
fn scenario_union_mixed_is_universal() {
    let union = InfBTreeSet::from_elements(vec![1]);
    let complement = InfBTreeSet::from_excluded_elements(vec![1]);
    let c = union.union(&complement);
    assert_eq!(c, InfBTreeSet::all());
    assert!(c.is_all());
    assert!(c.contains(&1));
    assert!(c.contains(&2));
}

#[test]
fn scenario_universal_not_self_disjoint() {
    assert!(!InfBTreeSet::all().is_disjoint(&InfBTreeSet::all()));
}

#[test]
fn commutativity() {
    let operands = sample_operands();
    for a in &operands {
        for b in &operands {
            assert_eq!(a.union(b), b.union(a));
            assert_eq!(a.intersection(b), b.intersection(a));
        }
    }
}

#[test]
fn absorption() {
    let empty = InfBTreeSet::new();
    let universal = InfBTreeSet::all();
    for a in sample_operands() {
        assert_eq!(a.union(&empty), a);
        assert_eq!(a.intersection(&universal), a);
    }
}

#[test]
fn de_morgan_duality() {
    let operands = sample_operands();
    for a in &operands {
        for b in &operands {
            let direct = a.intersection(b);
            let dual = negate(&negate(a).union(&negate(b)));
            assert_eq!(direct, dual);
        }
    }
}

#[test]
fn assign_forms_match_allocating_forms() {
    let operands = sample_operands();
    for a in &operands {
        for b in &operands {
            let mut u = a.clone();
            u.union_assign(b);
            assert_eq!(u, a.union(b));

            let mut i = a.clone();
            i.intersection_assign(b);
            assert_eq!(i, a.intersection(b));
        }
    }
}

#[test]
fn assign_forms_flip_tags_in_place() {
    // Union of a union with a complement flips the tag to complement.
    let mut set = InfBTreeSet::from_elements(vec![1]);
    set.union_assign(&InfBTreeSet::from_excluded_elements(vec![1, 2]));
    assert!(set.is_complement());
    assert_eq!(set, InfBTreeSet::from_excluded_elements(vec![2]));

    // Intersection of a complement with a union flips the tag to union.
    let mut set = InfBTreeSet::from_excluded_elements(vec![1]);
    set.intersection_assign(&InfBTreeSet::from_elements(vec![1, 2]));
    assert!(set.is_union());
    assert_eq!(set, InfBTreeSet::from_elements(vec![2]));
}

#[test]
fn insert_makes_value_member_whatever_the_tag() {
    for mut set in sample_operands() {
        set.insert(77);
        assert!(set.contains(&77));
    }
}
