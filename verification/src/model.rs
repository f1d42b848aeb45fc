use vstd::prelude::*;

verus! {

/// The mathematical model of a dual-representation set: a tag saying whether
/// the finite element set `elems` lists the members themselves (`union_tag`
/// true) or the excluded values (`union_tag` false), together with that
/// finite element set.
///
/// Equality of models is representational: two models are equal exactly when
/// their tags and element sets are equal, never because they happen to
/// describe the same infinite membership.
#[verifier::ext_equal]
pub struct DualModel {
    pub union_tag: bool,
    pub elems: Set<u64>,
}

impl DualModel {
    /// The model of the empty set: a union of no elements.
    pub open spec fn empty_model() -> DualModel {
        DualModel { union_tag: true, elems: Set::empty() }
    }

    /// The model of the universal set: a complement excluding nothing.
    pub open spec fn universal_model() -> DualModel {
        DualModel { union_tag: false, elems: Set::empty() }
    }

    /// The model of a union of exactly the given elements.
    pub open spec fn of_elements(elems: Set<u64>) -> DualModel {
        DualModel { union_tag: true, elems }
    }

    /// The model of a complement excluding exactly the given elements.
    pub open spec fn of_excluded(elems: Set<u64>) -> DualModel {
        DualModel { union_tag: false, elems }
    }

    /// Membership: a union contains exactly its elements; a complement
    /// contains everything except its elements.
    pub open spec fn member(self, v: u64) -> bool {
        if self.union_tag {
            self.elems.contains(v)
        } else {
            !self.elems.contains(v)
        }
    }

    /// Structural negation: flip the tag, keep the element set.
    pub open spec fn negate(self) -> DualModel {
        DualModel { union_tag: !self.union_tag, elems: self.elems }
    }

    /// The union table. An element is excluded from the union of two
    /// complements only if both exclude it; combining a union with a
    /// complement drops the union's members from the exclusion list.
    pub open spec fn or_with(self, other: DualModel) -> DualModel {
        if self.union_tag && other.union_tag {
            DualModel { union_tag: true, elems: self.elems.union(other.elems) }
        } else if !self.union_tag && !other.union_tag {
            DualModel { union_tag: false, elems: self.elems.intersect(other.elems) }
        } else if self.union_tag {
            DualModel { union_tag: false, elems: other.elems.difference(self.elems) }
        } else {
            DualModel { union_tag: false, elems: self.elems.difference(other.elems) }
        }
    }

    /// The intersection table: the De Morgan dual of `or_with`, obtained by
    /// negating both operands, taking the union, and negating the result.
    pub open spec fn and_with(self, other: DualModel) -> DualModel {
        if self.union_tag && other.union_tag {
            DualModel { union_tag: true, elems: self.elems.intersect(other.elems) }
        } else if !self.union_tag && !other.union_tag {
            DualModel { union_tag: false, elems: self.elems.union(other.elems) }
        } else if self.union_tag {
            DualModel { union_tag: true, elems: self.elems.difference(other.elems) }
        } else {
            DualModel { union_tag: true, elems: other.elems.difference(self.elems) }
        }
    }

    /// The disjointness table. Two unions are disjoint when their element
    /// sets are; a union is disjoint from a complement when every one of its
    /// members is excluded; two complements always overlap, since each
    /// excludes only finitely many values of an infinite universe.
    pub open spec fn disjoint_with(self, other: DualModel) -> bool {
        if self.union_tag && other.union_tag {
            self.elems.disjoint(other.elems)
        } else if self.union_tag {
            self.elems.subset_of(other.elems)
        } else if other.union_tag {
            other.elems.subset_of(self.elems)
        } else {
            false
        }
    }
}

/// Complement duality: over the same element set, the complement form
/// contains a value exactly when the union form does not.
pub proof fn lemma_complement_duality(elems: Set<u64>, v: u64)
    ensures
        DualModel::of_excluded(elems).member(v) == !DualModel::of_elements(elems).member(v),
{
}

/// De Morgan duality: intersecting two models is the structural negation of
/// the union of their negations.
pub proof fn lemma_de_morgan(a: DualModel, b: DualModel)
    ensures
        a.and_with(b) == a.negate().or_with(b.negate()).negate(),
{
    assert(a.and_with(b) =~= a.negate().or_with(b.negate()).negate());
}

/// Union is commutative on models.
pub proof fn lemma_or_commutes(a: DualModel, b: DualModel)
    ensures
        a.or_with(b) == b.or_with(a),
{
    assert(a.or_with(b) =~= b.or_with(a));
}

/// Intersection is commutative on models.
pub proof fn lemma_and_commutes(a: DualModel, b: DualModel)
    ensures
        a.and_with(b) == b.and_with(a),
{
    assert(a.and_with(b) =~= b.and_with(a));
}

/// Absorption: the empty set is the identity of union, and the universal
/// set is the identity of intersection.
pub proof fn lemma_absorption(a: DualModel)
    ensures
        a.or_with(DualModel::empty_model()) == a,
        a.and_with(DualModel::universal_model()) == a,
{
    assert(a.or_with(DualModel::empty_model()) =~= a);
    assert(a.and_with(DualModel::universal_model()) =~= a);
}

/// For operands of the same tag, the structural subset test decides exactly
/// whether every member of the first set is a member of the second. For two
/// complements the storage comparison reverses: excluding more makes the
/// represented set smaller.
pub proof fn lemma_subset_meaning(a: DualModel, b: DualModel)
    requires
        a.union_tag == b.union_tag,
    ensures
        (if a.union_tag {
            a.elems.subset_of(b.elems)
        } else {
            b.elems.subset_of(a.elems)
        }) <==> (forall|v: u64| #[trigger] a.member(v) ==> b.member(v)),
{
    let structural = if a.union_tag {
        a.elems.subset_of(b.elems)
    } else {
        b.elems.subset_of(a.elems)
    };
    if structural {
        assert forall|v: u64| #[trigger] a.member(v) implies b.member(v) by {
            if a.union_tag {
                assert(a.elems.contains(v));
            } else {
                if b.elems.contains(v) {
                    assert(a.elems.contains(v));
                }
            }
        }
    } else {
        if a.union_tag {
            let v = choose|v: u64| a.elems.contains(v) && !b.elems.contains(v);
            assert(a.member(v) && !b.member(v));
        } else {
            let v = choose|v: u64| b.elems.contains(v) && !a.elems.contains(v);
            assert(a.member(v) && !b.member(v));
        }
    }
}

/// Outside the complement/complement case, the disjointness table decides
/// exactly whether the two sets share a member.
pub proof fn lemma_disjoint_meaning(a: DualModel, b: DualModel)
    requires
        a.union_tag || b.union_tag,
    ensures
        a.disjoint_with(b) <==> (forall|v: u64| !(#[trigger] a.member(v) && b.member(v))),
{
    if a.disjoint_with(b) {
        assert forall|v: u64| !(#[trigger] a.member(v) && b.member(v)) by {
            if a.member(v) && b.member(v) {
                if a.union_tag {
                    assert(a.elems.contains(v) && b.elems.contains(v));
                } else {
                    assert(b.elems.contains(v) && a.elems.contains(v));
                }
            }
        }
    } else {
        if a.union_tag && b.union_tag {
            let v = choose|v: u64| a.elems.contains(v) && b.elems.contains(v);
            assert(a.member(v) && b.member(v));
        } else if a.union_tag {
            let v = choose|v: u64| a.elems.contains(v) && !b.elems.contains(v);
            assert(a.member(v) && b.member(v));
        } else {
            let v = choose|v: u64| b.elems.contains(v) && !a.elems.contains(v);
            assert(a.member(v) && b.member(v));
        }
    }
}

/// The union table computes membership pointwise: a value is a member of
/// the combined set exactly when it is a member of either operand.
pub proof fn lemma_or_member(a: DualModel, b: DualModel)
    ensures
        forall|v: u64| #[trigger] a.or_with(b).member(v) == (a.member(v) || b.member(v)),
{
}

/// The intersection table computes membership pointwise: a value is a member
/// of the combined set exactly when it is a member of both operands.
pub proof fn lemma_and_member(a: DualModel, b: DualModel)
    ensures
        forall|v: u64| #[trigger] a.and_with(b).member(v) == (a.member(v) && b.member(v)),
{
}

} // verus!
