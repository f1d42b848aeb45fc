//! The dual-representation set type and its boolean algebra.

use std::collections::BTreeSet;
use vstd::prelude::*;

use crate::convert::FromComplement;
use crate::model::DualModel;
use crate::storage::{
    difference_sets, disjoint_sets, from_vec, intersect_sets, subset_sets, union_sets,
};

verus! {

broadcast use vstd::laws_cmp::group_laws_cmp;

/// A set that can not only represent a finite union of elements, but also
/// the complement of such a union within a conceptually infinite universe.
///
/// The universe of `u64` values is treated as infinite: an empty complement
/// represents literally "everything", and two complements always overlap,
/// because each excludes only finitely many values.
///
/// The view of an `InfBTreeSet` is a [`DualModel`]: the tag together with
/// the mathematical set of stored elements. Equality and ordering are
/// structural, over the tag and the storage, never semantic.
#[derive(Clone, Debug, Hash, PartialEq, Eq, PartialOrd, Ord)]
pub enum InfBTreeSet {
    /// Elements that are part of the set.
    Union(BTreeSet<u64>),
    /// Elements that are *not* part of the set.
    Complement(BTreeSet<u64>),
}

impl View for InfBTreeSet {
    type V = DualModel;

    open spec fn view(&self) -> DualModel {
        match self {
            InfBTreeSet::Union(s) => DualModel { union_tag: true, elems: s@ },
            InfBTreeSet::Complement(s) => DualModel { union_tag: false, elems: s@ },
        }
    }
}

impl InfBTreeSet {
    /// Makes a new, empty `InfBTreeSet`: a union of no elements.
    pub fn new() -> (r: Self)
        ensures
            r@ == DualModel::empty_model(),
    {
        InfBTreeSet::Union(BTreeSet::new())
    }

    /// Makes a new `InfBTreeSet` containing "all" values: a complement
    /// excluding nothing.
    pub fn all() -> (r: Self)
        ensures
            r@ == DualModel::universal_model(),
    {
        InfBTreeSet::Complement(BTreeSet::new())
    }

    /// Clears the set, removing all elements.
    ///
    /// Whatever the current tag, the result is the canonical empty union:
    /// clearing a complement does not leave an empty complement behind.
    pub fn clear(&mut self)
        ensures
            final(self)@ == DualModel::empty_model(),
    {
        *self = InfBTreeSet::new();
    }

    /// Returns `true` if the set contains an element equal to the value:
    /// for a union, when the storage holds it; for a complement, when the
    /// storage does not.
    pub fn contains(&self, value: &u64) -> (r: bool)
        ensures
            r == self@.member(*value),
    {
        match self {
            InfBTreeSet::Union(union) => union.contains(value),
            InfBTreeSet::Complement(complement) => !complement.contains(value),
        }
    }

    /// Returns `true` if `self` has no member in common with `other`.
    ///
    /// A union and a complement are disjoint when the union's storage is a
    /// subset of the complement's exclusions. Two complements are never
    /// disjoint: each excludes only finitely many values of an infinite
    /// universe, so their overlap is itself infinite.
    pub fn is_disjoint(&self, other: &InfBTreeSet) -> (r: bool)
        ensures
            r == self@.disjoint_with(other@),
            (self@.union_tag || other@.union_tag) ==> (r <==> forall|v: u64|
                !(#[trigger] self@.member(v) && other@.member(v))),
    {
        let r = match (self, other) {
            (InfBTreeSet::Union(this), InfBTreeSet::Union(that)) => disjoint_sets(this, that),
            (InfBTreeSet::Union(union), InfBTreeSet::Complement(complement)) => subset_sets(
                union,
                complement,
            ),
            (InfBTreeSet::Complement(complement), InfBTreeSet::Union(union)) => subset_sets(
                union,
                complement,
            ),
            (InfBTreeSet::Complement(_), InfBTreeSet::Complement(_)) => false,
        };
        proof {
            if self@.union_tag || other@.union_tag {
                crate::model::lemma_disjoint_meaning(self@, other@);
            }
        }
        r
    }

    /// Returns `true` if the set is a subset of another, i.e., `other`
    /// contains at least all the members of `self`.
    ///
    /// Only operands carrying the same tag can be compared: how a union
    /// should compare to a complement is an unresolved design question, so
    /// mixed-tag comparisons are ruled out by precondition rather than given
    /// a silently guessed answer. For two complements the storage comparison
    /// reverses, since excluding more makes the set smaller.
    pub fn is_subset(&self, other: &InfBTreeSet) -> (r: bool)
        requires
            self@.union_tag == other@.union_tag,
        ensures
            r <==> (forall|v: u64| #[trigger] self@.member(v) ==> other@.member(v)),
            self@.union_tag ==> r == self@.elems.subset_of(other@.elems),
            !self@.union_tag ==> r == other@.elems.subset_of(self@.elems),
    {
        let r = match (self, other) {
            (InfBTreeSet::Union(this), InfBTreeSet::Union(that)) => subset_sets(this, that),
            (InfBTreeSet::Complement(this), InfBTreeSet::Complement(that)) => subset_sets(
                that,
                this,
            ),
            _ => unreached(),
        };
        proof {
            crate::model::lemma_subset_meaning(self@, other@);
        }
        r
    }

    /// Returns `true` if the set is a superset of another, i.e., `self`
    /// contains at least all the members of `other`. Like `is_subset`, this
    /// is defined only for operands carrying the same tag.
    pub fn is_superset(&self, other: &InfBTreeSet) -> (r: bool)
        requires
            self@.union_tag == other@.union_tag,
        ensures
            r <==> (forall|v: u64| #[trigger] other@.member(v) ==> self@.member(v)),
    {
        other.is_subset(self)
    }

    /// Returns `true` if the set is the empty union. This is a test of the
    /// representation: a complement is never reported empty, even with an
    /// empty storage, since it then represents "all" values.
    pub fn is_empty(&self) -> (r: bool)
        ensures
            r == (self@.union_tag && self@.elems.is_empty()),
    {
        match self {
            InfBTreeSet::Union(union) => union.is_empty(),
            InfBTreeSet::Complement(_) => false,
        }
    }

    /// Returns `true` if the set is the complement that excludes nothing,
    /// i.e., the canonical representation of "all" values.
    pub fn is_all(&self) -> (r: bool)
        ensures
            r == (!self@.union_tag && self@.elems.is_empty()),
    {
        match self {
            InfBTreeSet::Union(_) => false,
            InfBTreeSet::Complement(complement) => complement.is_empty(),
        }
    }

    /// Returns `true` if the set is tagged as a union.
    pub fn is_union(&self) -> (r: bool)
        ensures
            r == self@.union_tag,
    {
        matches!(self, InfBTreeSet::Union(_))
    }

    /// Returns the storage if the set is a union, and `None` otherwise.
    pub fn as_union(&self) -> (r: Option<&BTreeSet<u64>>)
        ensures
            self@.union_tag ==> (r matches Some(s) && s@ == self@.elems),
            !self@.union_tag ==> r is None,
    {
        if let InfBTreeSet::Union(v) = self {
            Some(v)
        } else {
            None
        }
    }

    /// Converts the set into its storage if it is a union; a complement is
    /// handed back unchanged as the error, so no data is lost.
    pub fn try_into_union(self) -> (r: Result<BTreeSet<u64>, InfBTreeSet>)
        ensures
            self@.union_tag ==> (r matches Ok(s) && s@ == self@.elems),
            !self@.union_tag ==> (r matches Err(e) && e == self),
    {
        match self {
            InfBTreeSet::Union(v) => Ok(v),
            complement => Err(complement),
        }
    }

    /// Returns `true` if the set is tagged as a complement.
    pub fn is_complement(&self) -> (r: bool)
        ensures
            r == !self@.union_tag,
    {
        matches!(self, InfBTreeSet::Complement(_))
    }

    /// Returns the storage if the set is a complement, and `None` otherwise.
    pub fn as_complement(&self) -> (r: Option<&BTreeSet<u64>>)
        ensures
            !self@.union_tag ==> (r matches Some(s) && s@ == self@.elems),
            self@.union_tag ==> r is None,
    {
        if let InfBTreeSet::Complement(v) = self {
            Some(v)
        } else {
            None
        }
    }

    /// Converts the set into its storage if it is a complement; a union is
    /// handed back unchanged as the error, so no data is lost.
    pub fn try_into_complement(self) -> (r: Result<BTreeSet<u64>, InfBTreeSet>)
        ensures
            !self@.union_tag ==> (r matches Ok(s) && s@ == self@.elems),
            self@.union_tag ==> (r matches Err(e) && e == self),
    {
        match self {
            InfBTreeSet::Complement(v) => Ok(v),
            union => Err(union),
        }
    }

    /// Read-only access to the underlying storage, whatever the tag.
    pub fn as_storage(&self) -> (r: &BTreeSet<u64>)
        ensures
            r@ == self@.elems,
    {
        match self {
            InfBTreeSet::Union(storage) => storage,
            InfBTreeSet::Complement(storage) => storage,
        }
    }

    /// Consumes the set and returns the underlying storage, whatever the tag.
    pub fn into_storage(self) -> (r: BTreeSet<u64>)
        ensures
            r@ == self@.elems,
    {
        match self {
            InfBTreeSet::Union(storage) => storage,
            InfBTreeSet::Complement(storage) => storage,
        }
    }

    /// Makes `value` a member of the set, whatever the tag: a union stores
    /// it, while a complement drops it from the exclusion list. All other
    /// memberships are unchanged.
    pub fn insert(&mut self, value: u64)
        ensures
            final(self)@.union_tag == old(self)@.union_tag,
            old(self)@.union_tag ==> final(self)@.elems == old(self)@.elems.insert(value),
            !old(self)@.union_tag ==> final(self)@.elems == old(self)@.elems.remove(value),
            final(self)@.member(value),
            forall|w: u64| w != value ==> #[trigger] final(self)@.member(w) == old(
                self,
            )@.member(w),
    {
        match self {
            InfBTreeSet::Union(storage) => {
                storage.insert(value);
            },
            InfBTreeSet::Complement(storage) => {
                storage.remove(&value);
            },
        }
    }

    /// Builds a union of exactly the given elements; duplicates merge.
    pub fn from_elements(elems: Vec<u64>) -> (r: InfBTreeSet)
        ensures
            r@.union_tag,
            forall|v: u64| #[trigger] r@.elems.contains(v) <==> elems@.contains(v),
    {
        InfBTreeSet::Union(from_vec(&elems))
    }

    /// Builds a complement that excludes exactly the given elements, and so
    /// contains every value not listed; duplicates merge.
    pub fn from_excluded_elements(elems: Vec<u64>) -> (r: InfBTreeSet)
        ensures
            !r@.union_tag,
            forall|v: u64| #[trigger] r@.elems.contains(v) <==> elems@.contains(v),
    {
        InfBTreeSet::Complement(from_vec(&elems))
    }

    /// Returns the union of `self` and `other`, by the table on
    /// [`DualModel::or_with`]: a value is a member of the result exactly
    /// when it is a member of either operand.
    pub fn union(&self, other: &InfBTreeSet) -> (r: InfBTreeSet)
        ensures
            r@ == self@.or_with(other@),
            forall|v: u64| #[trigger] r@.member(v) == (self@.member(v) || other@.member(v)),
    {
        let r = match (self, other) {
            (InfBTreeSet::Union(lhs), InfBTreeSet::Union(rhs)) => InfBTreeSet::Union(
                union_sets(lhs, rhs),
            ),
            (InfBTreeSet::Union(union), InfBTreeSet::Complement(complement)) =>
                InfBTreeSet::Complement(difference_sets(complement, union)),
            (InfBTreeSet::Complement(complement), InfBTreeSet::Union(union)) =>
                InfBTreeSet::Complement(difference_sets(complement, union)),
            (InfBTreeSet::Complement(lhs), InfBTreeSet::Complement(rhs)) =>
                InfBTreeSet::Complement(intersect_sets(lhs, rhs)),
        };
        proof {
            crate::model::lemma_or_member(self@, other@);
        }
        r
    }

    /// Replaces `self` with the union of `self` and `other`. When the two
    /// tags differ the result's tag differs from `self`'s original tag, so
    /// the full result is computed first and then replaces `self` outright.
    pub fn union_assign(&mut self, other: &InfBTreeSet)
        ensures
            final(self)@ == old(self)@.or_with(other@),
            forall|v: u64| #[trigger] final(self)@.member(v) == (old(self)@.member(v)
                || other@.member(v)),
    {
        let r = self.union(other);
        *self = r;
    }

    /// Returns the intersection of `self` and `other`: the De Morgan dual of
    /// [`InfBTreeSet::union`], following [`DualModel::and_with`]. A value is
    /// a member of the result exactly when it is a member of both operands.
    pub fn intersection(&self, other: &InfBTreeSet) -> (r: InfBTreeSet)
        ensures
            r@ == self@.and_with(other@),
            forall|v: u64| #[trigger] r@.member(v) == (self@.member(v) && other@.member(v)),
    {
        let r = match (self, other) {
            (InfBTreeSet::Union(lhs), InfBTreeSet::Union(rhs)) => InfBTreeSet::Union(
                intersect_sets(lhs, rhs),
            ),
            (InfBTreeSet::Union(union), InfBTreeSet::Complement(complement)) =>
                InfBTreeSet::Union(difference_sets(union, complement)),
            (InfBTreeSet::Complement(complement), InfBTreeSet::Union(union)) =>
                InfBTreeSet::Union(difference_sets(union, complement)),
            (InfBTreeSet::Complement(lhs), InfBTreeSet::Complement(rhs)) =>
                InfBTreeSet::Complement(union_sets(lhs, rhs)),
        };
        proof {
            crate::model::lemma_and_member(self@, other@);
        }
        r
    }

    /// Replaces `self` with the intersection of `self` and `other`,
    /// computing the full result first, as `union_assign` does.
    pub fn intersection_assign(&mut self, other: &InfBTreeSet)
        ensures
            final(self)@ == old(self)@.and_with(other@),
            forall|v: u64| #[trigger] final(self)@.member(v) == (old(self)@.member(v)
                && other@.member(v)),
    {
        let r = self.intersection(other);
        *self = r;
    }
}

impl Default for InfBTreeSet {
    /// Creates an empty `InfBTreeSet`.
    fn default() -> (r: Self)
        ensures
            r@ == DualModel::empty_model(),
    {
        InfBTreeSet::new()
    }
}

impl From<BTreeSet<u64>> for InfBTreeSet {
    /// Wraps a finite storage as a union of exactly its elements.
    fn from(v: BTreeSet<u64>) -> (r: Self) {
        InfBTreeSet::Union(v)
    }
}

impl vstd::std_specs::convert::FromSpecImpl<BTreeSet<u64>> for InfBTreeSet {
    open spec fn obeys_from_spec() -> bool {
        true
    }

    open spec fn from_spec(v: BTreeSet<u64>) -> InfBTreeSet {
        InfBTreeSet::Union(v)
    }
}

impl FromComplement<BTreeSet<u64>> for InfBTreeSet {
    /// Wraps a finite storage as a complement excluding exactly its elements.
    fn from_complement(v: BTreeSet<u64>) -> Self {
        InfBTreeSet::Complement(v)
    }
}

} // verus!
