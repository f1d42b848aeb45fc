//! Verified set algebra over the finite storage, `std::collections::BTreeSet`
//! with `u64` elements, against its `Set<u64>` view.

use std::collections::BTreeSet;
use vstd::prelude::*;
use vstd::std_specs::iter::IteratorSpec;

verus! {

broadcast use vstd::laws_cmp::group_laws_cmp;

/// Collects the elements of a set into a vector holding exactly the same
/// values.
pub fn to_vec(s: &BTreeSet<u64>) -> (r: Vec<u64>)
    ensures
        forall|x: u64| r@.contains(x) <==> s@.contains(x),
{
    let mut r: Vec<u64> = Vec::new();
    proof {
        let keys = vstd::std_specs::btree::spec_btree_keys_iter(s).remaining();
        assert forall|j: int| 0 <= j < keys.len() implies s@.contains(*#[trigger] keys[j]) by {
            assert(keys.unref()[j] == *keys[j]);
            assert(keys.unref().to_set().contains(keys.unref()[j]));
        }
    }
    for x in it: s.iter()
        invariant
            it.seq().unref().to_set() == s@,
            forall|j: int| 0 <= j < it.seq().len() ==> *#[trigger] it.seq()[j]
                == it.seq().unref()[j],
            forall|j: int| 0 <= j < it.seq().len() ==> s@.contains(*#[trigger] it.seq()[j]),
            r@.len() == it.index(),
            forall|j: int| 0 <= j < it.index() ==> r@[j] == *#[trigger] it.seq()[j],
            forall|j: int| 0 <= j < r@.len() ==> s@.contains(#[trigger] r@[j]),
    {
        r.push(*x);
    }
    r
}

/// Collects the values of a vector into a finite storage holding exactly
/// the same values; duplicates merge.
pub fn from_vec(elems: &Vec<u64>) -> (r: BTreeSet<u64>)
    ensures
        forall|v: u64| #[trigger] r@.contains(v) <==> elems@.contains(v),
{
    let mut r: BTreeSet<u64> = BTreeSet::new();
    for i in 0..elems.len()
        invariant
            forall|v: u64| #[trigger] r@.contains(v) <==> (exists|j: int|
                0 <= j < i && #[trigger] elems@[j] == v),
    {
        r.insert(elems[i]);
    }
    r
}

/// The union of two finite storages.
pub fn union_sets(a: &BTreeSet<u64>, b: &BTreeSet<u64>) -> (r: BTreeSet<u64>)
    ensures
        r@ == a@.union(b@),
{
    let mut r = a.clone();
    let elems = to_vec(b);
    for i in 0..elems.len()
        invariant
            forall|x: u64| elems@.contains(x) <==> b@.contains(x),
            forall|x: u64| r@.contains(x) <==> (a@.contains(x) || exists|j: int|
                0 <= j < i && #[trigger] elems@[j] == x),
    {
        r.insert(elems[i]);
    }
    proof {
        assert(r@ =~= a@.union(b@));
    }
    r
}

/// The intersection of two finite storages.
pub fn intersect_sets(a: &BTreeSet<u64>, b: &BTreeSet<u64>) -> (r: BTreeSet<u64>)
    ensures
        r@ == a@.intersect(b@),
{
    let mut r: BTreeSet<u64> = BTreeSet::new();
    let elems = to_vec(a);
    for i in 0..elems.len()
        invariant
            forall|x: u64| elems@.contains(x) <==> a@.contains(x),
            forall|x: u64| r@.contains(x) <==> (b@.contains(x) && exists|j: int|
                0 <= j < i && #[trigger] elems@[j] == x),
    {
        if b.contains(&elems[i]) {
            r.insert(elems[i]);
        }
    }
    proof {
        assert(r@ =~= a@.intersect(b@));
    }
    r
}

/// The elements of `a` that are not in `b`.
pub fn difference_sets(a: &BTreeSet<u64>, b: &BTreeSet<u64>) -> (r: BTreeSet<u64>)
    ensures
        r@ == a@.difference(b@),
{
    let mut r: BTreeSet<u64> = BTreeSet::new();
    let elems = to_vec(a);
    for i in 0..elems.len()
        invariant
            forall|x: u64| elems@.contains(x) <==> a@.contains(x),
            forall|x: u64| r@.contains(x) <==> (!b@.contains(x) && exists|j: int|
                0 <= j < i && #[trigger] elems@[j] == x),
    {
        if !b.contains(&elems[i]) {
            r.insert(elems[i]);
        }
    }
    proof {
        assert(r@ =~= a@.difference(b@));
    }
    r
}

/// Whether every element of `a` is an element of `b`.
pub fn subset_sets(a: &BTreeSet<u64>, b: &BTreeSet<u64>) -> (r: bool)
    ensures
        r == a@.subset_of(b@),
{
    let elems = to_vec(a);
    let mut r = true;
    for i in 0..elems.len()
        invariant
            forall|x: u64| elems@.contains(x) <==> a@.contains(x),
            r <==> (forall|j: int| 0 <= j < i ==> b@.contains(#[trigger] elems@[j])),
    {
        if !b.contains(&elems[i]) {
            r = false;
        }
    }
    proof {
        if r {
            assert forall|x: u64| a@.contains(x) implies b@.contains(x) by {
                assert(elems@.contains(x));
            }
        }
    }
    r
}

/// Whether `a` and `b` have no element in common.
pub fn disjoint_sets(a: &BTreeSet<u64>, b: &BTreeSet<u64>) -> (r: bool)
    ensures
        r == a@.disjoint(b@),
{
    let elems = to_vec(a);
    let mut r = true;
    for i in 0..elems.len()
        invariant
            forall|x: u64| elems@.contains(x) <==> a@.contains(x),
            r <==> (forall|j: int| 0 <= j < i ==> !b@.contains(#[trigger] elems@[j])),
    {
        if b.contains(&elems[i]) {
            r = false;
        }
    }
    proof {
        if r {
            assert forall|x: u64| a@.contains(x) implies !b@.contains(x) by {
                assert(elems@.contains(x));
            }
        }
    }
    r
}

} // verus!
