//! The order in which fragments are put back together: by sequence number,
//! and among equal numbers by their place in the directory listing.

use vstd::prelude::*;
use vstd::relations::{sorted_by, total_ordering};
use vstd::seq_lib::{
    lemma_multiset_commutative, lemma_sorted_unique, to_multiset_build, to_multiset_len,
};

verus! {

/// A fragment that a scan found: where its entry stands in the directory
/// listing, and the sequence number in its header.
#[derive(Debug, Clone, Copy, PartialEq, Eq)]
pub struct Fragment {
    pub entry: usize,
    pub number: u32,
}

/// Whether `a` comes no later than `b`: by sequence number, then by entry.
pub open spec fn comes_first(a: Fragment, b: Fragment) -> bool {
    a.number < b.number || (a.number == b.number && a.entry <= b.entry)
}

/// The order of fragments as a relation.
pub open spec fn sequence_order() -> spec_fn(Fragment, Fragment) -> bool {
    |a: Fragment, b: Fragment| comes_first(a, b)
}

/// The fragments in the order in which they are put back together.
pub open spec fn in_sequence_order(found: Seq<Fragment>) -> Seq<Fragment> {
    found.sort_by(sequence_order())
}

/// The order of fragments is total.
pub proof fn lemma_sequence_order_total()
    ensures
        total_ordering(sequence_order()),
{
}

/// The fragments in sequence order are the fragments found, each as often as
/// it was found, and no fragment comes before one that it should follow. No
/// other arrangement is both.
pub proof fn lemma_in_sequence_order(found: Seq<Fragment>)
    ensures
        in_sequence_order(found).len() == found.len(),
        in_sequence_order(found).to_multiset() == found.to_multiset(),
        sorted_by(in_sequence_order(found), sequence_order()),
        forall|other: Seq<Fragment>|
            sorted_by(other, sequence_order()) && other.to_multiset() == found.to_multiset()
                ==> other == #[trigger] in_sequence_order(found),
{
    lemma_sequence_order_total();
    found.lemma_sort_by_ensures(sequence_order());
    to_multiset_len(found);
    to_multiset_len(in_sequence_order(found));
    assert forall|other: Seq<Fragment>|
        sorted_by(other, sequence_order()) && other.to_multiset()
            == found.to_multiset() implies other == #[trigger] in_sequence_order(found) by {
        lemma_sorted_unique(other, in_sequence_order(found), sequence_order());
    }
}

fn precedes(a: &Fragment, b: &Fragment) -> (first: bool)
    ensures
        first == comes_first(*a, *b),
{
    a.number < b.number || (a.number == b.number && a.entry <= b.entry)
}

fn merge(left: &Vec<Fragment>, right: &Vec<Fragment>) -> (merged: Vec<Fragment>)
    requires
        sorted_by(left@, sequence_order()),
        sorted_by(right@, sequence_order()),
    ensures
        sorted_by(merged@, sequence_order()),
        merged@.to_multiset() == left@.to_multiset().add(right@.to_multiset()),
{
    broadcast use {vstd::seq_lib::group_to_multiset_ensures, vstd::multiset::group_multiset_axioms};

    let mut merged: Vec<Fragment> = Vec::new();
    let mut i: usize = 0;
    let mut j: usize = 0;
    proof {
        lemma_sequence_order_total();
    }
    while i < left.len() || j < right.len()
        invariant
            i <= left.len(),
            j <= right.len(),
            total_ordering(sequence_order()),
            sorted_by(left@, sequence_order()),
            sorted_by(right@, sequence_order()),
            sorted_by(merged@, sequence_order()),
            merged@.to_multiset() == left@.take(i as int).to_multiset().add(
                right@.take(j as int).to_multiset(),
            ),
            forall|k: int|
                0 <= k < merged.len() && i < left.len() ==> comes_first(
                    #[trigger] merged@[k],
                    left@[i as int],
                ),
            forall|k: int|
                0 <= k < merged.len() && j < right.len() ==> comes_first(
                    #[trigger] merged@[k],
                    right@[j as int],
                ),
        decreases left.len() - i + (right.len() - j),
    {
        let ghost before = merged@;
        let take_left: bool = if i >= left.len() {
            false
        } else if j >= right.len() {
            true
        } else {
            precedes(&left[i], &right[j])
        };
        if take_left {
            let next: Fragment = left[i];
            merged.push(next);
            proof {
                let taken = left@.take(i as int);
                assert(left@.take(i + 1) =~= taken.push(next));
                to_multiset_build(before, next);
                to_multiset_build(taken, next);
                assert forall|k: int|
                    0 <= k < merged.len() && i + 1 < left.len() implies comes_first(
                    #[trigger] merged@[k],
                    left@[i + 1],
                ) by {
                    assert(sequence_order()(left@[i as int], left@[i + 1]));
                }
            }
            i = i + 1;
        } else {
            let next: Fragment = right[j];
            merged.push(next);
            proof {
                let taken = right@.take(j as int);
                assert(right@.take(j + 1) =~= taken.push(next));
                to_multiset_build(before, next);
                to_multiset_build(taken, next);
                assert forall|k: int|
                    0 <= k < merged.len() && j + 1 < right.len() implies comes_first(
                    #[trigger] merged@[k],
                    right@[j + 1],
                ) by {
                    assert(sequence_order()(right@[j as int], right@[j + 1]));
                }
            }
            j = j + 1;
        }
    }
    proof {
        assert(left@.take(i as int) =~= left@);
        assert(right@.take(j as int) =~= right@);
    }
    merged
}

/// Puts fragments in the order in which they are put back together.
pub fn sort_fragments(found: Vec<Fragment>) -> (sorted: Vec<Fragment>)
    ensures
        sorted@ == in_sequence_order(found@),
    decreases found.len(),
{
    let ghost all = found@;
    proof {
        lemma_in_sequence_order(all);
    }
    if found.len() <= 1 {
        proof {
        }
        found
    } else {
        let middle: usize = found.len() / 2;
        let mut left: Vec<Fragment> = found;
        let right: Vec<Fragment> = left.split_off(middle);
        let ghost left_part = left@;
        let ghost right_part = right@;
        let left_sorted: Vec<Fragment> = sort_fragments(left);
        let right_sorted: Vec<Fragment> = sort_fragments(right);
        proof {
            lemma_in_sequence_order(left_part);
            lemma_in_sequence_order(right_part);
        }
        let sorted: Vec<Fragment> = merge(&left_sorted, &right_sorted);
        proof {
            assert(all =~= left_part + right_part);
            lemma_multiset_commutative(left_part, right_part);
        }
        sorted
    }
}

} // verus!
