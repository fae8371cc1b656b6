//! Entries of a fragment directory that are no fragments do not change what
//! the reassembly comes to.

use crate::combiner::{is_fragment, DirView};
use crate::memory::combine::{combine_outcome, noted, payloads, scan_outcome, MemoryEntryView};
use crate::sorting::{in_sequence_order, lemma_in_sequence_order, sequence_order, Fragment};
use crate::ErrorView;
use vstd::prelude::*;
use vstd::seq_lib::{to_multiset_build, to_multiset_contains, to_multiset_len, to_multiset_remove};

verus! {

/// A fragment as it is noted once an entry has been put into the listing at
/// `place`: the entries from there on stand one place further.
pub open spec fn moved(place: int) -> spec_fn(Fragment) -> Fragment {
    |fragment: Fragment|
        if fragment.entry >= place {
            Fragment { entry: (fragment.entry + 1) as usize, number: fragment.number }
        } else {
            fragment
        }
}

spec fn moved_outcome(outcome: Result<Seq<Fragment>, ErrorView>, place: int) -> Result<
    Seq<Fragment>,
    ErrorView,
> {
    match outcome {
        Ok(found) => Ok(found.map_values(moved(place))),
        Err(error) => Err(error),
    }
}

proof fn lemma_same_elements_mapped<A, B>(left: Seq<A>, right: Seq<A>, f: spec_fn(A) -> B)
    requires
        left.to_multiset() == right.to_multiset(),
    ensures
        left.map_values(f).to_multiset() == right.map_values(f).to_multiset(),
    decreases left.len(),
{
    broadcast use vstd::multiset::group_multiset_axioms;

    to_multiset_len(left);
    to_multiset_len(right);
    if left.len() == 0 {
        assert(left.map_values(f) =~= right.map_values(f));
    } else {
        let last = left.last();
        let shorter = left.drop_last();
        assert(left =~= shorter.push(last));
        to_multiset_build(shorter, last);
        to_multiset_contains(left, last);
        to_multiset_contains(right, last);
        let at = choose|at: int| 0 <= at < right.len() && right[at] == last;
        let others = right.remove(at);
        to_multiset_remove(right, at);
        assert(shorter.to_multiset() =~= others.to_multiset());
        lemma_same_elements_mapped(shorter, others, f);
        assert(left.map_values(f) =~= shorter.map_values(f).push(f(last)));
        to_multiset_build(shorter.map_values(f), f(last));
        assert(right.map_values(f).remove(at) =~= others.map_values(f));
        to_multiset_remove(right.map_values(f), at);
        to_multiset_contains(right.map_values(f), f(last));
    }
}

proof fn lemma_scan_with_other(
    directory: Seq<MemoryEntryView>,
    place: int,
    other: MemoryEntryView,
    from: int,
    found: Seq<Fragment>,
)
    requires
        0 <= place <= directory.len(),
        directory.len() < usize::MAX,
        !is_fragment(other.entry),
        0 <= from <= directory.len(),
        forall|k: int| 0 <= k < found.len() ==> (#[trigger] found[k]).entry < directory.len(),
    ensures
        scan_outcome(
            directory.insert(place, other),
            if from >= place {
                from + 1
            } else {
                from
            },
            found.map_values(moved(place)),
        ) == moved_outcome(scan_outcome(directory, from, found), place),
        scan_outcome(directory, from, found) matches Ok(all) ==> forall|k: int|
            0 <= k < all.len() ==> (#[trigger] all[k]).entry < directory.len(),
    decreases directory.len() - from,
{
    let with = directory.insert(place, other);
    let there = if from >= place {
        from + 1
    } else {
        from
    };
    if from < directory.len() {
        let longer = if !is_fragment(directory[from].entry) {
            found
        } else {
            found.push(noted(directory, from))
        };
        assert(longer.map_values(moved(place)) =~= if !is_fragment(directory[from].entry) {
            found.map_values(moved(place))
        } else {
            found.map_values(moved(place)).push(noted(with, there))
        });
        lemma_scan_with_other(directory, place, other, from + 1, longer);
        if from + 1 == place {
            assert(scan_outcome(with, place, longer.map_values(moved(place))) == scan_outcome(
                with,
                place + 1,
                longer.map_values(moved(place)),
            ));
        }
    }
}

proof fn lemma_order_with_other(found: Seq<Fragment>, place: int)
    requires
        forall|k: int| 0 <= k < found.len() ==> (#[trigger] found[k]).entry < usize::MAX,
    ensures
        in_sequence_order(found.map_values(moved(place))) == in_sequence_order(found).map_values(
            moved(place),
        ),
{
    let order = in_sequence_order(found);
    let there = order.map_values(moved(place));
    lemma_in_sequence_order(found);
    lemma_in_sequence_order(found.map_values(moved(place)));
    lemma_same_elements_mapped(order, found, moved(place));
    assert forall|k: int| 0 <= k < order.len() implies (#[trigger] order[k]).entry
        < usize::MAX by {
        to_multiset_contains(order, order[k]);
        to_multiset_contains(found, order[k]);
    }
    assert forall|a: int, b: int| 0 <= a < b < there.len() implies sequence_order()(
        #[trigger] there[a],
        #[trigger] there[b],
    ) by {
        assert(sequence_order()(order[a], order[b]));
    }
}

proof fn lemma_payloads_with_other(
    directory: Seq<MemoryEntryView>,
    place: int,
    other: MemoryEntryView,
    order: Seq<Fragment>,
    from: int,
)
    requires
        0 <= place <= directory.len(),
        directory.len() < usize::MAX,
        0 <= from,
        forall|k: int| 0 <= k < order.len() ==> (#[trigger] order[k]).entry < directory.len(),
    ensures
        payloads(directory.insert(place, other), order.map_values(moved(place)), from) == payloads(
            directory,
            order,
            from,
        ),
    decreases order.len() - from,
{
    if from < order.len() {
        lemma_payloads_with_other(directory, place, other, order, from + 1);
    }
}

/// A directory with one more entry that is no fragment, wherever it stands
/// in the listing, is reassembled as the directory without it: to the same
/// file, or with the same error.
pub proof fn lemma_other_entry_ignored(
    dir: DirView,
    directory: Seq<MemoryEntryView>,
    place: int,
    other: MemoryEntryView,
)
    requires
        0 <= place <= directory.len(),
        directory.len() < usize::MAX,
        !is_fragment(other.entry),
    ensures
        combine_outcome(dir, directory.insert(place, other)) == combine_outcome(dir, directory),
{
    let none = Seq::<Fragment>::empty();
    lemma_scan_with_other(directory, place, other, 0, none);
    assert(none.map_values(moved(place)) =~= none);
    if let Ok(found) = scan_outcome(directory, 0, none) {
        let order = in_sequence_order(found);
        lemma_order_with_other(found, place);
        assert(in_sequence_order(found.map_values(moved(place))) == order.map_values(
            moved(place),
        ));
        lemma_in_sequence_order(found);
        assert forall|k: int| 0 <= k < order.len() implies (#[trigger] order[k]).entry
            < directory.len() by {
            to_multiset_contains(order, order[k]);
            to_multiset_contains(found, order[k]);
        }
        lemma_payloads_with_other(directory, place, other, order, 1);
    }
}

} // verus!
