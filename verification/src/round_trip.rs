//! A split followed by a reassembly gives the source back.
//!
//! The fragment files of a split may stand in their directory in any order
//! and under any names, beside entries that are no fragments: the reassembly
//! recovers the source's name and content.

use crate::combiner::{is_fragment, output_path, DirView};
use crate::file_service::{
    fragment_dir, fragment_payload, lemma_fragment_parts, payload_capacity,
};
use crate::memory::combine::{combine_outcome, noted, payloads, scan_outcome, MemoryEntryView};
use crate::memory::split::{chunks, lemma_chunks_joined, split_files, split_outcome};
use crate::memory::{joined, lemma_joined_concat, lemma_joined_single, FileView};
use crate::sorting::{lemma_in_sequence_order, Fragment};
use crate::splitter::SourceView;
use crate::ErrorView;
use vstd::prelude::*;
use vstd::seq_lib::to_multiset_contains;
use vstd::utf8::{decode_utf8, decode_utf8_encode_utf8, encode_utf8, valid_utf8};

verus! {

/// Whether a directory holds the given fragment files, each once, at the
/// places that `places` gives them, and beside them nothing that is taken for
/// a fragment. The order and the names of the entries are free.
pub open spec fn holds_fragments(
    directory: Seq<MemoryEntryView>,
    files: Seq<FileView>,
    places: Seq<int>,
) -> bool {
    &&& directory.len() <= usize::MAX
    &&& places.len() == files.len()
    &&& forall|k: int|
        0 <= k < files.len() ==> 0 <= #[trigger] places[k] < directory.len() && is_fragment(
            directory[places[k]].entry,
        ) && directory[places[k]].bytes == files[k].bytes
    &&& forall|j: int, k: int|
        0 <= j < k < files.len() ==> #[trigger] places[j] != #[trigger] places[k]
    &&& forall|i: int|
        0 <= i < directory.len() && is_fragment((#[trigger] directory[i]).entry)
            ==> places.contains(i)
}

spec fn fragments_from(directory: Seq<MemoryEntryView>, from: int) -> Seq<Fragment>
    decreases directory.len() - from,
{
    if from < 0 || from >= directory.len() {
        Seq::empty()
    } else if is_fragment(directory[from].entry) {
        seq![noted(directory, from)] + fragments_from(directory, from + 1)
    } else {
        fragments_from(directory, from + 1)
    }
}

proof fn lemma_scan_finds(directory: Seq<MemoryEntryView>, from: int, found: Seq<Fragment>)
    requires
        0 <= from,
        forall|i: int|
            from <= i < directory.len() && is_fragment((#[trigger] directory[i]).entry)
                ==> directory[i].bytes.len() >= 4,
    ensures
        scan_outcome(directory, from, found) == Ok::<Seq<Fragment>, ErrorView>(
            found + fragments_from(directory, from),
        ),
    decreases directory.len() - from,
{
    if from < directory.len() {
        if !is_fragment(directory[from].entry) {
            lemma_scan_finds(directory, from + 1, found);
        } else {
            let first = noted(directory, from);
            lemma_scan_finds(directory, from + 1, found.push(first));
            assert(found.push(first) + fragments_from(directory, from + 1) =~= found
                + fragments_from(directory, from));
        }
    }
}

proof fn lemma_fragments_from(directory: Seq<MemoryEntryView>, from: int)
    requires
        0 <= from,
        directory.len() <= usize::MAX,
    ensures
        forall|k: int|
            0 <= k < fragments_from(directory, from).len() ==> {
                let fragment = #[trigger] fragments_from(directory, from)[k];
                &&& from <= fragment.entry < directory.len()
                &&& is_fragment(directory[fragment.entry as int].entry)
                &&& fragment == noted(directory, fragment.entry as int)
            },
        forall|i: int|
            from <= i < directory.len() && is_fragment((#[trigger] directory[i]).entry)
                ==> fragments_from(directory, from).contains(noted(directory, i)),
        fragments_from(directory, from).no_duplicates(),
    decreases directory.len() - from,
{
    let all = fragments_from(directory, from);
    if from < directory.len() {
        lemma_fragments_from(directory, from + 1);
        let rest = fragments_from(directory, from + 1);
        if is_fragment(directory[from].entry) {
            assert forall|i: int|
                from <= i < directory.len() && is_fragment(
                    (#[trigger] directory[i]).entry,
                ) implies all.contains(noted(directory, i)) by {
                if i == from {
                    assert(all[0] == noted(directory, i));
                } else {
                    let k = choose|k: int| 0 <= k < rest.len() && rest[k] == noted(directory, i);
                    assert(all[k + 1] == noted(directory, i));
                }
            }
            assert forall|j: int, k: int|
                0 <= j < all.len() && 0 <= k < all.len() && j != k implies all[j] != all[k] by {}
        }
    }
}

proof fn lemma_payloads_joined(
    directory: Seq<MemoryEntryView>,
    order: Seq<Fragment>,
    pieces: Seq<Seq<u8>>,
    from: int,
)
    requires
        order.len() == pieces.len() + 1,
        1 <= from <= order.len(),
        forall|k: int|
            1 <= k < order.len() ==> fragment_payload(
                directory[(#[trigger] order[k]).entry as int].bytes,
            ) == pieces[k - 1],
    ensures
        payloads(directory, order, from) == joined(pieces.skip(from - 1)),
    decreases order.len() - from,
{
    let left = pieces.skip(from - 1);
    if from < order.len() {
        lemma_payloads_joined(directory, order, pieces, from + 1);
        let first = pieces[from - 1];
        assert(left =~= seq![first] + pieces.skip(from));
        lemma_joined_concat(seq![first], pieces.skip(from));
        lemma_joined_single(first);
    }
}

/// The reassembly of a directory that holds the fragment files of a name and
/// of pieces of content gives the file of that name with the pieces, joined,
/// as its content; and the bytes of the recovered name are those written.
pub proof fn lemma_reassembly_restores(
    dir: DirView,
    directory: Seq<MemoryEntryView>,
    places: Seq<int>,
    fragments: Seq<char>,
    name: Seq<u8>,
    pieces: Seq<Seq<u8>>,
)
    requires
        dir.parent is Some,
        valid_utf8(name),
        pieces.len() <= u32::MAX,
        holds_fragments(directory, split_files(fragments, name, pieces), places),
    ensures
        combine_outcome(dir, directory) == Ok::<FileView, ErrorView>(
            FileView {
                path: output_path(dir.parent->0, decode_utf8(name)),
                bytes: joined(pieces),
            },
        ),
        encode_utf8(decode_utf8(name)) == name,
{
    broadcast use vstd::multiset::group_multiset_axioms;

    let files = split_files(fragments, name, pieces);
    let found = fragments_from(directory, 0);
    let want = Seq::new(
        files.len(),
        |k: int| Fragment { entry: places[k] as usize, number: k as u32 },
    );
    decode_utf8_encode_utf8(name);
    lemma_fragment_parts(0, name);
    assert forall|k: int| 1 <= k < files.len() implies files[k].bytes.len() >= 4
        && #[trigger] noted(directory, places[k]) == want[k] && fragment_payload(files[k].bytes)
        == pieces[k - 1] by {
        lemma_fragment_parts(k as u32, pieces[k - 1]);
    }
    lemma_scan_finds(directory, 0, Seq::empty());
    lemma_fragments_from(directory, 0);
    assert(want.no_duplicates());
    found.lemma_multiset_has_no_duplicates();
    want.lemma_multiset_has_no_duplicates();
    assert forall|fragment: Fragment|
        found.to_multiset().count(fragment) == want.to_multiset().count(fragment) by {
        to_multiset_contains(found, fragment);
        to_multiset_contains(want, fragment);
    }
    assert(found.to_multiset() =~= want.to_multiset());
    lemma_in_sequence_order(found);
    assert(fragment_payload(directory[want[0].entry as int].bytes) == name);
    lemma_payloads_joined(directory, want, pieces, 1);
    assert(pieces.skip(0) =~= pieces);
}

/// The directory that the fragments of a source go to, as a reassembly is
/// told of it: it stands beside the source.
pub open spec fn fragment_directory(source: SourceView) -> DirView {
    DirView {
        path: fragment_dir(source.parent->0, source.stem->0),
        parent: source.parent,
    }
}

/// A reassembly of the fragments of a split gives a file with the source's
/// content, named as the source is, beside the fragment directory and so
/// where the source is.
///
/// This holds of a source whose name is valid UTF-8. A split that ends with
/// an error leaves no such fragments: one of a source that makes more pieces
/// than there are sequence numbers, too.
pub proof fn lemma_split_then_combine(
    source: SourceView,
    content: Seq<u8>,
    chunk_size: u64,
    directory: Seq<MemoryEntryView>,
    places: Seq<int>,
)
    requires
        split_outcome(source, content, chunk_size) is Ok,
        valid_utf8(source.name->0),
        holds_fragments(directory, split_outcome(source, content, chunk_size)->Ok_0, places),
    ensures
        combine_outcome(fragment_directory(source), directory) == Ok::<FileView, ErrorView>(
            FileView {
                path: output_path(source.parent->0, decode_utf8(source.name->0)),
                bytes: content,
            },
        ),
        encode_utf8(decode_utf8(source.name->0)) == source.name->0,
{
    let capacity = payload_capacity(chunk_size) as int;
    let pieces = chunks(content, capacity);
    lemma_chunks_joined(content, capacity);
    lemma_reassembly_restores(
        fragment_directory(source),
        directory,
        places,
        fragment_dir(source.parent->0, source.stem->0),
        source.name->0,
        pieces,
    );
}

} // verus!
