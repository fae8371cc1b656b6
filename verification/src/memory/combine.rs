//! The reassembly of a directory held in memory.

use crate::combiner::{
    after_scan, appended, buffer_size, combine_next, entry_path, has_unreadable, header_in,
    is_fragment, listing_view, next_fragment, output_path, scan_from, CombineAction,
    CombineActionView, CombineEvent, CombineEventView, CombinePhase, CombineStep,
    CombineStepView, Combiner, CombinerView, DirEntry, DirView, EntryView, FragmentDir, ReadOutcome,
    ReadView,
};
use crate::file_service::{fragment_number, fragment_payload, WriteOutcome};
use crate::memory::{joined, lemma_joined_first, FileView, MemoryFile};
use crate::sorting::{in_sequence_order, lemma_in_sequence_order, Fragment};
use crate::{ErrorView, ExpectedErrors};
use vstd::prelude::*;
use vstd::seq_lib::to_multiset_contains;
use vstd::slice::{slice_subrange, slice_to_vec};
use vstd::utf8::{decode_utf8, valid_utf8};

verus! {

/// An entry of a directory held in memory: what a listing says of it, and
/// what it holds.
#[derive(Debug, PartialEq, Eq)]
pub struct MemoryEntry {
    /// What a listing says of the entry.
    pub entry: DirEntry,
    /// What the entry holds; nothing for a directory.
    pub bytes: Vec<u8>,
}

/// An entry in memory, with each text taken as the characters it holds.
pub struct MemoryEntryView {
    pub entry: EntryView,
    pub bytes: Seq<u8>,
}

impl View for MemoryEntry {
    type V = MemoryEntryView;

    open spec fn view(&self) -> MemoryEntryView {
        MemoryEntryView { entry: self.entry@, bytes: self.bytes@ }
    }
}

/// The entries of a directory in memory, each with its texts taken as
/// characters.
pub open spec fn directory_view(entries: Seq<MemoryEntry>) -> Seq<MemoryEntryView> {
    entries.map_values(|entry: MemoryEntry| entry@)
}

/// The listing of a directory in memory.
pub open spec fn listing_of(directory: Seq<MemoryEntryView>) -> Seq<EntryView> {
    directory.map_values(|entry: MemoryEntryView| entry.entry)
}

/// The fragment that the entry at a place in a directory is noted as.
pub open spec fn noted(directory: Seq<MemoryEntryView>, place: int) -> Fragment {
    Fragment {
        entry: place as usize,
        number: fragment_number(directory[place].bytes) as u32,
    }
}

/// What the scan of a directory from the entry `from` on adds to the
/// fragments found before: each fragment with the number in its header, in
/// the order of the listing. A fragment of fewer than four bytes ends the
/// scan with `CouldNotReadFile`.
pub open spec fn scan_outcome(
    directory: Seq<MemoryEntryView>,
    from: int,
    found: Seq<Fragment>,
) -> Result<Seq<Fragment>, ErrorView>
    decreases directory.len() - from,
{
    if from < 0 || from >= directory.len() {
        Ok(found)
    } else if !is_fragment(directory[from].entry) {
        scan_outcome(directory, from + 1, found)
    } else if directory[from].bytes.len() < 4 {
        Err(ErrorView::CouldNotReadFile(entry_path(directory[from].entry)))
    } else {
        scan_outcome(directory, from + 1, found.push(noted(directory, from)))
    }
}

/// What the fragments from the place `from` of `order` on hold behind their
/// headers, one after the other.
pub open spec fn payloads(directory: Seq<MemoryEntryView>, order: Seq<Fragment>, from: int) -> Seq<
    u8,
>
    decreases order.len() - from,
{
    if from < 0 || from >= order.len() {
        Seq::empty()
    } else {
        fragment_payload(directory[order[from].entry as int].bytes) + payloads(
            directory,
            order,
            from + 1,
        )
    }
}

/// What the reassembly of a directory in memory comes to: the error that
/// ends it, or the reassembled file. The fragments are taken in sequence
/// order; the first one names the file, and the file holds what the others
/// hold behind their headers.
pub open spec fn combine_outcome(dir: DirView, directory: Seq<MemoryEntryView>) -> Result<
    FileView,
    ErrorView,
> {
    match scan_outcome(directory, 0, Seq::empty()) {
        Err(error) => Err(error),
        Ok(found) => {
            let order = in_sequence_order(found);
            let name = fragment_payload(directory[order[0].entry as int].bytes);
            if dir.parent is None {
                Err(ErrorView::NullPath)
            } else if order.len() == 0 {
                Err(ErrorView::NoFiles)
            } else if !valid_utf8(name) {
                Err(ErrorView::InvalidString)
            } else {
                Ok(
                    FileView {
                        path: output_path(dir.parent->0, decode_utf8(name)),
                        bytes: payloads(directory, order, 1),
                    },
                )
            }
        },
    }
}

/// What a reassembly has done in memory so far.
struct Reassembling {
    /// The entry that is being read, if a read has begun and not come to the
    /// entry's end.
    open: Option<usize>,
    /// How many bytes of that entry have been read.
    offset: int,
    /// The path of the reassembled file; empty until it is created.
    path: Seq<char>,
    /// What the reassembled file holds.
    bytes: Seq<u8>,
    /// Whether an entry that could not be read has been reported.
    warned: bool,
}

/// What a directory in memory answers to an action: the event, and what has
/// been done in memory after it. Every operation succeeds, but for reading
/// the header of an entry of fewer than four bytes. A read gives the bytes
/// from where the last read of the same entry ended, as many as were asked
/// for or as are left; a read that gives none closes the entry.
spec fn combine_answer(
    directory: Seq<MemoryEntryView>,
    memory: Reassembling,
    action: CombineActionView,
) -> (CombineEventView, Reassembling) {
    match action {
        CombineActionView::ListDir => (
            CombineEventView::Listing(Some(listing_of(directory))),
            memory,
        ),
        CombineActionView::Warn(_) => (
            CombineEventView::Done(true),
            Reassembling { warned: true, ..memory },
        ),
        CombineActionView::ReadHeader { entry } => (
            CombineEventView::Header(
                if directory[entry as int].bytes.len() >= 4 {
                    Some(directory[entry as int].bytes.take(4))
                } else {
                    None
                },
            ),
            memory,
        ),
        CombineActionView::ReadAll { entry } => (
            CombineEventView::Contents(Some(directory[entry as int].bytes)),
            memory,
        ),
        CombineActionView::CreateOutput { path } => (
            CombineEventView::Output(WriteOutcome::Written),
            Reassembling { path, bytes: Seq::empty(), ..memory },
        ),
        CombineActionView::QuerySize { entry } => (
            CombineEventView::Size(Some(directory[entry as int].bytes.len() as u64)),
            memory,
        ),
        CombineActionView::ReadChunk { entry, max_len } => {
            let bytes = directory[entry as int].bytes;
            let start = if memory.open == Some(entry) {
                memory.offset
            } else {
                0
            };
            let left = bytes.len() - start;
            let taken = if max_len < left {
                max_len as int
            } else {
                left
            };
            (
                CombineEventView::Chunk(ReadView::Bytes(bytes.subrange(start, start + taken))),
                if taken == 0 {
                    Reassembling { open: None, offset: 0, ..memory }
                } else {
                    Reassembling { open: Some(entry), offset: start + taken, ..memory }
                },
            )
        },
        CombineActionView::Append { bytes } => (
            CombineEventView::Done(true),
            Reassembling { bytes: memory.bytes + bytes, ..memory },
        ),
    }
}

/// Whether the scan of a directory has ended and left its fragments in
/// sequence order in `state`.
spec fn scanned(dir: DirView, directory: Seq<MemoryEntryView>, state: CombinerView) -> bool {
    let found = scan_outcome(directory, 0, Seq::empty());
    &&& found is Ok
    &&& state.found == in_sequence_order(found->Ok_0)
    &&& 1 <= state.found.len() <= usize::MAX
    &&& dir.parent is Some
    &&& forall|i: int|
        0 <= i < state.found.len() ==> (#[trigger] state.found[i]).entry < directory.len()
            && directory[state.found[i].entry as int].bytes.len() >= 4
}

/// Whether the name of the reassembled file has been recovered and stands in
/// `state`.
spec fn named(dir: DirView, directory: Seq<MemoryEntryView>, state: CombinerView) -> bool {
    let name = fragment_payload(directory[state.found[0].entry as int].bytes);
    &&& scanned(dir, directory, state)
    &&& valid_utf8(name)
    &&& state.output == output_path(dir.parent->0, decode_utf8(name))
}

/// The bytes of a fragment that are not its header, from an offset on.
spec fn payload_from(bytes: Seq<u8>, offset: int) -> Seq<u8> {
    if offset < 4 {
        bytes.skip(4)
    } else {
        bytes.skip(offset)
    }
}

/// Whether a reassembly has copied all but what is left of the fragment at
/// the place `state.current`, and the fragments behind it.
spec fn copying(
    dir: DirView,
    directory: Seq<MemoryEntryView>,
    state: CombinerView,
    memory: Reassembling,
    pending: Seq<u8>,
) -> bool {
    let place = state.current as int;
    let bytes = directory[state.found[place].entry as int].bytes;
    &&& named(dir, directory, state)
    &&& memory.path == state.output
    &&& 1 <= place < state.found.len()
    &&& state.buffer_len == buffer_size(directory[state.found[1].entry as int].bytes.len() as u64)
    &&& 0 <= memory.offset <= bytes.len()
    &&& if memory.offset == 0 {
        memory.open is None
    } else {
        memory.open == Some(state.found[place].entry)
    }
    &&& state.header_left == if memory.offset < 4 {
        4 - memory.offset
    } else {
        0
    }
    &&& memory.bytes + pending + payload_from(bytes, memory.offset) + payloads(
        directory,
        state.found,
        place + 1,
    ) == payloads(directory, state.found, 1)
}

/// How far a combiner has come on a directory in memory, while it asks for
/// `action`.
spec fn combining(
    dir: DirView,
    directory: Seq<MemoryEntryView>,
    state: CombinerView,
    action: CombineActionView,
    memory: Reassembling,
) -> bool {
    let listing = listing_of(directory);
    let fresh = memory.open is None && memory.offset == 0 && memory.bytes.len() == 0;
    &&& state.dir == dir
    &&& directory.len() <= usize::MAX
    &&& forall|i: int|
        0 <= i < directory.len() ==> (#[trigger] directory[i]).bytes.len() <= usize::MAX
    &&& match state.phase {
        CombinePhase::Listing => {
            &&& fresh
            &&& !memory.warned
            &&& state.found.len() == 0
            &&& action == CombineActionView::ListDir
        },
        CombinePhase::Warning => {
            &&& fresh
            &&& !memory.warned
            &&& has_unreadable(listing)
            &&& state.entries == listing
            &&& state.found.len() == 0
            &&& action == CombineActionView::Warn(ErrorView::BadFiles)
        },
        CombinePhase::Header => {
            &&& fresh
            &&& memory.warned == has_unreadable(listing)
            &&& state.entries == listing
            &&& state.entry < directory.len()
            &&& state.found.len() <= state.entry
            &&& is_fragment(listing[state.entry as int])
            &&& action == (CombineActionView::ReadHeader { entry: state.entry })
            &&& scan_outcome(directory, state.entry as int, state.found) == scan_outcome(
                directory,
                0,
                Seq::empty(),
            )
            &&& forall|i: int|
                0 <= i < state.found.len() ==> (#[trigger] state.found[i]).entry < directory.len()
                    && directory[state.found[i].entry as int].bytes.len() >= 4
        },
        CombinePhase::Metadata => {
            &&& fresh
            &&& memory.warned == has_unreadable(listing)
            &&& state.entries == listing
            &&& scanned(dir, directory, state)
            &&& action == (CombineActionView::ReadAll { entry: state.found[0].entry })
        },
        CombinePhase::Output => {
            &&& fresh
            &&& memory.warned == has_unreadable(listing)
            &&& state.entries == listing
            &&& named(dir, directory, state)
            &&& action == (CombineActionView::CreateOutput { path: state.output })
        },
        CombinePhase::Size => {
            &&& fresh
            &&& memory.warned == has_unreadable(listing)
            &&& state.entries == listing
            &&& named(dir, directory, state)
            &&& memory.path == state.output
            &&& state.current == 1
            &&& state.found.len() >= 2
            &&& action == (CombineActionView::QuerySize { entry: state.found[1].entry })
        },
        CombinePhase::Chunk => {
            &&& memory.warned == has_unreadable(listing)
            &&& state.entries == listing
            &&& copying(dir, directory, state, memory, Seq::empty())
            &&& action == (CombineActionView::ReadChunk {
                entry: state.found[state.current as int].entry,
                max_len: state.buffer_len,
            })
        },
        CombinePhase::Append => {
            &&& memory.warned == has_unreadable(listing)
            &&& state.entries == listing
            &&& action is Append
            &&& copying(dir, directory, state, memory, action->bytes)
        },
    }
}

/// A bound on the steps that a combiner has left on a directory in memory:
/// the phases before the copying in their order, the entries behind the one
/// whose header is read, the fragments behind the one that is copied, the
/// bytes of that fragment that have not been read, and whether bytes wait to
/// be appended.
spec fn combine_rank(
    directory: Seq<MemoryEntryView>,
    state: CombinerView,
    memory: Reassembling,
) -> (int, int, int, int) {
    let bytes = directory[state.found[state.current as int].entry as int].bytes;
    match state.phase {
        CombinePhase::Listing => (6, 0, 0, 0),
        CombinePhase::Warning => (5, 0, 0, 0),
        CombinePhase::Header => (4, directory.len() - state.entry, 0, 0),
        CombinePhase::Metadata => (3, 0, 0, 0),
        CombinePhase::Output => (2, 0, 0, 0),
        CombinePhase::Size => (1, 0, 0, 0),
        CombinePhase::Chunk => (
            0,
            state.found.len() - state.current,
            bytes.len() - memory.offset,
            0,
        ),
        CombinePhase::Append => (
            0,
            state.found.len() - state.current,
            bytes.len() - memory.offset,
            1,
        ),
    }
}

/// Whether one bound on the steps left is below another.
spec fn rank_below(low: (int, int, int, int), high: (int, int, int, int)) -> bool {
    &&& 0 <= low.0 && 0 <= low.1 && 0 <= low.2 && 0 <= low.3
    &&& 0 <= high.0 && 0 <= high.1 && 0 <= high.2 && 0 <= high.3
    &&& low.0 < high.0 || (low.0 == high.0 && (low.1 < high.1 || (low.1 == high.1 && (low.2 < high.2
        || (low.2 == high.2 && low.3 < high.3)))))
}

/// Whether a step on a directory in memory goes on from what has been done
/// in memory, with fewer steps left than `bound`, or ends as the reassembly
/// of the directory ends.
spec fn goes_on(
    dir: DirView,
    directory: Seq<MemoryEntryView>,
    step: CombineStepView,
    after: Reassembling,
    bound: (int, int, int, int),
) -> bool {
    match step {
        CombineStepView::Finished(Ok(_)) => {
            &&& combine_outcome(dir, directory) == Ok::<FileView, ErrorView>(
                FileView { path: after.path, bytes: after.bytes },
            )
            &&& after.warned == has_unreadable(listing_of(directory))
        },
        CombineStepView::Finished(Err(error)) => {
            &&& combine_outcome(dir, directory) == Err::<FileView, ErrorView>(error)
            &&& after.warned == has_unreadable(listing_of(directory))
        },
        CombineStepView::Next(next, asked) => {
            &&& combining(dir, directory, next, asked, after)
            &&& rank_below(combine_rank(directory, next, after), bound)
        },
    }
}

/// Whether a combiner that is answered from memory goes on from where the
/// answer has left it, or ends as the reassembly of the directory ends.
spec fn combining_goes_on(
    dir: DirView,
    directory: Seq<MemoryEntryView>,
    state: CombinerView,
    action: CombineActionView,
    memory: Reassembling,
) -> bool {
    let (event, after) = combine_answer(directory, memory, action);
    goes_on(
        dir,
        directory,
        combine_next(state, event),
        after,
        combine_rank(directory, state, memory),
    )
}

/// The scan passes over entries that are no fragments.
pub proof fn lemma_scan_passes_over(
    directory: Seq<MemoryEntryView>,
    from: int,
    found: Seq<Fragment>,
)
    requires
        0 <= from,
    ensures
        ({
            let next = next_fragment(listing_of(directory), from);
            &&& from <= next || next == directory.len()
            &&& next <= directory.len()
            &&& next < directory.len() ==> is_fragment(directory[next].entry)
            &&& scan_outcome(directory, from, found) == scan_outcome(directory, next, found)
        }),
    decreases directory.len() - from,
{
    if from < directory.len() && !is_fragment(directory[from].entry) {
        lemma_scan_passes_over(directory, from + 1, found);
    }
}

/// The end of a scan of a directory in memory goes on or ends as the
/// reassembly does.
proof fn lemma_after_scan_goes_on(
    dir: DirView,
    directory: Seq<MemoryEntryView>,
    state: CombinerView,
    memory: Reassembling,
    bound: (int, int, int, int),
)
    requires
        state.dir == dir,
        directory.len() <= usize::MAX,
        forall|i: int|
            0 <= i < directory.len() ==> (#[trigger] directory[i]).bytes.len() <= usize::MAX,
        state.entries == listing_of(directory),
        memory.open is None && memory.offset == 0 && memory.bytes.len() == 0,
        memory.warned == has_unreadable(listing_of(directory)),
        scan_outcome(directory, 0, Seq::empty()) == Ok::<Seq<Fragment>, ErrorView>(state.found),
        state.found.len() <= directory.len(),
        forall|i: int|
            0 <= i < state.found.len() ==> (#[trigger] state.found[i]).entry < directory.len()
                && directory[state.found[i].entry as int].bytes.len() >= 4,
        bound.0 > 3 && bound.1 >= 0 && bound.2 >= 0 && bound.3 >= 0,
    ensures
        goes_on(dir, directory, after_scan(state), memory, bound),
{
    let order = in_sequence_order(state.found);
    lemma_in_sequence_order(state.found);
    if dir.parent is Some && order.len() > 0 {
        assert forall|i: int| 0 <= i < order.len() implies (#[trigger] order[i]).entry
            < directory.len() && directory[order[i].entry as int].bytes.len() >= 4 by {
            to_multiset_contains(order, order[i]);
            to_multiset_contains(state.found, order[i]);
        }
    }
}

/// The scan of a directory in memory, gone on with at an entry, goes on or
/// ends as the reassembly does.
proof fn lemma_scan_goes_on(
    dir: DirView,
    directory: Seq<MemoryEntryView>,
    state: CombinerView,
    from: int,
    memory: Reassembling,
    bound: (int, int, int, int),
)
    requires
        state.dir == dir,
        directory.len() <= usize::MAX,
        forall|i: int|
            0 <= i < directory.len() ==> (#[trigger] directory[i]).bytes.len() <= usize::MAX,
        state.entries == listing_of(directory),
        0 <= from,
        memory.open is None && memory.offset == 0 && memory.bytes.len() == 0,
        memory.warned == has_unreadable(listing_of(directory)),
        scan_outcome(directory, from, state.found) == scan_outcome(directory, 0, Seq::empty()),
        state.found.len() <= from <= directory.len(),
        forall|i: int|
            0 <= i < state.found.len() ==> (#[trigger] state.found[i]).entry < directory.len()
                && directory[state.found[i].entry as int].bytes.len() >= 4,
        bound.0 > 4 || (bound.0 == 4 && bound.1 > directory.len() - from),
        bound.1 >= 0 && bound.2 >= 0 && bound.3 >= 0,
    ensures
        goes_on(dir, directory, scan_from(state, from), memory, bound),
{
    lemma_scan_passes_over(directory, from, state.found);
    if next_fragment(listing_of(directory), from) >= directory.len() {
        lemma_after_scan_goes_on(dir, directory, state, memory, bound);
    }
}

/// The listing of a directory in memory goes on or ends as the reassembly
/// does.
proof fn lemma_listing_goes_on(
    dir: DirView,
    directory: Seq<MemoryEntryView>,
    state: CombinerView,
    action: CombineActionView,
    memory: Reassembling,
)
    requires
        combining(dir, directory, state, action, memory),
        state.phase == CombinePhase::Listing || state.phase == CombinePhase::Warning,
    ensures
        combining_goes_on(dir, directory, state, action, memory),
{
    let listing = listing_of(directory);
    let (event, after) = combine_answer(directory, memory, action);
    let bound = combine_rank(directory, state, memory);
    assert(state.found =~= Seq::<Fragment>::empty());
    if state.phase == CombinePhase::Listing {
        if !has_unreadable(listing) {
            let listed = CombinerView { entries: listing, ..state };
            lemma_scan_goes_on(dir, directory, listed, 0, after, bound);
        }
    } else {
        lemma_scan_goes_on(dir, directory, state, 0, after, bound);
    }
}

/// The header of a fragment in memory goes on or ends as the reassembly
/// does.
proof fn lemma_header_goes_on(
    dir: DirView,
    directory: Seq<MemoryEntryView>,
    state: CombinerView,
    action: CombineActionView,
    memory: Reassembling,
)
    requires
        combining(dir, directory, state, action, memory),
        state.phase == CombinePhase::Header,
    ensures
        combining_goes_on(dir, directory, state, action, memory),
{
    let (event, after) = combine_answer(directory, memory, action);
    let bound = combine_rank(directory, state, memory);
    let place = state.entry as int;
    if directory[place].bytes.len() >= 4 {
        let longer = CombinerView { found: state.found.push(noted(directory, place)), ..state };
        lemma_scan_goes_on(dir, directory, longer, place + 1, after, bound);
    }
}

/// The metadata fragment, the creation of the reassembled file and the size
/// of the first data fragment go on or end as the reassembly does.
proof fn lemma_naming_goes_on(
    dir: DirView,
    directory: Seq<MemoryEntryView>,
    state: CombinerView,
    action: CombineActionView,
    memory: Reassembling,
)
    requires
        combining(dir, directory, state, action, memory),
        state.phase == CombinePhase::Metadata || state.phase == CombinePhase::Output || state.phase
            == CombinePhase::Size,
    ensures
        combining_goes_on(dir, directory, state, action, memory),
{
}

/// A read from a fragment in memory goes on or ends as the reassembly does.
proof fn lemma_chunk_goes_on(
    dir: DirView,
    directory: Seq<MemoryEntryView>,
    state: CombinerView,
    action: CombineActionView,
    memory: Reassembling,
)
    requires
        combining(dir, directory, state, action, memory),
        state.phase == CombinePhase::Chunk,
    ensures
        combining_goes_on(dir, directory, state, action, memory),
{
    let (event, after) = combine_answer(directory, memory, action);
    let place = state.current as int;
    let bytes = directory[state.found[place].entry as int].bytes;
    let rest = payloads(directory, state.found, place + 1);
    let none = Seq::<u8>::empty();
    let left = bytes.len() - memory.offset;
    let taken = if state.buffer_len < left {
        state.buffer_len as int
    } else {
        left
    };
    if taken == 0 {
        if place + 1 < state.found.len() {
            let following = directory[state.found[place + 1].entry as int].bytes;
            assert(memory.bytes + none + payload_from(following, 0) + payloads(
                directory,
                state.found,
                place + 2,
            ) =~= memory.bytes + none + none + rest);
        }
    } else {
        let chunk = bytes.subrange(memory.offset, after.offset);
        let skipped = if state.header_left < chunk.len() {
            state.header_left as int
        } else {
            chunk.len() as int
        };
        if skipped < chunk.len() {
            assert(memory.bytes + chunk.skip(skipped) + payload_from(bytes, after.offset) + rest
                =~= memory.bytes + none + payload_from(bytes, memory.offset) + rest);
        }
    }
}

/// Bytes appended in memory go on as the reassembly does.
proof fn lemma_append_goes_on(
    dir: DirView,
    directory: Seq<MemoryEntryView>,
    state: CombinerView,
    action: CombineActionView,
    memory: Reassembling,
)
    requires
        combining(dir, directory, state, action, memory),
        state.phase == CombinePhase::Append,
    ensures
        combining_goes_on(dir, directory, state, action, memory),
{
    let (event, after) = combine_answer(directory, memory, action);
}

/// A combiner that has come some way on a directory in memory, and is
/// answered from memory, either goes on from where the answer has left it,
/// or ends as the reassembly of that directory ends.
proof fn lemma_combining_goes_on(
    dir: DirView,
    directory: Seq<MemoryEntryView>,
    state: CombinerView,
    action: CombineActionView,
    memory: Reassembling,
)
    requires
        combining(dir, directory, state, action, memory),
    ensures
        combining_goes_on(dir, directory, state, action, memory),
{
    match state.phase {
        CombinePhase::Listing => lemma_listing_goes_on(dir, directory, state, action, memory),
        CombinePhase::Warning => lemma_listing_goes_on(dir, directory, state, action, memory),
        CombinePhase::Header => lemma_header_goes_on(dir, directory, state, action, memory),
        CombinePhase::Metadata => lemma_naming_goes_on(dir, directory, state, action, memory),
        CombinePhase::Output => lemma_naming_goes_on(dir, directory, state, action, memory),
        CombinePhase::Size => lemma_naming_goes_on(dir, directory, state, action, memory),
        CombinePhase::Chunk => lemma_chunk_goes_on(dir, directory, state, action, memory),
        CombinePhase::Append => lemma_append_goes_on(dir, directory, state, action, memory),
    }
}

/// What a reassembly in memory has come to.
#[derive(Debug, PartialEq, Eq)]
pub struct Reassembly {
    /// The reassembled file, or the error that ended the reassembly.
    pub outcome: Result<MemoryFile, ExpectedErrors>,
    /// Whether an entry that could not be read was reported.
    pub warned: bool,
}

/// The outcome of a reassembly in memory, with each text taken as the
/// characters it holds.
pub open spec fn combine_view(outcome: Result<MemoryFile, ExpectedErrors>) -> Result<
    FileView,
    ErrorView,
> {
    match outcome {
        Ok(file) => Ok(file@),
        Err(error) => Err(error@),
    }
}

fn copy_entry(entry: &DirEntry) -> (copy: DirEntry)
    ensures
        copy@ == entry@,
{
    match entry {
        DirEntry::Unreadable => DirEntry::Unreadable,
        DirEntry::Item { path, extension, is_dir } => DirEntry::Item {
            path: path.clone(),
            extension: match extension {
                Some(extension) => Some(extension.clone()),
                None => None,
            },
            is_dir: *is_dir,
        },
    }
}

fn list(entries: &Vec<MemoryEntry>) -> (listed: Vec<DirEntry>)
    ensures
        listing_view(listed@) == listing_of(directory_view(entries@)),
{
    let mut listed: Vec<DirEntry> = Vec::new();
    let mut i: usize = 0;
    while i < entries.len()
        invariant
            i <= entries.len(),
            listed.len() == i,
            forall|k: int| 0 <= k < i ==> (#[trigger] listed@[k])@ == entries@[k].entry@,
        decreases entries.len() - i,
    {
        listed.push(copy_entry(&entries[i].entry));
        i = i + 1;
    }
    listed
}

/// Reassembles the fragments of a directory held in memory, and gives the
/// reassembled file.
#[verifier::rlimit(50)]
pub fn combine_in_memory(dir: FragmentDir, entries: &Vec<MemoryEntry>) -> (reassembly: Reassembly)
    ensures
        combine_view(reassembly.outcome) == combine_outcome(dir@, directory_view(entries@)),
        reassembly.warned == has_unreadable(listing_of(directory_view(entries@))),
{
    let ghost place = dir@;
    let ghost directory = directory_view(entries@);
    let mut open: Option<usize> = None;
    let mut offset: usize = 0;
    let mut path: String = String::new();
    let mut bytes: Vec<u8> = Vec::new();
    let mut warned: bool = false;
    let (mut combiner, mut action) = match Combiner::start(dir) {
        CombineStep::Finished(outcome) => {
            return Reassembly { outcome: Err(ExpectedErrors::NoFiles), warned };
        },
        CombineStep::Next(combiner, action) => (combiner, action),
    };
    proof {
        assert(directory.len() == entries.len());
        assert forall|i: int| 0 <= i < directory.len() implies (#[trigger] directory[i]).bytes.len()
            <= usize::MAX by {
            assert(directory[i].bytes.len() == entries@[i].bytes.len());
        }
    }
    loop
        invariant
            place == dir@,
            directory == directory_view(entries@),
            combining(
                place,
                directory,
                combiner@,
                action@,
                Reassembling { open, offset: offset as int, path: path@, bytes: bytes@, warned },
            ),
        decreases
            combine_rank(
                directory,
                combiner@,
                Reassembling { open, offset: offset as int, path: path@, bytes: bytes@, warned },
            ).0,
            combine_rank(
                directory,
                combiner@,
                Reassembling { open, offset: offset as int, path: path@, bytes: bytes@, warned },
            ).1,
            combine_rank(
                directory,
                combiner@,
                Reassembling { open, offset: offset as int, path: path@, bytes: bytes@, warned },
            ).2,
            combine_rank(
                directory,
                combiner@,
                Reassembling { open, offset: offset as int, path: path@, bytes: bytes@, warned },
            ).3,
    {
        let ghost memory = Reassembling {
            open,
            offset: offset as int,
            path: path@,
            bytes: bytes@,
            warned,
        };
        proof {
            lemma_combining_goes_on(place, directory, combiner@, action@, memory);
        }
        let event: CombineEvent = match action {
            CombineAction::ListDir => CombineEvent::Listing(Some(list(entries))),
            CombineAction::Warn(_) => {
                warned = true;
                CombineEvent::Done(true)
            },
            CombineAction::ReadHeader { entry } => {
                let held: &Vec<u8> = &entries[entry].bytes;
                if held.len() >= 4 {
                    let header: [u8; 4] = [held[0], held[1], held[2], held[3]];
                    CombineEvent::Header(Some(header))
                } else {
                    CombineEvent::Header(None)
                }
            },
            CombineAction::ReadAll { entry } => CombineEvent::Contents(
                Some(slice_to_vec(entries[entry].bytes.as_slice())),
            ),
            CombineAction::CreateOutput { path: created } => {
                path = created;
                bytes = Vec::new();
                CombineEvent::Output(WriteOutcome::Written)
            },
            CombineAction::QuerySize { entry } => CombineEvent::Size(
                Some(entries[entry].bytes.len() as u64),
            ),
            CombineAction::ReadChunk { entry, max_len } => {
                let held: &Vec<u8> = &entries[entry].bytes;
                let start: usize = match open {
                    Some(reading) => if reading == entry {
                        offset
                    } else {
                        0
                    },
                    None => 0,
                };
                let left: usize = held.len() - start;
                let taken: usize = if max_len < left as u64 {
                    max_len as usize
                } else {
                    left
                };
                let chunk: Vec<u8> = slice_to_vec(
                    slice_subrange(held.as_slice(), start, start + taken),
                );
                if taken == 0 {
                    open = None;
                    offset = 0;
                } else {
                    open = Some(entry);
                    offset = start + taken;
                }
                CombineEvent::Chunk(ReadOutcome::Bytes(chunk))
            },
            CombineAction::Append { bytes: more } => {
                bytes.extend_from_slice(more.as_slice());
                assert(bytes@ =~= memory.bytes + more@);
                CombineEvent::Done(true)
            },
        };
        match combiner.step(event) {
            CombineStep::Finished(Ok(_)) => {
                return Reassembly { outcome: Ok(MemoryFile { path, bytes }), warned };
            },
            CombineStep::Finished(Err(error)) => {
                return Reassembly { outcome: Err(error), warned };
            },
            CombineStep::Next(next, asked) => {
                combiner = next;
                action = asked;
            },
        }
    }
}

/// However the reads from a fragment divide it, what is appended is the
/// fragment without its first four bytes: the header is dropped once, and
/// nothing else is.
pub proof fn lemma_header_dropped_once(reads: Seq<Seq<u8>>)
    ensures
        appended(4, reads) == joined(reads).skip(header_in(4, joined(reads))),
{
    lemma_header_dropped(4, reads);
}

/// What is appended of a run of reads is all but the header bytes that were
/// left to come.
pub proof fn lemma_header_dropped(header_left: int, reads: Seq<Seq<u8>>)
    requires
        0 <= header_left,
    ensures
        appended(header_left, reads) == joined(reads).skip(header_in(header_left, joined(reads))),
    decreases reads.len(),
{
    if reads.len() > 0 {
        lemma_joined_first(reads);
        lemma_header_dropped(
            header_left - header_in(header_left, reads.first()),
            reads.drop_first(),
        );
    }
}

} // verus!
