//! The split of a source held in memory.

use crate::file_service::{
    chunk_size_error, data_path, fragment_bytes, fragment_dir, lemma_paths_differ, metadata_path,
    payload_capacity, source_size_error, WriteOutcome,
};
use crate::memory::{
    files_view, joined, lemma_joined_concat, lemma_joined_single, FileView, MemoryFile,
};
use crate::splitter::{
    split_next, SourceFile, SourceView, SplitAction, SplitActionView, SplitEvent, SplitEventView,
    SplitPhase, SplitStep, SplitStepView, Splitter, SplitterView,
};
use crate::{ErrorView, ExpectedErrors};
use vstd::prelude::*;
use vstd::slice::{slice_subrange, slice_to_vec};

verus! {

/// The pieces that content is read in: each of `capacity` bytes, but for the
/// last one, which holds what is left.
pub open spec fn chunks(content: Seq<u8>, capacity: int) -> Seq<Seq<u8>>
    decreases content.len(),
{
    if content.len() == 0 || capacity <= 0 {
        Seq::empty()
    } else if content.len() <= capacity {
        seq![content]
    } else {
        seq![content.take(capacity)] + chunks(content.skip(capacity), capacity)
    }
}

/// The fragment files of a split: the metadata fragment with the source's
/// name, then one data fragment for each piece, numbered from 1.
pub open spec fn split_files(dir: Seq<char>, name: Seq<u8>, pieces: Seq<Seq<u8>>) -> Seq<
    FileView,
> {
    Seq::new(
        pieces.len() + 1,
        |i: int|
            if i == 0 {
                FileView { path: metadata_path(dir), bytes: fragment_bytes(0, name) }
            } else {
                FileView {
                    path: data_path(dir, i as u32),
                    bytes: fragment_bytes(i as u32, pieces[i - 1]),
                }
            },
    )
}

/// What the split of a source that holds `content` comes to: the error that
/// refuses the chunk size, the size of the source or its path, `GiantFile`
/// where the content makes more pieces than there are sequence numbers, and
/// otherwise the fragment files.
pub open spec fn split_outcome(source: SourceView, content: Seq<u8>, chunk_size: u64) -> Result<
    Seq<FileView>,
    ErrorView,
> {
    let pieces = chunks(content, payload_capacity(chunk_size) as int);
    if let Some(error) = chunk_size_error(chunk_size) {
        Err(error)
    } else if let Some(error) = source_size_error(content.len() as u64, chunk_size) {
        Err(error)
    } else if source.parent is None {
        Err(ErrorView::NoParent)
    } else if source.stem is None || source.name is None {
        Err(ErrorView::NoName)
    } else if pieces.len() > u32::MAX {
        Err(ErrorView::GiantFile)
    } else {
        Ok(split_files(fragment_dir(source.parent->0, source.stem->0), source.name->0, pieces))
    }
}

/// The pieces of content, joined, are the content.
pub proof fn lemma_chunks_joined(content: Seq<u8>, capacity: int)
    requires
        capacity > 0,
    ensures
        joined(chunks(content, capacity)) == content,
    decreases content.len(),
{
    if 0 < content.len() <= capacity {
        lemma_joined_single(content);
    } else if content.len() > capacity {
        let rest = chunks(content.skip(capacity), capacity);
        lemma_chunks_joined(content.skip(capacity), capacity);
        lemma_joined_concat(seq![content.take(capacity)], rest);
        lemma_joined_single(content.take(capacity));
    }
}

/// A source that is no smaller than one chunk is split into two data
/// fragments or more.
pub proof fn lemma_at_least_two_pieces(content: Seq<u8>, chunk_size: u64)
    requires
        chunk_size_error(chunk_size) is None,
        content.len() >= chunk_size,
    ensures
        chunks(content, payload_capacity(chunk_size) as int).len() >= 2,
{
    let capacity = payload_capacity(chunk_size) as int;
    let rest = content.skip(capacity);
    assert(chunks(rest, capacity).len() >= 1);
}

/// The fragment files of a split have paths of their own.
pub proof fn lemma_split_files_apart(dir: Seq<char>, name: Seq<u8>, pieces: Seq<Seq<u8>>)
    requires
        pieces.len() <= u32::MAX,
    ensures
        forall|a: int, b: int|
            0 <= a < b < split_files(dir, name, pieces).len() ==> (#[trigger] split_files(
                dir,
                name,
                pieces,
            )[a]).path != (#[trigger] split_files(dir, name, pieces)[b]).path,
{
    let files = split_files(dir, name, pieces);
    assert forall|a: int, b: int| 0 <= a < b < files.len() implies (#[trigger] files[a]).path != (
    #[trigger] files[b]).path by {
        lemma_paths_differ(dir, b as u32, a as u32);
    }
}

/// A source without content is split into the metadata fragment alone.
pub proof fn lemma_no_content_no_pieces(dir: Seq<char>, name: Seq<u8>, capacity: int)
    ensures
        chunks(Seq::empty(), capacity).len() == 0,
        split_files(dir, name, chunks(Seq::empty(), capacity)) == seq![
            FileView { path: metadata_path(dir), bytes: fragment_bytes(0, name) },
        ],
{
}

/// The chunk that is read at a position, followed by the pieces of what is
/// left, makes the pieces from that position on.
proof fn lemma_chunks_from(content: Seq<u8>, position: int, capacity: int)
    requires
        0 <= position < content.len(),
        capacity > 0,
    ensures
        ({
            let left = content.len() - position;
            let taken = if capacity < left {
                capacity
            } else {
                left
            };
            chunks(content.skip(position), capacity) == seq![
                content.subrange(position, position + taken),
            ] + chunks(content.skip(position + taken), capacity)
        }),
{
    let rest = content.skip(position);
    if rest.len() > capacity {
        assert(rest.take(capacity) =~= content.subrange(position, position + capacity));
        assert(rest.skip(capacity) =~= content.skip(position + capacity));
    }
}

/// The result of a split in memory, with each text taken as the characters
/// it holds.
pub open spec fn split_view(result: Result<Vec<MemoryFile>, ExpectedErrors>) -> Result<
    Seq<FileView>,
    ErrorView,
> {
    match result {
        Ok(files) => Ok(files_view(files@)),
        Err(error) => Err(error@),
    }
}

/// How far a splitter has come on a source in memory, while it asks for
/// `action`: the fragment files written so far are those of `pieces`, the
/// pieces that the content makes up to `position`.
spec fn splitting(
    source: SourceView,
    content: Seq<u8>,
    chunk_size: u64,
    state: SplitterView,
    action: SplitActionView,
    files: Seq<FileView>,
    pieces: Seq<Seq<u8>>,
    position: int,
) -> bool {
    let capacity = payload_capacity(chunk_size) as int;
    let dir = fragment_dir(source.parent->0, source.stem->0);
    let name = source.name->0;
    let started = state.written == 0 && files.len() == 0 && pieces.len() == 0 && position == 0;
    let sized = source_size_error(content.len() as u64, chunk_size) is None && source.parent is Some
        && source.stem is Some && state.dir == dir;
    &&& chunk_size_error(chunk_size) is None
    &&& state.source == source
    &&& state.chunk_size == chunk_size
    &&& 0 <= position <= content.len()
    &&& match state.phase {
        SplitPhase::Size => started && action == SplitActionView::QuerySize,
        SplitPhase::Directory => started && sized && action == (SplitActionView::CreateDir {
            path: dir,
        }),
        SplitPhase::Source => started && sized && action == SplitActionView::OpenSource,
        SplitPhase::Metadata => started && sized && source.name is Some && action == (
        SplitActionView::WriteFile { path: metadata_path(dir), bytes: fragment_bytes(0, name) }),
        SplitPhase::Chunk => {
            &&& sized
            &&& source.name is Some
            &&& action == (SplitActionView::ReadChunk { max_len: capacity as u64 })
            &&& state.written == pieces.len()
            &&& files == split_files(dir, name, pieces)
            &&& pieces + chunks(content.skip(position), capacity) == chunks(content, capacity)
        },
        SplitPhase::Fragment => {
            &&& sized
            &&& source.name is Some
            &&& pieces.len() >= 1
            &&& state.written == pieces.len() - 1
            &&& state.written < u32::MAX
            &&& action == (SplitActionView::WriteFile {
                path: data_path(dir, pieces.len() as u32),
                bytes: fragment_bytes(pieces.len() as u32, pieces.last()),
            })
            &&& files == split_files(dir, name, pieces.drop_last())
            &&& pieces + chunks(content.skip(position), capacity) == chunks(content, capacity)
        },
    }
}

/// The steps that a splitter has left at most in a phase, while the position
/// in the source stands still.
spec fn split_rank(phase: SplitPhase) -> nat {
    match phase {
        SplitPhase::Size => 5,
        SplitPhase::Directory => 4,
        SplitPhase::Source => 3,
        SplitPhase::Metadata => 2,
        SplitPhase::Fragment => 1,
        SplitPhase::Chunk => 0,
    }
}

/// What a source in memory answers to an action at a position: the event,
/// and the position after it. Every operation succeeds; a read gives the
/// bytes from the position on, as many as were asked for or as are left.
spec fn split_answer(content: Seq<u8>, position: int, action: SplitActionView) -> (
    SplitEventView,
    int,
) {
    match action {
        SplitActionView::QuerySize => (SplitEventView::Size(Some(content.len() as u64)), position),
        SplitActionView::CreateDir { .. } => (SplitEventView::Done(true), position),
        SplitActionView::OpenSource => (SplitEventView::Done(true), position),
        SplitActionView::WriteFile { .. } => (
            SplitEventView::Written(WriteOutcome::Written),
            position,
        ),
        SplitActionView::ReadChunk { max_len } => {
            let left = content.len() - position;
            let taken = if max_len < left {
                max_len as int
            } else {
                left
            };
            (
                SplitEventView::Chunk(Some(content.subrange(position, position + taken))),
                position + taken,
            )
        },
    }
}

/// The files in memory after an action.
spec fn files_after(files: Seq<FileView>, action: SplitActionView) -> Seq<FileView> {
    match action {
        SplitActionView::WriteFile { path, bytes } => files.push(FileView { path, bytes }),
        _ => files,
    }
}

/// The pieces read after an action.
spec fn pieces_after(
    content: Seq<u8>,
    position: int,
    pieces: Seq<Seq<u8>>,
    action: SplitActionView,
) -> Seq<Seq<u8>> {
    match action {
        SplitActionView::ReadChunk { max_len } => if max_len > 0 && position < content.len() {
            pieces.push(content.subrange(position, split_answer(content, position, action).1))
        } else {
            pieces
        },
        _ => pieces,
    }
}

/// A splitter that has come some way on a source in memory, and is answered
/// from memory, either goes on from where the answer has left it, or ends as
/// the split of that source ends.
proof fn lemma_splitting_goes_on(
    source: SourceView,
    content: Seq<u8>,
    chunk_size: u64,
    state: SplitterView,
    action: SplitActionView,
    files: Seq<FileView>,
    pieces: Seq<Seq<u8>>,
    position: int,
)
    requires
        splitting(source, content, chunk_size, state, action, files, pieces, position),
        content.len() <= usize::MAX,
    ensures
        ({
            let (event, moved) = split_answer(content, position, action);
            let written = files_after(files, action);
            let read = pieces_after(content, position, pieces, action);
            match split_next(state, event) {
                SplitStepView::Finished(Ok(_)) => split_outcome(source, content, chunk_size)
                    == Ok::<Seq<FileView>, ErrorView>(written),
                SplitStepView::Finished(Err(error)) => split_outcome(source, content, chunk_size)
                    == Err::<Seq<FileView>, ErrorView>(error),
                SplitStepView::Next(next, asked) => {
                    &&& splitting(source, content, chunk_size, next, asked, written, read, moved)
                    &&& position <= moved <= content.len()
                    &&& moved == position ==> split_rank(next.phase) < split_rank(state.phase)
                },
            }
        }),
{
    let capacity = payload_capacity(chunk_size) as int;
    let dir = fragment_dir(source.parent->0, source.stem->0);
    let name = source.name->0;
    let (event, moved) = split_answer(content, position, action);
    let written = files_after(files, action);
    let read = pieces_after(content, position, pieces, action);
    match state.phase {
        SplitPhase::Size => {},
        SplitPhase::Directory => {},
        SplitPhase::Source => {},
        SplitPhase::Metadata => {
            assert(written =~= split_files(dir, name, pieces));
            assert(content.skip(0) =~= content);
        },
        SplitPhase::Chunk => {
            if position < content.len() {
                lemma_chunks_from(content, position, capacity);
                let chunk = content.subrange(position, moved);
                let rest = chunks(content.skip(moved), capacity);
                assert(pieces + (seq![chunk] + rest) =~= pieces.push(chunk) + rest);
                assert(read.drop_last() =~= pieces);
            }
        },
        SplitPhase::Fragment => {
            assert(written =~= split_files(dir, name, pieces));
        },
    }
}

/// Splits content held in memory as the file that `source` names, into
/// fragments of `chunk_size` bytes, and gives the fragment files in the order
/// in which they were written.
pub fn split_in_memory(source: SourceFile, content: &[u8], chunk_size: u64) -> (result: Result<
    Vec<MemoryFile>,
    ExpectedErrors,
>)
    ensures
        split_view(result) == split_outcome(source@, content@, chunk_size),
{
    let ghost origin = source@;
    let mut files: Vec<MemoryFile> = Vec::new();
    let mut position: usize = 0;
    let ghost mut pieces: Seq<Seq<u8>> = Seq::empty();
    let (mut splitter, mut action) = match Splitter::start(source, chunk_size) {
        SplitStep::Finished(Ok(_)) => {
            return Ok(files);
        },
        SplitStep::Finished(Err(error)) => {
            return Err(error);
        },
        SplitStep::Next(splitter, action) => (splitter, action),
    };
    loop
        invariant
            origin == source@,
            splitting(
                origin,
                content@,
                chunk_size,
                splitter@,
                action@,
                files_view(files@),
                pieces,
                position as int,
            ),
        decreases content.len() - position, split_rank(splitter.phase),
    {
        let ghost before = files_view(files@);
        proof {
            lemma_splitting_goes_on(
                origin,
                content@,
                chunk_size,
                splitter@,
                action@,
                before,
                pieces,
                position as int,
            );
            pieces = pieces_after(content@, position as int, pieces, action@);
        }
        let event: SplitEvent = match action {
            SplitAction::QuerySize => SplitEvent::Size(Some(content.len() as u64)),
            SplitAction::CreateDir { path: _ } => SplitEvent::Done(true),
            SplitAction::OpenSource => SplitEvent::Done(true),
            SplitAction::WriteFile { path, bytes } => {
                let file = MemoryFile { path, bytes };
                files.push(file);
                assert(files_view(files@) =~= before.push(file@));
                SplitEvent::Written(WriteOutcome::Written)
            },
            SplitAction::ReadChunk { max_len } => {
                let left: usize = content.len() - position;
                let taken: usize = if max_len < left as u64 {
                    max_len as usize
                } else {
                    left
                };
                let chunk: Vec<u8> = slice_to_vec(
                    slice_subrange(content, position, position + taken),
                );
                position = position + taken;
                SplitEvent::Chunk(Some(chunk))
            },
        };
        match splitter.step(event) {
            SplitStep::Finished(Ok(_)) => {
                return Ok(files);
            },
            SplitStep::Finished(Err(error)) => {
                return Err(error);
            },
            SplitStep::Next(next, asked) => {
                splitter = next;
                action = asked;
            },
        }
    }
}

} // verus!
