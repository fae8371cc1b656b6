//! The splitter: the decisions of a split, one file-system operation at a
//! time.
//!
//! A split starts with [`Splitter::start`]. Each step names the operation
//! that the caller is to perform next; the caller performs it and reports the
//! outcome to [`Splitter::step`], until a step says that the split has
//! finished. An outcome that does not answer the operation asked for counts as
//! that operation's failure.

use crate::file_service::{
    check_chunk_size, check_source_size, chunk_size_error, data_file_name, data_path, frame,
    fragment_bytes, fragment_dir, fragment_dir_name, metadata_file_name, metadata_path,
    payload_capacity, payload_len, source_size_error, write_error, write_failure, WriteOutcome,
};
use crate::{ErrorView, ExpectedErrors};
use vstd::prelude::*;

verus! {

/// What a split needs to know of its source file's path. The texts are the
/// forms in which the paths are shown.
#[derive(Debug, PartialEq, Eq)]
pub struct SourceFile {
    /// The path of the source file.
    pub path: String,
    /// The directory that holds the source file, if the path has one.
    pub parent: Option<String>,
    /// The file name without its extension, if the path has one that is valid
    /// UTF-8.
    pub stem: Option<String>,
    /// The bytes of the file name, extension included, if the path has one.
    pub name: Option<Vec<u8>>,
}

/// A source file's path, with each text taken as the characters it holds.
pub struct SourceView {
    pub path: Seq<char>,
    pub parent: Option<Seq<char>>,
    pub stem: Option<Seq<char>>,
    pub name: Option<Seq<u8>>,
}

impl View for SourceFile {
    type V = SourceView;

    open spec fn view(&self) -> SourceView {
        SourceView {
            path: self.path@,
            parent: match self.parent {
                Some(parent) => Some(parent@),
                None => None,
            },
            stem: match self.stem {
                Some(stem) => Some(stem@),
                None => None,
            },
            name: match self.name {
                Some(name) => Some(name@),
                None => None,
            },
        }
    }
}

/// The operation whose outcome a splitter waits for.
#[derive(Debug, Clone, Copy, PartialEq, Eq)]
pub enum SplitPhase {
    /// Reading the size of the source file.
    Size,
    /// Creating the fragment directory.
    Directory,
    /// Opening the source file.
    Source,
    /// Writing the metadata fragment.
    Metadata,
    /// Reading the next chunk of the source file.
    Chunk,
    /// Writing a data fragment.
    Fragment,
}

/// A split in progress.
#[derive(Debug, PartialEq, Eq)]
pub struct Splitter {
    /// The source file's path.
    pub source: SourceFile,
    /// The size of a full fragment, header included.
    pub chunk_size: u64,
    /// The fragment directory; empty until the source's size has been
    /// accepted.
    pub dir: String,
    /// The number of data fragments written so far.
    pub written: u32,
    /// The operation whose outcome is awaited.
    pub phase: SplitPhase,
}

/// A split in progress, with each text taken as the characters it holds.
pub struct SplitterView {
    pub source: SourceView,
    pub chunk_size: u64,
    pub dir: Seq<char>,
    pub written: u32,
    pub phase: SplitPhase,
}

impl View for Splitter {
    type V = SplitterView;

    open spec fn view(&self) -> SplitterView {
        SplitterView {
            source: self.source@,
            chunk_size: self.chunk_size,
            dir: self.dir@,
            written: self.written,
            phase: self.phase,
        }
    }
}

/// An operation that a splitter asks its caller to perform.
#[derive(Debug, PartialEq, Eq)]
pub enum SplitAction {
    /// Read the size of the source file. Answered by [`SplitEvent::Size`].
    QuerySize,
    /// Create the directory at `path`, with the directories above it that are
    /// missing. Answered by [`SplitEvent::Done`].
    CreateDir { path: String },
    /// Open the source file for reading. Answered by [`SplitEvent::Done`].
    OpenSource,
    /// Create the file at `path` and write `bytes` to it. Answered by
    /// [`SplitEvent::Written`].
    WriteFile { path: String, bytes: Vec<u8> },
    /// Read up to `max_len` bytes from where the last read of the source file
    /// ended. Answered by [`SplitEvent::Chunk`].
    ReadChunk { max_len: u64 },
}

/// An operation asked for, with each text taken as the characters it holds.
pub enum SplitActionView {
    QuerySize,
    CreateDir { path: Seq<char> },
    OpenSource,
    WriteFile { path: Seq<char>, bytes: Seq<u8> },
    ReadChunk { max_len: u64 },
}

impl View for SplitAction {
    type V = SplitActionView;

    open spec fn view(&self) -> SplitActionView {
        match self {
            SplitAction::QuerySize => SplitActionView::QuerySize,
            SplitAction::CreateDir { path } => SplitActionView::CreateDir { path: path@ },
            SplitAction::OpenSource => SplitActionView::OpenSource,
            SplitAction::WriteFile { path, bytes } => SplitActionView::WriteFile {
                path: path@,
                bytes: bytes@,
            },
            SplitAction::ReadChunk { max_len } => SplitActionView::ReadChunk { max_len: *max_len },
        }
    }
}

/// The outcome of an operation that a splitter asked for.
#[derive(Debug, PartialEq, Eq)]
pub enum SplitEvent {
    /// The size of the source file in bytes, or `None` where it could not be
    /// read.
    Size(Option<u64>),
    /// Whether the directory was created, or the source file opened.
    Done(bool),
    /// How the writing of a fragment ended.
    Written(WriteOutcome),
    /// The bytes read from the source file, none at its end, or `None` where
    /// the read failed.
    Chunk(Option<Vec<u8>>),
}

/// An outcome, with the bytes read taken as a sequence.
pub enum SplitEventView {
    Size(Option<u64>),
    Done(bool),
    Written(WriteOutcome),
    Chunk(Option<Seq<u8>>),
}

impl View for SplitEvent {
    type V = SplitEventView;

    open spec fn view(&self) -> SplitEventView {
        match self {
            SplitEvent::Size(size) => SplitEventView::Size(*size),
            SplitEvent::Done(done) => SplitEventView::Done(*done),
            SplitEvent::Written(outcome) => SplitEventView::Written(*outcome),
            SplitEvent::Chunk(Some(bytes)) => SplitEventView::Chunk(Some(bytes@)),
            SplitEvent::Chunk(None) => SplitEventView::Chunk(None),
        }
    }
}

/// What a splitter does next.
#[derive(Debug, PartialEq, Eq)]
pub enum SplitStep {
    /// The split goes on: the caller performs the action and reports its
    /// outcome to the splitter.
    Next(Splitter, SplitAction),
    /// The split has ended, well or with the error that stopped it.
    Finished(Result<(), ExpectedErrors>),
}

/// A step, with each text taken as the characters it holds.
pub enum SplitStepView {
    Next(SplitterView, SplitActionView),
    Finished(Result<(), ErrorView>),
}

impl View for SplitStep {
    type V = SplitStepView;

    open spec fn view(&self) -> SplitStepView {
        match self {
            SplitStep::Next(splitter, action) => SplitStepView::Next(splitter@, action@),
            SplitStep::Finished(Ok(_)) => SplitStepView::Finished(Ok(())),
            SplitStep::Finished(Err(error)) => SplitStepView::Finished(Err(error@)),
        }
    }
}

/// The first step of a split. A chunk size out of range ends it before
/// anything is asked of the file system; otherwise the size of the source is
/// asked for.
pub open spec fn split_start(source: SourceView, chunk_size: u64) -> SplitStepView {
    match chunk_size_error(chunk_size) {
        Some(error) => SplitStepView::Finished(Err(error)),
        None => SplitStepView::Next(
            SplitterView {
                source,
                chunk_size,
                dir: Seq::empty(),
                written: 0,
                phase: SplitPhase::Size,
            },
            SplitActionView::QuerySize,
        ),
    }
}

/// The step that follows an outcome.
///
/// - The size of the source: a source smaller than a chunk, or larger than
///   the limit, ends the split, as does a path without a parent or without a
///   stem. Otherwise the fragment directory is to be created.
/// - The directory created: the source is to be opened.
/// - The source opened: the metadata fragment is to be written, which holds
///   sequence number 0 and the source's file name.
/// - A fragment written: the next chunk is to be read, of as many bytes as a
///   fragment holds beside its header.
/// - A chunk read: an empty chunk ends the split well. Any other is to be
///   written as the data fragment with the next sequence number; the split
///   ends with `GiantFile` where the sequence numbers have run out.
/// - An operation failed: the split ends with that operation's error.
pub open spec fn split_next(state: SplitterView, event: SplitEventView) -> SplitStepView {
    match state.phase {
        SplitPhase::Size => match event {
            SplitEventView::Size(Some(size)) => match source_size_error(size, state.chunk_size) {
                Some(error) => SplitStepView::Finished(Err(error)),
                None => match state.source.parent {
                    None => SplitStepView::Finished(Err(ErrorView::NoParent)),
                    Some(parent) => match state.source.stem {
                        None => SplitStepView::Finished(Err(ErrorView::NoName)),
                        Some(stem) => SplitStepView::Next(
                            SplitterView {
                                dir: fragment_dir(parent, stem),
                                phase: SplitPhase::Directory,
                                ..state
                            },
                            SplitActionView::CreateDir { path: fragment_dir(parent, stem) },
                        ),
                    },
                },
            },
            _ => SplitStepView::Finished(Err(ErrorView::CouldNotReadFile(state.source.path))),
        },
        SplitPhase::Directory => match event {
            SplitEventView::Done(true) => SplitStepView::Next(
                SplitterView { phase: SplitPhase::Source, ..state },
                SplitActionView::OpenSource,
            ),
            _ => SplitStepView::Finished(Err(ErrorView::CouldNotMakeDir(state.dir))),
        },
        SplitPhase::Source => match event {
            SplitEventView::Done(true) => match state.source.name {
                None => SplitStepView::Finished(Err(ErrorView::NoName)),
                Some(name) => SplitStepView::Next(
                    SplitterView { phase: SplitPhase::Metadata, ..state },
                    SplitActionView::WriteFile {
                        path: metadata_path(state.dir),
                        bytes: fragment_bytes(0, name),
                    },
                ),
            },
            _ => SplitStepView::Finished(Err(ErrorView::UnreadableFile)),
        },
        SplitPhase::Metadata => match event {
            SplitEventView::Written(WriteOutcome::Written) => SplitStepView::Next(
                SplitterView { phase: SplitPhase::Chunk, ..state },
                SplitActionView::ReadChunk { max_len: payload_capacity(state.chunk_size) },
            ),
            SplitEventView::Written(outcome) => SplitStepView::Finished(
                Err(
                    write_error(
                        outcome,
                        metadata_path(state.dir),
                        ErrorView::CouldNotReadFile(metadata_path(state.dir)),
                    ),
                ),
            ),
            _ => SplitStepView::Finished(
                Err(ErrorView::CouldNotWriteFile(metadata_path(state.dir))),
            ),
        },
        SplitPhase::Chunk => match event {
            SplitEventView::Chunk(Some(bytes)) => if bytes.len() == 0 {
                SplitStepView::Finished(Ok(()))
            } else if state.written == u32::MAX {
                SplitStepView::Finished(Err(ErrorView::GiantFile))
            } else {
                SplitStepView::Next(
                    SplitterView { phase: SplitPhase::Fragment, ..state },
                    SplitActionView::WriteFile {
                        path: data_path(state.dir, (state.written + 1) as u32),
                        bytes: fragment_bytes((state.written + 1) as u32, bytes),
                    },
                )
            },
            _ => SplitStepView::Finished(Err(ErrorView::CouldNotReadFile(state.source.path))),
        },
        SplitPhase::Fragment => if state.written == u32::MAX {
            SplitStepView::Finished(Err(ErrorView::GiantFile))
        } else {
            match event {
                SplitEventView::Written(WriteOutcome::Written) => SplitStepView::Next(
                    SplitterView {
                        written: (state.written + 1) as u32,
                        phase: SplitPhase::Chunk,
                        ..state
                    },
                    SplitActionView::ReadChunk { max_len: payload_capacity(state.chunk_size) },
                ),
                SplitEventView::Written(outcome) => SplitStepView::Finished(
                    Err(
                        write_error(
                            outcome,
                            data_path(state.dir, (state.written + 1) as u32),
                            ErrorView::UnreadableFile,
                        ),
                    ),
                ),
                _ => SplitStepView::Finished(
                    Err(
                        ErrorView::CouldNotWriteFile(
                            data_path(state.dir, (state.written + 1) as u32),
                        ),
                    ),
                ),
            }
        },
    }
}

/// Whether an action changes the file system.
pub open spec fn changes_files(action: SplitActionView) -> bool {
    action is CreateDir || action is WriteFile
}

/// Nothing is changed in the file system before the chunk size and the
/// source's size have been accepted: a split starts by asking for the size,
/// or ends at once; and what follows the size changes the file system only
/// where neither the chunk size nor the size is refused.
pub proof fn lemma_checks_come_first(source: SourceView, chunk_size: u64, event: SplitEventView)
    ensures
        match split_start(source, chunk_size) {
            SplitStepView::Finished(outcome) => outcome is Err && chunk_size_error(chunk_size)
                == Some(outcome->Err_0),
            SplitStepView::Next(state, action) => {
                &&& chunk_size_error(chunk_size) is None
                &&& !changes_files(action)
                &&& split_next(state, event) matches SplitStepView::Next(_, asked) ==> {
                    &&& event matches SplitEventView::Size(Some(size))
                    &&& source_size_error(size, chunk_size) is None
                }
            },
        },
{
}

impl Splitter {
    /// Starts the split of a source file into fragments of `chunk_size`
    /// bytes.
    pub fn start(source: SourceFile, chunk_size: u64) -> (step: SplitStep)
        ensures
            step@ == split_start(source@, chunk_size),
    {
        match check_chunk_size(chunk_size) {
            Err(error) => SplitStep::Finished(Err(error)),
            Ok(_) => SplitStep::Next(
                Splitter {
                    source,
                    chunk_size,
                    dir: String::new(),
                    written: 0,
                    phase: SplitPhase::Size,
                },
                SplitAction::QuerySize,
            ),
        }
    }

    /// Takes the outcome of the operation asked for last and says what
    /// follows.
    pub fn step(self, event: SplitEvent) -> (step: SplitStep)
        ensures
            step@ == split_next(self@, event@),
    {
        let Splitter { source, chunk_size, dir, written, phase } = self;
        match phase {
            SplitPhase::Size => match event {
                SplitEvent::Size(Some(size)) => match check_source_size(size, chunk_size) {
                    Err(error) => SplitStep::Finished(Err(error)),
                    Ok(_) => match &source.parent {
                        None => SplitStep::Finished(Err(ExpectedErrors::NoParent)),
                        Some(parent) => match &source.stem {
                            None => SplitStep::Finished(Err(ExpectedErrors::NoName)),
                            Some(stem) => {
                                let dir: String = fragment_dir_name(
                                    parent.as_str(),
                                    stem.as_str(),
                                );
                                let path: String = dir.clone();
                                SplitStep::Next(
                                    Splitter {
                                        source,
                                        chunk_size,
                                        dir,
                                        written,
                                        phase: SplitPhase::Directory,
                                    },
                                    SplitAction::CreateDir { path },
                                )
                            },
                        },
                    },
                },
                _ => SplitStep::Finished(Err(ExpectedErrors::CouldNotReadFile(source.path))),
            },
            SplitPhase::Directory => match event {
                SplitEvent::Done(true) => SplitStep::Next(
                    Splitter { source, chunk_size, dir, written, phase: SplitPhase::Source },
                    SplitAction::OpenSource,
                ),
                _ => SplitStep::Finished(Err(ExpectedErrors::CouldNotMakeDir(dir))),
            },
            SplitPhase::Source => match event {
                SplitEvent::Done(true) => match &source.name {
                    None => SplitStep::Finished(Err(ExpectedErrors::NoName)),
                    Some(name) => {
                        let path: String = metadata_file_name(dir.as_str());
                        let bytes: Vec<u8> = frame(0, name.as_slice());
                        SplitStep::Next(
                            Splitter {
                                source,
                                chunk_size,
                                dir,
                                written,
                                phase: SplitPhase::Metadata,
                            },
                            SplitAction::WriteFile { path, bytes },
                        )
                    },
                },
                _ => SplitStep::Finished(Err(ExpectedErrors::UnreadableFile)),
            },
            SplitPhase::Metadata => match event {
                SplitEvent::Written(WriteOutcome::Written) => SplitStep::Next(
                    Splitter { source, chunk_size, dir, written, phase: SplitPhase::Chunk },
                    SplitAction::ReadChunk { max_len: payload_len(chunk_size) },
                ),
                SplitEvent::Written(outcome) => {
                    let path: String = metadata_file_name(dir.as_str());
                    let not_opened: ExpectedErrors = ExpectedErrors::CouldNotReadFile(
                        metadata_file_name(dir.as_str()),
                    );
                    SplitStep::Finished(Err(write_failure(outcome, path, not_opened)))
                },
                _ => SplitStep::Finished(
                    Err(ExpectedErrors::CouldNotWriteFile(metadata_file_name(dir.as_str()))),
                ),
            },
            SplitPhase::Chunk => match event {
                SplitEvent::Chunk(Some(bytes)) => if bytes.len() == 0 {
                    SplitStep::Finished(Ok(()))
                } else if written == u32::MAX {
                    SplitStep::Finished(Err(ExpectedErrors::GiantFile))
                } else {
                    let number: u32 = written + 1;
                    let path: String = data_file_name(dir.as_str(), number);
                    let framed: Vec<u8> = frame(number, bytes.as_slice());
                    SplitStep::Next(
                        Splitter { source, chunk_size, dir, written, phase: SplitPhase::Fragment },
                        SplitAction::WriteFile { path, bytes: framed },
                    )
                },
                _ => SplitStep::Finished(Err(ExpectedErrors::CouldNotReadFile(source.path))),
            },
            SplitPhase::Fragment => if written == u32::MAX {
                SplitStep::Finished(Err(ExpectedErrors::GiantFile))
            } else {
                let number: u32 = written + 1;
                match event {
                    SplitEvent::Written(WriteOutcome::Written) => SplitStep::Next(
                        Splitter {
                            source,
                            chunk_size,
                            dir,
                            written: number,
                            phase: SplitPhase::Chunk,
                        },
                        SplitAction::ReadChunk { max_len: payload_len(chunk_size) },
                    ),
                    SplitEvent::Written(outcome) => {
                        let path: String = data_file_name(dir.as_str(), number);
                        SplitStep::Finished(
                            Err(write_failure(outcome, path, ExpectedErrors::UnreadableFile)),
                        )
                    },
                    _ => SplitStep::Finished(
                        Err(
                            ExpectedErrors::CouldNotWriteFile(
                                data_file_name(dir.as_str(), number),
                            ),
                        ),
                    ),
                }
            },
        }
    }
}

} // verus!
