//! Splits a file into numbered fragment files and puts such fragments back
//! together.
//!
//! A fragment is a file that starts with a four-byte sequence number. The
//! fragment with the number 0 holds the name of the source file; the others
//! hold its content, piece by piece, numbered from 1.
//!
//! The crate holds the decisions of both pipelines and none of their I/O: a
//! caller performs each requested action on its file system and reports what
//! happened.
//!
//! - [`file_service`]: the limits on sizes, the header, the framing of a
//!   fragment, and the names of fragment files.
//! - [`splitter`]: the split of a source file, step by step.
//! - [`combiner`]: the reassembly of a fragment directory, step by step.
//! - [`sorting`]: the order in which fragments are put back together.
//! - [`memory`]: both pipelines run on files held in memory, and what they
//!   come to.
//! - [`round_trip`]: a split followed by a reassembly gives the source back.
//! - [`bystanders`]: entries that are no fragments change nothing.

use vstd::prelude::*;

pub mod bystanders;
pub mod combiner;
pub mod file_service;
pub mod memory;
pub mod round_trip;
pub mod sorting;
pub mod splitter;

verus! {

/// A check on an optional value.
pub trait Criterion<T> {
    /// Keeps `self` where it holds a value that `filter` accepts, and gives
    /// `None` otherwise.
    fn meets_criteria<F: Fn(&T) -> bool>(&self, filter: F) -> (kept: &Self)
        requires
            self.held() matches Some(item) ==> filter.requires((&item,)),
        ensures
            self.held() matches Some(item) ==> (filter.ensures((&item,), true) && kept.held()
                == self.held()) || (filter.ensures((&item,), false) && kept.held() is None),
            self.held() is None ==> kept.held() is None,
    ;

    /// The value that is checked, if there is one.
    spec fn held(&self) -> Option<T>;
}

impl<T> Criterion<T> for Option<T> {
    open spec fn held(&self) -> Option<T> {
        *self
    }

    fn meets_criteria<F: Fn(&T) -> bool>(&self, filter: F) -> (kept: &Self) {
        if let Some(item) = self {
            let passes = filter(item);
            if passes {
                self
            } else {
                &None
            }
        } else {
            &None
        }
    }
}

/// Why a split or a reassembly stopped. An error of the file system carries
/// the path that the failed operation was asked for.
#[derive(Debug, PartialEq, Eq)]
pub enum ExpectedErrors {
    /// A file could not be opened.
    UnreadableFile,
    /// An entry of the fragment directory could not be read.
    BadFiles,
    /// The fragment directory holds no fragment.
    NoFiles,
    /// No folder was chosen.
    NoFolder,
    /// The source file's path has no parent directory.
    NoParent,
    /// The fragment directory's path has no parent directory.
    NullPath,
    /// The source file's path has no file name, or none that is valid UTF-8.
    NoName,
    /// The directory at the path could not be created.
    CouldNotMakeDir(String),
    /// The file at the path could not be created.
    CouldNotCreateFile(String),
    /// The file at the path could not be written.
    CouldNotWriteFile(String),
    /// The directory at the path could not be listed.
    CouldNotReadDir(String),
    /// The chunk size, which is above the limit that follows it.
    FileTooBig(u64, u64),
    /// The chunk size, which is below the smallest chunk size; the largest
    /// chunk size follows it.
    FileTooSmall(u64, u64),
    /// The file at the path could not be read, or holds fewer bytes than a
    /// fragment's header.
    CouldNotReadFile(String),
    /// The source file is smaller than one chunk.
    FileLargerThanChunkSize,
    /// The name in the metadata fragment is not valid UTF-8.
    InvalidString,
    /// The source file is larger than the largest file that is split, or
    /// makes more fragments than there are sequence numbers.
    GiantFile,
}

/// An error with each path taken as the characters it holds.
pub enum ErrorView {
    UnreadableFile,
    BadFiles,
    NoFiles,
    NoFolder,
    NoParent,
    NullPath,
    NoName,
    CouldNotMakeDir(Seq<char>),
    CouldNotCreateFile(Seq<char>),
    CouldNotWriteFile(Seq<char>),
    CouldNotReadDir(Seq<char>),
    FileTooBig(u64, u64),
    FileTooSmall(u64, u64),
    CouldNotReadFile(Seq<char>),
    FileLargerThanChunkSize,
    InvalidString,
    GiantFile,
}

impl View for ExpectedErrors {
    type V = ErrorView;

    open spec fn view(&self) -> ErrorView {
        match self {
            ExpectedErrors::UnreadableFile => ErrorView::UnreadableFile,
            ExpectedErrors::BadFiles => ErrorView::BadFiles,
            ExpectedErrors::NoFiles => ErrorView::NoFiles,
            ExpectedErrors::NoFolder => ErrorView::NoFolder,
            ExpectedErrors::NoParent => ErrorView::NoParent,
            ExpectedErrors::NullPath => ErrorView::NullPath,
            ExpectedErrors::NoName => ErrorView::NoName,
            ExpectedErrors::CouldNotMakeDir(path) => ErrorView::CouldNotMakeDir(path@),
            ExpectedErrors::CouldNotCreateFile(path) => ErrorView::CouldNotCreateFile(path@),
            ExpectedErrors::CouldNotWriteFile(path) => ErrorView::CouldNotWriteFile(path@),
            ExpectedErrors::CouldNotReadDir(path) => ErrorView::CouldNotReadDir(path@),
            ExpectedErrors::FileTooBig(size, limit) => ErrorView::FileTooBig(*size, *limit),
            ExpectedErrors::FileTooSmall(size, limit) => ErrorView::FileTooSmall(*size, *limit),
            ExpectedErrors::CouldNotReadFile(path) => ErrorView::CouldNotReadFile(path@),
            ExpectedErrors::FileLargerThanChunkSize => ErrorView::FileLargerThanChunkSize,
            ExpectedErrors::InvalidString => ErrorView::InvalidString,
            ExpectedErrors::GiantFile => ErrorView::GiantFile,
        }
    }
}

} // verus!
