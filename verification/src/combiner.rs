//! The combiner: the decisions of a reassembly, one file-system operation at
//! a time.
//!
//! A reassembly starts with [`Combiner::start`]. Each step names the
//! operation that the caller is to perform next; the caller performs it and
//! reports the outcome to [`Combiner::step`], until a step says that the
//! reassembly has finished. An outcome that does not answer the operation
//! asked for counts as that operation's failure.
//!
//! The entries of the fragment directory are known by their place in the
//! listing that the caller reports.

use crate::file_service::{
    fragment_payload, header_value, into_u32, write_error, write_failure, WriteOutcome,
    MAX_BUFFER_SIZE,
};
use crate::sorting::{in_sequence_order, lemma_in_sequence_order, sort_fragments, Fragment};
use crate::{ErrorView, ExpectedErrors};
use vstd::prelude::*;
use vstd::seq_lib::to_multiset_contains;
use vstd::slice::slice_subrange;
use vstd::string::{StringExecFns, StringSliceAdditionalSpecFns};
use vstd::utf8::{decode_utf8, encode_utf8_decode_utf8, valid_utf8};

verus! {

/// What a reassembly needs to know of the fragment directory's path. The
/// texts are the forms in which the paths are shown.
#[derive(Debug, PartialEq, Eq)]
pub struct FragmentDir {
    /// The path of the fragment directory.
    pub path: String,
    /// The directory that holds the fragment directory, if the path has one.
    pub parent: Option<String>,
}

/// A fragment directory's path, with each text taken as the characters it
/// holds.
pub struct DirView {
    pub path: Seq<char>,
    pub parent: Option<Seq<char>>,
}

impl View for FragmentDir {
    type V = DirView;

    open spec fn view(&self) -> DirView {
        DirView {
            path: self.path@,
            parent: match self.parent {
                Some(parent) => Some(parent@),
                None => None,
            },
        }
    }
}

/// What the listing of a directory says of one entry.
#[derive(Debug, PartialEq, Eq)]
pub enum DirEntry {
    /// The entry could not be read.
    Unreadable,
    /// An entry: its path, the extension of its name if it has one that is
    /// valid UTF-8, and whether it is a directory.
    Item { path: String, extension: Option<String>, is_dir: bool },
}

/// An entry, with each text taken as the characters it holds.
pub enum EntryView {
    Unreadable,
    Item { path: Seq<char>, extension: Option<Seq<char>>, is_dir: bool },
}

impl View for DirEntry {
    type V = EntryView;

    open spec fn view(&self) -> EntryView {
        match self {
            DirEntry::Unreadable => EntryView::Unreadable,
            DirEntry::Item { path, extension, is_dir } => EntryView::Item {
                path: path@,
                extension: match extension {
                    Some(extension) => Some(extension@),
                    None => None,
                },
                is_dir: *is_dir,
            },
        }
    }
}

/// The entries of a listing, each with its texts taken as characters.
pub open spec fn listing_view(entries: Seq<DirEntry>) -> Seq<EntryView> {
    entries.map_values(|entry: DirEntry| entry@)
}

/// Whether an entry is taken for a fragment: a file with the extension
/// `frag`. Nothing else in a fragment directory is looked at.
pub open spec fn is_fragment(entry: EntryView) -> bool {
    entry matches EntryView::Item { extension: Some(extension), is_dir, .. } && extension
        == "frag"@ && !is_dir
}

/// The path of an entry, empty for one that could not be read.
pub open spec fn entry_path(entry: EntryView) -> Seq<char> {
    match entry {
        EntryView::Item { path, .. } => path,
        EntryView::Unreadable => Seq::empty(),
    }
}

/// The place of the first fragment at or after `from` in a listing, or the
/// length of the listing where none follows.
pub open spec fn next_fragment(entries: Seq<EntryView>, from: int) -> int
    decreases entries.len() - from,
{
    if from < 0 || from >= entries.len() {
        entries.len() as int
    } else if is_fragment(entries[from]) {
        from
    } else {
        next_fragment(entries, from + 1)
    }
}

/// Whether a listing holds an entry that could not be read.
pub open spec fn has_unreadable(entries: Seq<EntryView>) -> bool {
    exists|i: int| 0 <= i < entries.len() && entries[i] is Unreadable
}

/// The path of the reassembled file: the recovered name, under the directory
/// that holds the fragment directory.
pub open spec fn output_path(parent: Seq<char>, name: Seq<char>) -> Seq<char> {
    parent + "/"@ + name
}

/// The length of the buffer that fragments are read through: the size of the
/// first data fragment, and no more than `MAX_BUFFER_SIZE`.
pub open spec fn buffer_size(first_fragment_size: u64) -> u64 {
    if first_fragment_size > MAX_BUFFER_SIZE {
        MAX_BUFFER_SIZE
    } else {
        first_fragment_size
    }
}

/// How many bytes at the start of a read belong to the header of the
/// fragment, where `header_left` bytes of the header have not been read yet.
pub open spec fn header_in(header_left: int, bytes: Seq<u8>) -> int {
    if header_left < bytes.len() {
        header_left
    } else {
        bytes.len() as int
    }
}

/// What a run of reads from one fragment leaves to be appended, where
/// `header_left` bytes of its header have not been read yet.
pub open spec fn appended(header_left: int, reads: Seq<Seq<u8>>) -> Seq<u8>
    decreases reads.len(),
{
    if reads.len() == 0 {
        Seq::empty()
    } else {
        let skipped = header_in(header_left, reads.first());
        reads.first().skip(skipped) + appended(header_left - skipped, reads.drop_first())
    }
}

/// The operation whose outcome a combiner waits for.
#[derive(Debug, Clone, Copy, PartialEq, Eq)]
pub enum CombinePhase {
    /// Listing the fragment directory.
    Listing,
    /// Reporting that an entry could not be read.
    Warning,
    /// Reading the header of a fragment.
    Header,
    /// Reading the metadata fragment.
    Metadata,
    /// Creating the reassembled file.
    Output,
    /// Reading the size of the first data fragment.
    Size,
    /// Reading from a data fragment.
    Chunk,
    /// Appending to the reassembled file.
    Append,
}

/// A reassembly in progress.
#[derive(Debug)]
pub struct Combiner {
    dir: FragmentDir,
    entries: Vec<DirEntry>,
    found: Vec<Fragment>,
    entry: usize,
    current: usize,
    output: String,
    buffer_len: u64,
    header_left: usize,
    phase: CombinePhase,
}

/// A reassembly in progress, with each text taken as the characters it
/// holds.
pub struct CombinerView {
    /// The fragment directory's path.
    pub dir: DirView,
    /// The listing of the fragment directory; empty until it has arrived.
    pub entries: Seq<EntryView>,
    /// The fragments found so far; in sequence order once all headers have
    /// been read.
    pub found: Seq<Fragment>,
    /// The place in the listing of the entry whose header is awaited.
    pub entry: usize,
    /// The place in `found` of the fragment that is being copied.
    pub current: usize,
    /// The path of the reassembled file; empty until the name is recovered.
    pub output: Seq<char>,
    /// The length of the buffer that fragments are read through.
    pub buffer_len: u64,
    /// The header bytes of the current fragment that have not been read yet.
    pub header_left: usize,
    /// The operation whose outcome is awaited.
    pub phase: CombinePhase,
}

impl View for Combiner {
    type V = CombinerView;

    closed spec fn view(&self) -> CombinerView {
        CombinerView {
            dir: self.dir@,
            entries: listing_view(self.entries@),
            found: self.found@,
            entry: self.entry,
            current: self.current,
            output: self.output@,
            buffer_len: self.buffer_len,
            header_left: self.header_left,
            phase: self.phase,
        }
    }
}

/// An operation that a combiner asks its caller to perform.
#[derive(Debug, PartialEq, Eq)]
pub enum CombineAction {
    /// List the fragment directory. Answered by [`CombineEvent::Listing`].
    ListDir,
    /// Report the error and go on. Answered by [`CombineEvent::Done`]; the
    /// reassembly goes on whatever the answer.
    Warn(ExpectedErrors),
    /// Open the entry and read its first four bytes. Answered by
    /// [`CombineEvent::Header`].
    ReadHeader { entry: usize },
    /// Open the entry and read all of it. Answered by
    /// [`CombineEvent::Contents`].
    ReadAll { entry: usize },
    /// Create the file at `path`, empty whatever it held, write nothing to it
    /// to see that it can be written, and open it for appending. Answered by
    /// [`CombineEvent::Output`].
    CreateOutput { path: String },
    /// Read the size of the entry. Answered by [`CombineEvent::Size`].
    QuerySize { entry: usize },
    /// Read up to `max_len` bytes from where the last read of the entry
    /// ended, opening the entry at the first read. Answered by
    /// [`CombineEvent::Chunk`].
    ReadChunk { entry: usize, max_len: u64 },
    /// Append the bytes to the reassembled file. Answered by
    /// [`CombineEvent::Done`].
    Append { bytes: Vec<u8> },
}

/// An operation asked for, with each text taken as the characters it holds.
pub enum CombineActionView {
    ListDir,
    Warn(ErrorView),
    ReadHeader { entry: usize },
    ReadAll { entry: usize },
    CreateOutput { path: Seq<char> },
    QuerySize { entry: usize },
    ReadChunk { entry: usize, max_len: u64 },
    Append { bytes: Seq<u8> },
}

impl View for CombineAction {
    type V = CombineActionView;

    open spec fn view(&self) -> CombineActionView {
        match self {
            CombineAction::ListDir => CombineActionView::ListDir,
            CombineAction::Warn(error) => CombineActionView::Warn(error@),
            CombineAction::ReadHeader { entry } => CombineActionView::ReadHeader { entry: *entry },
            CombineAction::ReadAll { entry } => CombineActionView::ReadAll { entry: *entry },
            CombineAction::CreateOutput { path } => CombineActionView::CreateOutput { path: path@ },
            CombineAction::QuerySize { entry } => CombineActionView::QuerySize { entry: *entry },
            CombineAction::ReadChunk { entry, max_len } => CombineActionView::ReadChunk {
                entry: *entry,
                max_len: *max_len,
            },
            CombineAction::Append { bytes } => CombineActionView::Append { bytes: bytes@ },
        }
    }
}

/// How a read from a fragment ended.
#[derive(Debug, PartialEq, Eq)]
pub enum ReadOutcome {
    /// The fragment could not be opened.
    NotOpened,
    /// The fragment was open and the read failed.
    Failed,
    /// The bytes read; none at the end of the fragment.
    Bytes(Vec<u8>),
}

/// How a read ended, with the bytes read taken as a sequence.
pub enum ReadView {
    NotOpened,
    Failed,
    Bytes(Seq<u8>),
}

impl View for ReadOutcome {
    type V = ReadView;

    open spec fn view(&self) -> ReadView {
        match self {
            ReadOutcome::NotOpened => ReadView::NotOpened,
            ReadOutcome::Failed => ReadView::Failed,
            ReadOutcome::Bytes(bytes) => ReadView::Bytes(bytes@),
        }
    }
}

/// The outcome of an operation that a combiner asked for.
#[derive(Debug, PartialEq, Eq)]
pub enum CombineEvent {
    /// The entries of the fragment directory, or `None` where it could not be
    /// listed.
    Listing(Option<Vec<DirEntry>>),
    /// The first four bytes of an entry, or `None` where the entry could not
    /// be opened or holds fewer.
    Header(Option<[u8; 4]>),
    /// All bytes of an entry, or `None` where it could not be read.
    Contents(Option<Vec<u8>>),
    /// How the creation of the reassembled file ended.
    Output(WriteOutcome),
    /// The size of an entry in bytes, or `None` where it could not be read.
    Size(Option<u64>),
    /// How a read from a fragment ended.
    Chunk(ReadOutcome),
    /// Whether the bytes were appended; also the answer to a report.
    Done(bool),
}

/// An outcome, with each text and the bytes read taken as sequences.
pub enum CombineEventView {
    Listing(Option<Seq<EntryView>>),
    Header(Option<Seq<u8>>),
    Contents(Option<Seq<u8>>),
    Output(WriteOutcome),
    Size(Option<u64>),
    Chunk(ReadView),
    Done(bool),
}

impl View for CombineEvent {
    type V = CombineEventView;

    open spec fn view(&self) -> CombineEventView {
        match self {
            CombineEvent::Listing(Some(entries)) => CombineEventView::Listing(
                Some(listing_view(entries@)),
            ),
            CombineEvent::Listing(None) => CombineEventView::Listing(None),
            CombineEvent::Header(Some(bytes)) => CombineEventView::Header(Some(bytes@)),
            CombineEvent::Header(None) => CombineEventView::Header(None),
            CombineEvent::Contents(Some(bytes)) => CombineEventView::Contents(Some(bytes@)),
            CombineEvent::Contents(None) => CombineEventView::Contents(None),
            CombineEvent::Output(outcome) => CombineEventView::Output(*outcome),
            CombineEvent::Size(size) => CombineEventView::Size(*size),
            CombineEvent::Chunk(outcome) => CombineEventView::Chunk(outcome@),
            CombineEvent::Done(done) => CombineEventView::Done(*done),
        }
    }
}

/// What a combiner does next.
#[derive(Debug)]
pub enum CombineStep {
    /// The reassembly goes on: the caller performs the action and reports its
    /// outcome to the combiner.
    Next(Combiner, CombineAction),
    /// The reassembly has ended, well or with the error that stopped it.
    Finished(Result<(), ExpectedErrors>),
}

/// A step, with each text taken as the characters it holds.
pub enum CombineStepView {
    Next(CombinerView, CombineActionView),
    Finished(Result<(), ErrorView>),
}

impl View for CombineStep {
    type V = CombineStepView;

    open spec fn view(&self) -> CombineStepView {
        match self {
            CombineStep::Next(combiner, action) => CombineStepView::Next(combiner@, action@),
            CombineStep::Finished(Ok(_)) => CombineStepView::Finished(Ok(())),
            CombineStep::Finished(Err(error)) => CombineStepView::Finished(Err(error@)),
        }
    }
}

/// The first step of a reassembly: the fragment directory is to be listed.
pub open spec fn combine_start(dir: DirView) -> CombineStepView {
    CombineStepView::Next(
        CombinerView {
            dir,
            entries: Seq::empty(),
            found: Seq::empty(),
            entry: 0,
            current: 0,
            output: Seq::empty(),
            buffer_len: 0,
            header_left: 0,
            phase: CombinePhase::Listing,
        },
        CombineActionView::ListDir,
    )
}

/// The step that goes on with the scan at the entry `from`: the header of the
/// next fragment is to be read, or the scan has come to its end.
pub open spec fn scan_from(state: CombinerView, from: int) -> CombineStepView {
    let next = next_fragment(state.entries, from);
    if next < state.entries.len() {
        CombineStepView::Next(
            CombinerView { entry: next as usize, phase: CombinePhase::Header, ..state },
            CombineActionView::ReadHeader { entry: next as usize },
        )
    } else {
        after_scan(state)
    }
}

/// The step at the end of the scan: the fragments are put in sequence order,
/// and the first of them is to be read as the metadata fragment. A fragment
/// directory without a parent ends the reassembly with `NullPath`, and one
/// without fragments with `NoFiles`.
pub open spec fn after_scan(state: CombinerView) -> CombineStepView {
    let order = in_sequence_order(state.found);
    if state.dir.parent is None {
        CombineStepView::Finished(Err(ErrorView::NullPath))
    } else if order.len() == 0 {
        CombineStepView::Finished(Err(ErrorView::NoFiles))
    } else {
        CombineStepView::Next(
            CombinerView { found: order, phase: CombinePhase::Metadata, ..state },
            CombineActionView::ReadAll { entry: order[0].entry },
        )
    }
}

/// The path of the fragment at a place in `found`.
pub open spec fn fragment_path(state: CombinerView, place: int) -> Seq<char> {
    entry_path(state.entries[state.found[place].entry as int])
}

/// The step that asks for the next read from the fragment that is being
/// copied.
pub open spec fn read_on(state: CombinerView) -> CombineStepView {
    CombineStepView::Next(
        CombinerView { phase: CombinePhase::Chunk, ..state },
        CombineActionView::ReadChunk {
            entry: state.found[state.current as int].entry,
            max_len: state.buffer_len,
        },
    )
}

/// The step that follows an outcome.
///
/// - The listing: where an entry could not be read, that is to be reported,
///   once. Then the header of each fragment is read, in the order of the
///   listing; entries that are no fragments are passed over.
/// - A header: the fragment is noted with its sequence number, and the scan
///   goes on behind it.
/// - The metadata fragment: what follows its header is the name of the
///   reassembled file, which is to be created beside the fragment directory.
///   A name that is not valid UTF-8 ends the reassembly with `InvalidString`.
/// - The reassembled file created: without data fragments the reassembly
///   ends well. Otherwise the size of the first one is asked for, which
///   gives the length of the buffer.
/// - Bytes read from a fragment: the first four bytes of a fragment are its
///   header and are dropped, however the reads divide them; the others are to
///   be appended. An empty read ends the fragment: the next one is read, in
///   sequence order, and after the last one the reassembly ends well.
/// - An operation failed: the reassembly ends with that operation's error.
pub open spec fn combine_next(state: CombinerView, event: CombineEventView) -> CombineStepView {
    match state.phase {
        CombinePhase::Listing => match event {
            CombineEventView::Listing(Some(entries)) => if has_unreadable(entries) {
                CombineStepView::Next(
                    CombinerView { entries, phase: CombinePhase::Warning, ..state },
                    CombineActionView::Warn(ErrorView::BadFiles),
                )
            } else {
                scan_from(CombinerView { entries, ..state }, 0)
            },
            _ => CombineStepView::Finished(Err(ErrorView::CouldNotReadDir(state.dir.path))),
        },
        CombinePhase::Warning => scan_from(state, 0),
        CombinePhase::Header => match event {
            CombineEventView::Header(Some(bytes)) => scan_from(
                CombinerView {
                    found: state.found.push(
                        Fragment { entry: state.entry, number: header_value(bytes) as u32 },
                    ),
                    ..state
                },
                state.entry + 1,
            ),
            _ => CombineStepView::Finished(
                Err(ErrorView::CouldNotReadFile(entry_path(state.entries[state.entry as int]))),
            ),
        },
        CombinePhase::Metadata => match event {
            CombineEventView::Contents(Some(bytes)) => if bytes.len() < 4 {
                CombineStepView::Finished(Err(ErrorView::CouldNotReadFile(fragment_path(state, 0))))
            } else if !valid_utf8(fragment_payload(bytes)) {
                CombineStepView::Finished(Err(ErrorView::InvalidString))
            } else {
                match state.dir.parent {
                    None => CombineStepView::Finished(Err(ErrorView::NullPath)),
                    Some(parent) => CombineStepView::Next(
                        CombinerView {
                            output: output_path(parent, decode_utf8(fragment_payload(bytes))),
                            phase: CombinePhase::Output,
                            ..state
                        },
                        CombineActionView::CreateOutput {
                            path: output_path(parent, decode_utf8(fragment_payload(bytes))),
                        },
                    ),
                }
            },
            _ => CombineStepView::Finished(
                Err(ErrorView::CouldNotReadFile(fragment_path(state, 0))),
            ),
        },
        CombinePhase::Output => match event {
            CombineEventView::Output(WriteOutcome::Written) => if state.found.len() <= 1 {
                CombineStepView::Finished(Ok(()))
            } else {
                CombineStepView::Next(
                    CombinerView { current: 1, phase: CombinePhase::Size, ..state },
                    CombineActionView::QuerySize { entry: state.found[1].entry },
                )
            },
            CombineEventView::Output(outcome) => CombineStepView::Finished(
                Err(write_error(outcome, state.output, ErrorView::CouldNotReadFile(state.output))),
            ),
            _ => CombineStepView::Finished(Err(ErrorView::CouldNotCreateFile(state.output))),
        },
        CombinePhase::Size => match event {
            CombineEventView::Size(Some(size)) => read_on(
                CombinerView { buffer_len: buffer_size(size), header_left: 4, ..state },
            ),
            _ => CombineStepView::Finished(
                Err(ErrorView::CouldNotReadFile(fragment_path(state, state.current as int))),
            ),
        },
        CombinePhase::Chunk => match event {
            CombineEventView::Chunk(ReadView::Bytes(bytes)) => if bytes.len() == 0 {
                if state.current + 1 < state.found.len() {
                    read_on(
                        CombinerView {
                            current: (state.current + 1) as usize,
                            header_left: 4,
                            ..state
                        },
                    )
                } else {
                    CombineStepView::Finished(Ok(()))
                }
            } else {
                let skipped = header_in(state.header_left as int, bytes);
                let left = CombinerView {
                    header_left: (state.header_left - skipped) as usize,
                    ..state
                };
                if skipped == bytes.len() {
                    read_on(left)
                } else {
                    CombineStepView::Next(
                        CombinerView { phase: CombinePhase::Append, ..left },
                        CombineActionView::Append { bytes: bytes.skip(skipped) },
                    )
                }
            },
            CombineEventView::Chunk(ReadView::NotOpened) => CombineStepView::Finished(
                Err(ErrorView::UnreadableFile),
            ),
            _ => CombineStepView::Finished(
                Err(ErrorView::CouldNotReadFile(fragment_path(state, state.current as int))),
            ),
        },
        CombinePhase::Append => match event {
            CombineEventView::Done(true) => read_on(state),
            _ => CombineStepView::Finished(Err(ErrorView::CouldNotWriteFile(state.output))),
        },
    }
}

/// `std::str::from_utf8`: the text that the bytes encode, where they are
/// valid UTF-8, and `None` where they are not. The text holds the same bytes.
#[verifier::external_body]
fn utf8_text(bytes: &[u8]) -> (text: Option<&str>)
    ensures
        text is Some <==> valid_utf8(bytes@),
        text matches Some(decoded) ==> decoded.spec_bytes() == bytes@,
{
    std::str::from_utf8(bytes).ok()
}

/// Decodes the name that a metadata fragment holds behind its header.
pub fn recover_name(payload: &[u8]) -> (name: Option<String>)
    ensures
        name is Some <==> valid_utf8(payload@),
        name matches Some(text) ==> text@ == decode_utf8(payload@),
{
    match utf8_text(payload) {
        None => None,
        Some(text) => {
            proof {
                encode_utf8_decode_utf8(text@);
            }
            Some(String::from_str(text))
        },
    }
}

/// Names the reassembled file.
pub fn output_file_name(parent: &str, name: &str) -> (path: String)
    ensures
        path@ == output_path(parent@, name@),
{
    let mut path: String = String::from_str(parent);
    path.append("/");
    path.append(name);
    path
}

/// Says whether an entry of a listing is taken for a fragment.
pub fn entry_is_fragment(entry: &DirEntry) -> (fragment: bool)
    ensures
        fragment == is_fragment(entry@),
{
    match entry {
        DirEntry::Unreadable => false,
        DirEntry::Item { path: _, extension, is_dir } => match extension {
            None => false,
            Some(extension) => {
                let frag: String = String::from_str("frag");
                *extension == frag && !*is_dir
            },
        },
    }
}

fn path_of(entries: &Vec<DirEntry>, entry: usize) -> (path: String)
    requires
        entry < entries.len(),
    ensures
        path@ == entry_path(listing_view(entries@)[entry as int]),
{
    match &entries[entry] {
        DirEntry::Unreadable => String::new(),
        DirEntry::Item { path, extension: _, is_dir: _ } => path.clone(),
    }
}

fn find_fragment(entries: &Vec<DirEntry>, from: usize) -> (next: usize)
    ensures
        next == next_fragment(listing_view(entries@), from as int),
        next <= entries.len(),
{
    let mut next: usize = from;
    while next < entries.len()
        invariant
            from <= next,
            next_fragment(listing_view(entries@), from as int) == next_fragment(
                listing_view(entries@),
                next as int,
            ),
        decreases entries.len() - next,
    {
        if entry_is_fragment(&entries[next]) {
            return next;
        }
        next = next + 1;
    }
    entries.len()
}

fn any_unreadable(entries: &Vec<DirEntry>) -> (found: bool)
    ensures
        found == has_unreadable(listing_view(entries@)),
{
    let mut i: usize = 0;
    while i < entries.len()
        invariant
            i <= entries.len(),
            forall|k: int| 0 <= k < i ==> !(#[trigger] listing_view(entries@)[k] is Unreadable),
        decreases entries.len() - i,
    {
        match &entries[i] {
            DirEntry::Unreadable => {
                assert(listing_view(entries@)[i as int] is Unreadable);
                return true;
            },
            _ => {},
        }
        i = i + 1;
    }
    false
}

impl Combiner {
    #[verifier::type_invariant]
    spec fn well_formed(self) -> bool {
        &&& forall|i: int|
            0 <= i < self.found@.len() ==> (#[trigger] self.found@[i]).entry < self.entries@.len()
        &&& self.phase == CombinePhase::Listing ==> self.found@.len() == 0
        &&& self.phase == CombinePhase::Header ==> self.entry < self.entries@.len()
        &&& (self.phase == CombinePhase::Metadata || self.phase == CombinePhase::Output)
            ==> self.found@.len() >= 1
        &&& (self.phase == CombinePhase::Size || self.phase == CombinePhase::Chunk || self.phase
            == CombinePhase::Append) ==> self.current < self.found@.len()
    }

    /// Starts the reassembly of the fragments in a directory.
    pub fn start(dir: FragmentDir) -> (step: CombineStep)
        ensures
            step@ == combine_start(dir@),
    {
        let combiner = Combiner {
            dir,
            entries: Vec::new(),
            found: Vec::new(),
            entry: 0,
            current: 0,
            output: String::new(),
            buffer_len: 0,
            header_left: 0,
            phase: CombinePhase::Listing,
        };
        assert(listing_view(combiner.entries@) =~= Seq::empty());
        CombineStep::Next(combiner, CombineAction::ListDir)
    }

    fn scan(self, from: usize) -> (step: CombineStep)
        ensures
            step@ == scan_from(self@, from as int),
    {
        proof {
            use_type_invariant(&self);
        }
        let Combiner {
            dir,
            entries,
            found,
            entry,
            current,
            output,
            buffer_len,
            header_left,
            phase,
        } = self;
        let next: usize = find_fragment(&entries, from);
        if next < entries.len() {
            CombineStep::Next(
                Combiner {
                    dir,
                    entries,
                    found,
                    entry: next,
                    current,
                    output,
                    buffer_len,
                    header_left,
                    phase: CombinePhase::Header,
                },
                CombineAction::ReadHeader { entry: next },
            )
        } else {
            let ghost unordered = found@;
            let order: Vec<Fragment> = sort_fragments(found);
            proof {
                lemma_in_sequence_order(unordered);
                assert forall|i: int| 0 <= i < order@.len() implies (#[trigger] order@[i]).entry
                    < entries@.len() by {
                    to_multiset_contains(order@, order@[i]);
                    to_multiset_contains(unordered, order@[i]);
                }
            }
            if dir.parent.is_none() {
                CombineStep::Finished(Err(ExpectedErrors::NullPath))
            } else if order.len() == 0 {
                CombineStep::Finished(Err(ExpectedErrors::NoFiles))
            } else {
                let first: usize = order[0].entry;
                CombineStep::Next(
                    Combiner {
                        dir,
                        entries,
                        found: order,
                        entry,
                        current,
                        output,
                        buffer_len,
                        header_left,
                        phase: CombinePhase::Metadata,
                    },
                    CombineAction::ReadAll { entry: first },
                )
            }
        }
    }

    fn read(self) -> (step: CombineStep)
        requires
            self.current < self.found@.len(),
        ensures
            step@ == read_on(self@),
    {
        proof {
            use_type_invariant(&self);
        }
        let Combiner {
            dir,
            entries,
            found,
            entry,
            current,
            output,
            buffer_len,
            header_left,
            phase,
        } = self;
        let from: usize = found[current].entry;
        CombineStep::Next(
            Combiner {
                dir,
                entries,
                found,
                entry,
                current,
                output,
                buffer_len,
                header_left,
                phase: CombinePhase::Chunk,
            },
            CombineAction::ReadChunk { entry: from, max_len: buffer_len },
        )
    }

    /// Takes the outcome of the operation asked for last and says what
    /// follows.
    pub fn step(self, event: CombineEvent) -> (step: CombineStep)
        ensures
            step@ == combine_next(self@, event@),
    {
        proof {
            use_type_invariant(&self);
        }
        let Combiner {
            dir,
            entries,
            found,
            entry,
            current,
            output,
            buffer_len,
            header_left,
            phase,
        } = self;
        match phase {
            CombinePhase::Listing => match event {
                CombineEvent::Listing(Some(listed)) => {
                    let warn: bool = any_unreadable(&listed);
                    if warn {
                        CombineStep::Next(
                            Combiner {
                                dir,
                                entries: listed,
                                found,
                                entry,
                                current,
                                output,
                                buffer_len,
                                header_left,
                                phase: CombinePhase::Warning,
                            },
                            CombineAction::Warn(ExpectedErrors::BadFiles),
                        )
                    } else {
                        let listing = Combiner {
                            dir,
                            entries: listed,
                            found,
                            entry,
                            current,
                            output,
                            buffer_len,
                            header_left,
                            phase,
                        };
                        listing.scan(0)
                    }
                },
                _ => CombineStep::Finished(Err(ExpectedErrors::CouldNotReadDir(dir.path))),
            },
            CombinePhase::Warning => {
                let warned = Combiner {
                    dir,
                    entries,
                    found,
                    entry,
                    current,
                    output,
                    buffer_len,
                    header_left,
                    phase,
                };
                warned.scan(0)
            },
            CombinePhase::Header => match event {
                CombineEvent::Header(Some(bytes)) => {
                    let number: u32 = into_u32(bytes);
                    let mut found: Vec<Fragment> = found;
                    found.push(Fragment { entry, number });
                    let noted = Combiner {
                        dir,
                        entries,
                        found,
                        entry,
                        current,
                        output,
                        buffer_len,
                        header_left,
                        phase,
                    };
                    noted.scan(entry + 1)
                },
                _ => CombineStep::Finished(
                    Err(ExpectedErrors::CouldNotReadFile(path_of(&entries, entry))),
                ),
            },
            CombinePhase::Metadata => {
                let first: usize = found[0].entry;
                match event {
                    CombineEvent::Contents(Some(bytes)) => if bytes.len() < 4 {
                        CombineStep::Finished(
                            Err(ExpectedErrors::CouldNotReadFile(path_of(&entries, first))),
                        )
                    } else {
                        let payload: &[u8] = slice_subrange(bytes.as_slice(), 4, bytes.len());
                        match recover_name(payload) {
                            None => CombineStep::Finished(Err(ExpectedErrors::InvalidString)),
                            Some(name) => match &dir.parent {
                                None => CombineStep::Finished(Err(ExpectedErrors::NullPath)),
                                Some(parent) => {
                                    let output: String = output_file_name(
                                        parent.as_str(),
                                        name.as_str(),
                                    );
                                    let path: String = output.clone();
                                    CombineStep::Next(
                                        Combiner {
                                            dir,
                                            entries,
                                            found,
                                            entry,
                                            current,
                                            output,
                                            buffer_len,
                                            header_left,
                                            phase: CombinePhase::Output,
                                        },
                                        CombineAction::CreateOutput { path },
                                    )
                                },
                            },
                        }
                    },
                    _ => CombineStep::Finished(
                        Err(ExpectedErrors::CouldNotReadFile(path_of(&entries, first))),
                    ),
                }
            },
            CombinePhase::Output => match event {
                CombineEvent::Output(WriteOutcome::Written) => if found.len() <= 1 {
                    CombineStep::Finished(Ok(()))
                } else {
                    let first: usize = found[1].entry;
                    CombineStep::Next(
                        Combiner {
                            dir,
                            entries,
                            found,
                            entry,
                            current: 1,
                            output,
                            buffer_len,
                            header_left,
                            phase: CombinePhase::Size,
                        },
                        CombineAction::QuerySize { entry: first },
                    )
                },
                CombineEvent::Output(outcome) => {
                    let not_opened: ExpectedErrors = ExpectedErrors::CouldNotReadFile(
                        output.clone(),
                    );
                    CombineStep::Finished(Err(write_failure(outcome, output, not_opened)))
                },
                _ => CombineStep::Finished(Err(ExpectedErrors::CouldNotCreateFile(output))),
            },
            CombinePhase::Size => match event {
                CombineEvent::Size(Some(size)) => {
                    let buffer_len: u64 = if size > MAX_BUFFER_SIZE {
                        MAX_BUFFER_SIZE
                    } else {
                        size
                    };
                    let sized = Combiner {
                        dir,
                        entries,
                        found,
                        entry,
                        current,
                        output,
                        buffer_len,
                        header_left: 4,
                        phase,
                    };
                    sized.read()
                },
                _ => CombineStep::Finished(
                    Err(ExpectedErrors::CouldNotReadFile(path_of(&entries, found[current].entry))),
                ),
            },
            CombinePhase::Chunk => match event {
                CombineEvent::Chunk(ReadOutcome::Bytes(bytes)) => if bytes.len() == 0 {
                    assert(current < found.len());
                    if current + 1 < found.len() {
                        let following = Combiner {
                            dir,
                            entries,
                            found,
                            entry,
                            current: current + 1,
                            output,
                            buffer_len,
                            header_left: 4,
                            phase,
                        };
                        following.read()
                    } else {
                        CombineStep::Finished(Ok(()))
                    }
                } else {
                    let skipped: usize = if header_left < bytes.len() {
                        header_left
                    } else {
                        bytes.len()
                    };
                    let mut bytes: Vec<u8> = bytes;
                    let rest: Vec<u8> = bytes.split_off(skipped);
                    let left = Combiner {
                        dir,
                        entries,
                        found,
                        entry,
                        current,
                        output,
                        buffer_len,
                        header_left: header_left - skipped,
                        phase: if rest.len() == 0 {
                            CombinePhase::Chunk
                        } else {
                            CombinePhase::Append
                        },
                    };
                    if rest.len() == 0 {
                        left.read()
                    } else {
                        CombineStep::Next(left, CombineAction::Append { bytes: rest })
                    }
                },
                CombineEvent::Chunk(ReadOutcome::NotOpened) => CombineStep::Finished(
                    Err(ExpectedErrors::UnreadableFile),
                ),
                _ => CombineStep::Finished(
                    Err(ExpectedErrors::CouldNotReadFile(path_of(&entries, found[current].entry))),
                ),
            },
            CombinePhase::Append => match event {
                CombineEvent::Done(true) => {
                    let appended = Combiner {
                        dir,
                        entries,
                        found,
                        entry,
                        current,
                        output,
                        buffer_len,
                        header_left,
                        phase,
                    };
                    appended.read()
                },
                _ => CombineStep::Finished(Err(ExpectedErrors::CouldNotWriteFile(output))),
            },
        }
    }
}

} // verus!
