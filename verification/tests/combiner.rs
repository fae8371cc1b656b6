use fragger::combiner::{
    CombineAction, CombineEvent, CombineStep, Combiner, DirEntry, FragmentDir, ReadOutcome,
};
use fragger::file_service::{WriteOutcome, MAX_BUFFER_SIZE};
use fragger::ExpectedErrors;

fn small_dir() -> FragmentDir {
    FragmentDir {
        path: String::from("./tests/files/small"),
        parent: Some(String::from("./tests/files")),
    }
}

fn item(path: &str, extension: Option<&str>, is_dir: bool) -> DirEntry {
    DirEntry::Item { path: String::from(path), extension: extension.map(String::from), is_dir }
}

fn fragment(path: &str) -> DirEntry {
    item(path, Some("frag"), false)
}

fn go_on(step: CombineStep) -> (Combiner, CombineAction) {
    match step {
        CombineStep::Next(combiner, action) => (combiner, action),
        CombineStep::Finished(outcome) => panic!("the reassembly has ended: {:?}", outcome),
    }
}

fn ended(step: CombineStep) -> Result<(), ExpectedErrors> {
    match step {
        CombineStep::Finished(outcome) => outcome,
        CombineStep::Next(_, action) => panic!("the reassembly goes on with {:?}", action),
    }
}

fn listed(dir: FragmentDir, entries: Vec<DirEntry>) -> CombineStep {
    let (combiner, action) = go_on(Combiner::start(dir));
    assert_eq!(action, CombineAction::ListDir);
    combiner.step(CombineEvent::Listing(Some(entries)))
}

fn bytes(read: &[u8]) -> CombineEvent {
    CombineEvent::Chunk(ReadOutcome::Bytes(read.to_vec()))
}

/// A combiner on three fragments, listed as 2, 0, 1, that waits for the
/// metadata fragment.
fn scanned() -> Combiner {
    let entries = vec![fragment("d/c.frag"), fragment("d/a.frag"), fragment("d/b.frag")];
    let (combiner, action) = go_on(listed(small_dir(), entries));
    assert_eq!(action, CombineAction::ReadHeader { entry: 0 });
    let (combiner, action) = go_on(combiner.step(CombineEvent::Header(Some([2, 0, 0, 0]))));
    assert_eq!(action, CombineAction::ReadHeader { entry: 1 });
    let (combiner, action) = go_on(combiner.step(CombineEvent::Header(Some([0, 0, 0, 0]))));
    assert_eq!(action, CombineAction::ReadHeader { entry: 2 });
    let (combiner, action) = go_on(combiner.step(CombineEvent::Header(Some([1, 0, 0, 0]))));
    assert_eq!(action, CombineAction::ReadAll { entry: 1 });
    combiner
}

/// The same combiner once its reassembled file is asked for.
fn naming() -> Combiner {
    let (combiner, action) = go_on(
        scanned().step(CombineEvent::Contents(Some(b"\0\0\0\0small.txt".to_vec()))),
    );
    assert_eq!(
        action,
        CombineAction::CreateOutput { path: String::from("./tests/files/small.txt") }
    );
    combiner
}

/// The same combiner once it reads from its first data fragment, through a
/// buffer of `buffer` bytes.
fn copying(buffer: u64) -> Combiner {
    let (combiner, action) = go_on(naming().step(CombineEvent::Output(WriteOutcome::Written)));
    assert_eq!(action, CombineAction::QuerySize { entry: 2 });
    let (combiner, action) = go_on(combiner.step(CombineEvent::Size(Some(buffer))));
    assert_eq!(action, CombineAction::ReadChunk { entry: 2, max_len: buffer });
    combiner
}

#[test]
fn reassembly_asks_for_each_operation_in_turn() {
    let combiner = copying(7);
    let (combiner, action) = go_on(combiner.step(bytes(&[1, 0, 0, 0, 10, 11, 12])));
    assert_eq!(action, CombineAction::Append { bytes: vec![10, 11, 12] });
    let (combiner, action) = go_on(combiner.step(CombineEvent::Done(true)));
    assert_eq!(action, CombineAction::ReadChunk { entry: 2, max_len: 7 });
    let (combiner, action) = go_on(combiner.step(bytes(&[])));
    assert_eq!(action, CombineAction::ReadChunk { entry: 0, max_len: 7 });
    let (combiner, action) = go_on(combiner.step(bytes(&[2, 0, 0, 0, 13])));
    assert_eq!(action, CombineAction::Append { bytes: vec![13] });
    let (combiner, action) = go_on(combiner.step(CombineEvent::Done(true)));
    assert_eq!(action, CombineAction::ReadChunk { entry: 0, max_len: 7 });
    assert_eq!(ended(combiner.step(bytes(&[]))), Ok(()));
}

#[test]
fn header_is_dropped_once_for_each_fragment() {
    let combiner = copying(6);
    let (combiner, action) = go_on(combiner.step(bytes(&[1, 0, 0, 0, 10, 11])));
    assert_eq!(action, CombineAction::Append { bytes: vec![10, 11] });
    let (combiner, _) = go_on(combiner.step(CombineEvent::Done(true)));
    let (combiner, action) = go_on(combiner.step(bytes(&[12, 13, 14, 15, 16, 17])));
    assert_eq!(action, CombineAction::Append { bytes: vec![12, 13, 14, 15, 16, 17] });
    let (combiner, _) = go_on(combiner.step(CombineEvent::Done(true)));
    let (combiner, action) = go_on(combiner.step(bytes(&[18])));
    assert_eq!(action, CombineAction::Append { bytes: vec![18] });
    let (combiner, _) = go_on(combiner.step(CombineEvent::Done(true)));
    let (combiner, action) = go_on(combiner.step(bytes(&[])));
    assert_eq!(action, CombineAction::ReadChunk { entry: 0, max_len: 6 });
    let (_, action) = go_on(combiner.step(bytes(&[2, 0, 0, 0, 19, 20])));
    assert_eq!(action, CombineAction::Append { bytes: vec![19, 20] });
}

#[test]
fn header_is_dropped_however_the_reads_divide_it() {
    let combiner = copying(3);
    let (combiner, action) = go_on(combiner.step(bytes(&[1, 0, 0])));
    assert_eq!(action, CombineAction::ReadChunk { entry: 2, max_len: 3 });
    let (combiner, action) = go_on(combiner.step(bytes(&[0, 10, 11])));
    assert_eq!(action, CombineAction::Append { bytes: vec![10, 11] });
    let (combiner, _) = go_on(combiner.step(CombineEvent::Done(true)));
    let (combiner, action) = go_on(combiner.step(bytes(&[12])));
    assert_eq!(action, CombineAction::Append { bytes: vec![12] });
    let (combiner, _) = go_on(combiner.step(CombineEvent::Done(true)));
    let (combiner, _) = go_on(combiner.step(bytes(&[])));
    let (combiner, action) = go_on(combiner.step(bytes(&[2])));
    assert_eq!(action, CombineAction::ReadChunk { entry: 0, max_len: 3 });
    let (combiner, action) = go_on(combiner.step(bytes(&[0, 0, 0])));
    assert_eq!(action, CombineAction::ReadChunk { entry: 0, max_len: 3 });
    let (_, action) = go_on(combiner.step(bytes(&[13, 14])));
    assert_eq!(action, CombineAction::Append { bytes: vec![13, 14] });
}

#[test]
fn buffer_is_the_first_data_fragment_up_to_the_limit() {
    let (combiner, _) = go_on(naming().step(CombineEvent::Output(WriteOutcome::Written)));
    let (_, action) = go_on(combiner.step(CombineEvent::Size(Some(MAX_BUFFER_SIZE + 1))));
    assert_eq!(action, CombineAction::ReadChunk { entry: 2, max_len: MAX_BUFFER_SIZE });

    let (combiner, _) = go_on(naming().step(CombineEvent::Output(WriteOutcome::Written)));
    let (_, action) = go_on(combiner.step(CombineEvent::Size(Some(MAX_BUFFER_SIZE))));
    assert_eq!(action, CombineAction::ReadChunk { entry: 2, max_len: MAX_BUFFER_SIZE });

    let (combiner, _) = go_on(naming().step(CombineEvent::Output(WriteOutcome::Written)));
    let (_, action) = go_on(combiner.step(CombineEvent::Size(Some(2052))));
    assert_eq!(action, CombineAction::ReadChunk { entry: 2, max_len: 2052 });
}

#[test]
fn entries_that_are_no_fragments_are_passed_over() {
    let entries = vec![
        item("d/notes.txt", Some("txt"), false),
        item("d/sub.frag", Some("frag"), true),
        fragment("d/a.frag"),
        item("d/sub", None, true),
        item("d/README", None, false),
        fragment("d/b.frag"),
        item("d/c.fragment", Some("fragment"), false),
    ];
    let (combiner, action) = go_on(listed(small_dir(), entries));
    assert_eq!(action, CombineAction::ReadHeader { entry: 2 });
    let (combiner, action) = go_on(combiner.step(CombineEvent::Header(Some([0, 0, 0, 0]))));
    assert_eq!(action, CombineAction::ReadHeader { entry: 5 });
    let (_, action) = go_on(combiner.step(CombineEvent::Header(Some([1, 0, 0, 0]))));
    assert_eq!(action, CombineAction::ReadAll { entry: 2 });
}

#[test]
fn entry_that_is_not_read_is_reported_once() {
    let entries = vec![
        DirEntry::Unreadable,
        fragment("d/a.frag"),
        DirEntry::Unreadable,
        DirEntry::Unreadable,
    ];
    let (combiner, action) = go_on(listed(small_dir(), entries));
    assert_eq!(action, CombineAction::Warn(ExpectedErrors::BadFiles));
    let (combiner, action) = go_on(combiner.step(CombineEvent::Done(true)));
    assert_eq!(action, CombineAction::ReadHeader { entry: 1 });
    let (_, action) = go_on(combiner.step(CombineEvent::Header(Some([0, 0, 0, 0]))));
    assert_eq!(action, CombineAction::ReadAll { entry: 1 });
}

#[test]
fn report_is_followed_by_the_scan_whatever_the_answer() {
    let entries = || vec![DirEntry::Unreadable, fragment("d/a.frag")];
    let (combiner, _) = go_on(listed(small_dir(), entries()));
    let (_, action) = go_on(combiner.step(CombineEvent::Done(false)));
    assert_eq!(action, CombineAction::ReadHeader { entry: 1 });
    let (combiner, _) = go_on(listed(small_dir(), entries()));
    let (_, action) = go_on(combiner.step(CombineEvent::Size(None)));
    assert_eq!(action, CombineAction::ReadHeader { entry: 1 });
}

#[test]
fn directory_that_is_not_listed_ends_the_reassembly() {
    let (combiner, _) = go_on(Combiner::start(small_dir()));
    assert_eq!(
        ended(combiner.step(CombineEvent::Listing(None))),
        Err(ExpectedErrors::CouldNotReadDir(String::from("./tests/files/small")))
    );
}

#[test]
fn fragment_without_a_whole_header_ends_the_reassembly() {
    let entries = vec![fragment("d/a.frag"), fragment("d/b.frag")];
    let (combiner, _) = go_on(listed(small_dir(), entries));
    let (combiner, action) = go_on(combiner.step(CombineEvent::Header(Some([0, 0, 0, 0]))));
    assert_eq!(action, CombineAction::ReadHeader { entry: 1 });
    assert_eq!(
        ended(combiner.step(CombineEvent::Header(None))),
        Err(ExpectedErrors::CouldNotReadFile(String::from("d/b.frag")))
    );
}

#[test]
fn directory_without_parent_ends_the_reassembly_after_the_scan() {
    let dir = FragmentDir { path: String::from("/"), parent: None };
    let (combiner, action) = go_on(listed(dir, vec![fragment("/a.frag")]));
    assert_eq!(action, CombineAction::ReadHeader { entry: 0 });
    assert_eq!(
        ended(combiner.step(CombineEvent::Header(Some([0, 0, 0, 0])))),
        Err(ExpectedErrors::NullPath)
    );
    let dir = FragmentDir { path: String::from("/"), parent: None };
    assert_eq!(ended(listed(dir, Vec::new())), Err(ExpectedErrors::NullPath));
}

#[test]
fn directory_without_fragments_ends_the_reassembly() {
    assert_eq!(ended(listed(small_dir(), Vec::new())), Err(ExpectedErrors::NoFiles));
    let entries = vec![item("d/notes.txt", Some("txt"), false), item("d/sub", None, true)];
    assert_eq!(ended(listed(small_dir(), entries)), Err(ExpectedErrors::NoFiles));
}

#[test]
fn metadata_fragment_that_is_not_read_ends_the_reassembly() {
    assert_eq!(
        ended(scanned().step(CombineEvent::Contents(None))),
        Err(ExpectedErrors::CouldNotReadFile(String::from("d/a.frag")))
    );
    assert_eq!(
        ended(scanned().step(CombineEvent::Contents(Some(vec![0, 0, 0])))),
        Err(ExpectedErrors::CouldNotReadFile(String::from("d/a.frag")))
    );
}

#[test]
fn name_that_is_not_utf8_ends_the_reassembly() {
    assert_eq!(
        ended(scanned().step(CombineEvent::Contents(Some(vec![0, 0, 0, 0, 0x73, 0xff])))),
        Err(ExpectedErrors::InvalidString)
    );
}

#[test]
fn reassembled_file_that_is_not_created_ends_the_reassembly() {
    let path = || String::from("./tests/files/small.txt");
    assert_eq!(
        ended(naming().step(CombineEvent::Output(WriteOutcome::NotCreated))),
        Err(ExpectedErrors::CouldNotCreateFile(path()))
    );
    assert_eq!(
        ended(naming().step(CombineEvent::Output(WriteOutcome::NotWritten))),
        Err(ExpectedErrors::CouldNotWriteFile(path()))
    );
    assert_eq!(
        ended(naming().step(CombineEvent::Output(WriteOutcome::NotOpened))),
        Err(ExpectedErrors::CouldNotReadFile(path()))
    );
    assert_eq!(
        ended(naming().step(CombineEvent::Done(true))),
        Err(ExpectedErrors::CouldNotCreateFile(path()))
    );
}

#[test]
fn size_that_is_not_read_ends_the_reassembly() {
    let (combiner, _) = go_on(naming().step(CombineEvent::Output(WriteOutcome::Written)));
    assert_eq!(
        ended(combiner.step(CombineEvent::Size(None))),
        Err(ExpectedErrors::CouldNotReadFile(String::from("d/b.frag")))
    );
}

#[test]
fn fragment_that_is_not_read_ends_the_reassembly() {
    assert_eq!(
        ended(copying(7).step(CombineEvent::Chunk(ReadOutcome::NotOpened))),
        Err(ExpectedErrors::UnreadableFile)
    );
    assert_eq!(
        ended(copying(7).step(CombineEvent::Chunk(ReadOutcome::Failed))),
        Err(ExpectedErrors::CouldNotReadFile(String::from("d/b.frag")))
    );
}

#[test]
fn bytes_that_are_not_appended_end_the_reassembly() {
    let (combiner, _) = go_on(copying(7).step(bytes(&[1, 0, 0, 0, 10])));
    assert_eq!(
        ended(combiner.step(CombineEvent::Done(false))),
        Err(ExpectedErrors::CouldNotWriteFile(String::from("./tests/files/small.txt")))
    );
}

#[test]
fn metadata_fragment_alone_makes_an_empty_file() {
    let (combiner, action) = go_on(listed(small_dir(), vec![fragment("d/filedata.frag")]));
    assert_eq!(action, CombineAction::ReadHeader { entry: 0 });
    let (combiner, action) = go_on(combiner.step(CombineEvent::Header(Some([0, 0, 0, 0]))));
    assert_eq!(action, CombineAction::ReadAll { entry: 0 });
    let (combiner, action) = go_on(
        combiner.step(CombineEvent::Contents(Some(b"\0\0\0\0null.txt".to_vec()))),
    );
    assert_eq!(action, CombineAction::CreateOutput { path: String::from("./tests/files/null.txt") });
    assert_eq!(ended(combiner.step(CombineEvent::Output(WriteOutcome::Written))), Ok(()));
}

#[test]
fn fragments_with_equal_numbers_do_not_stop_the_reassembly() {
    let entries = vec![fragment("d/a.frag"), fragment("d/b.frag"), fragment("d/c.frag")];
    let (combiner, _) = go_on(listed(small_dir(), entries));
    let (combiner, _) = go_on(combiner.step(CombineEvent::Header(Some([1, 0, 0, 0]))));
    let (combiner, _) = go_on(combiner.step(CombineEvent::Header(Some([0, 0, 0, 0]))));
    let (combiner, action) = go_on(combiner.step(CombineEvent::Header(Some([0, 0, 0, 0]))));
    assert_eq!(action, CombineAction::ReadAll { entry: 1 });
    let (combiner, _) = go_on(combiner.step(CombineEvent::Contents(Some(b"\0\0\0\0n".to_vec()))));
    let (_, action) = go_on(combiner.step(CombineEvent::Output(WriteOutcome::Written)));
    assert_eq!(action, CombineAction::QuerySize { entry: 2 });
}
