use fragger::combiner::{
    CombineAction, CombineEvent, CombineStep, Combiner, DirEntry, FragmentDir, ReadOutcome,
};
use fragger::file_service::WriteOutcome;
use fragger::splitter::{SourceFile, SplitAction, SplitEvent, SplitStep, Splitter};
use fragger::ExpectedErrors;

const CHUNK_SIZE: u32 = 100 * 1024 * 1024;

/// The size of the file of 1024 blocks of 1024 zero bytes.
const SMALL: u64 = 1024 * 1024;

/// The size of the file of 1024 * 1024 blocks of 1024 zero bytes.
const LARGE: u64 = 1024 * 1024 * 1024;

/// A fragment file of which all but the header is zero: its path, its first
/// bytes (all of them for the metadata fragment), and its size.
struct Stored {
    path: String,
    head: Vec<u8>,
    size: u64,
}

fn all_zero(bytes: &[u8]) -> bool {
    let zeros: Vec<u8> = vec![0; bytes.len()];
    bytes == &zeros[..]
}

/// Splits a file of `size` zero bytes, and keeps of each fragment what does
/// not follow from its size.
fn split_file(path: &str, size: u64, chunk_size: u64) -> Result<Vec<Stored>, ExpectedErrors> {
    let path = std::path::Path::new(path);
    let source = SourceFile {
        path: path.display().to_string(),
        parent: path.parent().map(|parent| parent.display().to_string()),
        stem: path.file_stem().and_then(|stem| stem.to_str()).map(String::from),
        name: path.file_name().map(|name| name.as_encoded_bytes().to_vec()),
    };
    let mut stored: Vec<Stored> = Vec::new();
    let mut position: u64 = 0;
    let mut step = Splitter::start(source, chunk_size);
    loop {
        let (splitter, action) = match step {
            SplitStep::Finished(outcome) => return outcome.map(|_| stored),
            SplitStep::Next(splitter, action) => (splitter, action),
        };
        let event = match action {
            SplitAction::QuerySize => SplitEvent::Size(Some(size)),
            SplitAction::CreateDir { .. } => SplitEvent::Done(true),
            SplitAction::OpenSource => SplitEvent::Done(true),
            SplitAction::WriteFile { path, bytes } => {
                let head = if stored.is_empty() { bytes.clone() } else { bytes[..4].to_vec() };
                assert!(stored.is_empty() || all_zero(&bytes[4..]));
                stored.push(Stored { path, head, size: bytes.len() as u64 });
                SplitEvent::Written(WriteOutcome::Written)
            }
            SplitAction::ReadChunk { max_len } => {
                let taken = max_len.min(size - position);
                position += taken;
                SplitEvent::Chunk(Some(vec![0; taken as usize]))
            }
        };
        step = splitter.step(event);
    }
}

/// Reassembles stored fragments, and gives the path of the reassembled file
/// and its size. What is appended has to be zero.
fn combine_files(path: &str, stored: &[Stored]) -> Result<(String, u64), ExpectedErrors> {
    let path = std::path::Path::new(path);
    let dir = FragmentDir {
        path: path.display().to_string(),
        parent: path.parent().map(|parent| parent.display().to_string()),
    };
    let mut output: (String, u64) = (String::new(), 0);
    let mut open: Option<(usize, u64)> = None;
    let mut step = Combiner::start(dir);
    loop {
        let (combiner, action) = match step {
            CombineStep::Finished(outcome) => return outcome.map(|_| output),
            CombineStep::Next(combiner, action) => (combiner, action),
        };
        let event = match action {
            CombineAction::ListDir => CombineEvent::Listing(Some(
                stored
                    .iter()
                    .map(|file| {
                        let path = std::path::Path::new(&file.path);
                        DirEntry::Item {
                            path: file.path.clone(),
                            extension: path
                                .extension()
                                .and_then(|extension| extension.to_str())
                                .map(String::from),
                            is_dir: false,
                        }
                    })
                    .collect(),
            )),
            CombineAction::Warn(error) => panic!("{:?}", error),
            CombineAction::ReadHeader { entry } => {
                let head = &stored[entry].head;
                CombineEvent::Header(Some([head[0], head[1], head[2], head[3]]))
            }
            CombineAction::ReadAll { entry } => {
                assert_eq!(stored[entry].head.len() as u64, stored[entry].size);
                CombineEvent::Contents(Some(stored[entry].head.clone()))
            }
            CombineAction::CreateOutput { path } => {
                output = (path, 0);
                CombineEvent::Output(WriteOutcome::Written)
            }
            CombineAction::QuerySize { entry } => CombineEvent::Size(Some(stored[entry].size)),
            CombineAction::ReadChunk { entry, max_len } => {
                let start = match open {
                    Some((reading, offset)) if reading == entry => offset,
                    _ => 0,
                };
                let taken = max_len.min(stored[entry].size - start);
                let mut bytes: Vec<u8> = vec![0; taken as usize];
                let mut at = start;
                while at < 4 && at < start + taken {
                    bytes[(at - start) as usize] = stored[entry].head[at as usize];
                    at += 1;
                }
                open = if taken == 0 { None } else { Some((entry, start + taken)) };
                CombineEvent::Chunk(ReadOutcome::Bytes(bytes))
            }
            CombineAction::Append { bytes } => {
                assert!(all_zero(&bytes));
                output.1 += bytes.len() as u64;
                CombineEvent::Done(true)
            }
        };
        step = combiner.step(event);
    }
}

#[test]
fn weed_errors() {
    split_file("./tests/files/small.txt", SMALL, 100 * 1024).unwrap();
    split_file("./tests/files/large.txt", LARGE, CHUNK_SIZE as u64).unwrap();
}

#[test]
fn split_and_reassemble() {
    let stored = split_file("./tests/files/small.txt", SMALL, 90 * 999).unwrap();
    assert_eq!(stored.len(), 13);
    assert_eq!(
        combine_files("./tests/files/small", &stored),
        Ok((String::from("./tests/files/small.txt"), SMALL))
    );

    let stored = split_file("./tests/files/large.txt", LARGE, 8 * 1024 * 1024).unwrap();
    assert_eq!(stored.len(), 130);
    assert_eq!(
        combine_files("./tests/files/large", &stored),
        Ok((String::from("./tests/files/large.txt"), LARGE))
    );
}

#[test]
fn split_large_file() {}

#[test]
fn reassemble_large_file() {
    let stored = split_file("./tests/files/large.txt", LARGE, 8 * 1024 * 1024).unwrap();
    assert_eq!(stored[0].path, "./tests/files/large/filedata.frag");
    assert_eq!(stored[129].path, "./tests/files/large/split_file_129.frag");
    assert_eq!(stored[129].size, 4 + LARGE - 128 * (8 * 1024 * 1024 - 4));
    assert_eq!(
        combine_files("./tests/files/large", &stored),
        Ok((String::from("./tests/files/large.txt"), LARGE))
    );
}
