use fragger::file_service::{
    check_chunk_size, check_source_size, clamp_kilobytes, payload_len, write_failure,
    WriteOutcome, KILOBYTE, MAX_BUFFER_SIZE, MAX_CHUNK_SIZE, MAX_FILE_SIZE, MIN_CHUNK_SIZE,
};
use fragger::ExpectedErrors;

#[test]
fn limits_have_their_values() {
    assert_eq!(MAX_BUFFER_SIZE, 134_217_728);
    assert_eq!(MAX_CHUNK_SIZE, 4_398_046_511_104);
    assert_eq!(MIN_CHUNK_SIZE, 1024);
    assert_eq!(MAX_FILE_SIZE, 4_398_046_511_104);
}

#[test]
fn wished_kilobytes_are_brought_into_range() {
    assert_eq!(KILOBYTE, 1024);
    assert_eq!(clamp_kilobytes(0), 1);
    assert_eq!(clamp_kilobytes(1), 1);
    assert_eq!(clamp_kilobytes(8192), 8192);
    assert_eq!(clamp_kilobytes(4_294_967_296), 4_294_967_296);
    assert_eq!(clamp_kilobytes(4_294_967_297), 4_294_967_296);
    assert_eq!(clamp_kilobytes(u64::MAX), 4_294_967_296);
    for wished in [0, 1, 25, 3584, 102_400, u64::MAX] {
        assert_eq!(check_chunk_size(clamp_kilobytes(wished) * KILOBYTE), Ok(()));
    }
}

#[test]
fn chunk_size_below_the_minimum_is_too_small() {
    assert_eq!(
        check_chunk_size(MIN_CHUNK_SIZE - 1),
        Err(ExpectedErrors::FileTooSmall(1023, MAX_CHUNK_SIZE))
    );
    assert_eq!(check_chunk_size(0), Err(ExpectedErrors::FileTooSmall(0, MAX_CHUNK_SIZE)));
}

#[test]
fn chunk_size_above_the_maximum_is_too_big() {
    assert_eq!(
        check_chunk_size(MAX_CHUNK_SIZE + 1),
        Err(ExpectedErrors::FileTooBig(MAX_CHUNK_SIZE + 1, MAX_CHUNK_SIZE))
    );
    assert_eq!(
        check_chunk_size(u64::MAX),
        Err(ExpectedErrors::FileTooBig(u64::MAX, MAX_CHUNK_SIZE))
    );
}

#[test]
fn chunk_size_at_either_limit_is_accepted() {
    assert_eq!(check_chunk_size(MIN_CHUNK_SIZE), Ok(()));
    assert_eq!(check_chunk_size(MAX_CHUNK_SIZE), Ok(()));
    assert_eq!(check_chunk_size(2052), Ok(()));
}

#[test]
fn source_smaller_than_a_chunk_is_refused() {
    assert_eq!(check_source_size(2051, 2052), Err(ExpectedErrors::FileLargerThanChunkSize));
    assert_eq!(check_source_size(0, 1024), Err(ExpectedErrors::FileLargerThanChunkSize));
}

#[test]
fn source_of_one_chunk_or_more_is_accepted() {
    assert_eq!(check_source_size(2052, 2052), Ok(()));
    assert_eq!(check_source_size(2053, 2052), Ok(()));
    assert_eq!(check_source_size(MAX_FILE_SIZE, MAX_CHUNK_SIZE), Ok(()));
}

#[test]
fn source_above_the_limit_is_giant() {
    assert_eq!(check_source_size(MAX_FILE_SIZE + 1, 1024), Err(ExpectedErrors::GiantFile));
    assert_eq!(check_source_size(u64::MAX, MAX_CHUNK_SIZE), Err(ExpectedErrors::GiantFile));
}

#[test]
fn payload_is_what_the_header_leaves() {
    assert_eq!(payload_len(1024), 1020);
    assert_eq!(payload_len(2052), 2048);
    assert_eq!(payload_len(4), 0);
    assert_eq!(payload_len(3), 0);
    assert_eq!(payload_len(MAX_CHUNK_SIZE), 4_398_046_511_100);
}

#[test]
fn write_failures_name_their_errors() {
    let path = || String::from("dir/file.frag");
    assert_eq!(
        write_failure(WriteOutcome::NotCreated, path(), ExpectedErrors::UnreadableFile),
        ExpectedErrors::CouldNotCreateFile(path())
    );
    assert_eq!(
        write_failure(WriteOutcome::NotOpened, path(), ExpectedErrors::UnreadableFile),
        ExpectedErrors::UnreadableFile
    );
    assert_eq!(
        write_failure(WriteOutcome::NotWritten, path(), ExpectedErrors::UnreadableFile),
        ExpectedErrors::CouldNotWriteFile(path())
    );
}
