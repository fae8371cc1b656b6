//! The fragment format and the rules that both pipelines share: the limits on
//! sizes, the four-byte header, the framing of a fragment and the names of the
//! files that a split leaves behind.

use crate::{ErrorView, ExpectedErrors};
use vstd::prelude::*;
use vstd::string::StringExecFns;

verus! {

/// The largest buffer that a reassembly reads a fragment through: 128 MiB.
pub const MAX_BUFFER_SIZE: u64 = 128 * 1024 * 1024;

/// The largest chunk size that a split accepts: 4 TiB.
pub const MAX_CHUNK_SIZE: u64 = 4 * 1024 * 1024 * 1024 * 1024;

/// The smallest chunk size that a split accepts: 1 KiB.
pub const MIN_CHUNK_SIZE: u64 = 1024;

/// The largest source file that a split accepts: 4 TiB.
pub const MAX_FILE_SIZE: u64 = 4 * 1024 * 1024 * 1024 * 1024;

/// The number that four header bytes stand for: byte `i` weighs `256^i`.
pub open spec fn header_value(bytes: Seq<u8>) -> int {
    bytes[0] + 256 * bytes[1] + 65536 * bytes[2] + 16777216 * bytes[3]
}

/// The four header bytes of a sequence number, least significant byte first.
pub open spec fn header_bytes(num: u32) -> Seq<u8> {
    seq![
        (num % 256) as u8,
        (num / 256 % 256) as u8,
        (num / 65536 % 256) as u8,
        (num / 16777216) as u8,
    ]
}

/// Decoding what was encoded gives the number back.
pub proof fn lemma_header_round_trip(num: u32)
    ensures
        header_bytes(num).len() == 4,
        header_value(header_bytes(num)) == num,
{
    assert(num % 256 + 256 * (num / 256 % 256) + 65536 * (num / 65536 % 256) + 16777216 * (num
        / 16777216) == num) by (bit_vector);
    assert(num % 256 < 256 && num / 256 % 256 < 256 && num / 65536 % 256 < 256 && num / 16777216
        < 256) by (bit_vector);
}

/// The header holds as many significant bytes as the number takes, one at
/// least, at its low places; the places above them are zero.
pub proof fn lemma_header_zero_filled(num: u32)
    ensures
        num < 256 ==> header_bytes(num) == seq![num as u8, 0u8, 0u8, 0u8],
        num < 65536 ==> header_bytes(num)[2] == 0 && header_bytes(num)[3] == 0,
        num < 16777216 ==> header_bytes(num)[3] == 0,
        num >= 256 ==> header_bytes(num)[1] != 0 || header_bytes(num)[2] != 0 || header_bytes(
            num,
        )[3] != 0,
{
    assert(num < 256 ==> num % 256 == num && num / 256 % 256 == 0) by (bit_vector);
    assert(num < 65536 ==> num / 65536 % 256 == 0 && num / 16777216 == 0) by (bit_vector);
    assert(num < 16777216 ==> num / 16777216 == 0) by (bit_vector);
    assert(num >= 256 ==> num / 256 % 256 != 0 || num / 65536 % 256 != 0 || num / 16777216 != 0)
        by (bit_vector);
    assert(num / 256 % 256 < 256 && num / 65536 % 256 < 256 && num / 16777216 < 256)
        by (bit_vector);
}

/// Four bytes stand for a number below `2^32`, and encoding that number gives
/// the same four bytes: the header codec is a bijection.
pub proof fn lemma_header_bytes_round_trip(bytes: Seq<u8>)
    requires
        bytes.len() == 4,
    ensures
        0 <= header_value(bytes) <= u32::MAX,
        header_bytes(header_value(bytes) as u32) == bytes,
{
    let b0: u32 = bytes[0] as u32;
    let b1: u32 = bytes[1] as u32;
    let b2: u32 = bytes[2] as u32;
    let b3: u32 = bytes[3] as u32;
    let num: u32 = (b0 + 256 * b1 + 65536 * b2 + 16777216 * b3) as u32;
    assert(num % 256 == b0 && num / 256 % 256 == b1 && num / 65536 % 256 == b2 && num / 16777216
        == b3) by (bit_vector)
        requires
            b0 < 256,
            b1 < 256,
            b2 < 256,
            b3 < 256,
            num == b0 + 256 * b1 + 65536 * b2 + 16777216 * b3,
    ;
}

/// Encodes a sequence number into its four header bytes.
pub fn into_u8(num: u32) -> (res: [u8; 4])
    ensures
        res@ == header_bytes(num),
{
    let b0: u32 = num & 0xff;
    let b1: u32 = (num >> 8) & 0xff;
    let b2: u32 = (num >> 16) & 0xff;
    let b3: u32 = num >> 24;
    assert(b0 == num % 256 && b1 == num / 256 % 256 && b2 == num / 65536 % 256 && b3 == num
        / 16777216) by (bit_vector)
        requires
            b0 == num & 0xff,
            b1 == (num >> 8) & 0xff,
            b2 == (num >> 16) & 0xff,
            b3 == num >> 24,
    ;
    let res: [u8; 4] = [b0 as u8, b1 as u8, b2 as u8, b3 as u8];
    res
}

/// Decodes four header bytes into the sequence number they stand for.
pub fn into_u32(num: [u8; 4]) -> (res: u32)
    ensures
        res == header_value(num@),
{
    let b0: u32 = num[0] as u32;
    let b1: u32 = num[1] as u32;
    let b2: u32 = num[2] as u32;
    let b3: u32 = num[3] as u32;
    b0 + 256 * b1 + 65536 * b2 + 16777216 * b3
}

/// The error that a result carries, if it carries one.
pub open spec fn error_of<T>(result: Result<T, ExpectedErrors>) -> Option<ErrorView> {
    match result {
        Ok(_) => None,
        Err(error) => Some(error@),
    }
}

/// The error that a chunk size is refused with: `FileTooBig` above
/// `MAX_CHUNK_SIZE`, `FileTooSmall` below `MIN_CHUNK_SIZE`, none in between.
pub open spec fn chunk_size_error(chunk_size: u64) -> Option<ErrorView> {
    if chunk_size > MAX_CHUNK_SIZE {
        Some(ErrorView::FileTooBig(chunk_size, MAX_CHUNK_SIZE))
    } else if chunk_size < MIN_CHUNK_SIZE {
        Some(ErrorView::FileTooSmall(chunk_size, MAX_CHUNK_SIZE))
    } else {
        None
    }
}

/// The error that a source of `size` bytes is refused with:
/// `FileLargerThanChunkSize` where it is smaller than one chunk, `GiantFile`
/// above `MAX_FILE_SIZE`, none otherwise.
pub open spec fn source_size_error(size: u64, chunk_size: u64) -> Option<ErrorView> {
    if size < chunk_size {
        Some(ErrorView::FileLargerThanChunkSize)
    } else if size > MAX_FILE_SIZE {
        Some(ErrorView::GiantFile)
    } else {
        None
    }
}

/// Checks a chunk size against the two limits.
pub fn check_chunk_size(chunk_size: u64) -> (result: Result<(), ExpectedErrors>)
    ensures
        error_of(result) == chunk_size_error(chunk_size),
{
    if chunk_size > MAX_CHUNK_SIZE {
        Err(ExpectedErrors::FileTooBig(chunk_size, MAX_CHUNK_SIZE))
    } else if chunk_size < MIN_CHUNK_SIZE {
        Err(ExpectedErrors::FileTooSmall(chunk_size, MAX_CHUNK_SIZE))
    } else {
        Ok(())
    }
}

/// Checks the size of a source file against the chunk size and the limit on
/// files.
pub fn check_source_size(size: u64, chunk_size: u64) -> (result: Result<(), ExpectedErrors>)
    ensures
        error_of(result) == source_size_error(size, chunk_size),
{
    if size < chunk_size {
        Err(ExpectedErrors::FileLargerThanChunkSize)
    } else if size > MAX_FILE_SIZE {
        Err(ExpectedErrors::GiantFile)
    } else {
        Ok(())
    }
}

/// The bytes in a kilobyte, the unit in which a chunk size is chosen.
pub const KILOBYTE: u64 = 1024;

/// The chunk size in kilobytes that a wish comes to: the wish, but no less
/// than the smallest and no more than the largest chunk size.
pub open spec fn kilobytes_in_range(wished: u64) -> u64 {
    if wished < MIN_CHUNK_SIZE / KILOBYTE {
        MIN_CHUNK_SIZE / KILOBYTE
    } else if wished > MAX_CHUNK_SIZE / KILOBYTE {
        MAX_CHUNK_SIZE / KILOBYTE
    } else {
        wished
    }
}

/// Brings a wished chunk size in kilobytes into the range of chunk sizes, so
/// that a split accepts that many kilobytes as its chunk size.
pub fn clamp_kilobytes(wished: u64) -> (kilobytes: u64)
    ensures
        kilobytes == kilobytes_in_range(wished),
        chunk_size_error((kilobytes * KILOBYTE) as u64) is None,
{
    if wished < MIN_CHUNK_SIZE / KILOBYTE {
        MIN_CHUNK_SIZE / KILOBYTE
    } else if wished > MAX_CHUNK_SIZE / KILOBYTE {
        MAX_CHUNK_SIZE / KILOBYTE
    } else {
        wished
    }
}

/// How the writing of a file ended.
#[derive(Debug, Clone, Copy, PartialEq, Eq)]
pub enum WriteOutcome {
    /// The file holds the bytes.
    Written,
    /// The file could not be created.
    NotCreated,
    /// The file was created and could not be opened for writing.
    NotOpened,
    /// The file was opened and the bytes could not be written.
    NotWritten,
}

/// The error of a file that was not written: `CouldNotCreateFile` or
/// `CouldNotWriteFile` with its path, or `not_opened` where it could not be
/// opened.
pub open spec fn write_error(
    outcome: WriteOutcome,
    path: Seq<char>,
    not_opened: ErrorView,
) -> ErrorView {
    match outcome {
        WriteOutcome::NotCreated => ErrorView::CouldNotCreateFile(path),
        WriteOutcome::NotOpened => not_opened,
        _ => ErrorView::CouldNotWriteFile(path),
    }
}

/// Names the error of a file that was not written.
pub fn write_failure(outcome: WriteOutcome, path: String, not_opened: ExpectedErrors) -> (error:
    ExpectedErrors)
    ensures
        error@ == write_error(outcome, path@, not_opened@),
{
    match outcome {
        WriteOutcome::NotCreated => ExpectedErrors::CouldNotCreateFile(path),
        WriteOutcome::NotOpened => not_opened,
        _ => ExpectedErrors::CouldNotWriteFile(path),
    }
}

/// The bytes of source content that one fragment of `chunk_size` bytes holds:
/// what the header leaves.
pub open spec fn payload_capacity(chunk_size: u64) -> u64 {
    if chunk_size < 4 {
        0
    } else {
        (chunk_size - 4) as u64
    }
}

/// Computes the bytes of source content that one fragment holds.
pub fn payload_len(chunk_size: u64) -> (len: u64)
    ensures
        len == payload_capacity(chunk_size),
{
    if chunk_size < 4 {
        0
    } else {
        chunk_size - 4
    }
}

/// A fragment file: the header of its sequence number, then the payload.
pub open spec fn fragment_bytes(number: u32, payload: Seq<u8>) -> Seq<u8> {
    header_bytes(number) + payload
}

/// The sequence number in the header of a fragment of at least four bytes.
pub open spec fn fragment_number(bytes: Seq<u8>) -> int {
    header_value(bytes.take(4))
}

/// What follows the header in a fragment of at least four bytes.
pub open spec fn fragment_payload(bytes: Seq<u8>) -> Seq<u8> {
    bytes.skip(4)
}

/// A fragment gives back the number and the payload that it was framed from.
pub proof fn lemma_fragment_parts(number: u32, payload: Seq<u8>)
    ensures
        fragment_bytes(number, payload).len() == payload.len() + 4,
        fragment_number(fragment_bytes(number, payload)) == number,
        fragment_payload(fragment_bytes(number, payload)) == payload,
{
}

/// Frames a payload as the fragment with the given sequence number.
pub fn frame(number: u32, payload: &[u8]) -> (bytes: Vec<u8>)
    ensures
        bytes@ == fragment_bytes(number, payload@),
{
    let header: [u8; 4] = into_u8(number);
    let mut bytes: Vec<u8> = Vec::new();
    bytes.push(header[0]);
    bytes.push(header[1]);
    bytes.push(header[2]);
    bytes.push(header[3]);
    bytes.extend_from_slice(payload);
    bytes
}

/// The character of a decimal digit.
pub open spec fn digit(d: int) -> char {
    if d == 0 {
        '0'
    } else if d == 1 {
        '1'
    } else if d == 2 {
        '2'
    } else if d == 3 {
        '3'
    } else if d == 4 {
        '4'
    } else if d == 5 {
        '5'
    } else if d == 6 {
        '6'
    } else if d == 7 {
        '7'
    } else if d == 8 {
        '8'
    } else {
        '9'
    }
}

/// A number written in decimal, without leading zeros.
pub open spec fn decimal(n: nat) -> Seq<char>
    decreases n,
{
    if n < 10 {
        seq![digit(n as int)]
    } else {
        decimal(n / 10).push(digit((n % 10) as int))
    }
}

/// The directory that a split puts its fragments in: the source's stem, under
/// the source's parent directory.
pub open spec fn fragment_dir(parent: Seq<char>, stem: Seq<char>) -> Seq<char> {
    parent + "/"@ + stem
}

/// The path of the metadata fragment in a fragment directory.
pub open spec fn metadata_path(dir: Seq<char>) -> Seq<char> {
    dir + "/filedata.frag"@
}

/// The path of the data fragment with the given sequence number.
pub open spec fn data_path(dir: Seq<char>, number: u32) -> Seq<char> {
    dir + "/split_file_"@ + decimal(number as nat) + ".frag"@
}

/// The number that decimal digits stand for.
pub open spec fn decimal_value(digits: Seq<char>) -> nat
    decreases digits.len(),
{
    if digits.len() == 0 {
        0
    } else {
        10 * decimal_value(digits.drop_last()) + (digits.last() as nat - '0' as nat) as nat
    }
}

/// A number written in decimal stands for that number, so that two numbers
/// are written alike only where they are the same.
pub proof fn lemma_decimal_value(n: nat)
    ensures
        decimal(n).len() >= 1,
        decimal_value(decimal(n)) == n,
    decreases n,
{
    if n < 10 {
        reveal_with_fuel(decimal_value, 2);
    } else {
        lemma_decimal_value(n / 10);
        assert(decimal(n).drop_last() =~= decimal(n / 10));
    }
}

/// The fragment files of one directory have paths of their own: no two
/// sequence numbers name the same data fragment, and none names the metadata
/// fragment.
pub proof fn lemma_paths_differ(dir: Seq<char>, first: u32, second: u32)
    ensures
        data_path(dir, first) == data_path(dir, second) ==> first == second,
        metadata_path(dir) != data_path(dir, first),
{
    reveal_strlit("/filedata.frag");
    reveal_strlit("/split_file_");
    reveal_strlit(".frag");
    let before = dir + "/split_file_"@;
    let one = data_path(dir, first);
    let other = data_path(dir, second);
    lemma_decimal_value(first as nat);
    lemma_decimal_value(second as nat);
    assert(one.subrange(before.len() as int, one.len() - 5) =~= decimal(first as nat));
    assert(other.subrange(before.len() as int, other.len() - 5) =~= decimal(second as nat));
}

fn digit_text(d: u32) -> (text: &'static str)
    requires
        d < 10,
    ensures
        text@ == seq![digit(d as int)],
{
    proof {
        reveal_strlit("0");
        reveal_strlit("1");
        reveal_strlit("2");
        reveal_strlit("3");
        reveal_strlit("4");
        reveal_strlit("5");
        reveal_strlit("6");
        reveal_strlit("7");
        reveal_strlit("8");
        reveal_strlit("9");
    }
    let text: &'static str = if d == 0 {
        "0"
    } else if d == 1 {
        "1"
    } else if d == 2 {
        "2"
    } else if d == 3 {
        "3"
    } else if d == 4 {
        "4"
    } else if d == 5 {
        "5"
    } else if d == 6 {
        "6"
    } else if d == 7 {
        "7"
    } else if d == 8 {
        "8"
    } else {
        "9"
    };
    text
}

/// Writes a number in decimal.
pub fn decimal_text(n: u32) -> (text: String)
    ensures
        text@ == decimal(n as nat),
    decreases n,
{
    if n < 10 {
        String::from_str(digit_text(n))
    } else {
        let mut text: String = decimal_text(n / 10);
        text.append(digit_text(n % 10));
        text
    }
}

/// Names the directory that the fragments of a source go to.
pub fn fragment_dir_name(parent: &str, stem: &str) -> (dir: String)
    ensures
        dir@ == fragment_dir(parent@, stem@),
{
    let mut dir: String = String::from_str(parent);
    dir.append("/");
    dir.append(stem);
    dir
}

/// Names the metadata fragment of a fragment directory.
pub fn metadata_file_name(dir: &str) -> (path: String)
    ensures
        path@ == metadata_path(dir@),
{
    let mut path: String = String::from_str(dir);
    path.append("/filedata.frag");
    path
}

/// Names the data fragment with the given sequence number.
pub fn data_file_name(dir: &str, number: u32) -> (path: String)
    ensures
        path@ == data_path(dir@, number),
{
    let mut path: String = String::from_str(dir);
    path.append("/split_file_");
    let digits: String = decimal_text(number);
    path.append(digits.as_str());
    path.append(".frag");
    path
}

} // verus!
