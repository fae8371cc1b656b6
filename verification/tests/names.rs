use fragger::combiner::{entry_is_fragment, output_file_name, recover_name, DirEntry};
use fragger::file_service::{data_file_name, decimal_text, fragment_dir_name, metadata_file_name};

#[test]
fn decimal_text_has_no_leading_zeros() {
    assert_eq!(decimal_text(0), "0");
    assert_eq!(decimal_text(7), "7");
    assert_eq!(decimal_text(10), "10");
    assert_eq!(decimal_text(109), "109");
    assert_eq!(decimal_text(1234567890), "1234567890");
    assert_eq!(decimal_text(u32::MAX), "4294967295");
}

#[test]
fn decimal_text_agrees_with_the_standard_library() {
    let mut number: u32 = 1;
    for _ in 0..40 {
        assert_eq!(decimal_text(number), number.to_string());
        number = number.wrapping_mul(7).wrapping_add(3);
    }
}

#[test]
fn fragment_directory_is_the_stem_under_the_parent() {
    assert_eq!(fragment_dir_name("./tests/files", "small"), "./tests/files/small");
    assert_eq!(fragment_dir_name("", "a"), "/a");
}

#[test]
fn fragment_files_have_their_names() {
    assert_eq!(metadata_file_name("./tests/files/small"), "./tests/files/small/filedata.frag");
    assert_eq!(data_file_name("./tests/files/small", 1), "./tests/files/small/split_file_1.frag");
    assert_eq!(data_file_name("d", 12), "d/split_file_12.frag");
    assert_eq!(data_file_name("d", u32::MAX), "d/split_file_4294967295.frag");
}

#[test]
fn output_file_is_the_name_under_the_parent() {
    assert_eq!(output_file_name("./tests/files", "small.txt"), "./tests/files/small.txt");
}

#[test]
fn recovered_name_is_the_decoded_payload() {
    assert_eq!(recover_name(b"small.txt"), Some(String::from("small.txt")));
    assert_eq!(recover_name(&[]), Some(String::new()));
    assert_eq!(recover_name(&[0xc3, 0xa9, 0x2e, 0x74]), Some(String::from("\u{e9}.t")));
    assert_eq!(recover_name(&[0xe2, 0x82, 0xac]), Some(String::from("\u{20ac}")));
}

#[test]
fn name_that_is_not_utf8_is_not_recovered() {
    assert_eq!(recover_name(&[0xff]), None);
    assert_eq!(recover_name(&[0x61, 0xc3]), None);
    assert_eq!(recover_name(&[0xc0, 0x80]), None);
    assert_eq!(recover_name(&[0xed, 0xa0, 0x80]), None);
}

#[test]
fn only_files_with_the_extension_are_fragments() {
    let entry = |extension: Option<&str>, is_dir: bool| DirEntry::Item {
        path: String::from("d/x"),
        extension: extension.map(String::from),
        is_dir,
    };
    assert!(entry_is_fragment(&entry(Some("frag"), false)));
    assert!(!entry_is_fragment(&entry(Some("frag"), true)));
    assert!(!entry_is_fragment(&entry(Some("txt"), false)));
    assert!(!entry_is_fragment(&entry(Some("FRAG"), false)));
    assert!(!entry_is_fragment(&entry(Some("frag "), false)));
    assert!(!entry_is_fragment(&entry(Some(""), false)));
    assert!(!entry_is_fragment(&entry(None, false)));
    assert!(!entry_is_fragment(&DirEntry::Unreadable));
}
