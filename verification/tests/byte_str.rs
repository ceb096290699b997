use swarm_pool::tools::byte_str::ByteStr;

#[test]
fn byte_str_from_str() {
    let byte_str: ByteStr = ByteStr::from("test");
    assert_eq!(byte_str, "test");
    assert!(byte_str == "test");
    assert!(byte_str != "tesa");
    assert!(byte_str.eq_str("test"));
    assert!(!byte_str.eq_str("tesa"));
    assert!(!byte_str.eq_str("test and more"));
}

#[test]
fn byte_str_len_is_the_size() {
    let byte_str: ByteStr = ByteStr::from("test");
    assert_eq!(byte_str.len(), 8);
    assert_eq!(ByteStr::from("01234567").len(), 8);
    assert_eq!(ByteStr::from("012345678").len(), 16);
    assert_eq!(ByteStr::from("0123456789abcdef").len(), 16);
    assert_eq!(ByteStr::from("0123456789abcdefg").len(), 32);
    assert_eq!(ByteStr::from("0123456789abcdef0123456789abcdef").len(), 32);
    assert_eq!(ByteStr::from("0123456789abcdef0123456789abcdefg").len(), 64);
    assert_eq!(ByteStr::from("").len(), 8);
}

#[test]
fn byte_str_char_at_index() {
    let byte_str: ByteStr = ByteStr::from("test");
    assert_eq!(byte_str.char(0), "t".as_bytes()[0]);
    assert_eq!(byte_str.char(1), "e".as_bytes()[0]);
    assert_eq!(byte_str.char(2), "s".as_bytes()[0]);
    assert_eq!(byte_str.char(3), "t".as_bytes()[0]);
    assert_eq!(byte_str.char(4), 0);
    assert_eq!(byte_str.char(5), 0);
    assert_eq!(byte_str.char(6), 0);
    assert_eq!(byte_str.char(7), 0);
}

#[test]
fn byte_str_equality() {
    let byte_str_1: ByteStr = ByteStr::from("test");
    let byte_str_2: ByteStr = ByteStr::from("test");
    assert_eq!(byte_str_1, byte_str_2);
    assert!(byte_str_1 == byte_str_2);
    assert!(byte_str_1 != ByteStr::from("tess"));
    assert!(byte_str_1 != ByteStr::from("test test"));
    // the same text at another size is another byte string
    assert!(ByteStr::Str8([0; 8]) != ByteStr::Str16([0; 16]));
}

#[test]
fn byte_str_compared_with_a_string() {
    let byte_str: ByteStr = ByteStr::from("test");
    assert_eq!(byte_str, String::from("test"));
    assert!(byte_str == String::from("test"));
    assert!(byte_str != String::from("rest"));
    // a byte string equals every text that it starts with
    assert!(byte_str == String::from("te"));
    assert!(byte_str == "");
}

#[test]
fn byte_str_from_string() {
    let byte_str: ByteStr = ByteStr::from(String::from("test"));
    assert_eq!(byte_str, "test");
    assert!(byte_str.eq_str("test"));
    assert_eq!(byte_str, ByteStr::from("test"));
}

#[test]
fn byte_str_into_text() {
    let byte_str: ByteStr = ByteStr::from("test");
    assert_eq!(byte_str.text(), Some(String::from("test")));
    assert_eq!(byte_str.text_bytes(), vec![116, 101, 115, 116]);
    assert_eq!(ByteStr::from("").text(), Some(String::new()));
    assert_eq!(ByteStr::from("01234567").text(), Some(String::from("01234567")));
}

#[test]
fn byte_str_text_that_is_not_utf8() {
    let byte_str = ByteStr::from_bytes(&[0xff, 0xfe]);
    assert_eq!(byte_str.text(), None);
    assert_eq!(byte_str.text_bytes(), vec![0xff, 0xfe]);
}

#[test]
fn byte_str_cuts_off_long_texts() {
    let long = "0123456789abcdef0123456789abcdef0123456789abcdef0123456789abcdef-and-more";
    let byte_str = ByteStr::from(long);
    assert_eq!(byte_str.len(), 64);
    assert_eq!(
        byte_str.text(),
        Some(String::from("0123456789abcdef0123456789abcdef0123456789abcdef0123456789abcdef"))
    );
    assert_eq!(ByteStr::from(String::from(long)), byte_str);
}

#[test]
fn byte_str_default_is_eight_zeros() {
    let byte_str = ByteStr::default();
    assert_eq!(byte_str.len(), 8);
    assert_eq!(byte_str.bytes(), &[0u8; 8]);
    assert_eq!(byte_str, ByteStr::from(""));
}
