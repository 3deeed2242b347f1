use flatten_repo::{
    can_decode, looks_binary, read_file_contents, FileType, BINARY_FILE_CHECK_SIZE,
};

#[test]
fn check_size_is_8192() {
    assert_eq!(BINARY_FILE_CHECK_SIZE, 8192);
}

#[test]
fn empty_file_is_text() {
    assert!(!looks_binary(b""));
    assert_eq!(read_file_contents(b""), FileType::Text(String::new()));
}

#[test]
fn plain_text_is_decoded() {
    assert_eq!(read_file_contents(b"hello"), FileType::Text("hello".to_string()));
}

#[test]
fn leading_zero_byte_is_binary() {
    assert!(looks_binary(&[0u8, 1, 2, 3]));
    assert_eq!(read_file_contents(&[0u8, 1, 2, 3]), FileType::Binary);
}

#[test]
fn zero_byte_at_last_inspected_position_is_binary() {
    let mut bytes = vec![b'a'; 8192];
    bytes[8191] = 0;
    assert!(looks_binary(&bytes));
    assert_eq!(read_file_contents(&bytes), FileType::Binary);
}

#[test]
fn zero_byte_after_the_prefix_is_text() {
    let mut bytes = vec![b'a'; 8193];
    bytes[8192] = 0;
    assert!(!looks_binary(&bytes));
    let mut expected = "a".repeat(8192);
    expected.push('\0');
    assert_eq!(read_file_contents(&bytes), FileType::Text(expected));
}

#[test]
fn files_agreeing_on_the_prefix_classify_alike() {
    let mut first = vec![b'x'; 9000];
    let mut second = vec![b'x'; 10000];
    first[8500] = 0;
    second[9999] = 0;
    assert_eq!(looks_binary(&first), looks_binary(&second));
    first[10] = 0;
    second[10] = 0;
    assert!(looks_binary(&first));
    assert!(looks_binary(&second));
}

#[test]
fn malformed_bytes_are_replaced() {
    let bytes = [b'a', 0xff, b'b'];
    assert_eq!(read_file_contents(&bytes), FileType::Text("a\u{fffd}b".to_string()));
}

#[test]
fn truncated_sequence_is_replaced() {
    let bytes = [b'o', b'k', 0xe2, 0x82];
    assert_eq!(read_file_contents(&bytes), FileType::Text("ok\u{fffd}".to_string()));
}

#[test]
fn multibyte_text_is_kept() {
    let text = "gr\u{fc}\u{df}e \u{20ac} \u{1f600}";
    assert_eq!(read_file_contents(text.as_bytes()), FileType::Text(text.to_string()));
}

#[test]
fn byte_order_mark_is_dropped() {
    let bytes = [0xef, 0xbb, 0xbf, b'h', b'i'];
    assert_eq!(read_file_contents(&bytes), FileType::Text("hi".to_string()));
}

#[test]
fn decodable_sizes() {
    assert!(can_decode(0));
    assert!(can_decode(1 << 30));
    let most = (isize::MAX as usize - 6) / 6;
    assert!(can_decode(most));
    assert!(!can_decode(most + 1));
    assert!(!can_decode(usize::MAX));
}
