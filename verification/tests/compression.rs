use solicit::http::compression::{block_is_safe, field_scan, FieldScan};

#[test]
fn test_empty_block_is_safe() {
    assert!(block_is_safe(&[]));
}

#[test]
fn test_indexed_fields_are_safe() {
    assert!(block_is_safe(&[0x82, 0x84, 0x86]));
    assert_eq!(field_scan(&[0x82, 0x84], 0), FieldScan::Next(1));
    assert_eq!(field_scan(&[0x82, 0x84], 1), FieldScan::Next(2));
}

#[test]
fn test_indexed_field_with_long_index() {
    // 0xff: the prefix is full, and the index goes on for two bytes
    assert_eq!(field_scan(&[0xff, 0x80, 0x01, 0x82], 0), FieldScan::Next(3));
    // the integer is cut short
    assert_eq!(field_scan(&[0xff, 0x80], 0), FieldScan::Refused);
    // the integer has more than five bytes
    assert_eq!(field_scan(&[0xff, 0x80, 0x80, 0x80, 0x80, 0x01], 0), FieldScan::Refused);
    // four bytes after the prefix are the most
    assert_eq!(field_scan(&[0xff, 0x80, 0x80, 0x80, 0x01], 0), FieldScan::Next(5));
}

#[test]
fn test_literal_fields() {
    // literal with indexing, new name "ab", value "c"
    let block = [0x40, 2, b'a', b'b', 1, b'c'];
    assert_eq!(field_scan(&block, 0), FieldScan::Next(6));
    // literal without indexing, name from the table, value "xyz"
    let block = [0x04, 3, b'x', b'y', b'z'];
    assert_eq!(field_scan(&block, 0), FieldScan::Next(5));
    // literal never indexed, name from the table, value cut short
    let block = [0x14, 3, b'x', b'y'];
    assert_eq!(field_scan(&block, 0), FieldScan::Refused);
    // the name is cut short
    let block = [0x40, 5, b'a'];
    assert_eq!(field_scan(&block, 0), FieldScan::Refused);
    assert!(block_is_safe(&block));
}

#[test]
fn test_size_update() {
    assert_eq!(field_scan(&[0x20], 0), FieldScan::Next(1));
    assert_eq!(field_scan(&[0x3e], 0), FieldScan::Next(1));
    assert_eq!(field_scan(&[0x3f, 0x00], 0), FieldScan::Next(2));
    assert_eq!(field_scan(&[0x3f, 0xe1, 0x1f], 0), FieldScan::Next(3));
    assert!(block_is_safe(&[0x3f, 0xe1, 0x1f, 0x82]));
}

#[test]
fn test_malformed_size_update_is_not_safe() {
    assert_eq!(field_scan(&[0x3f], 0), FieldScan::BadSizeUpdate);
    assert_eq!(field_scan(&[0x3f, 0x80], 0), FieldScan::BadSizeUpdate);
    assert_eq!(field_scan(&[0x3f, 0x80, 0x80, 0x80, 0x80, 0x01], 0), FieldScan::BadSizeUpdate);
    assert!(!block_is_safe(&[0x3f]));
    assert!(!block_is_safe(&[0x82, 0x3f, 0xff]));
    // the same bytes inside a string are no size update
    assert!(block_is_safe(&[0x40, 1, 0x3f, 1, 0x3f]));
    // a field that is cut short comes first: the decoder stops there
    assert!(block_is_safe(&[0xff, 0x3f]));
}
