use hyped_core::format_string::{show, FormatError, FormatString};

#[test]
fn overflow_across_two_writes_fails_finalize() {
    let mut w = FormatString::new(vec![0u8; 8]);
    assert_eq!(w.write_str("Counter: "), Err(FormatError));
    assert_eq!(w.used(), 9);
    assert_eq!(w.write_str("0"), Err(FormatError));
    assert_eq!(w.used(), 10);
    assert_eq!(w.as_str(), None);
    assert_eq!(w.into_inner(), b"Counter:".to_vec());
}

#[test]
fn fitting_writes_finalize_to_concatenation() {
    let mut w = FormatString::new(vec![0u8; 16]);
    assert_eq!(w.write_str("Counter: "), Ok(()));
    assert_eq!(w.write_str("5"), Ok(()));
    assert_eq!(w.used(), 10);
    assert_eq!(w.as_str(), Some("Counter: 5".to_string()));
    let mut expected = b"Counter: 5".to_vec();
    expected.extend_from_slice(&[0u8; 6]);
    assert_eq!(w.into_inner(), expected);
}

#[test]
fn exact_capacity_fits() {
    let mut w = FormatString::new(vec![0u8; 10]);
    assert_eq!(w.write_str("Counter: "), Ok(()));
    assert_eq!(w.write_str("7"), Ok(()));
    assert_eq!(w.as_str(), Some("Counter: 7".to_string()));
}

#[test]
fn one_byte_over_capacity_fails() {
    let mut w = FormatString::new(vec![0u8; 9]);
    assert_eq!(w.write_str("Counter: "), Ok(()));
    assert_eq!(w.write_str("7"), Err(FormatError));
    assert_eq!(w.as_str(), None);
}

#[test]
fn empty_buffer_holds_empty_text() {
    let w = FormatString::new(Vec::new());
    assert_eq!(w.as_str(), Some(String::new()));
    let mut w = FormatString::new(Vec::new());
    assert_eq!(w.write_str(""), Ok(()));
    assert_eq!(w.write_str("x"), Err(FormatError));
    assert_eq!(w.as_str(), None);
}

#[test]
fn multibyte_text_counts_bytes() {
    let mut w = FormatString::new(vec![0u8; 6]);
    assert_eq!(w.write_str("h\u{e9}llo"), Ok(()));
    assert_eq!(w.as_str(), Some("h\u{e9}llo".to_string()));
    let mut w = FormatString::new(vec![0u8; 5]);
    assert_eq!(w.write_str("h\u{e9}llo"), Err(FormatError));
    assert_eq!(w.as_str(), None);
}

#[test]
fn show_joins_parts() {
    let mut buf = vec![7u8; 12];
    assert_eq!(show(&mut buf, &["Counter: ", "5"]), Ok("Counter: 5".to_string()));
    assert_eq!(buf, b"Counter: 5\x07\x07".to_vec());
    let mut buf = vec![0u8; 8];
    assert_eq!(show(&mut buf, &["Counter: ", "0"]), Err(FormatError));
    assert_eq!(buf, b"Counter:".to_vec());
    let mut buf = Vec::new();
    assert_eq!(show(&mut buf, &[]), Ok(String::new()));
    assert!(buf.is_empty());
    let mut buf = vec![0u8; 4];
    assert_eq!(show(&mut buf, &["ab", "", "cd"]), Ok("abcd".to_string()));
    assert_eq!(buf, b"abcd".to_vec());
}

#[test]
fn show_fails_when_an_early_part_overflows() {
    let mut buf = vec![1u8; 3];
    assert_eq!(show(&mut buf, &["abcd", "", ""]), Err(FormatError));
    assert_eq!(buf, b"abc".to_vec());
}

#[test]
fn region_is_taken_as_it_is_and_untouched_bytes_stay() {
    let w = FormatString::new(vec![9u8, 8, 7]);
    assert_eq!(w.used(), 0);
    assert_eq!(w.as_str(), Some(String::new()));
    assert_eq!(w.into_inner(), vec![9u8, 8, 7]);
    let mut w = FormatString::new(vec![9u8; 5]);
    assert_eq!(w.write_str("ab"), Ok(()));
    assert_eq!(w.write_str("cdef"), Err(FormatError));
    assert_eq!(w.write_str("g"), Err(FormatError));
    assert_eq!(w.used(), 7);
    assert_eq!(w.into_inner(), b"abcde".to_vec());
}
