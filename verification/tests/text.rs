use atomo_vfs::chunks::{take_chunk, take_chunk_within};
use atomo_vfs::ids::temp_name;
use atomo_vfs::percent::encode_segment;
use atomo_vfs::text::{decimal_text, join_texts, parse_numeral, split_chars, to_lower};
use atomo_vfs::VfsError;

#[test]
fn segments_are_encoded_byte_by_byte() {
    assert_eq!(encode_segment("aZ09-._~:"), "aZ09-._~:");
    assert_eq!(encode_segment("/ %é\u{7f}"), "%2F%20%25%C3%A9%7F");
    assert_eq!(encode_segment(""), "");
}

#[test]
fn numerals_read_and_write() {
    assert_eq!(decimal_text(0), "0");
    assert_eq!(decimal_text(u64::MAX), "18446744073709551615");
    assert_eq!(parse_numeral("18446744073709551615"), Some(u64::MAX));
    assert_eq!(parse_numeral("18446744073709551616"), None);
    assert_eq!(parse_numeral("+7"), Some(7));
    assert_eq!(parse_numeral("007"), Some(7));
    assert_eq!(parse_numeral(""), None);
    assert_eq!(parse_numeral("+"), None);
    assert_eq!(parse_numeral("-1"), None);
    assert_eq!(parse_numeral("1 "), None);
}

#[test]
fn splitting_undoes_joining() {
    let parts = vec!["a".to_string(), "".to_string(), "b".to_string()];
    let text = join_texts(&parts, "/");
    assert_eq!(text, "a//b");
    let chars: Vec<char> = text.chars().collect();
    assert_eq!(split_chars(&chars, 0, chars.len(), '/'), parts);
    assert_eq!(to_lower("ÄbC"), "Äbc");
}

#[test]
fn temporary_names_hold_the_hyphenated_id() {
    assert_eq!(
        temp_name(0x0123_4567_89ab_cdef_0123_4567_89ab_cdef),
        ".atomo-tmp-01234567-89ab-cdef-0123-456789abcdef"
    );
    assert_eq!(temp_name(0), ".atomo-tmp-00000000-0000-0000-0000-000000000000");
}

#[test]
fn chunks_are_taken_in_order() {
    let mut buf = Vec::new();
    take_chunk(&mut buf, false, Ok(vec![1, 2])).unwrap();
    take_chunk(&mut buf, false, Ok(vec![])).unwrap();
    take_chunk(&mut buf, false, Ok(vec![3])).unwrap();
    assert_eq!(buf, vec![1, 2, 3]);
    let cancelled = take_chunk(&mut buf, true, Ok(vec![4])).unwrap_err();
    assert_eq!(cancelled.code(), "cancelled");
    let failed = take_chunk(&mut buf, false, Err(VfsError::Io { message: "x".to_string() }));
    assert_eq!(failed.unwrap_err().code(), "io");
    assert_eq!(buf, vec![1, 2, 3]);
}

#[test]
fn a_limited_read_takes_no_more_than_its_limit() {
    let mut buf = Vec::new();
    take_chunk_within(&mut buf, 3, Ok(vec![1, 2])).unwrap();
    take_chunk_within(&mut buf, 3, Ok(vec![3])).unwrap();
    let refused = take_chunk_within(&mut buf, 3, Ok(vec![4])).unwrap_err();
    assert!(matches!(refused, VfsError::TooLarge { limit: 3 }));
    let failed = take_chunk_within(&mut buf, 3, Err(VfsError::Cancelled)).unwrap_err();
    assert_eq!(failed.code(), "cancelled");
    assert_eq!(buf, vec![1, 2, 3]);
}
