use component_iroh::addr::doc_prefix_addr;
use component_iroh::bytes::{append_range, array_at, copy_range, same_bytes};
use component_iroh::text::{
    chars_of, decimal_string, same_text, split, split_once, string_of, trim_end_matches,
    trim_start_matches, up_to,
};

#[test]
fn texts_are_cut_and_joined() {
    assert_eq!(chars_of("a\u{e9}"), vec!['a', '\u{e9}']);
    assert_eq!(string_of(&vec!['a', 'b', 'c'], 1, 3), "bc");
    assert!(same_text("x", "x"));
    assert!(!same_text("x", "xy"));
    assert_eq!(trim_end_matches("a//", '/'), "a");
    assert_eq!(trim_start_matches("//a/", '/'), "a/");
    assert_eq!(
        split_once("a://b://c", "://"),
        Some(("a".to_string(), "b://c".to_string()))
    );
    assert_eq!(split_once("a:/b", "://"), None);
    assert_eq!(up_to("host/path/x", '/'), "host");
    assert_eq!(up_to("host", '/'), "host");
    assert_eq!(split("a//b", '/'), vec!["a", "", "b"]);
    assert_eq!(split("", '/'), vec![""]);
}

#[test]
fn numbers_are_written_in_decimal() {
    assert_eq!(decimal_string(0), "0");
    assert_eq!(decimal_string(1200), "1200");
    assert_eq!(decimal_string(u64::MAX), u64::MAX.to_string());
}

#[test]
fn byte_ranges_are_copied() {
    assert_eq!(copy_range(&[1, 2, 3], 1, 3), vec![2, 3]);
    let mut out = vec![9];
    append_range(&mut out, &[1, 2, 3], 0, 2);
    assert_eq!(out, vec![9, 1, 2]);
    assert_eq!(array_at::<2>(&[1, 2, 3], 1), [2, 3]);
    assert!(same_bytes(&[1, 2], &[1, 2]));
    assert!(!same_bytes(&[1, 2], &[1, 3]));
    assert!(!same_bytes(&[1], &[1, 3]));
}

#[test]
fn synthetic_addresses_differ_by_space_and_host() {
    let a = doc_prefix_addr(1, 2);
    assert_ne!(a, doc_prefix_addr(1, 3));
    assert_ne!(a, doc_prefix_addr(2, 2));
    assert_eq!(a, doc_prefix_addr(1, 2));
}
