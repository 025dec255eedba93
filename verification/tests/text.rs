use plogtion::text::{
    chars_of, ends_with, index_of_first, join_texts, normalize_newlines, push_signed_decimal,
    push_two_digits, text_less, text_of, text_of_range, trim_end, trim_text,
};

fn chars(s: &str) -> Vec<char> {
    s.chars().collect()
}

#[test]
fn chars_and_text_round_trip() {
    assert_eq!(chars_of("blå"), vec!['b', 'l', 'å']);
    assert_eq!(chars_of(""), Vec::<char>::new());
    assert_eq!(text_of(&chars("blå bær")), "blå bær");
    assert_eq!(text_of_range(&chars("abcdef"), 2, 4), "cd");
    assert_eq!(text_of_range(&chars("abcdef"), 3, 3), "");
}

#[test]
fn trim_text_drops_white_space_at_both_ends_only() {
    assert_eq!(trim_text("  My  Trip \n"), "My  Trip");
    assert_eq!(trim_text("\u{a0}x\u{2003}"), "x");
    assert_eq!(trim_text(" \t\r\n"), "");
    assert_eq!(trim_text(""), "");
    assert_eq!(trim_text("x"), "x");
}

#[test]
fn trim_end_keeps_the_start() {
    assert_eq!(trim_end("  a b \n\n"), "  a b");
    assert_eq!(trim_end("\n"), "");
    assert_eq!(trim_end("a"), "a");
}

#[test]
fn normalize_newlines_replaces_pairs_only() {
    assert_eq!(normalize_newlines("a\r\nb\r\n"), "a\nb\n");
    assert_eq!(normalize_newlines("a\rb\nc"), "a\rb\nc");
    assert_eq!(normalize_newlines("\r\r\n\n"), "\r\n\n");
    assert_eq!(normalize_newlines("\r"), "\r");
    assert_eq!(normalize_newlines(""), "");
}

#[test]
fn join_texts_puts_the_separator_between_parts() {
    let parts = vec!["a".to_string(), "".to_string(), "c".to_string()];
    assert_eq!(join_texts(&parts, ", "), "a, , c");
    assert_eq!(join_texts(&vec!["only".to_string()], ", "), "only");
    assert_eq!(join_texts(&Vec::new(), ", "), "");
}

#[test]
fn ends_with_compares_the_last_characters() {
    assert!(ends_with(&chars("a.jpg_caption"), &chars("_caption")));
    assert!(ends_with(&chars("_caption"), &chars("_caption")));
    assert!(!ends_with(&chars("caption"), &chars("_caption")));
    assert!(!ends_with(&chars("a_caption "), &chars("_caption")));
    assert!(ends_with(&chars("abc"), &chars("")));
}

#[test]
fn index_of_first_finds_the_first_mark() {
    assert_eq!(index_of_first(&chars("20240506_a_b.jpg"), '_'), 8);
    assert_eq!(index_of_first(&chars("plain.jpg"), '_'), 9);
    assert_eq!(index_of_first(&chars("_x"), '_'), 0);
    assert_eq!(index_of_first(&chars(""), '_'), 0);
}

#[test]
fn text_less_orders_by_code_point_and_length() {
    assert!(text_less(&chars("a.jpg"), &chars("b.jpg")));
    assert!(!text_less(&chars("b.jpg"), &chars("a.jpg")));
    assert!(!text_less(&chars("a"), &chars("a")));
    assert!(text_less(&chars("a"), &chars("ab")));
    assert!(!text_less(&chars("ab"), &chars("a")));
    assert!(text_less(&chars(""), &chars("a")));
    assert!(!text_less(&chars(""), &chars("")));
    assert!(text_less(&chars("Z"), &chars("a")));
    assert!(text_less(&chars("z"), &chars("å")));
}

#[test]
fn decimals_are_written_without_leading_zeros() {
    let mut out = "y=".to_string();
    push_signed_decimal(&mut out, 2024);
    assert_eq!(out, "y=2024");
    let mut out = String::new();
    push_signed_decimal(&mut out, 0);
    assert_eq!(out, "0");
    let mut out = String::new();
    push_signed_decimal(&mut out, -17);
    assert_eq!(out, "-17");
    let mut out = String::new();
    push_signed_decimal(&mut out, i32::MIN);
    assert_eq!(out, "-2147483648");
    let mut out = String::new();
    push_signed_decimal(&mut out, i32::MAX);
    assert_eq!(out, "2147483647");
}

#[test]
fn two_digits_pad_single_digits_with_zero() {
    let mut out = String::new();
    push_two_digits(&mut out, 5);
    assert_eq!(out, "05");
    let mut out = String::new();
    push_two_digits(&mut out, 12);
    assert_eq!(out, "12");
    let mut out = String::new();
    push_two_digits(&mut out, 0);
    assert_eq!(out, "00");
    let mut out = String::new();
    push_two_digits(&mut out, 123);
    assert_eq!(out, "123");
}
