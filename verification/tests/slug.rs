use plogtion::slug::{create_file_name_safe_title, trim_whitespace};

#[test]
fn test_create_file_name_safe_title() {
    let cases = vec![
        ("Hello World", "hello-world"),
        ("Rust Programming!", "rust-programming"),
        ("Multiple   Spaces", "multiple-spaces"),
        ("Special@#Characters", "special-characters"),
        ("--Already-Safe--", "already-safe"),
        ("Trailing--", "trailing"),
        (
            "Day two, 108km, 864m - Wonderful weather on straight roads",
            "day-two-108km-864m-wonderful-weather-on-straight-roads",
        ),
    ];

    for (input, expected) in cases {
        assert_eq!(create_file_name_safe_title(input), expected);
    }
}

#[test]
fn tera_test_create_file_name_safe_title() {
    let cases = vec![
        ("Hello World", "hello-world"),
        ("Rust Programming!", "rust-programming"),
        ("Multiple   Spaces", "multiple-spaces"),
        ("Special@#Characters", "special-characters"),
        ("--Already-Safe--", "already-safe"),
        ("Trailing--", "trailing"),
        (
            "Day two, 108km, 864m - Wonderful weather on straight roads",
            "day-two-108km-864m-wonderful-weather-on-straight-roads",
        ),
    ];

    for (input, expected) in cases {
        assert_eq!(create_file_name_safe_title(input), expected);
    }
}

#[test]
fn trim_whitespace_joins_words_with_single_hyphens() {
    assert_eq!(trim_whitespace("  a  b\tc\n"), "a-b-c");
    assert_eq!(trim_whitespace(""), "");
    assert_eq!(trim_whitespace(" \t "), "");
    assert_eq!(trim_whitespace("one"), "one");
    assert_eq!(trim_whitespace("a\u{a0}b\u{3000}c"), "a-b-c");
}

#[test]
fn slug_of_a_slug_is_the_slug() {
    let once = create_file_name_safe_title("Day two, 108km, 864m - Wonderful weather");
    assert_eq!(once, "day-two-108km-864m-wonderful-weather");
    assert_eq!(create_file_name_safe_title(&once), once);
}

#[test]
fn slug_keeps_letters_beyond_ascii_and_lowers_them() {
    assert_eq!(create_file_name_safe_title("Blåbær På Tur"), "blåbær-på-tur");
    assert_eq!(create_file_name_safe_title("ÉCOLE"), "école");
}

#[test]
fn slug_of_a_title_without_letters_is_empty() {
    assert_eq!(create_file_name_safe_title("?!  --"), "");
    assert_eq!(create_file_name_safe_title(""), "");
}

#[test]
fn lowercasing_can_bring_a_mark_that_the_next_slug_drops() {
    let once = create_file_name_safe_title("\u{130}");
    assert_eq!(once, "i\u{307}");
    assert_eq!(create_file_name_safe_title(&once), "i");
}
