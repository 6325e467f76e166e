use hard_waste::response::is_success;
use hard_waste::text::{append_space_encoded, same_text};

#[test]
fn encoding_appends_to_what_is_there() {
    let mut out = String::from("q=");
    append_space_encoded(&mut out, "a b");
    assert_eq!(out, "q=a%20b");
    append_space_encoded(&mut out, "");
    assert_eq!(out, "q=a%20b");
    append_space_encoded(&mut out, "   ");
    assert_eq!(out, "q=a%20b%20%20%20");
}

#[test]
fn only_the_space_is_encoded() {
    let mut out = String::new();
    append_space_encoded(&mut out, "a\tb\u{a0}c%20d+é");
    assert_eq!(out, "a\tb\u{a0}c%20d+é");
}

#[test]
fn texts_compare_by_their_characters() {
    assert!(same_text("abc", "abc"));
    assert!(same_text("", ""));
    assert!(!same_text("abc", "abd"));
    assert!(!same_text("abc", "ABC"));
    assert!(!same_text("abc", "abc "));
}

#[test]
fn success_is_two_hundred_to_two_ninety_nine() {
    assert!(!is_success(199));
    assert!(is_success(200));
    assert!(is_success(299));
    assert!(!is_success(300));
    assert!(!is_success(0));
    assert!(!is_success(u16::MAX));
}
