use matrix_crypto_core::text::{compare_text, contains_text, insert_sorted_unique, push_decimal, sorted_unique, TextOrder};

#[test]
fn texts_compare_by_their_characters() {
    assert_eq!(compare_text(&"abc".to_string(), &"abd".to_string()), TextOrder::Less);
    assert_eq!(compare_text(&"ab".to_string(), &"abc".to_string()), TextOrder::Less);
    assert_eq!(compare_text(&"b".to_string(), &"abc".to_string()), TextOrder::Greater);
    assert_eq!(compare_text(&"same".to_string(), &"same".to_string()), TextOrder::Equal);
}

#[test]
fn sorting_drops_duplicates() {
    let sorted = sorted_unique(&vec!["c".to_string(), "a".to_string(), "c".to_string(), "b".to_string()]);
    assert_eq!(sorted, vec!["a".to_string(), "b".to_string(), "c".to_string()]);
    let mut held = vec!["a".to_string(), "c".to_string()];
    insert_sorted_unique(&mut held, "b".to_string());
    insert_sorted_unique(&mut held, "a".to_string());
    assert_eq!(held, vec!["a".to_string(), "b".to_string(), "c".to_string()]);
}

#[test]
fn substrings_and_decimals() {
    assert!(contains_text("hello world", "o w"));
    assert!(contains_text("abc", ""));
    assert!(!contains_text("ab", "abc"));
    assert!(!contains_text("hello", "hex"));
    let mut out = "n=".to_string();
    push_decimal(&mut out, 0);
    out.push(',');
    push_decimal(&mut out, 40213);
    assert_eq!(out, "n=0,40213");
}
