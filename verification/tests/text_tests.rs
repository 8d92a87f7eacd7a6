use updater::helper::{calculate_hash, clean_string};
use updater::number::{hex_lower, parse_i32, parse_i64, usize_to_string};
use updater::text::{
    chars_of, is_whitespace, replace_char, replace_text, split_char, starts_with, str_eq,
    string_of, strip_prefix, trim,
};

#[test]
fn trim_removes_surrounding_whitespace() {
    assert_eq!(trim("  hello world \t\n"), "hello world");
    assert_eq!(trim(""), "");
    assert_eq!(trim("   "), "");
    assert_eq!(trim("x"), "x");
}

#[test]
fn whitespace_characters() {
    assert!(is_whitespace(' '));
    assert!(is_whitespace('\t'));
    assert!(is_whitespace('\n'));
    assert!(!is_whitespace('a'));
}

#[test]
fn split_keeps_empty_pieces() {
    assert_eq!(split_char("a|b||c", '|'), vec!["a", "b", "", "c"]);
    assert_eq!(split_char("", '|'), vec![""]);
    assert_eq!(split_char("abc", '|'), vec!["abc"]);
    assert_eq!(split_char("|", '|'), vec!["", ""]);
}

#[test]
fn prefixes() {
    assert!(starts_with("attribute_color", "attribute_"));
    assert!(!starts_with("attr", "attribute_"));
    assert_eq!(strip_prefix("attribute_color", "attribute_"), Some("color".to_string()));
    assert_eq!(strip_prefix("color", "attribute_"), None);
    assert_eq!(strip_prefix("abc", ""), Some("abc".to_string()));
}

#[test]
fn replacing() {
    assert_eq!(replace_char("a b c", ' ', "-"), "a-b-c");
    assert_eq!(replace_char("abc", 'x', "-"), "abc");
    assert_eq!(replace_text("model:status:gpt", "model:status:", ""), "gpt");
    assert_eq!(replace_text("aaaa", "aa", "b"), "bb");
    assert_eq!(replace_text("abcabc", "bc", "X"), "aXaX");
}

#[test]
fn small_text_helpers() {
    assert!(str_eq("abc", "abc"));
    assert!(!str_eq("abc", "abd"));
    assert_eq!(updater::text::concat("ab", "cd"), "abcd");
    let cs = chars_of("héllo");
    assert_eq!(cs.len(), 5);
    assert_eq!(string_of(&cs), "héllo");
}

#[test]
fn parsing_integers() {
    assert_eq!(parse_i32("42"), Some(42));
    assert_eq!(parse_i32("-17"), Some(-17));
    assert_eq!(parse_i32("+5"), Some(5));
    assert_eq!(parse_i32(""), None);
    assert_eq!(parse_i32("12a"), None);
    assert_eq!(parse_i32(" 1"), None);
    assert_eq!(parse_i32("2147483647"), Some(i32::MAX));
    assert_eq!(parse_i32("2147483648"), None);
    assert_eq!(parse_i32("-2147483648"), Some(i32::MIN));
    assert_eq!(parse_i64("9223372036854775807"), Some(i64::MAX));
    assert_eq!(parse_i64("9223372036854775808"), None);
    assert_eq!(parse_i64("-"), None);
}

#[test]
fn number_formatting() {
    assert_eq!(usize_to_string(0), "0");
    assert_eq!(usize_to_string(1234), "1234");
    assert_eq!(hex_lower(&vec![0u8, 15, 16, 255]), "000f10ff");
    assert_eq!(hex_lower(&vec![]), "");
}

#[test]
fn hash_of_known_texts() {
    assert_eq!(
        calculate_hash(String::new()),
        "e3b0c44298fc1c149afbf4c8996fb92427ae41e4649b934ca495991b7852b855"
    );
    assert_eq!(
        calculate_hash("abc".to_string()),
        "ba7816bf8f01cfea414140de5dae2223b00361a396177a9cb410ff61f20015ad"
    );
    assert_eq!(calculate_hash("anything at all".to_string()).len(), 64);
}

#[test]
fn cleaning_cells() {
    assert_eq!(clean_string("\u{feff}SKU"), "SKU");
    assert_eq!(clean_string("a\u{200b}b\u{200c}c"), "abc");
    assert_eq!(clean_string("a\u{a0}b"), "a b");
    assert_eq!(clean_string("  x\u{1}y\t "), "xy");
    assert_eq!(clean_string("line\nbreak"), "line\nbreak");
    assert_eq!(clean_string(""), "");
}
