use bridge_app::text::{
    byte_len, char_width, chars_of, contains_control, decimal_text, is_blank, parse_usize, rank, signed_decimal_text,
    starts_with, text_of, trim, Rank,
};
use bridge_app::textmap::TextMap;
use bridge_app::words::{cut_field, cut_four, split_words};
use bridge_app::runtime::control::whole_seconds;
use bridge_app::runtime::flow::{clip, first_chars};

#[test]
fn texts_are_built_character_by_character() {
    let chars = chars_of("a文b");
    assert_eq!(chars, vec!['a', '文', 'b']);
    assert_eq!(text_of(&chars, 1, 3), "文b");
    assert_eq!(text_of(&chars, 2, 2), "");
    assert_eq!(byte_len("a文b"), 5);
    assert_eq!(char_width('文'), 3);
}

#[test]
fn numbers_are_written_in_decimal() {
    assert_eq!(decimal_text(0), "0");
    assert_eq!(decimal_text(u64::MAX), "18446744073709551615");
    assert_eq!(signed_decimal_text(-7), "-7");
    assert_eq!(signed_decimal_text(i64::MIN), "-9223372036854775808");
    assert_eq!(parse_usize("0042"), Some(42));
    assert_eq!(parse_usize("+1"), Some(1));
    assert_eq!(parse_usize("-1"), None);
    assert_eq!(parse_usize(""), None);
    assert_eq!(parse_usize("99999999999999999999999"), None);
}

#[test]
fn blanks_and_controls_are_recognised() {
    assert!(is_blank(" \t\u{3000}"));
    assert!(!is_blank(" a"));
    assert!(contains_control("a\u{1b}"));
    assert!(!contains_control("文"));
    assert_eq!(trim("  a b\n"), "a b");
    assert!(starts_with("/cd x", "/cd "));
    assert!(!starts_with("/c", "/cd "));
}

#[test]
fn words_are_cut_as_documented() {
    assert_eq!(split_words("  a  b c "), vec!["a", "b", "c"]);
    assert_eq!(cut_field("a b c"), ("a".to_string(), Some("b c".to_string())));
    assert_eq!(cut_field("abc"), ("abc".to_string(), None));
    assert_eq!(
        cut_four("a b c d e"),
        ("a".to_string(), "b".to_string(), "c".to_string(), "d e".to_string())
    );
}

#[test]
fn texts_are_ranked_by_their_characters() {
    assert!(matches!(rank("a", "b"), Rank::Less));
    assert!(matches!(rank("b", "a"), Rank::Greater));
    assert!(matches!(rank("a", "a"), Rank::Equal));
    assert!(matches!(rank("a", "ab"), Rank::Less));
}

#[test]
fn maps_keep_their_keys_in_order() {
    let mut m: TextMap<u64> = TextMap::new();
    m.insert("b".into(), 2);
    m.insert("a".into(), 1);
    m.insert("b".into(), 3);
    assert_eq!(m.len(), 2);
    assert_eq!((m.key_at(0).as_str(), *m.value_at(0)), ("a", 1));
    assert_eq!(m.get("b"), Some(&3));
    assert_eq!(m.remove("b"), Some(3));
    assert_eq!(m.remove("b"), None);
    assert_eq!(m.pop_first(), Some(("a".to_string(), 1)));
    assert_eq!(m.pop_first(), None);
}

#[test]
fn cuts_keep_whole_characters() {
    assert_eq!(clip("文文", 5), ("文".to_string(), true));
    assert_eq!(clip("文文", 6), ("文文".to_string(), false));
    assert_eq!(first_chars("文文文", 2), "文文");
    assert_eq!(whole_seconds(1_000_000_000, 3_999_999_999), 2);
}
