use vaultenv::string_map::StringMap;
use vaultenv::text::{
    is_ascii_space, is_control, is_white_space, same_text, to_ascii_lower, trim, write_numeral,
};

#[test]
fn characters_are_classified_as_std_does() {
    for c in '\0'..=char::MAX {
        assert_eq!(is_white_space(c), c.is_whitespace(), "{c:?}");
        assert_eq!(is_control(c), c.is_control(), "{c:?}");
        assert_eq!(is_ascii_space(c), c.is_ascii_whitespace(), "{c:?}");
    }
}

#[test]
fn texts_are_trimmed_as_std_does() {
    for text in [
        "",
        " ",
        "a",
        " a b\t",
        "\u{3000}x\u{85}",
        "\u{200b}x\u{200b}",
        "\n\r\t",
        "x  ",
    ] {
        assert_eq!(trim(text), text.trim());
        assert_eq!(trim(&trim(text)), trim(text));
    }
}

#[test]
fn ascii_letters_are_lowered() {
    assert_eq!(to_ascii_lower("AbZ[`@é É"), "abz[`@é É");
}

#[test]
fn texts_are_told_apart() {
    assert!(same_text("é", "é"));
    assert!(!same_text("a", "b"));
    assert!(!same_text("a", "ab"));
    assert!(same_text("", ""));
}

#[test]
fn numbers_are_written_in_their_base() {
    assert_eq!(write_numeral(0, 10), "0");
    assert_eq!(write_numeral(8200, 10), "8200");
    assert_eq!(write_numeral(u32::MAX, 10), "4294967295");
    assert_eq!(write_numeral(0o644, 8), "644");
    assert_eq!(write_numeral(5, 2), "101");
}

#[test]
fn maps_hold_the_last_value() {
    let mut map = StringMap::from_pairs(vec![
        ("a".to_string(), 1),
        ("b".to_string(), 2),
        ("a".to_string(), 3),
    ]);
    assert_eq!(map.len(), 2);
    assert_eq!(map.get("a"), Some(&3));
    assert_eq!(map.get("c"), None);
    map.insert("b".to_string(), 4);
    assert_eq!(map.remove("b"), Some(4));
    assert_eq!(map.remove("b"), None);
    assert_eq!(map.entries(), &vec![("a".to_string(), 3)]);
    let copy = map.clone();
    assert!(!copy.is_empty());
    assert_eq!(map.remove("a"), Some(3));
    assert!(map.is_empty());
    assert_eq!(copy.get("a"), Some(&3));
}
