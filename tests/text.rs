use stargazer::{has_prefix, has_suffix, is_text_less};

#[test]
fn text_order_is_by_character_code() {
    assert!(is_text_less("abc", "abd"));
    assert!(is_text_less("ab", "abc"));
    assert!(!is_text_less("abc", "abc"));
    assert!(is_text_less("Zeta", "alpha"));
    assert!(is_text_less("", "a"));
    assert!(!is_text_less("b", "a"));
    assert!(is_text_less("template_20250601_120001.json", "template_20250601_120002.json"));
}

#[test]
fn prefix_and_suffix_tests() {
    assert!(has_prefix("template_x", "template_"));
    assert!(!has_prefix("templ", "template_"));
    assert!(has_suffix("a.json", ".json"));
    assert!(!has_suffix("a.jsonx", ".json"));
    assert!(has_suffix(".json", ".json"));
    assert!(has_prefix("", ""));
}
