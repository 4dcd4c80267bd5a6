use faster_chant::scheme::{parse_skin_text, scheme_file_name, display_name_for};

#[test]
fn test_parse_skin_text() {
    assert_eq!(
        parse_skin_text("冲田总司 绯村剑心"),
        ("冲田总司".to_string(), "绯村剑心".to_string())
    );
    assert_eq!(
        parse_skin_text("绯村剑心"),
        ("绯村剑心".to_string(), "绯村剑心".to_string())
    );
    assert_eq!(
        parse_skin_text("  天童木更 绯村剑心  "),
        ("天童木更".to_string(), "绯村剑心".to_string())
    );
}

#[test]
fn parse_skin_text_uses_last_space_and_unicode_trim() {
    assert_eq!(
        parse_skin_text("\u{3000}a b c\u{3000}"),
        ("a b".to_string(), "c".to_string())
    );
    assert_eq!(parse_skin_text("   "), (String::new(), String::new()));
}

#[test]
fn file_names_replace_spaces_and_slashes() {
    assert_eq!(scheme_file_name("冲田总司 绯村剑心"), "冲田总司_绯村剑心.json");
    assert_eq!(scheme_file_name("a/b\\c"), "a_b_c.json");
}

#[test]
fn display_names_join_skin_and_hero() {
    assert_eq!(display_name_for(&Some("冲田总司".to_string()), "绯村剑心"), "冲田总司 绯村剑心");
    assert_eq!(display_name_for(&None, "绯村剑心"), "绯村剑心");
}
