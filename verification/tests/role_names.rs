use daydream_memory::memory::{database_path, locate_memory, written_id};
use daydream_memory::role_name::sanitize_role_name;

#[test]
fn plain_names_stay() {
    assert_eq!(sanitize_role_name("Ling"), "Ling");
    assert_eq!(sanitize_role_name("role_1-b"), "role_1-b");
    assert_eq!(sanitize_role_name("钦灵 二号"), "钦灵 二号");
}

#[test]
fn white_space_at_the_ends_goes() {
    assert_eq!(sanitize_role_name("  a b \t\n"), "a b");
    assert_eq!(sanitize_role_name("\u{3000}风\u{2003}"), "风");
    assert_eq!(sanitize_role_name("/ a /"), "a");
}

#[test]
fn illegal_characters_go() {
    assert_eq!(sanitize_role_name("a/b\\c:d*e?f"), "abcdef");
    assert_eq!(sanitize_role_name("../../etc/passwd"), "etcpasswd");
    assert_eq!(sanitize_role_name("a.b"), "ab");
    assert_eq!(sanitize_role_name("a\tb"), "ab");
    assert_eq!(sanitize_role_name("【小】灵！"), "小灵");
}

#[test]
fn nothing_left_is_unknown() {
    assert_eq!(sanitize_role_name(""), "unknown");
    assert_eq!(sanitize_role_name("   "), "unknown");
    assert_eq!(sanitize_role_name("."), "unknown");
    assert_eq!(sanitize_role_name(".."), "unknown");
    assert_eq!(sanitize_role_name("// \\\\"), "unknown");
}

#[test]
fn sanitizing_twice_changes_nothing() {
    for name in ["", " a/ ", "..", "x y", "é-ß_9", "unknown", "/ - /"] {
        let once = sanitize_role_name(name);
        assert_eq!(sanitize_role_name(&once), once);
        assert!(!once.is_empty());
        assert!(!once.contains('/') && !once.contains('\\') && !once.contains('.'));
        assert_eq!(once.trim(), once);
    }
}

#[test]
fn every_character_is_kept_or_dropped_by_its_kind() {
    for c in '\0'..=char::MAX {
        let text: String = ['a', c, 'b'].iter().collect();
        let keeps = c.is_alphanumeric() || c == '_' || c == '-' || c == ' ';
        let expected = if keeps { text.clone() } else { "ab".to_string() };
        assert_eq!(sanitize_role_name(&text), expected);
    }
}

#[test]
fn ascii_letters_and_digits_are_the_alphanumeric_ascii_characters() {
    for n in 0u8..0x80 {
        let c = n as char;
        let listed = ('a'..='z').contains(&c) || ('A'..='Z').contains(&c) || ('0'..='9').contains(&c);
        assert_eq!(c.is_alphanumeric(), listed);
    }
}

#[test]
fn trimmed_characters_are_those_of_white_space() {
    for c in '\0'..=char::MAX {
        let n = c as u32;
        let listed = (0x09..=0x0d).contains(&n)
            || n == 0x20
            || n == 0x85
            || n == 0xa0
            || n == 0x1680
            || (0x2000..=0x200a).contains(&n)
            || n == 0x2028
            || n == 0x2029
            || n == 0x202f
            || n == 0x205f
            || n == 0x3000;
        let text: String = [c, 'x', c].iter().collect();
        assert_eq!(text.trim() == "x", listed);
    }
}

#[test]
fn a_memory_lies_in_a_file_of_its_own() {
    assert_eq!(locate_memory("小灵"), vec!["game_data", "memories", "小灵.db"]);
    assert_eq!(locate_memory(".."), vec!["game_data", "memories", "unknown.db"]);
    assert_eq!(locate_memory("a/b"), locate_memory("ab"));
    assert_ne!(locate_memory("a"), locate_memory("b"));
}

#[test]
fn a_path_that_is_no_text_falls_back() {
    assert_eq!(database_path(Some("/data/a.db".to_string())), "/data/a.db");
    assert_eq!(database_path(None), "debug.json");
}

#[test]
fn a_failed_write_has_no_identifier() {
    assert_eq!(written_id(Some("ab12".to_string())), "ab12");
    assert_eq!(written_id(None), "");
}
