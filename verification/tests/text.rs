use maglev::text::{
    after, begins, cat2, cat3, cat7, contains, contains_char, in_order, is_blank, is_word, join,
    listed, number, pad, same, signed_number, split, split_words, strip_suffix, text_of, trim,
};

fn list(items: &[&str]) -> Vec<String> {
    items.iter().map(|s| s.to_string()).collect()
}

#[test]
fn trims_white_space() {
    assert_eq!(trim("  \t root \n"), "root");
    assert_eq!(trim("\u{3000}a b\u{a0}"), "a b");
    assert_eq!(trim(""), "");
    assert_eq!(trim(" \r\n"), "");
}

#[test]
fn trimming_agrees_with_the_standard_library() {
    for n in 0u32..0x3100 {
        if let Some(c) = char::from_u32(n) {
            let s = format!("{c}x{c}");
            assert_eq!(trim(&s), s.trim(), "U+{n:04X}");
        }
    }
}

#[test]
fn blank_text_has_only_white_space() {
    assert!(is_blank(""));
    assert!(is_blank(" \t\n"));
    assert!(!is_blank(" x "));
}

#[test]
fn concatenates_in_order() {
    assert_eq!(cat2("a", "b"), "ab");
    assert_eq!(cat3("→", "", "✓"), "→✓");
    assert_eq!(cat7("1", "2", "3", "4", "5", "6", "7"), "1234567");
}

#[test]
fn splits_at_every_separator() {
    assert_eq!(split("10.0.0.1", '.'), list(&["10", "0", "0", "1"]));
    assert_eq!(split("", ':'), list(&[""]));
    assert_eq!(split(":a:", ':'), list(&["", "a", ""]));
}

#[test]
fn splits_into_words() {
    assert_eq!(split_words("  csr-1   Pending\tnode "), list(&["csr-1", "Pending", "node"]));
    assert_eq!(split_words(" \n "), list(&[]));
}

#[test]
fn finds_prefixes_suffixes_and_parts() {
    assert!(begins("projects/x", "projects/"));
    assert!(!begins("pro", "projects/"));
    assert_eq!(strip_suffix("~/.ssh/id_ed25519.pub", ".pub"), "~/.ssh/id_ed25519");
    assert_eq!(strip_suffix("~/.ssh/id_ed25519", ".pub"), "~/.ssh/id_ed25519");
    assert_eq!(strip_suffix("a.pub.pub", ".pub"), "a.pub");
    assert!(contains("already exists on this node", "exists"));
    assert!(contains("abc", ""));
    assert!(!contains("ab", "abc"));
    assert!(contains_char("k8s:6443", ':'));
    assert!(!contains_char("k8s", ':'));
}

#[test]
fn takes_what_follows_a_character() {
    assert_eq!(after("root:ssh-ed25519 AAAA", ':'), Some("ssh-ed25519 AAAA".to_string()));
    assert_eq!(after("a:b:c", ':'), Some("b:c".to_string()));
    assert_eq!(after("abc", ':'), None);
}

#[test]
fn compares_words_regardless_of_ascii_case() {
    assert!(is_word("YeS", "yes"));
    assert!(!is_word("yess", "yes"));
    assert!(!is_word("", "y"));
}

#[test]
fn joins_with_separators() {
    assert_eq!(join(&list(&["a", "b", "c"]), " "), "a b c");
    assert_eq!(join(&list(&["a"]), ", "), "a");
    assert_eq!(join(&list(&[]), ", "), "");
}

#[test]
fn writes_numbers_in_decimal() {
    assert_eq!(number(0), "0");
    assert_eq!(number(1205), "1205");
    assert_eq!(number(u64::MAX), "18446744073709551615");
    assert_eq!(signed_number(-1), "-1");
    assert_eq!(signed_number(i64::MIN), "-9223372036854775808");
    assert_eq!(signed_number(i64::MAX), "9223372036854775807");
}

#[test]
fn pads_by_characters() {
    assert_eq!(pad("node", 7), "node   ");
    assert_eq!(pad("ünï", 4), "ünï ");
    assert_eq!(pad("control-plane", 4), "control-plane");
}

#[test]
fn orders_by_code_point() {
    assert!(in_order("a", "b"));
    assert!(in_order("a", "a"));
    assert!(in_order("", "a"));
    assert!(in_order("ab", "abc"));
    assert!(!in_order("b", "abc"));
    assert!(!in_order("a", "Z"));
}

#[test]
fn recognises_equal_and_listed_text() {
    assert!(same("worker", "worker"));
    assert!(!same("worker", "workers"));
    assert!(listed(&list(&["a", "b"]), "b"));
    assert!(!listed(&list(&["a", "b"]), "c"));
}

#[test]
fn takes_part_of_a_character_list() {
    let chars: Vec<char> = "maglev".chars().collect();
    assert_eq!(text_of(&chars, 3, 6), "lev");
    assert_eq!(text_of(&chars, 2, 2), "");
}
