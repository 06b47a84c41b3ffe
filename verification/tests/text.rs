use trust_ledger::lookup::all_distinct;
use trust_ledger::ranking::rank;
use trust_ledger::text::{
    characters, copy_optional_text, copy_texts, is_whitespace, text_of, trim,
};

#[test]
fn trim_removes_white_space_at_both_ends() {
    assert_eq!(trim("  Fix budget  "), "Fix budget");
    assert_eq!(trim("\t\nFix  budget\r\n"), "Fix  budget");
    assert_eq!(trim("Fix budget"), "Fix budget");
    assert_eq!(trim("x"), "x");
    assert_eq!(trim(" x"), "x");
    assert_eq!(trim("x "), "x");
}

#[test]
fn trim_of_white_space_is_empty() {
    assert_eq!(trim("   "), "");
    assert_eq!(trim(""), "");
    assert_eq!(trim("\u{a0}\u{2003}\u{3000}"), "");
}

#[test]
fn trim_agrees_with_the_standard_library() {
    let samples = [
        "", " ", "a", " a", "a ", " a b ", "\u{a0}a\u{a0}", "\u{200b}a", "é t é", "  多  ",
        "\n\n", "a\tb\t",
    ];
    for s in samples {
        assert_eq!(trim(s), s.trim());
    }
}

#[test]
fn characters_and_back() {
    let chars = characters("héllo");
    assert_eq!(chars, vec!['h', 'é', 'l', 'l', 'o']);
    assert_eq!(text_of(&chars, 0, 5), "héllo");
    assert_eq!(text_of(&chars, 1, 3), "él");
    assert_eq!(text_of(&chars, 2, 2), "");
}

#[test]
fn copies_are_equal() {
    assert_eq!(copy_optional_text(&None), None);
    assert_eq!(copy_optional_text(&Some("DOC-1".to_string())), Some("DOC-1".to_string()));
    let names = vec!["a".to_string(), "b".to_string()];
    assert_eq!(copy_texts(&names), names);
    assert_eq!(copy_texts(&Vec::new()), Vec::<String>::new());
}

#[test]
fn identifiers_are_told_apart() {
    assert!(all_distinct(&vec![]));
    assert!(all_distinct(&vec![5]));
    assert!(all_distinct(&vec![5, 6, 7]));
    assert!(!all_distinct(&vec![5, 6, 5]));
    assert!(!all_distinct(&vec![5, 5]));
}

#[test]
fn rank_lists_highest_first_and_keeps_ties_in_order() {
    assert_eq!(rank(&vec![]), Vec::<usize>::new());
    assert_eq!(rank(&vec![7]), vec![0]);
    assert_eq!(rank(&vec![1, 3, 2]), vec![1, 2, 0]);
    assert_eq!(rank(&vec![5, 5, 5]), vec![0, 1, 2]);
    assert_eq!(rank(&vec![1, 9, 1, 9, 4]), vec![1, 3, 4, 0, 2]);
    assert_eq!(rank(&vec![i64::MIN, i64::MAX, 0]), vec![1, 2, 0]);
}

#[test]
fn white_space_among_the_first_characters() {
    for code in 0u8..=0x7f {
        let c = code as char;
        let expected = c == ' ' || ('\t'..='\r').contains(&c);
        assert_eq!(is_whitespace(c), expected, "{:?}", c);
    }
    assert!(is_whitespace(' '));
    assert!(is_whitespace('\n'));
    assert!(is_whitespace('\u{b}'));
    assert!(!is_whitespace('\u{1f}'));
    assert!(!is_whitespace('a'));
}

#[test]
fn white_space_beyond_the_first_characters() {
    for c in ['\u{85}', '\u{a0}', '\u{1680}', '\u{2003}', '\u{2028}', '\u{3000}'] {
        assert!(is_whitespace(c), "{:?}", c);
    }
    for c in ['\u{200b}', 'é', '越', '\u{feff}'] {
        assert!(!is_whitespace(c), "{:?}", c);
    }
    for code in 0u32..0x3100 {
        if let Some(c) = char::from_u32(code) {
            assert_eq!(is_whitespace(c), c.is_whitespace(), "{:?}", c);
        }
    }
}
