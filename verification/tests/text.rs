use ollama_rename::text::{
    begins_with, chars_of, find_in, leading_count, push_decimal, same_text, stands_at,
    trailing_count, trim, CharClass,
};

#[test]
fn whitespace_is_the_unicode_property() {
    for n in 0..=0x10FFFFu32 {
        if let Some(c) = char::from_u32(n) {
            assert_eq!(CharClass::Whitespace.contains(c), c.is_whitespace(), "{:?}", c);
        }
    }
}

#[test]
fn classes_of_one_character() {
    assert!(CharClass::Is('/').contains('/'));
    assert!(!CharClass::Is('/').contains(':'));
    assert!(CharClass::IsNot('/').contains(':'));
    assert!(!CharClass::IsNot('/').contains('/'));
}

#[test]
fn trim_removes_white_space_at_both_ends() {
    for s in [
        "",
        " ",
        "a",
        "  a  ",
        "\t\na b\r\n",
        "\u{a0}x\u{3000}",
        " \u{200b}a ",
        "a\u{85}",
        "   ",
        "\u{2003}with  inner\u{2003}",
    ] {
        assert_eq!(trim(s), s.trim(), "{:?}", s);
    }
}

#[test]
fn chars_of_lists_the_characters() {
    assert_eq!(chars_of(""), Vec::<char>::new());
    assert_eq!(chars_of("a\u{e9}\u{1f600}"), vec!['a', '\u{e9}', '\u{1f600}']);
}

#[test]
fn runs_are_counted_within_the_range() {
    let v = chars_of("//ab//");
    assert_eq!(leading_count(&v, 0, 6, CharClass::Is('/')), 2);
    assert_eq!(leading_count(&v, 1, 6, CharClass::Is('/')), 1);
    assert_eq!(leading_count(&v, 2, 6, CharClass::Is('/')), 0);
    assert_eq!(leading_count(&v, 4, 5, CharClass::Is('/')), 1);
    assert_eq!(leading_count(&v, 3, 3, CharClass::Is('/')), 0);
    assert_eq!(trailing_count(&v, 0, 6, CharClass::Is('/')), 2);
    assert_eq!(trailing_count(&v, 0, 4, CharClass::Is('/')), 0);
    assert_eq!(trailing_count(&v, 0, 2, CharClass::Is('/')), 2);
    assert_eq!(trailing_count(&v, 0, 6, CharClass::IsNot('a')), 3);
    assert_eq!(leading_count(&v, 0, 6, CharClass::IsNot('b')), 3);
}

#[test]
fn find_in_finds_the_first_place() {
    let texts = ["", "a", "ab", "abab", "aaa", "xabcabc", "-Q4_K_M-GGUF", "abcabd"];
    let patterns = ["", "a", "b", "ab", "abc", "abd", "aa", "_K", "-GGUF", "zz", "abcabcd"];
    for t in texts {
        let v = chars_of(t);
        for p in patterns {
            let pv = chars_of(p);
            assert_eq!(find_in(&v, 0, v.len(), &pv), t.find(p), "{:?} in {:?}", p, t);
        }
    }
}

#[test]
fn find_in_stays_within_the_range() {
    let v = chars_of("abcabc");
    let p = chars_of("bc");
    assert_eq!(find_in(&v, 0, 6, &p), Some(1));
    assert_eq!(find_in(&v, 2, 6, &p), Some(4));
    assert_eq!(find_in(&v, 2, 5, &p), None);
    assert_eq!(find_in(&v, 0, 2, &p), None);
    assert_eq!(find_in(&v, 3, 3, &chars_of("")), Some(3));
}

#[test]
fn stands_at_and_begins_with() {
    let v = chars_of("https://host");
    assert!(stands_at(&v, &chars_of("://"), 5));
    assert!(!stands_at(&v, &chars_of("://"), 4));
    assert!(begins_with(&v, &chars_of("https://")));
    assert!(!begins_with(&v, &chars_of("http://")));
    assert!(begins_with(&v, &chars_of("")));
    assert!(!begins_with(&chars_of("ht"), &chars_of("http://")));
}

#[test]
fn same_text_compares_all_characters() {
    assert!(same_text("", ""));
    assert!(same_text("llama3:8b", "llama3:8b"));
    assert!(!same_text("llama3:8b", "llama3:8B"));
    assert!(!same_text("abc", "ab"));
    assert!(!same_text("ab", "abc"));
}

#[test]
fn push_decimal_writes_the_number() {
    for n in [0u64, 1, 9, 10, 11, 99, 100, 101, 404, 65535, 1_000_000, u64::MAX] {
        let mut s = String::from("x");
        push_decimal(&mut s, n);
        assert_eq!(s, format!("x{}", n));
    }
}
