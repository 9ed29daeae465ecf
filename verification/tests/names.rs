use ollama_rename::names::{name_char, noise_marker, suggest_simple_name, validate_model_name, NOISE_MARKERS};
use regex::Regex;

fn accepted(s: &str) -> bool {
    validate_model_name(s).is_ok()
}

#[test]
fn suggest_strips_tag_path_and_noise() {
    assert_eq!(suggest_simple_name("hf.co/org/Name-GGUF:Q4_K_M"), "Name");
}

#[test]
fn suggest_keeps_a_plain_name() {
    assert_eq!(suggest_simple_name("qwen3-coder:latest"), "qwen3-coder");
}

#[test]
fn suggest_cuts_once_at_the_first_marker_of_the_list() {
    // "-GGUF" stands before "-Q4" in the list, so the cut is made there.
    assert_eq!(suggest_simple_name("model-Q4-GGUF"), "model-Q4");
    assert_eq!(suggest_simple_name("Model-Q4-GGUF"), "Model-Q4");
    // "-Q4" stands before "_K" in the list, though "_K" comes first in the name.
    assert_eq!(suggest_simple_name("org/llama3.1_K-Q4"), "llama3.1_K");
    assert_eq!(suggest_simple_name("a/b/c.gguf"), "c");
    assert_eq!(suggest_simple_name("tiny-K_M"), "tiny");
    // The cut is made where the marker stands first.
    assert_eq!(suggest_simple_name("a-Q4b-Q4"), "a");
    assert_eq!(suggest_simple_name("x_K_M-gguf"), "x_K_M");
    assert_eq!(suggest_simple_name("plain"), "plain");
}

#[test]
fn suggest_edge_cases() {
    assert_eq!(suggest_simple_name(""), "");
    assert_eq!(suggest_simple_name(":tag"), "");
    assert_eq!(suggest_simple_name("a/b/"), "");
    assert_eq!(suggest_simple_name("-GGUF"), "");
    assert_eq!(suggest_simple_name("x:y:z"), "x");
    assert_eq!(suggest_simple_name("host:11434/model"), "host");
    assert_eq!(suggest_simple_name("mod\u{e8}le/na\u{ef}ve-gguf:1"), "na\u{ef}ve");
}

#[test]
fn noise_markers_in_order() {
    let expected = [
        "-GGUF", "-gguf", ".gguf", "-Q2", "-Q3", "-Q4", "-Q5", "-Q6", "-Q8", "-K", "_K", "-KM",
        "_KM", "-K_M", "_K_M", "-Q4_K", "_Q4_K", "-Q5_K", "_Q5_K",
    ];
    assert_eq!(NOISE_MARKERS, expected.len());
    for (i, marker) in expected.iter().enumerate() {
        assert_eq!(noise_marker(i), *marker);
    }
}

#[test]
fn validate_accepts_names_of_the_grammar() {
    for s in [
        "a",
        "NextCoder",
        "myspace/nextcoder:latest",
        "hf.co/org/Name-GGUF:Q4_K_M",
        "a/b/c/d",
        "a.b_c-d",
        "0:0",
        "-",
        ".:.",
    ] {
        assert!(accepted(s), "{}", s);
    }
}

#[test]
fn validate_rejects_what_is_outside_the_grammar() {
    for s in [
        "", " ", "a b", "a@b", "/a", "a/", "a//b", "a:", ":a", "a:b:c", "a:b/c", "a/:b", "a\n",
        "\u{e9}", "a\tb", " a", "a ",
    ] {
        assert!(!accepted(s), "{:?}", s);
    }
}

#[test]
fn invalid_name_message() {
    let e = validate_model_name("a b").unwrap_err();
    assert_eq!(e.message(), "Invalid name. Use letters, numbers, . _ - / and optional :tag");
}

#[test]
fn name_char_is_the_class_of_the_grammar() {
    for n in 0..=0x10FFFFu32 {
        if let Some(c) = char::from_u32(n) {
            let expected = c.is_ascii_alphanumeric() || c == '.' || c == '_' || c == '-';
            assert_eq!(name_char(c), expected, "{:?}", c);
        }
    }
}

#[test]
fn validate_agrees_with_the_pattern_on_all_short_texts() {
    let re = Regex::new(r"^(?:[A-Za-z0-9._-]+/)*[A-Za-z0-9._-]+(?:[:][A-Za-z0-9._-]+)?$").unwrap();
    let alphabet = ['a', 'Z', '0', '.', '_', '-', '/', ':', ' ', '@', '\n'];
    let mut texts: Vec<String> = vec![String::new()];
    let mut start = 0;
    for _ in 0..5 {
        let end = texts.len();
        for i in start..end {
            for c in alphabet {
                let mut t = texts[i].clone();
                t.push(c);
                texts.push(t);
            }
        }
        start = end;
    }
    for t in &texts {
        assert_eq!(accepted(t), re.is_match(t), "{:?}", t);
    }
}
