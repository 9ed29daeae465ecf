use ollama_rename::registry::{ModelInfo, SizeValue};
use ollama_rename::selection::{
    is_shown_before, offer, selection_order, text_comes_before, NothingToSelect,
};
use ollama_rename::text::chars_of;

fn model(name: &str, at: Option<&str>, tag: u64) -> ModelInfo {
    ModelInfo {
        name: name.to_string(),
        size: Some(SizeValue::Bytes(tag)),
        modified_at: at.map(|s| s.to_string()),
    }
}

fn tag(m: &ModelInfo) -> u64 {
    match m.size {
        Some(SizeValue::Bytes(n)) => n,
        _ => unreachable!(),
    }
}

fn by_the_library(models: &Vec<ModelInfo>) -> Vec<u64> {
    selection_order(models).iter().map(|&i| tag(&models[i])).collect()
}

fn by_a_stable_sort(models: &Vec<ModelInfo>) -> Vec<u64> {
    let mut sorted = models.clone();
    sorted.sort_by(|a, b| b.modified_at.cmp(&a.modified_at).then_with(|| a.name.cmp(&b.name)));
    sorted.iter().map(tag).collect()
}

#[test]
fn latest_change_comes_first() {
    let models = vec![
        model("a", Some("2024-01-01"), 0),
        model("b", Some("2024-03-01"), 1),
        model("c", Some("2024-02-01"), 2),
    ];
    assert_eq!(selection_order(&models), vec![1, 2, 0]);
}

#[test]
fn same_time_goes_by_name() {
    let models = vec![
        model("zeta", Some("t"), 0),
        model("alpha", Some("t"), 1),
        model("Beta", Some("t"), 2),
        model("alpha2", Some("t"), 3),
    ];
    assert_eq!(selection_order(&models), vec![2, 1, 3, 0]);
}

#[test]
fn models_without_a_time_come_last() {
    let models = vec![
        model("b", None, 0),
        model("z", Some(""), 1),
        model("a", None, 2),
        model("y", Some("2020"), 3),
    ];
    assert_eq!(selection_order(&models), vec![3, 1, 2, 0]);
}

#[test]
fn equal_models_keep_their_places() {
    let models = vec![
        model("m", Some("t"), 0),
        model("a", Some("t"), 1),
        model("m", Some("t"), 2),
        model("m", Some("t"), 3),
        model("a", Some("t"), 4),
    ];
    assert_eq!(selection_order(&models), vec![1, 4, 0, 2, 3]);
}

#[test]
fn order_of_none_and_of_one() {
    assert_eq!(selection_order(&Vec::new()), Vec::<usize>::new());
    assert_eq!(selection_order(&vec![model("only", None, 0)]), vec![0]);
}

#[test]
fn order_agrees_with_a_stable_sort() {
    let names = ["a", "b", "ab", "B", "", "a/b", "\u{e9}", "z:1"];
    let times = [None, Some(""), Some("2024-01-01T00:00:00Z"), Some("2024-01-02"), Some("2023")];
    let mut x: u32 = 12345;
    for round in 0..300 {
        let mut models = Vec::new();
        let len = round % 9;
        for k in 0..len {
            x = x.wrapping_mul(1_103_515_245).wrapping_add(12345);
            let name = names[(x >> 16) as usize % names.len()];
            x = x.wrapping_mul(1_103_515_245).wrapping_add(12345);
            let at = times[(x >> 16) as usize % times.len()];
            models.push(model(name, at, k as u64));
        }
        assert_eq!(by_the_library(&models), by_a_stable_sort(&models));
    }
}

#[test]
fn text_order_is_that_of_strings() {
    let texts = ["", "a", "A", "ab", "abc", "abd", "b", "\u{e9}", "\u{1f600}", "z", "a\u{0}"];
    for a in texts {
        for b in texts {
            assert_eq!(text_comes_before(&chars_of(a), &chars_of(b)), a < b, "{:?} {:?}", a, b);
        }
    }
}

#[test]
fn shown_before_compares_time_then_name() {
    let early = model("a", Some("1"), 0);
    let late = model("b", Some("2"), 0);
    assert!(is_shown_before(&late, &early));
    assert!(!is_shown_before(&early, &late));
    assert!(!is_shown_before(&early, &early));
    let same_time = model("b", Some("1"), 0);
    assert!(is_shown_before(&early, &same_time));
    assert!(!is_shown_before(&same_time, &early));
    let timeless = model("0", None, 0);
    assert!(is_shown_before(&early, &timeless));
    assert!(!is_shown_before(&timeless, &early));
}

#[test]
fn offer_reports_an_empty_list() {
    let e: NothingToSelect = offer(&Vec::new()).unwrap_err();
    assert_eq!(e.message(), "No models found. Use `ollama pull ...` first.");
    assert_eq!(offer(&vec![model("x", None, 0)]).unwrap(), vec![0]);
}
