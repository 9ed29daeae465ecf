use ollama_rename::registry::{
    describe_listing_error, fmt_size_value, format_model, list_models, listing_holds,
    model_exists, model_is_running, ListingError, ModelInfo, Processes, Reply, RunningModel,
    SizeValue,
};

fn model(name: &str) -> ModelInfo {
    ModelInfo { name: name.to_string(), size: None, modified_at: None }
}

fn answered(status: u16, names: &[&str]) -> Reply<Vec<ModelInfo>> {
    Reply::Answered { status, body: Some(names.iter().map(|n| model(n)).collect()) }
}

fn running(status: u16, names: &[Option<&str>]) -> Reply<Processes> {
    let models = names.iter().map(|n| RunningModel { name: n.map(|s| s.to_string()) }).collect();
    Reply::Answered { status, body: Some(Processes { models: Some(models) }) }
}

#[test]
fn listing_of_a_good_answer() {
    let models = list_models(answered(200, &["a", "b:1"])).unwrap();
    assert_eq!(models.len(), 2);
    assert_eq!(models[0].name, "a");
    assert_eq!(models[1].name, "b:1");
    assert_eq!(list_models(answered(299, &[])).unwrap().len(), 0);
}

#[test]
fn listing_fails_without_an_answer() {
    assert_eq!(list_models(Reply::Unanswered).unwrap_err(), ListingError::Unanswered);
}

#[test]
fn listing_fails_on_a_status_other_than_success() {
    assert_eq!(list_models(answered(404, &["a"])).unwrap_err(), ListingError::Status(404));
    assert_eq!(list_models(answered(199, &["a"])).unwrap_err(), ListingError::Status(199));
    assert_eq!(list_models(answered(300, &["a"])).unwrap_err(), ListingError::Status(300));
    let undecoded: Reply<Vec<ModelInfo>> = Reply::Answered { status: 500, body: None };
    assert_eq!(list_models(undecoded).unwrap_err(), ListingError::Status(500));
}

#[test]
fn listing_fails_on_a_body_that_does_not_decode() {
    let reply: Reply<Vec<ModelInfo>> = Reply::Answered { status: 200, body: None };
    assert_eq!(list_models(reply).unwrap_err(), ListingError::Undecodable);
}

#[test]
fn exists_is_true_for_a_listed_name() {
    assert_eq!(model_exists(answered(200, &["a", "X", "c"]), "X"), Ok(true));
    assert_eq!(model_exists(answered(200, &["X"]), "X"), Ok(true));
}

#[test]
fn exists_is_false_for_an_absent_name() {
    assert_eq!(model_exists(answered(200, &["a", "b"]), "X"), Ok(false));
    assert_eq!(model_exists(answered(200, &[]), "X"), Ok(false));
}

#[test]
fn exists_matches_the_exact_name_only() {
    assert_eq!(model_exists(answered(200, &["llama3:latest"]), "llama3"), Ok(false));
    assert_eq!(model_exists(answered(200, &["Llama3"]), "llama3"), Ok(false));
    assert_eq!(model_exists(answered(200, &["llama3 "]), "llama3"), Ok(false));
    assert_eq!(model_exists(answered(200, &["org/llama3"]), "llama3"), Ok(false));
    let models = vec![model("a"), model("b")];
    assert!(listing_holds(&models, "b"));
    assert!(!listing_holds(&models, "B"));
}

#[test]
fn exists_passes_the_failure_of_the_listing_on() {
    assert_eq!(model_exists(Reply::Unanswered, "X"), Err(ListingError::Unanswered));
    assert_eq!(model_exists(answered(503, &["X"]), "X"), Err(ListingError::Status(503)));
    let reply: Reply<Vec<ModelInfo>> = Reply::Answered { status: 200, body: None };
    assert_eq!(model_exists(reply, "X"), Err(ListingError::Undecodable));
}

#[test]
fn running_is_true_for_a_loaded_model() {
    assert!(model_is_running(&running(200, &[Some("a"), Some("m:1")]), "m:1"));
    assert!(model_is_running(&running(200, &[None, Some("m:1")]), "m:1"));
}

#[test]
fn running_is_false_for_a_model_that_is_not_listed() {
    assert!(!model_is_running(&running(200, &[Some("a")]), "m:1"));
    assert!(!model_is_running(&running(200, &[None]), "m:1"));
    assert!(!model_is_running(&running(200, &[]), "m:1"));
    assert!(!model_is_running(&running(200, &[Some("M:1")]), "m:1"));
}

#[test]
fn running_is_false_whenever_the_question_fails() {
    assert!(!model_is_running(&Reply::Unanswered, "m"));
    assert!(!model_is_running(&running(404, &[Some("m")]), "m"));
    assert!(!model_is_running(&running(500, &[Some("m")]), "m"));
    assert!(!model_is_running(&Reply::Answered { status: 200, body: None }, "m"));
    let no_list = Reply::Answered { status: 200, body: Some(Processes { models: None }) };
    assert!(!model_is_running(&no_list, "m"));
}

#[test]
fn listing_errors_in_words() {
    assert_eq!(
        describe_listing_error(ListingError::Unanswered, "connection refused"),
        "GET /api/tags failed: connection refused"
    );
    assert_eq!(describe_listing_error(ListingError::Status(404), "x"), "GET /api/tags -> HTTP 404");
    assert_eq!(
        describe_listing_error(ListingError::Undecodable, "missing field `models`"),
        "Decode /api/tags JSON: missing field `models`"
    );
}

#[test]
fn size_values_in_words() {
    assert_eq!(fmt_size_value(&SizeValue::Bytes(1024)), Some("1.00 KB".to_string()));
    assert_eq!(fmt_size_value(&SizeValue::Bytes(12)), Some("12 B".to_string()));
    assert_eq!(fmt_size_value(&SizeValue::Text("4.1 GB".to_string())), Some("4.1 GB".to_string()));
    assert_eq!(fmt_size_value(&SizeValue::Other), None);
}

#[test]
fn model_lines() {
    let mut m = model("llama3:8b");
    assert_eq!(format_model(&m), "llama3:8b");
    m.size = Some(SizeValue::Bytes(4_661_211_136));
    assert_eq!(format_model(&m), "llama3:8b  (4.34 GB)");
    m.modified_at = Some("2024-05-01T10:00:00Z".to_string());
    assert_eq!(format_model(&m), "llama3:8b  (4.34 GB)  \u{2022} 2024-05-01T10:00:00Z");
    m.size = Some(SizeValue::Other);
    assert_eq!(format_model(&m), "llama3:8b  \u{2022} 2024-05-01T10:00:00Z");
    m.size = Some(SizeValue::Text("big".to_string()));
    m.modified_at = None;
    assert_eq!(format_model(&m), "llama3:8b  (big)");
}
