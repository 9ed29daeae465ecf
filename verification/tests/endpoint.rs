use ollama_rename::endpoint::{
    api_url, pick_base_url, PROCESSES_PATH, REQUEST_TIMEOUT_SECS, TAGS_PATH, VERSION_PATH,
};

#[test]
fn base_url_prefers_the_command_line() {
    assert_eq!(pick_base_url(Some("http://a:1"), Some("http://b:2")), "http://a:1");
    assert_eq!(pick_base_url(None, Some("http://b:2")), "http://b:2");
    assert_eq!(pick_base_url(None, None), "http://127.0.0.1:11434");
}

#[test]
fn base_url_gets_a_scheme_where_it_has_none() {
    assert_eq!(pick_base_url(Some("localhost:11434"), None), "http://localhost:11434");
    assert_eq!(pick_base_url(None, Some("10.0.0.2:8080")), "http://10.0.0.2:8080");
    assert_eq!(pick_base_url(Some("https://secure.example"), None), "https://secure.example");
    assert_eq!(pick_base_url(Some("http://"), None), "http://");
    assert_eq!(pick_base_url(Some(""), Some("x")), "http://");
    assert_eq!(pick_base_url(Some("HTTP://upper"), None), "http://HTTP://upper");
    assert_eq!(pick_base_url(Some("ftp://other"), None), "http://ftp://other");
}

#[test]
fn api_url_joins_with_one_slash() {
    assert_eq!(api_url("http://h:1", "/api/tags"), "http://h:1/api/tags");
    assert_eq!(api_url("http://h:1/", "/api/tags"), "http://h:1/api/tags");
    assert_eq!(api_url("http://h:1///", "///api/tags"), "http://h:1/api/tags");
    assert_eq!(api_url("http://h:1", "api/tags"), "http://h:1/api/tags");
    assert_eq!(api_url("http://h:1/base", "/api/ps/"), "http://h:1/base/api/ps/");
    assert_eq!(api_url("", ""), "/");
    assert_eq!(api_url("///", "///"), "/");
}

#[test]
fn api_url_is_what_trimming_and_formatting_give() {
    for base in ["http://h", "http://h/", "http://h//", "h/a/", "/", ""] {
        for tail in ["/api/version", "api/version", "//x//", "", "/"] {
            let expected =
                format!("{}/{}", base.trim_end_matches('/'), tail.trim_start_matches('/'));
            assert_eq!(api_url(base, tail), expected);
        }
    }
}

#[test]
fn endpoint_paths_and_time_limit() {
    assert_eq!(VERSION_PATH, "/api/version");
    assert_eq!(TAGS_PATH, "/api/tags");
    assert_eq!(PROCESSES_PATH, "/api/ps");
    assert_eq!(REQUEST_TIMEOUT_SECS, 10);
}
