use loadtest::config::{Endpoint, RequestMethod};
use loadtest::string_map::StringMap;
use loadtest::url::{build_url, close_path};

fn endpoint(path: &str, params: &[(&str, &str)]) -> Endpoint {
    let mut map = StringMap::new();
    for (key, value) in params {
        map.insert(key.to_string(), value.to_string());
    }
    Endpoint {
        path: path.to_string(),
        identifier: Some("probe".to_string()),
        method: Some(RequestMethod::GET),
        params: map,
    }
}

#[test]
fn url_without_params_gets_trailing_slash() {
    let url = endpoint("/a", &[]).__prepare_endpoint(&"http://h".to_string());
    assert_eq!(url, "http://h/a/");
}

#[test]
fn url_with_trailing_slash_is_unchanged() {
    let url = endpoint("/a/", &[]).__prepare_endpoint(&"http://h".to_string());
    assert_eq!(url, "http://h/a/");
}

#[test]
fn url_with_trailing_slash_and_param_gets_no_second_slash() {
    let url = endpoint("/a/", &[("k", "v")]).__prepare_endpoint(&"http://h".to_string());
    assert_eq!(url, "http://h/a/?k=v");
}

#[test]
fn url_with_one_param_ends_with_query() {
    let url = endpoint("/a", &[("k", "v")]).__prepare_endpoint(&"http://h".to_string());
    assert!(url.ends_with("?k=v"));
    assert_eq!(url, "http://h/a/?k=v");
}

#[test]
fn url_without_params_has_no_question_mark() {
    let url = endpoint("/a", &[]).__prepare_endpoint(&"http://h".to_string());
    assert!(!url.contains('?'));
}

#[test]
fn url_joins_params_with_ampersand_in_walking_order() {
    let url = endpoint("/search", &[("q", "rust"), ("page", "2"), ("lang", "en")])
        .__prepare_endpoint(&"http://h".to_string());
    assert_eq!(url, "http://h/search/?q=rust&page=2&lang=en");
}

#[test]
fn url_query_pairs_are_those_of_the_params() {
    let url = endpoint("/a", &[("x", "1"), ("y", "2")]).__prepare_endpoint(&"http://h".to_string());
    let query = url.split('?').nth(1).unwrap();
    let mut pairs: Vec<&str> = query.split('&').collect();
    pairs.sort();
    assert_eq!(pairs, vec!["x=1", "y=2"]);
}

#[test]
fn url_values_are_written_verbatim() {
    let url = endpoint("/a", &[("q", "a b&c"), ("r", "x?")]).__prepare_endpoint(&"http://h".to_string());
    assert_eq!(url, "http://h/a/?q=a b&c&r=x?");
}

#[test]
fn url_separator_stands_between_all_neighbours() {
    let url = endpoint("/a", &[("k", "v&"), ("l", "w")]).__prepare_endpoint(&"http://h".to_string());
    assert_eq!(url, "http://h/a/?k=v&&l=w");
    let url = endpoint("/a", &[("k", "v?"), ("l", "w")]).__prepare_endpoint(&"http://h".to_string());
    assert_eq!(url, "http://h/a/?k=v?&l=w");
}

#[test]
fn url_of_empty_base_and_path_is_a_slash() {
    let url = endpoint("", &[]).__prepare_endpoint(&String::new());
    assert_eq!(url, "/");
}

#[test]
fn url_keeps_a_double_slash() {
    let url = endpoint("/", &[]).__prepare_endpoint(&"http://h/".to_string());
    assert_eq!(url, "http://h//");
}

#[test]
fn url_handles_characters_beyond_ascii() {
    let url = endpoint("/caf\u{e9}", &[("na\u{ef}ve", "\u{2713}")]).__prepare_endpoint(&"http://h".to_string());
    assert_eq!(url, "http://h/caf\u{e9}/?na\u{ef}ve=\u{2713}");
}

#[test]
fn build_url_takes_pairs_in_the_given_order() {
    let pairs = vec![("b".to_string(), "2".to_string()), ("a".to_string(), "1".to_string())];
    let url = build_url(&"http://h".to_string(), &"/p".to_string(), &pairs);
    assert_eq!(url, "http://h/p/?b=2&a=1");
}

#[test]
fn close_path_appends_only_a_missing_slash() {
    let mut open = "http://h/a".to_string();
    close_path(&mut open);
    assert_eq!(open, "http://h/a/");
    close_path(&mut open);
    assert_eq!(open, "http://h/a/");
    let mut empty = String::new();
    close_path(&mut empty);
    assert_eq!(empty, "/");
}
