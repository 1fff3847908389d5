use serde_json::Value;

use serenade::search::{
    DocumentIndex, HttpSearchAdapter, HttpSearchConfig, MockSearchHttpPoster, SearchDocument,
    SearchError, SearchHttpMethod, SearchHttpPoster, SearchHttpResponse, SearchQuery,
};

fn sample_doc() -> SearchDocument {
    SearchDocument::new("1").field("body", "hello serenade")
}

#[test]
fn config_urls_and_api_key() {
    let config = HttpSearchConfig::new("https://search.example/").api_key("tok").api_key("tok-2");
    assert_eq!(config.base_url(), "https://search.example");
    assert_eq!(config.api_key_value(), Some("tok-2"));
    assert_eq!(config.document_url("1"), "https://search.example/documents/1");
    assert_eq!(config.documents_url(), "https://search.example/documents");
    assert_eq!(config.search_url(), "https://search.example/search");
}

#[test]
fn method_as_str() {
    assert_eq!(SearchHttpMethod::Put.as_str(), "PUT");
    assert_eq!(SearchHttpMethod::Post.as_str(), "POST");
    assert_eq!(SearchHttpMethod::Delete.as_str(), "DELETE");
}

#[test]
fn response_accessors() {
    let response = SearchHttpResponse::new(201, " created ");
    assert_eq!(response.status(), 201);
    assert_eq!(response.body(), " created ");
    assert!(response.is_success());
    assert!(!SearchHttpResponse::new(404, "").is_success());
}

#[test]
fn adapter_exposes_config_and_poster() {
    let poster = MockSearchHttpPoster::ok_empty();
    let adapter = HttpSearchAdapter::new(HttpSearchConfig::new("https://search.example"), poster);
    assert_eq!(adapter.config().base_url(), "https://search.example");
    assert!(adapter.poster().last_request().is_none());
}

#[test]
fn upsert_puts_document_json() {
    let poster = MockSearchHttpPoster::ok_empty();
    let mut adapter = HttpSearchAdapter::new(HttpSearchConfig::new("https://search.example").api_key("k"), poster);
    adapter.upsert(sample_doc()).expect("upsert");
    let request = adapter.poster().last_request().expect("captured");
    assert_eq!(request.method, SearchHttpMethod::Put);
    assert_eq!(request.url, "https://search.example/documents/1");
    assert!(request.headers.iter().any(|(name, value)| name == "Authorization" && value == "Bearer k"));
    assert!(request.headers.iter().any(|(name, value)| name == "Content-Type" && value == "application/json"));
    let body = request.body.expect("body");
    let value: Value = serde_json::from_slice(&body).expect("json");
    assert_eq!(value["id"], "1");
    assert_eq!(value["fields"]["body"], "hello serenade");
}

#[test]
fn delete_returns_deleted_flag() {
    let poster = MockSearchHttpPoster::new(SearchHttpResponse::new(200, r#"{"deleted":false}"#));
    let mut adapter = HttpSearchAdapter::new(HttpSearchConfig::new("https://search.example"), poster);
    assert!(!adapter.delete("1").expect("delete"));
}

#[test]
fn delete_defaults_true_on_empty_body() {
    let poster = MockSearchHttpPoster::new(SearchHttpResponse::new(204, ""));
    let mut adapter = HttpSearchAdapter::new(HttpSearchConfig::new("https://search.example"), poster);
    assert!(adapter.delete("1").expect("delete"));
}

#[test]
fn query_posts_and_parses_hits() {
    let poster = MockSearchHttpPoster::new(SearchHttpResponse::new(200, r#"{"hits":[{"id":"1","score":3},{"id":"2"}]}"#));
    let mut adapter = HttpSearchAdapter::new(HttpSearchConfig::new("https://search.example"), poster);
    let hits = adapter.query(&SearchQuery::new("serenade").with_limit(5).with_offset(1)).expect("query");
    assert_eq!(hits.len(), 2);
    assert_eq!(hits[0].id(), "1");
    assert_eq!(hits[0].score(), 3);
    assert_eq!(hits[1].id(), "2");
    assert_eq!(hits[1].score(), 0);
    let request = adapter.poster().last_request().expect("captured");
    assert_eq!(request.method, SearchHttpMethod::Post);
    assert_eq!(request.url, "https://search.example/search");
    let body = request.body.expect("body");
    let value: Value = serde_json::from_slice(&body).expect("json");
    assert_eq!(value["q"], "serenade");
    assert_eq!(value["limit"], 5);
    assert_eq!(value["offset"], 1);
}

#[test]
fn query_saturates_large_scores() {
    let poster = MockSearchHttpPoster::new(SearchHttpResponse::new(200, r#"{"hits":[{"id":"big","score":99999999999}]}"#));
    let mut adapter = HttpSearchAdapter::new(HttpSearchConfig::new("https://search.example"), poster);
    let hits = adapter.query(&SearchQuery::new("x")).expect("query");
    assert_eq!(hits[0].score(), u32::MAX);
    let request = adapter.poster().last_request().expect("captured");
    let value: Value = serde_json::from_slice(&request.body.expect("body")).expect("json");
    assert!(value.get("limit").is_none());
}

#[test]
fn query_rejects_bad_json() {
    let poster = MockSearchHttpPoster::new(SearchHttpResponse::new(200, "not-json"));
    let mut adapter = HttpSearchAdapter::new(HttpSearchConfig::new("https://search.example"), poster);
    let err = adapter.query(&SearchQuery::new("x")).expect_err("bad json");
    assert!(matches!(err, SearchError::Index { .. }));
}

#[test]
fn query_rejects_missing_hits() {
    let poster = MockSearchHttpPoster::new(SearchHttpResponse::new(200, r#"{"ok":true}"#));
    let mut adapter = HttpSearchAdapter::new(HttpSearchConfig::new("https://search.example"), poster);
    let err = adapter.query(&SearchQuery::new("x")).expect_err("missing hits");
    assert!(matches!(err, SearchError::Index { .. }));
}

#[test]
fn query_rejects_hit_without_id() {
    let poster = MockSearchHttpPoster::new(SearchHttpResponse::new(200, r#"{"hits":[{"score":1}]}"#));
    let mut adapter = HttpSearchAdapter::new(HttpSearchConfig::new("https://search.example"), poster);
    let err = adapter.query(&SearchQuery::new("x")).expect_err("missing id");
    assert!(matches!(err, SearchError::Index { .. }));
}

#[test]
fn clear_deletes_documents_collection() {
    let poster = MockSearchHttpPoster::ok_empty();
    let mut adapter = HttpSearchAdapter::new(HttpSearchConfig::new("https://search.example"), poster);
    adapter.clear().expect("clear");
    let request = adapter.poster().last_request().expect("captured");
    assert_eq!(request.method, SearchHttpMethod::Delete);
    assert_eq!(request.url, "https://search.example/documents");
}

#[test]
fn rejects_empty_id() {
    let poster = MockSearchHttpPoster::ok_empty();
    let mut adapter = HttpSearchAdapter::new(HttpSearchConfig::new("https://search.example"), poster);
    let err = adapter.upsert(SearchDocument::new("")).expect_err("empty id");
    assert!(matches!(err, SearchError::InvalidId { .. }));
    let err = adapter.delete("").expect_err("empty id");
    assert!(matches!(err, SearchError::InvalidId { .. }));
    assert!(adapter.poster().last_request().is_none());
}

#[test]
fn rejects_non_2xx_and_truncates_body() {
    let long = "x".repeat(250);
    let poster = MockSearchHttpPoster::new(SearchHttpResponse::new(502, &long));
    let mut adapter = HttpSearchAdapter::new(HttpSearchConfig::new("https://search.example"), poster);
    let err = adapter.upsert(sample_doc()).expect_err("fail");
    assert!(matches!(
        &err,
        SearchError::Index { message }
            if message.contains("502") && message.contains("...") && message.len() < 280
    ));
}

#[test]
fn truncation_keeps_whole_characters() {
    let body = format!("{}{}", "x".repeat(199), "é".repeat(5));
    let poster = MockSearchHttpPoster::new(SearchHttpResponse::new(500, &body));
    let mut adapter = HttpSearchAdapter::new(HttpSearchConfig::new("https://search.example"), poster);
    let err = adapter.clear().expect_err("fail");
    let SearchError::Index { message } = err else {
        panic!("index error expected");
    };
    assert_eq!(message, format!("search HTTP 500 {}...", "x".repeat(199)));
}

#[test]
fn rejects_non_2xx_with_short_body() {
    let poster = MockSearchHttpPoster::new(SearchHttpResponse::new(503, "down"));
    let mut adapter = HttpSearchAdapter::new(HttpSearchConfig::new("https://search.example"), poster);
    let err = adapter.query(&SearchQuery::new("x")).expect_err("fail");
    assert!(matches!(
        &err,
        SearchError::Index { message } if message.contains("503") && message.contains("down")
    ));
    assert_eq!(err, SearchError::Index { message: "search HTTP 503 down".to_owned() });
}

#[test]
fn propagates_poster_transport_error() {
    let poster = MockSearchHttpPoster::failing(SearchError::Index { message: "network down".to_owned() });
    let mut adapter = HttpSearchAdapter::new(HttpSearchConfig::new("https://search.example"), poster);
    let err = adapter.upsert(sample_doc()).expect_err("fail");
    assert!(matches!(&err, SearchError::Index { message } if message == "network down"));
    let err = adapter.query(&SearchQuery::new("x")).expect_err("fail");
    assert!(matches!(&err, SearchError::Index { message } if message == "network down"));
}

#[test]
fn query_empty_body_returns_no_hits() {
    let poster = MockSearchHttpPoster::new(SearchHttpResponse::new(200, "  "));
    let mut adapter = HttpSearchAdapter::new(HttpSearchConfig::new("https://search.example"), poster);
    let hits = adapter.query(&SearchQuery::new("x")).expect("query");
    assert_eq!(hits.len(), 0);
}

#[test]
fn mock_poster_records_request() {
    let mut poster = MockSearchHttpPoster::ok_empty();
    let reply = poster.request(SearchHttpMethod::Put, "u", &[("a", "b")], Some(b"xy")).expect("reply");
    assert_eq!(reply.status(), 200);
    assert_eq!(reply.body(), "{}");
    let last = poster.last_request().expect("last");
    assert_eq!(last.url, "u");
    assert_eq!(last.headers, vec![("a".to_owned(), "b".to_owned())]);
    assert_eq!(last.body, Some(b"xy".to_vec()));
}
