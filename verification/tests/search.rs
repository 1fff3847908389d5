use serenade::search::{
    version, DocumentIndex, MemorySearchAdapter, SearchDocument, SearchError, SearchHit, SearchQuery,
};

fn field_value<'a>(fields: &'a [(String, String)], name: &str) -> Option<&'a str> {
    fields.iter().find(|(key, _)| key == name).map(|(_, value)| value.as_str())
}

#[test]
fn tests_version_is_non_empty() {
    assert_ne!(version(), "");
    assert_ne!(serenade::security::version(), "");
}

#[test]
fn score_returns_none_for_empty_tokens() {
    assert_eq!(MemorySearchAdapter::score("anything", &[]), None);
}

#[test]
fn count_occurrences_returns_zero_for_empty_needle() {
    assert_eq!(MemorySearchAdapter::count_occurrences("abc", ""), 0);
}

#[test]
fn count_occurrences_is_non_overlapping() {
    assert_eq!(MemorySearchAdapter::count_occurrences("aaaa", "aa"), 2);
    assert_eq!(MemorySearchAdapter::count_occurrences("rust rust rust", "rust"), 3);
    assert_eq!(MemorySearchAdapter::score("alpha beta alpha", &["alpha".to_owned(), "beta".to_owned()]), Some(3));
    assert_eq!(MemorySearchAdapter::score("alpha", &["alpha".to_owned(), "gamma".to_owned()]), None);
}

#[test]
fn upsert_query_overwrite_delete_clear() {
    let mut index = MemorySearchAdapter::new();
    index.upsert(SearchDocument::new("1").field("body", "alpha beta")).expect("upsert");
    index.upsert(SearchDocument::new("2").field("body", "gamma alpha")).expect("upsert");

    let hits = index.query(&SearchQuery::new("alpha")).expect("query");
    assert_eq!(hits.len(), 2);
    assert!(hits.iter().any(|hit| hit.id() == "1"));
    assert!(hits.iter().any(|hit| hit.id() == "2"));

    index.upsert(SearchDocument::new("1").field("body", "only beta")).expect("overwrite");
    let hits = index.query(&SearchQuery::new("alpha")).expect("query");
    assert_eq!(hits.len(), 1);
    assert_eq!(hits[0].id(), "2");

    assert!(index.delete("2").expect("delete"));
    assert!(!index.delete("2").expect("missing"));
    assert_eq!(index.query(&SearchQuery::new("alpha")).expect("query"), Vec::<SearchHit>::new());

    index.upsert(SearchDocument::new("3").field("title", "keep")).expect("upsert");
    index.clear().expect("clear");
    assert_eq!(index.query(&SearchQuery::new("keep")).expect("query"), Vec::<SearchHit>::new());
}

#[test]
fn query_is_case_insensitive_and_requires_all_tokens() {
    let mut index = MemorySearchAdapter::new();
    index
        .upsert(SearchDocument::new("p1").field("title", "Hello").field("body", "Serenade Search"))
        .expect("upsert");
    index.upsert(SearchDocument::new("p2").field("body", "Hello World")).expect("upsert");

    let hits = index.query(&SearchQuery::new("hello serenade")).expect("query");
    assert_eq!(hits.len(), 1);
    assert_eq!(hits[0].id(), "p1");
    assert!(hits[0].score() >= 2);
}

#[test]
fn empty_query_returns_no_hits() {
    let mut index = MemorySearchAdapter::new();
    index.upsert(SearchDocument::new("1").field("body", "anything")).expect("upsert");
    assert_eq!(index.query(&SearchQuery::new("")).expect("empty"), Vec::<SearchHit>::new());
    assert_eq!(index.query(&SearchQuery::new("   \t")).expect("ws"), Vec::<SearchHit>::new());
}

#[test]
fn limit_and_offset_paginate_ranked_hits() {
    let mut index = MemorySearchAdapter::new();
    index.upsert(SearchDocument::new("a").field("body", "rust rust")).expect("upsert");
    index.upsert(SearchDocument::new("b").field("body", "rust")).expect("upsert");
    index.upsert(SearchDocument::new("c").field("body", "rust rust rust")).expect("upsert");

    let hits = index.query(&SearchQuery::new("rust").with_limit(2)).expect("query");
    assert_eq!(hits.len(), 2);
    assert_eq!(hits[0].id(), "c");
    assert_eq!(hits[1].id(), "a");
    assert!(hits[0].score() > hits[1].score());

    let page = index.query(&SearchQuery::new("rust").with_offset(1).with_limit(1)).expect("page");
    assert_eq!(page, vec![SearchHit::new("a", hits[1].score())]);
}

#[test]
fn equal_scores_rank_by_id_and_offset_past_end_is_empty() {
    let mut index = MemorySearchAdapter::new();
    index.upsert(SearchDocument::new("b").field("body", "tea")).expect("upsert");
    index.upsert(SearchDocument::new("a").field("body", "tea")).expect("upsert");
    let hits = index.query(&SearchQuery::new("TEA")).expect("query");
    assert_eq!(hits, vec![SearchHit::new("a", 1), SearchHit::new("b", 1)]);
    assert!(index.query(&SearchQuery::new("tea").with_offset(5)).expect("past").is_empty());
    assert!(index.query(&SearchQuery::new("tea").with_limit(0)).expect("zero").is_empty());
}

#[test]
fn empty_id_is_rejected() {
    let mut index = MemorySearchAdapter::new();
    let Err(err) = index.upsert(SearchDocument::new("").field("body", "x")) else {
        panic!("empty id upsert must fail");
    };
    assert!(matches!(err, SearchError::InvalidId { .. }));
    let Err(err) = index.delete("") else {
        panic!("empty id delete must fail");
    };
    assert!(matches!(err, SearchError::InvalidId { .. }));
}

#[test]
fn document_into_parts_preserves_fields() {
    let doc = SearchDocument::new("id").field("a", "1").field("b", "2");
    let (id, fields) = doc.into_parts();
    assert_eq!(id, "id");
    assert_eq!(field_value(&fields, "a"), Some("1"));
    assert_eq!(field_value(&fields, "b"), Some("2"));
}

#[test]
fn document_fields_are_ordered_by_name_and_replaced() {
    let doc = SearchDocument::new("post-1").field("title", "T").field("body", "hello feed").field("title", "U");
    assert_eq!(doc.id(), "post-1");
    let names: Vec<&str> = doc.fields().iter().map(|(k, _)| k.as_str()).collect();
    assert_eq!(names, vec!["body", "title"]);
    assert_eq!(field_value(doc.fields(), "body"), Some("hello feed"));
    assert_eq!(field_value(doc.fields(), "title"), Some("U"));
}

#[test]
fn query_accessors() {
    let q = SearchQuery::new("rust framework").with_limit(10).with_offset(0);
    assert_eq!(q.text(), "rust framework");
    assert_eq!(q.limit(), Some(10));
    assert_eq!(q.offset(), 0);
}
