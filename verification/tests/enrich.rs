//! Enrichment: the fetch decision, JSON body flattening, website-host
//! trimming, and the synthetic DNS-count entry.

use solana_token_info::{
    attach_dns_count, entries_from_body, uri_requests_fetch, website_host, website_query, Error,
};

#[test]
fn empty_uri_requests_nothing() {
    assert!(!uri_requests_fetch(""));
}

#[test]
fn null_uri_requests_nothing() {
    assert!(!uri_requests_fetch("\0\0\0"));
}

#[test]
fn real_uri_requests_fetch() {
    assert!(uri_requests_fetch("https://example.com/meta.json"));
    assert!(uri_requests_fetch("\0x"));
}

#[test]
fn array_body_is_empty_map() {
    let entries = entries_from_body("[1,2,3]").unwrap();
    assert!(entries.is_empty());
}

#[test]
fn scalar_body_is_empty_map() {
    let entries = entries_from_body("42").unwrap();
    assert!(entries.is_empty());
}

#[test]
fn non_json_body_is_an_error() {
    assert!(matches!(entries_from_body("not json"), Err(Error::EnrichmentFailed)));
}

#[test]
fn object_body_is_flattened() {
    let entries = entries_from_body("{\"a\":\"b\",\"n\":5}").unwrap();
    assert_eq!(
        entries,
        vec![
            ("a".to_string(), "\"b\"".to_string()),
            ("n".to_string(), "5".to_string()),
        ]
    );
}

#[test]
fn website_host_strips_quotes_and_scheme() {
    assert_eq!(website_host("\"https://example.com\""), "example.com");
    assert_eq!(website_host("  plain.org "), "plain.org");
    assert_eq!(website_host("http://x.org"), "http://x.org");
    assert_eq!(website_host(""), "");
}

#[test]
fn website_query_finds_the_key() {
    let entries = vec![
        ("name".to_string(), "\"T\"".to_string()),
        ("website".to_string(), "\"https://example.com\"".to_string()),
    ];
    assert_eq!(website_query(&entries).unwrap(), "example.com");
}

#[test]
fn website_query_without_key() {
    let entries = vec![("name".to_string(), "\"T\"".to_string())];
    assert!(website_query(&entries).is_none());
}

#[test]
fn dns_count_is_appended() {
    let entries = vec![("website".to_string(), "\"x\"".to_string())];
    let out = attach_dns_count(entries, Some(3));
    assert_eq!(out.len(), 2);
    assert_eq!(out[1].0, "number of website dns records");
    assert_eq!(out[1].1, "3");
}

#[test]
fn failed_dns_leaves_entries_alone() {
    let entries = vec![("website".to_string(), "\"x\"".to_string())];
    let out = attach_dns_count(entries.clone(), None);
    assert_eq!(out, entries);
}
