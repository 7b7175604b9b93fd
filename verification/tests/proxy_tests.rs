use privaxy::blocker::{CosmeticBlockerResult, NetworkMatch};
use privaxy::proxy::absolute_uri_host;
use privaxy::rewriter::count_if_modified;
use privaxy::exclusions::LocalExclusionStore;
use privaxy::proxy::{
    bad_gateway_response, blocked_response, connect_established, https_url, is_blocked,
    referer_or_empty, request_plan, should_rewrite, RequestPlan,
};
use privaxy::proxy::is_proxy_managed_header;
use privaxy::stats::Statistics;

#[test]
fn excluded_host_is_passed_through_without_queries() {
    let store = LocalExclusionStore::new(vec!["bank.example".to_string()]);
    assert!(store.matches("bank.example"));
    assert!(store.matches("login.bank.example"));
    assert!(store.matches("BANK.EXAMPLE"));
    assert!(!store.matches("news.example"));
    assert_eq!(request_plan(store.matches("bank.example")), RequestPlan::PassThrough);
    assert_eq!(request_plan(store.matches("news.example")), RequestPlan::Query);
}

#[test]
fn exclusion_matching_is_substring_based() {
    let store = LocalExclusionStore::new(vec!["ample.or".to_string()]);
    assert!(store.matches("example.org"));
    assert!(!store.matches("example.com"));
}

#[test]
fn replaced_snapshot_is_used() {
    let mut store = LocalExclusionStore::new(vec!["a.example".to_string()]);
    store.replace_exclusions(vec!["b.example".to_string()]);
    assert!(!store.matches("a.example"));
    assert!(store.matches("b.example"));
}

#[test]
fn blocked_response_is_the_synthetic_page() {
    let r = blocked_response();
    assert_eq!(r.status, 403);
    assert_eq!(r.content_type, "text/html");
    assert_eq!(r.body, "Blocked by Privaxy");
}

#[test]
fn upstream_errors_map_to_bad_gateway() {
    let r = bad_gateway_response();
    assert_eq!(r.status, 502);
}

#[test]
fn connect_reply_is_exact() {
    assert_eq!(connect_established(), "HTTP/1.1 200 Connection Established\r\n\r\n");
}

#[test]
fn only_identity_html_is_rewritten() {
    assert!(should_rewrite("text/html", None));
    assert!(should_rewrite("text/html; charset=utf-8", None));
    assert!(should_rewrite("text/html", Some("identity")));
    assert!(!should_rewrite("text/html", Some("gzip")));
    assert!(!should_rewrite("application/json", None));
    assert!(!should_rewrite("text/plain", None));
}

#[test]
fn tunnel_urls_are_rebuilt_from_host_and_path() {
    assert_eq!(https_url("ads.example", "/track.js"), "https://ads.example/track.js");
}

#[test]
fn absent_referer_is_empty() {
    assert_eq!(referer_or_empty(Some("https://a.example/")), "https://a.example/");
    assert_eq!(referer_or_empty(None), "");
}

#[test]
fn blocked_decision_follows_matched() {
    let mut m = NetworkMatch::no_match();
    assert!(!is_blocked(&m));
    m.matched = true;
    assert!(is_blocked(&m));
}

#[test]
fn host_is_extracted_from_absolute_uris() {
    assert_eq!(absolute_uri_host("http://news.example/story?x=1").as_deref(), Some("news.example"));
    assert_eq!(absolute_uri_host("https://news.example:8443/a").as_deref(), Some("news.example:8443"));
    assert_eq!(absolute_uri_host("http://bare.example").as_deref(), Some("bare.example"));
    assert_eq!(absolute_uri_host("/relative/path"), None);
    assert_eq!(absolute_uri_host("ftp://x.example/"), None);
}

#[test]
fn modified_counter_steps_only_for_styled_or_scripted_replies() {
    let mut s = Statistics::new();
    let hiding_only = CosmeticBlockerResult {
        hidden_selectors: vec!["#a".to_string()],
        style_selectors: Vec::new(),
        injected_script: None,
    };
    count_if_modified(&mut s, &hiding_only);
    assert_eq!(s.modified_responses, 0);
    let styled = CosmeticBlockerResult {
        hidden_selectors: Vec::new(),
        style_selectors: vec![(".p".to_string(), vec!["color: red".to_string()])],
        injected_script: None,
    };
    count_if_modified(&mut s, &styled);
    assert_eq!(s.modified_responses, 1);
    let scripted = CosmeticBlockerResult {
        hidden_selectors: Vec::new(),
        style_selectors: Vec::new(),
        injected_script: Some("window.x=1;".to_string()),
    };
    count_if_modified(&mut s, &scripted);
    assert_eq!(s.modified_responses, 2);
}

#[test]
fn proxy_managed_headers_are_recognised() {
    assert!(is_proxy_managed_header("connection"));
    assert!(is_proxy_managed_header("transfer-encoding"));
    assert!(is_proxy_managed_header("host"));
    assert!(is_proxy_managed_header("content-length"));
    assert!(!is_proxy_managed_header("content-type"));
    assert!(!is_proxy_managed_header("referer"));
}

#[test]
fn counters_start_at_zero_and_grow() {
    let mut s = Statistics::new();
    assert_eq!(s.blocked_requests, 0);
    assert_eq!(s.exception_requests, 0);
    s.increment_blocked_requests();
    s.increment_proxied_requests();
    s.increment_modified_responses();
    s.increment_exception_requests();
    assert_eq!(s.blocked_requests, 1);
    assert_eq!(s.proxied_requests, 1);
    assert_eq!(s.modified_responses, 1);
    assert_eq!(s.exception_requests, 1);
}
