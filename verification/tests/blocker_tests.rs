use privaxy::blocker::{
    Blocker, BlockerResult, BlockingDisabledStore, CosmeticRequest, NetworkUrl, RequestKind,
};

fn network_request(url: &str, referer: &str) -> RequestKind {
    RequestKind::Url(NetworkUrl { url: url.to_string(), referer: referer.to_string() })
}

#[test]
fn blocking_disabled_store_round_trips() {
    let mut store = BlockingDisabledStore::new();
    assert!(store.is_enabled());
    store.set(false);
    assert!(!store.is_enabled());
    store.set(true);
    assert!(store.is_enabled());
}

#[test]
fn network_match_after_replace() {
    let mut worker = Blocker::new(Vec::new());
    let reply = worker.handle_request(
        RequestKind::ReplaceEngine(vec!["||ads.example^".to_string()]),
        true,
    );
    assert!(reply.is_none());
    let reply = worker.handle_request(network_request("https://ads.example/track.js", ""), true);
    match reply {
        Some(BlockerResult::Network(m)) => assert!(m.matched),
        _ => panic!("expected a network reply"),
    }
}

#[test]
fn unrelated_url_is_not_matched() {
    let mut worker = Blocker::new(Vec::new());
    worker.handle_request(RequestKind::ReplaceEngine(vec!["||ads.example^".to_string()]), true);
    let reply = worker.handle_request(network_request("https://news.example/story", ""), true);
    match reply {
        Some(BlockerResult::Network(m)) => assert!(!m.matched),
        _ => panic!("expected a network reply"),
    }
}

#[test]
fn script_option_rule_with_other_resource_type() {
    // The session layer always reports resource type "other", so a rule
    // scoped to $script does not fire on it.
    let mut worker = Blocker::new(Vec::new());
    worker.handle_request(
        RequestKind::ReplaceEngine(vec!["||ads.example^$script".to_string()]),
        true,
    );
    let reply = worker.handle_request(network_request("https://ads.example/track.js", ""), true);
    match reply {
        Some(BlockerResult::Network(m)) => assert!(!m.matched),
        _ => panic!("expected a network reply"),
    }
}

#[test]
fn blocking_disabled_short_circuits_network() {
    let mut worker = Blocker::new(Vec::new());
    worker.handle_request(RequestKind::ReplaceEngine(vec!["||ads.example^".to_string()]), true);
    let reply = worker.handle_request(network_request("https://ads.example/track.js", ""), false);
    match reply {
        Some(BlockerResult::Network(m)) => {
            assert!(!m.matched);
            assert!(!m.important);
            assert!(m.redirect.is_none());
            assert!(m.exception.is_none());
            assert!(m.filter.is_none());
            assert!(m.rewritten_url.is_none());
        },
        _ => panic!("expected a network reply"),
    }
}

#[test]
fn blocking_disabled_short_circuits_cosmetic() {
    let mut worker = Blocker::new(Vec::new());
    worker.handle_request(RequestKind::ReplaceEngine(vec!["###ad1".to_string()]), true);
    let reply = worker.handle_request(
        RequestKind::Cosmetic(CosmeticRequest {
            url: "https://example.com/".to_string(),
            ids: vec!["ad1".to_string()],
            classes: Vec::new(),
        }),
        false,
    );
    match reply {
        Some(BlockerResult::Cosmetic(c)) => {
            assert!(c.hidden_selectors.is_empty());
            assert!(c.style_selectors.is_empty());
            assert!(c.injected_script.is_none());
        },
        _ => panic!("expected a cosmetic reply"),
    }
}

#[test]
fn cosmetic_id_rule_hides_selector() {
    let mut worker = Blocker::new(Vec::new());
    worker.handle_request(RequestKind::ReplaceEngine(vec!["###ad1".to_string()]), true);
    let reply = worker.handle_request(
        RequestKind::Cosmetic(CosmeticRequest {
            url: "https://example.com/".to_string(),
            ids: vec!["ad1".to_string()],
            classes: Vec::new(),
        }),
        true,
    );
    match reply {
        Some(BlockerResult::Cosmetic(c)) => {
            assert!(c.hidden_selectors.iter().any(|s| s == "#ad1"));
        },
        _ => panic!("expected a cosmetic reply"),
    }
}

#[test]
fn malformed_url_is_recovered_as_no_match() {
    let mut worker = Blocker::new(Vec::new());
    worker.handle_request(RequestKind::ReplaceEngine(vec!["||ads.example^".to_string()]), true);
    let reply = worker.handle_request(network_request("not a url", ""), true);
    match reply {
        Some(BlockerResult::Network(m)) => assert!(!m.matched),
        _ => panic!("expected a network reply"),
    }
}

#[test]
fn held_resources_let_scriptlet_rules_inject() {
    // A worker holding a scriptlet resource loads it into every rebuilt
    // engine, so a ##+js rule yields a non-empty injected script.
    let resource = adblock::resources::Resource {
        name: "test-script.js".to_string(),
        aliases: Vec::new(),
        kind: adblock::resources::ResourceType::Mime(
            adblock::resources::MimeType::ApplicationJavascript,
        ),
        // base64 of "window.x=1;"
        content: "d2luZG93Lng9MTs=".to_string(),
        dependencies: Vec::new(),
        permission: Default::default(),
    };
    let mut worker = Blocker::new(vec![resource]);
    worker.handle_request(
        RequestKind::ReplaceEngine(vec!["example.com##+js(test-script)".to_string()]),
        true,
    );
    let reply = worker.handle_request(
        RequestKind::Cosmetic(CosmeticRequest {
            url: "https://example.com/".to_string(),
            ids: Vec::new(),
            classes: Vec::new(),
        }),
        true,
    );
    match reply {
        Some(BlockerResult::Cosmetic(c)) => {
            let script = c.injected_script.expect("the scriptlet must be injected");
            assert!(script.contains("window.x=1;"));
        },
        _ => panic!("expected a cosmetic reply"),
    }
}

#[test]
fn without_resources_no_script_is_injected() {
    let mut worker = Blocker::new(Vec::new());
    worker.handle_request(
        RequestKind::ReplaceEngine(vec!["example.com##+js(test-script)".to_string()]),
        true,
    );
    let reply = worker.handle_request(
        RequestKind::Cosmetic(CosmeticRequest {
            url: "https://example.com/".to_string(),
            ids: Vec::new(),
            classes: Vec::new(),
        }),
        true,
    );
    match reply {
        Some(BlockerResult::Cosmetic(c)) => assert!(c.injected_script.is_none()),
        _ => panic!("expected a cosmetic reply"),
    }
}

#[test]
fn debug_rule_text_is_reported_for_matches() {
    let mut worker = Blocker::new(Vec::new());
    worker.handle_request(RequestKind::ReplaceEngine(vec!["||ads.example^".to_string()]), true);
    let reply = worker.handle_request(network_request("https://ads.example/track.js", ""), true);
    match reply {
        Some(BlockerResult::Network(m)) => {
            assert!(m.matched);
            assert_eq!(m.filter.as_deref(), Some("||ads.example^"));
        },
        _ => panic!("expected a network reply"),
    }
}

#[test]
fn replace_is_visible_to_later_queries() {
    let mut worker = Blocker::new(Vec::new());
    worker.handle_request(RequestKind::ReplaceEngine(vec!["||ads.example^".to_string()]), true);
    worker.handle_request(RequestKind::ReplaceEngine(vec!["||other.example^".to_string()]), true);
    let reply = worker.handle_request(network_request("https://ads.example/track.js", ""), true);
    match reply {
        Some(BlockerResult::Network(m)) => assert!(!m.matched),
        _ => panic!("expected a network reply"),
    }
    let reply = worker.handle_request(network_request("https://other.example/x", ""), true);
    match reply {
        Some(BlockerResult::Network(m)) => assert!(m.matched),
        _ => panic!("expected a network reply"),
    }
}
