use privaxy::blocker::CosmeticBlockerResult;
use privaxy::rewriter::{build_injection, is_modified, Rewriter};

const BODY: &[u8] = b"<html><body><div id=\"ad1\" class=\"promo banner\"></div></body></html>";

fn hiding_reply(selectors: &[&str]) -> CosmeticBlockerResult {
    CosmeticBlockerResult {
        hidden_selectors: selectors.iter().map(|s| s.to_string()).collect(),
        style_selectors: Vec::new(),
        injected_script: None,
    }
}

#[test]
fn collects_ids_and_class_tokens() {
    let mut rw = Rewriter::new("https://example.com/".to_string());
    rw.write_chunk(&BODY.to_vec());
    assert_eq!(rw.collected_ids(), vec!["ad1".to_string()]);
    assert_eq!(rw.collected_classes(), vec!["promo".to_string(), "banner".to_string()]);
    assert_eq!(rw.page_url(), "https://example.com/");
}

#[test]
fn class_whitespace_runs_collapse_and_duplicates_drop() {
    let mut rw = Rewriter::new("u".to_string());
    rw.write_chunk(&b"<div class=\"a  b\tb  a\">".to_vec());
    assert_eq!(rw.collected_classes(), vec!["a".to_string(), "b".to_string()]);
}

#[test]
fn injection_lands_before_first_matching_end_tag() {
    let mut rw = Rewriter::new("https://example.com/".to_string());
    let mut out = rw.write_chunk(&BODY.to_vec());
    let reply = hiding_reply(&["#ad1"]);
    assert!(!is_modified(&reply));
    out.extend(rw.finish(&reply));
    let expected_injection = "\n<!-- privaxy proxy -->\n<style>#ad1 { display: none !important; }\n\n</style>\n<!-- privaxy proxy -->";
    // The first matching end tag in document order is </body>; it is removed
    // from the stream and re-emitted after the injection, while everything
    // else, </html> included, streams through verbatim.
    let mut streamed: Vec<u8> = Vec::new();
    streamed.extend(b"<html><body><div id=\"ad1\" class=\"promo banner\"></div>");
    streamed.extend(b"</html>");
    streamed.extend(expected_injection.as_bytes());
    streamed.extend(b"</body>");
    assert_eq!(String::from_utf8(out).unwrap(), String::from_utf8(streamed).unwrap());
}

#[test]
fn injected_script_appends_script_block_and_counts_as_modified() {
    let mut rw = Rewriter::new("https://example.com/".to_string());
    let mut out = rw.write_chunk(&BODY.to_vec());
    let reply = CosmeticBlockerResult {
        hidden_selectors: vec!["#ad1".to_string()],
        style_selectors: Vec::new(),
        injected_script: Some("window.x=1;".to_string()),
    };
    assert!(is_modified(&reply));
    out.extend(rw.finish(&reply));
    let text = String::from_utf8(out).unwrap();
    assert!(text.contains(
        "<script type=\"application/javascript\">window.x=1;</script>"
    ));
    assert!(text.contains("#ad1 { display: none !important; }"));
}

#[test]
fn style_selectors_format_and_count_as_modified() {
    let reply = CosmeticBlockerResult {
        hidden_selectors: Vec::new(),
        style_selectors: vec![(
            ".promo".to_string(),
            vec!["color: red".to_string(), "margin: 0".to_string()],
        )],
        injected_script: None,
    };
    assert!(is_modified(&reply));
    let s = build_injection(&reply);
    assert!(s.contains(".promo { color: red;margin: 0 }"));
    assert!(s.starts_with("\n<!-- privaxy proxy -->\n<style>"));
    assert!(s.ends_with("\n</style>\n<!-- privaxy proxy -->"));
}

#[test]
fn hiding_only_reply_is_not_modified() {
    assert!(!is_modified(&hiding_reply(&["#a", ".b"])));
}

#[test]
fn chunked_input_behaves_like_whole_input() {
    let mut whole = Rewriter::new("u".to_string());
    let mut out_whole = whole.write_chunk(&BODY.to_vec());
    let reply = hiding_reply(&["#ad1"]);
    out_whole.extend(whole.finish(&reply));

    let mut chunked = Rewriter::new("u".to_string());
    let mut out_chunked: Vec<u8> = Vec::new();
    for byte in BODY {
        out_chunked.extend(chunked.write_chunk(&vec![*byte]));
    }
    assert_eq!(chunked.collected_ids(), vec!["ad1".to_string()]);
    out_chunked.extend(chunked.finish(&reply));
    assert_eq!(out_whole, out_chunked);
}

#[test]
fn early_bytes_stream_before_finish() {
    let mut rw = Rewriter::new("u".to_string());
    let first = rw.write_chunk(&b"<p>hello</p>".to_vec());
    // Plain text with no capturable end tag streams through immediately,
    // before any cosmetic reply exists.
    assert_eq!(first, b"<p>hello</p>".to_vec());
}

#[test]
fn body_without_end_tag_gets_injection_appended() {
    let mut rw = Rewriter::new("u".to_string());
    let mut out = rw.write_chunk(&b"<div id=\"x\">text".to_vec());
    out.extend(rw.finish(&hiding_reply(&["#x"])));
    let text = String::from_utf8(out).unwrap();
    assert!(text.starts_with("<div id=\"x\">text"));
    assert!(text.ends_with("\n</style>\n<!-- privaxy proxy -->"));
}

#[test]
fn end_tag_split_across_chunks_is_still_captured() {
    let mut rw = Rewriter::new("u".to_string());
    let mut out: Vec<u8> = Vec::new();
    out.extend(rw.write_chunk(&b"x</bo".to_vec()));
    out.extend(rw.write_chunk(&b"dy>y".to_vec()));
    out.extend(rw.finish(&hiding_reply(&[])));
    let text = String::from_utf8(out).unwrap();
    assert_eq!(text, format!("xy{}{}", "\n<!-- privaxy proxy -->\n<style>\n\n</style>\n<!-- privaxy proxy -->", "</body>"));
}

#[test]
fn case_insensitive_end_tag_matches() {
    let mut rw = Rewriter::new("u".to_string());
    let mut out = rw.write_chunk(&b"a</BODY>b".to_vec());
    out.extend(rw.finish(&hiding_reply(&[])));
    let text = String::from_utf8(out).unwrap();
    assert!(text.starts_with("ab"));
    assert!(text.ends_with("</BODY>"));
}

#[test]
fn pipeline_hides_the_selected_element() {
    // The whole inner-response path: the rewriter collects ids and classes
    // while streaming, the worker answers the cosmetic query against a
    // compiled hiding rule, and the rewriter injects the style block before
    // the captured end tag.
    let mut worker = privaxy::blocker::Blocker::new(Vec::new());
    worker.handle_request(
        privaxy::blocker::RequestKind::ReplaceEngine(vec!["###ad1".to_string()]),
        true,
    );
    let mut rw = Rewriter::new("https://example.com/".to_string());
    let mut out = rw.write_chunk(&BODY.to_vec());
    let reply = worker.handle_request(
        privaxy::blocker::RequestKind::Cosmetic(privaxy::blocker::CosmeticRequest {
            url: rw.page_url(),
            ids: rw.collected_ids(),
            classes: rw.collected_classes(),
        }),
        true,
    );
    let cosmetic = match reply {
        Some(privaxy::blocker::BlockerResult::Cosmetic(c)) => c,
        _ => panic!("expected a cosmetic reply"),
    };
    assert!(!is_modified(&cosmetic));
    out.extend(rw.finish(&cosmetic));
    let text = String::from_utf8(out).unwrap();
    assert!(text.contains("#ad1 { display: none !important; }"));
    assert!(text.ends_with("</body>"));
}

#[test]
fn non_utf8_attribute_values_are_dropped_from_queries() {
    let mut rw = Rewriter::new("u".to_string());
    let mut chunk: Vec<u8> = Vec::new();
    chunk.extend(b"<div id=\"");
    chunk.push(0xff);
    chunk.extend(b"\"><div id=\"ok\">");
    rw.write_chunk(&chunk);
    assert_eq!(rw.collected_ids(), vec!["ok".to_string()]);
}
