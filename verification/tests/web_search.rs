use kiro_web_search::json::Json;
use kiro_web_search::web_search::{exa_error_message, exa_search_url, ExaClient, WebSearchResult};

fn result(url: &str, title: &str, text: &str, highlights: &[&str], date: Option<&str>) -> WebSearchResult {
    WebSearchResult {
        url: url.to_string(),
        title: title.to_string(),
        text: text.to_string(),
        highlights: highlights.iter().map(|h| h.to_string()).collect(),
        published_date: date.map(|d| d.to_string()),
    }
}

#[test]
fn test_format_results_as_text() {
    let results = vec![
        result(
            "https://example.com",
            "Example",
            "Some content here",
            &["Key finding"],
            Some("2025-01-01"),
        ),
        result("https://other.com", "Other Site", "More content", &[], None),
    ];

    let text = ExaClient::format_results_as_text("test query", &results);
    assert!(text.contains("Search results for \"test query\""));
    assert!(text.contains("1. Example (https://example.com)"));
    assert!(text.contains("Key finding"));
    assert!(text.contains("2. Other Site (https://other.com)"));
    assert!(text.contains("More content"));
}

#[test]
fn test_format_results_empty() {
    let text = ExaClient::format_results_as_text("test", &[]);
    assert!(text.contains("Search results for \"test\""));
}

#[test]
fn test_exa_client_new() {
    let client = ExaClient::new("test-key".to_string(), 5);
    assert_eq!(client.api_key(), "test-key");
    assert_eq!(client.max_results(), 5);
}

#[test]
fn format_results_exact_text() {
    let results = vec![
        result("https://a.example", "A", "ignored text", &["first", "second"], None),
        result("https://b.example", "B", "body", &[], None),
        result("https://c.example", "C", "", &[], None),
    ];
    let text = ExaClient::format_results_as_text("q", &results);
    assert_eq!(
        text,
        "Search results for \"q\":\n\n\
         1. A (https://a.example)\n   first\n   second\n\n\
         2. B (https://b.example)\n   body\n\n\
         3. C (https://c.example)\n\n"
    );
}

#[test]
fn format_results_empty_exact_text() {
    assert_eq!(ExaClient::format_results_as_text("x", &[]), "Search results for \"x\":\n\n");
}

#[test]
fn format_results_numbers_past_nine() {
    let results: Vec<WebSearchResult> =
        (0..12).map(|i| result(&format!("u{}", i), &format!("t{}", i), "", &[], None)).collect();
    let text = ExaClient::format_results_as_text("q", &results);
    assert!(text.contains("10. t9 (u9)\n"));
    assert!(text.contains("12. t11 (u11)\n\n"));
}

#[test]
fn format_results_excerpt_is_500_characters() {
    let long = "a".repeat(600);
    let results = vec![result("u", "t", &long, &[], None)];
    let text = ExaClient::format_results_as_text("q", &results);
    let expected = format!("Search results for \"q\":\n\n1. t (u)\n   {}\n\n", "a".repeat(500));
    assert_eq!(text, expected);
}

#[test]
fn format_results_excerpt_of_exactly_500_characters_is_whole() {
    let text500 = "b".repeat(500);
    let results = vec![result("u", "t", &text500, &[], None)];
    let text = ExaClient::format_results_as_text("q", &results);
    assert!(text.ends_with(&format!("   {}\n\n", text500)));
}

#[test]
fn excerpt_counts_characters_not_bytes() {
    // 600 characters, 900 bytes: the excerpt is the first 500 characters.
    let long = "a\u{e9}".repeat(300);
    let results = vec![result("u", "t", &long, &[], None)];
    let text = ExaClient::format_results_as_text("q", &results);
    let expected = format!("Search results for \"q\":\n\n1. t (u)\n   {}\n\n", "a\u{e9}".repeat(250));
    assert_eq!(text, expected);
    // 'é' then 600 'a': 601 characters, the excerpt keeps 500 of them.
    let mut mixed = String::from("\u{e9}");
    mixed.push_str(&"a".repeat(600));
    let results = vec![result("u", "t", &mixed, &[], None)];
    let text = ExaClient::format_results_as_text("q", &results);
    let mut cut = String::from("\u{e9}");
    cut.push_str(&"a".repeat(499));
    assert!(text.ends_with(&format!("   {}\n\n", cut)));
    // 400 two-byte characters (800 bytes) are shown whole.
    let short = "\u{e9}".repeat(400);
    let results = vec![result("u", "t", &short, &[], None)];
    let text = ExaClient::format_results_as_text("q", &results);
    assert!(text.ends_with(&format!("   {}\n\n", short)));
}

#[test]
fn exa_error_message_quotes_status_and_text() {
    assert_eq!(exa_error_message("401 Unauthorized", "bad key"), "Exa API error 401 Unauthorized: bad key");
    assert_eq!(exa_error_message("500 Internal Server Error", ""), "Exa API error 500 Internal Server Error: ");
}

#[test]
fn exa_search_url_is_the_search_endpoint() {
    assert_eq!(exa_search_url(), "https://api.exa.ai/search");
}

#[test]
fn search_request_body_holds_query_and_limit() {
    let client = ExaClient::new("k".to_string(), 7);
    let body = client.search_request_body("rust verus");
    let expected = Json::Object(vec![
        ("query".to_string(), Json::Str("rust verus".to_string())),
        ("type".to_string(), Json::Str("auto".to_string())),
        ("numResults".to_string(), Json::Number("7".to_string())),
        (
            "contents".to_string(),
            Json::Object(vec![
                (
                    "text".to_string(),
                    Json::Object(vec![("maxCharacters".to_string(), Json::Number("3000".to_string()))]),
                ),
                (
                    "highlights".to_string(),
                    Json::Object(vec![("numSentences".to_string(), Json::Number("3".to_string()))]),
                ),
            ]),
        ),
    ]);
    assert_eq!(body, expected);
}

#[test]
fn search_request_body_large_limit() {
    let client = ExaClient::new("k".to_string(), 1234567);
    let body = client.search_request_body("q");
    assert_eq!(body.get(&"numResults".to_string()), Some(&Json::Number("1234567".to_string())));
}
