//! Share-link parsing, end to end through the public API.

use baidu_direct_link::parser::extract_surl;

#[test]
fn test_extract_surl_valid() {
    let test_cases = vec![
        ("https://pan.baidu.com/s/1abc123", Some(String::from("1abc123"))),
        ("https://pan.baidu.com/s/1xxxxx?pwd=1234", Some(String::from("1xxxxx"))),
        ("http://pan.baidu.com/s/1test", Some(String::from("1test"))),
    ];

    for (url, expected) in test_cases {
        let result = extract_surl(url);
        assert_eq!(result, expected, "Failed for URL: {}", url);
    }
}

#[test]
fn test_extract_surl_invalid() {
    let invalid_urls = vec![
        "https://example.com/s/1xxxxx",
        "not-a-url",
        "https://pan.baidu.com/other/path",
        "",
    ];

    for url in invalid_urls {
        let result = extract_surl(url);
        assert!(
            result.is_none(),
            "Should return None for invalid URL: {}",
            url
        );
    }
}

#[test]
fn test_basic() {
    assert_eq!(1 + 1, 2);
}

#[test]
fn test_extract_surl_query_parameter_form() {
    assert_eq!(
        extract_surl("https://pan.baidu.com/share/init?surl=9xyz"),
        Some(String::from("9xyz"))
    );
}

#[test]
fn test_extract_surl_trims_whitespace() {
    assert_eq!(
        extract_surl("  https://pan.baidu.com/s/1abc  "),
        Some(String::from("1abc"))
    );
}

#[test]
fn test_extract_surl_marker_at_end_yields_nothing() {
    assert_eq!(extract_surl("https://pan.baidu.com/s/"), None);
}

#[test]
fn test_extract_surl_empty_path_code_falls_back_to_query() {
    assert_eq!(
        extract_surl("https://pan.baidu.com/s/?surl=abc"),
        Some(String::from("abc"))
    );
}

#[test]
fn test_extract_surl_stops_at_non_code_character() {
    assert_eq!(
        extract_surl("https://pan.baidu.com/s/1a_b-c#frag"),
        Some(String::from("1a_b-c"))
    );
}
