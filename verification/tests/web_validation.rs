//! Front-end input validation and response shapes.

use baidu_direct_link::web::{validate_password, validate_share_url, HealthResponse};

#[test]
fn test_validate_share_url_valid() {
    let valid_urls = vec![
        "https://pan.baidu.com/s/1xxxxx",
        "https://pan.baidu.com/s/1abc123",
        "http://pan.baidu.com/s/1test",
    ];

    for url in valid_urls {
        assert!(
            validate_share_url(url).is_ok(),
            "URL should be valid: {}",
            url
        );
    }
}

#[test]
fn test_validate_share_url_invalid() {
    let invalid_urls = vec![
        "",
        "not-a-url",
        "https://example.com/s/1xxxxx",
        "https://pan.baidu.com/other/path",
        "https://google.com/s/1xxxxx",
    ];

    for url in invalid_urls {
        assert!(
            validate_share_url(url).is_err(),
            "URL should be invalid: {}",
            url
        );
    }
}

#[test]
fn test_validate_password_valid() {
    let valid_passwords = vec!["", "1234", "abcd", "A1B2", "test"];

    for pwd in valid_passwords {
        assert!(
            validate_password(pwd).is_ok(),
            "Password should be valid: {}",
            pwd
        );
    }
}

#[test]
fn test_validate_password_invalid() {
    let invalid_passwords = vec!["123", "12345", "abc", "12"];

    for pwd in invalid_passwords {
        assert!(
            validate_password(pwd).is_err(),
            "Password should be invalid: {}",
            pwd
        );
    }
}

#[test]
fn test_health_response() {
    let response = HealthResponse {
        status: "ok".to_string(),
        version: "1.0.0",
    };
    assert_eq!(response.status, "ok");
    assert_eq!(response.version, "1.0.0");
}
