use axum::http::HeaderMap;
use shell_remote::relay::auth::{
    bearer_token, client_address, constant_time_eq, extract_bearer_token,
    extract_token_from_headers_or_query, extract_token_from_query, hex_digit, read_text, url_decode,
};

#[test]
fn test_extract_token_from_query_present() {
    let result = extract_token_from_query("token=abc123&other=foo");
    assert_eq!(result, Some("abc123".to_string()));
}

#[test]
fn test_extract_token_from_query_only_token() {
    let result = extract_token_from_query("token=abc123");
    assert_eq!(result, Some("abc123".to_string()));
}

#[test]
fn test_extract_token_from_query_empty() {
    let result = extract_token_from_query("");
    assert_eq!(result, None);
}

#[test]
fn test_extract_token_from_query_no_token() {
    let result = extract_token_from_query("other=foo&bar=baz");
    assert_eq!(result, None);
}

#[test]
fn test_extract_token_from_query_url_encoded() {
    let result = extract_token_from_query("token=abc%20123");
    assert_eq!(result, Some("abc 123".to_string()));
}

#[test]
fn test_extract_bearer_token_valid() {
    let mut headers = HeaderMap::new();
    headers.insert("authorization", "Bearer abc123".parse().unwrap());
    assert_eq!(extract_bearer_token(&headers), Some("abc123".to_string()));
}

#[test]
fn test_extract_bearer_token_missing_header() {
    let headers = HeaderMap::new();
    assert_eq!(extract_bearer_token(&headers), None);
}

#[test]
fn test_extract_bearer_token_not_bearer_scheme() {
    let mut headers = HeaderMap::new();
    headers.insert("authorization", "Basic dGVzdA==".parse().unwrap());
    assert_eq!(extract_bearer_token(&headers), None);
}

#[test]
fn test_extract_bearer_token_empty_value() {
    let mut headers = HeaderMap::new();
    headers.insert("authorization", "Bearer ".parse().unwrap());
    assert_eq!(extract_bearer_token(&headers), None);
}

#[test]
fn test_extract_bearer_token_case_insensitive_header() {
    let mut headers = HeaderMap::new();
    headers.insert("Authorization", "Bearer token123".parse().unwrap());
    assert_eq!(extract_bearer_token(&headers), Some("token123".to_string()));
}

#[test]
fn test_extract_token_from_headers_or_query_header_present() {
    let mut headers = HeaderMap::new();
    headers.insert("authorization", "Bearer header_token".parse().unwrap());
    let query_token = Some("query_token".to_string());
    assert_eq!(
        extract_token_from_headers_or_query(&headers, query_token.as_ref()),
        Some("header_token".to_string())
    );
}

#[test]
fn test_extract_token_from_headers_or_query_fallback() {
    let headers = HeaderMap::new();
    let query_token = Some("query_token".to_string());
    assert_eq!(
        extract_token_from_headers_or_query(&headers, query_token.as_ref()),
        Some("query_token".to_string())
    );
}

#[test]
fn test_extract_token_from_headers_or_query_both_missing() {
    let headers = HeaderMap::new();
    assert_eq!(extract_token_from_headers_or_query(&headers, None), None);
}

#[test]
fn test_extract_token_from_headers_or_query_header_empty_bearer() {
    let mut headers = HeaderMap::new();
    headers.insert("authorization", "Bearer ".parse().unwrap());
    let query_token = Some("fallback".to_string());
    assert_eq!(
        extract_token_from_headers_or_query(&headers, query_token.as_ref()),
        Some("fallback".to_string())
    );
}

#[test]
fn constant_time_eq_is_equality() {
    assert!(constant_time_eq("", ""));
    assert!(constant_time_eq("s3cret", "s3cret"));
    assert!(!constant_time_eq("s3cret", "s3creT"));
    assert!(!constant_time_eq("s3cret", "s3cre"));
    assert!(!constant_time_eq("", "x"));
    assert!(constant_time_eq("pässwört", "pässwört"));
}

#[test]
fn query_values_are_decoded() {
    assert_eq!(url_decode("a+b%2Bc"), "a b+c");
    assert_eq!(url_decode("%e4%bd%a0"), "你");
    // Not two hexadecimal digits, or nothing after them: taken as they stand.
    assert_eq!(url_decode("100%"), "100%");
    assert_eq!(url_decode("%zz1"), "%zz1");
    assert_eq!(url_decode("%4"), "%4");
    assert_eq!(url_decode("%41"), "A");
    // What is no UTF-8 is replaced.
    assert_eq!(url_decode("%ff"), "\u{fffd}");
}

#[test]
fn only_a_pair_named_token_counts() {
    assert_eq!(extract_token_from_query("xtoken=1&token"), None);
    assert_eq!(
        extract_token_from_query("a=1&token=x=y&token=z"),
        Some("x=y".to_string())
    );
    assert_eq!(extract_token_from_query("token="), Some(String::new()));
}

#[test]
fn hexadecimal_digits_have_values() {
    assert_eq!(hex_digit(b'0'), Some(0));
    assert_eq!(hex_digit(b'9'), Some(9));
    assert_eq!(hex_digit(b'a'), Some(10));
    assert_eq!(hex_digit(b'F'), Some(15));
    assert_eq!(hex_digit(b'g'), None);
    assert_eq!(hex_digit(b'/'), None);
    assert_eq!(hex_digit(b':'), None);
}

#[test]
fn bearer_values_are_read() {
    assert_eq!(bearer_token("Bearer x y"), Some("x y".to_string()));
    assert_eq!(bearer_token("bearer x"), None);
    assert_eq!(bearer_token("Bearer "), None);
}

#[test]
fn client_address_defaults_to_unknown() {
    let mut headers = HeaderMap::new();
    assert_eq!(client_address(&headers), "unknown");
    headers.insert("x-forwarded-for", "10.0.0.7".parse().unwrap());
    assert_eq!(client_address(&headers), "10.0.0.7");
}

#[test]
fn a_header_that_is_not_visible_ascii_counts_as_missing() {
    let mut headers = HeaderMap::new();
    let value = axum::http::HeaderValue::from_bytes(b"Bearer \xff").unwrap();
    headers.insert("authorization", value);
    assert_eq!(extract_bearer_token(&headers), None);
}

#[test]
fn bytes_are_read_as_text() {
    assert_eq!(read_text("grüße".as_bytes()), "grüße");
    assert_eq!(read_text(&[b'a', 0xc3, b'b']), "a\u{fffd}b");
    assert_eq!(read_text(&[]), "");
}
