use httpecho::codec::ContentEncoding;
use httpecho::config::get_content_bytes;
use httpecho::config::Config;
use httpecho::config::ContentType;
use httpecho::config::Header;
use httpecho::response::generate_response;
use httpecho::response::HttpResponse;

fn lookup<'a>(response: &'a HttpResponse, key: &str) -> Option<&'a str> {
    let mut found: Option<&'a str> = None;
    for h in &response.headers {
        if h.key.eq_ignore_ascii_case(key) {
            found = Some(h.value.as_str());
        }
    }
    found
}

#[test]
fn test_generate_response_no_encoding() {
    let config = Config::new(
        200,
        Some(b"Hello World!".to_vec()),
        ContentType::Text,
        None,
        vec![],
        vec![],
    );

    let response = generate_response(&config);
    assert_eq!(response.status_code, 200);
    assert_eq!(lookup(&response, "Content-Type").unwrap(), "text/plain");
    assert!(lookup(&response, "Content-Encoding").is_none());
}

#[test]
fn test_handle_request_no_encoding_body() {
    let config = Config::new(
        200,
        Some(b"Test data".to_vec()),
        ContentType::Text,
        None,
        vec![],
        vec![],
    );

    let response = generate_response(&config);
    assert_eq!(response.status_code, 200);
    assert!(lookup(&response, "Content-Encoding").is_none());
    assert_eq!(String::from_utf8(response.body).unwrap(), "Test data");
}

#[test]
fn test_generate_response_with_additional_headers() {
    let headers = vec![
        Header { key: "X-Custom-Header".to_string(), value: "CustomValue".to_string() },
        Header { key: "Another-Header".to_string(), value: "AnotherValue".to_string() },
    ];

    let config = Config::new(
        201,
        Some(b"Test content".to_vec()),
        ContentType::Text,
        None,
        headers,
        vec![],
    );

    let response = generate_response(&config);
    assert_eq!(response.status_code, 201);
    assert_eq!(lookup(&response, "Content-Type").unwrap(), "text/plain");
    assert_eq!(lookup(&response, "X-Custom-Header").unwrap(), "CustomValue");
    assert_eq!(lookup(&response, "Another-Header").unwrap(), "AnotherValue");
}

fn encoded_config(encoding: ContentEncoding, text: &str) -> Config {
    let content = get_content_bytes(Some(&text.to_string()), Some(&encoding), None);
    assert!(content.is_some());
    Config::new(200, content, ContentType::Json, Some(encoding), vec![], vec![])
}

fn check_encoding(encoding: ContentEncoding) {
    let original_text = "Check test".to_string();
    let config = encoded_config(encoding, &original_text);

    let response = generate_response(&config);
    assert_eq!(response.status_code, 200);

    let enc_header = lookup(&response, "Content-Encoding").unwrap();
    assert_eq!(enc_header, encoding.canonical_name());

    let encoded = encoding.encode(&original_text).unwrap();
    assert_eq!(encoded, response.body);
}

#[test]
fn test_handle_request_gzip() {
    check_encoding(ContentEncoding::Gzip);
}

#[test]
fn test_handle_request_deflate() {
    check_encoding(ContentEncoding::Deflate);
}

#[test]
fn test_handle_request_br() {
    check_encoding(ContentEncoding::Br);
}

#[test]
fn test_handle_request_zstd() {
    check_encoding(ContentEncoding::Zstd);
}

#[test]
fn scenario_status_and_text_type() {
    // status=201, content="Hello", type=text, no encoding, no extra headers.
    let config = Config::new(
        201,
        Some(b"Hello".to_vec()),
        ContentType::Text,
        None,
        vec![],
        vec![],
    );
    let response = generate_response(&config);
    assert_eq!(response.status_code, 201);
    assert_eq!(lookup(&response, "Content-Type").unwrap(), "text/plain");
    assert_eq!(response.body, b"Hello".to_vec());
}

#[test]
fn scenario_gzip_body_and_header() {
    // encoding=gzip, content="abc": the body is the gzip compression of
    // "abc" and the Content-Encoding header is present.
    let config = encoded_config(ContentEncoding::Gzip, "abc");
    let response = generate_response(&config);
    assert_eq!(lookup(&response, "Content-Encoding").unwrap(), "gzip");
    let expected = ContentEncoding::Gzip.encode("abc").unwrap();
    assert_eq!(response.body, expected);
}

#[test]
fn scenario_explicit_content_type_wins() {
    // An explicit Content-Type header overrides the configured json type.
    let headers = vec![Header {
        key: "Content-Type".to_string(),
        value: "text/html".to_string(),
    }];
    let config = Config::new(200, Some(b"x".to_vec()), ContentType::Json, None, headers, vec![]);
    let response = generate_response(&config);
    assert_eq!(lookup(&response, "Content-Type").unwrap(), "text/html");
    let matches = response
        .headers
        .iter()
        .filter(|h| h.key.eq_ignore_ascii_case("content-type"))
        .count();
    assert_eq!(matches, 1);
}

#[test]
fn explicit_override_key_case_does_not_matter() {
    let headers = vec![Header {
        key: "content-TYPE".to_string(),
        value: "text/html".to_string(),
    }];
    let config = Config::new(200, Some(b"x".to_vec()), ContentType::Json, None, headers, vec![]);
    let response = generate_response(&config);
    assert_eq!(lookup(&response, "content-type").unwrap(), "text/html");
    let matches = response
        .headers
        .iter()
        .filter(|h| h.key.eq_ignore_ascii_case("content-type"))
        .count();
    assert_eq!(matches, 1);
}

#[test]
fn later_override_wins_over_earlier() {
    let headers = vec![
        Header { key: "X-Tag".to_string(), value: "first".to_string() },
        Header { key: "x-tag".to_string(), value: "second".to_string() },
    ];
    let config = Config::new(200, None, ContentType::Json, None, headers, vec![]);
    let response = generate_response(&config);
    assert_eq!(lookup(&response, "X-Tag").unwrap(), "second");
    let matches = response.headers.iter().filter(|h| h.key.eq_ignore_ascii_case("x-tag")).count();
    assert_eq!(matches, 1);
}

#[test]
fn no_content_means_empty_body_and_no_encoding_header() {
    // Even with an encoding configured, an absent content yields an empty
    // body and no Content-Encoding header.
    let config = Config::new(
        204,
        None,
        ContentType::Json,
        Some(ContentEncoding::Gzip),
        vec![],
        vec![],
    );
    let response = generate_response(&config);
    assert_eq!(response.status_code, 204);
    assert!(response.body.is_empty());
    assert!(lookup(&response, "Content-Encoding").is_none());
}

#[test]
fn json_is_the_default_style_content_type() {
    let config = Config::new(200, None, ContentType::Json, None, vec![], vec![]);
    let response = generate_response(&config);
    assert_eq!(lookup(&response, "Content-Type").unwrap(), "application/json");
}

#[test]
fn html_content_type_header() {
    let config = Config::new(200, None, ContentType::Html, None, vec![], vec![]);
    let response = generate_response(&config);
    assert_eq!(lookup(&response, "Content-Type").unwrap(), "text/html");
}
