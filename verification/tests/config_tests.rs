use httpecho::codec::ContentEncoding;
use httpecho::config::content_file_path;
use httpecho::config::file_content_decodes;
use httpecho::config::get_content_bytes;
use httpecho::config::Config;
use httpecho::config::ContentType;
use httpecho::config::Header;
use httpecho::errors::ConfigError;

#[test]
fn header_from_str_splits_at_first_colon() {
    let h = Header::from_str("Authorization: Bearer a:b:c").unwrap();
    assert_eq!(h.key, "Authorization");
    assert_eq!(h.value, "Bearer a:b:c");
}

#[test]
fn header_from_str_trims_whitespace() {
    let h = Header::from_str("  X-Key  :\tsome value \r\n").unwrap();
    assert_eq!(h.key, "X-Key");
    assert_eq!(h.value, "some value");
}

#[test]
fn header_from_str_rejects_missing_colon() {
    assert_eq!(Header::from_str("not a header").unwrap_err(), ConfigError::MalformedHeader);
    assert_eq!(Header::from_str("").unwrap_err(), ConfigError::MalformedHeader);
}

#[test]
fn header_from_str_empty_parts() {
    let h = Header::from_str(":").unwrap();
    assert_eq!(h.key, "");
    assert_eq!(h.value, "");
}

#[test]
fn content_type_from_str_names() {
    assert_eq!(ContentType::from_str("json").unwrap(), ContentType::Json);
    assert_eq!(ContentType::from_str("TEXT").unwrap(), ContentType::Text);
    assert_eq!(ContentType::from_str("Html").unwrap(), ContentType::Html);
    assert_eq!(ContentType::from_str("xml").unwrap_err(), ConfigError::UnknownContentType);
}

#[test]
fn mime_names() {
    assert_eq!(ContentType::Json.mime_type(), "application/json");
    assert_eq!(ContentType::Text.mime_type(), "text/plain");
    assert_eq!(ContentType::Html.mime_type(), "text/html");
}

#[test]
fn content_file_path_recognizes_marker() {
    assert_eq!(content_file_path("@/tmp/body.txt").unwrap(), "/tmp/body.txt");
    assert!(content_file_path("plain text").is_none());
    assert!(content_file_path("").is_none());
}

#[test]
fn get_content_bytes_no_content() {
    assert!(get_content_bytes(None, None, None).is_none());
    assert!(get_content_bytes(None, Some(&ContentEncoding::Gzip), None).is_none());
}

#[test]
fn get_content_bytes_plain_literal() {
    let content = "Hello".to_string();
    let bytes = get_content_bytes(Some(&content), None, None).unwrap();
    assert_eq!(bytes, b"Hello".to_vec());
}

#[test]
fn get_content_bytes_encodes_literal() {
    let content = "Hello".to_string();
    let bytes = get_content_bytes(Some(&content), Some(&ContentEncoding::Zstd), None).unwrap();
    assert_eq!(bytes, ContentEncoding::Zstd.encode("Hello").unwrap());
}

#[test]
fn get_content_bytes_prefers_file_data() {
    // When the @-file was read, its bytes are sent as they are, encoded or
    // not.
    let content = "@/tmp/present".to_string();
    let file = vec![1u8, 2, 3];
    let bytes = get_content_bytes(Some(&content), Some(&ContentEncoding::Gzip), Some(file.clone()))
        .unwrap();
    assert_eq!(bytes, file);
}

#[test]
fn get_content_bytes_failed_read_sends_literal() {
    // A failed file read falls back to the literal token, marker included.
    let content = "@/tmp/does-not-exist".to_string();
    let bytes = get_content_bytes(Some(&content), None, None).unwrap();
    assert_eq!(bytes, b"@/tmp/does-not-exist".to_vec());
}

#[test]
fn file_content_decodes_checks() {
    assert!(file_content_decodes(&b"plain".to_vec(), None));
    assert!(!file_content_decodes(&vec![0xffu8, 0x00], None));
    let encoded = ContentEncoding::Br.encode("payload").unwrap();
    assert!(file_content_decodes(&encoded, Some(&ContentEncoding::Br)));
    assert!(!file_content_decodes(&b"not brotli".to_vec(), Some(&ContentEncoding::Gzip)));
}

#[test]
fn config_stores_its_parts() {
    let config = Config::new(
        503,
        Some(b"oops".to_vec()),
        ContentType::Html,
        Some(ContentEncoding::Br),
        vec![Header { key: "K".to_string(), value: "V".to_string() }],
        vec!["K".to_string()],
    );
    assert_eq!(config.status_code, 503);
    assert_eq!(config.content().unwrap(), b"oops".to_vec());
    assert_eq!(config.headers.len(), 1);
    assert_eq!(config.highlight_headers, vec!["K".to_string()]);
    let copy = config.clone();
    assert_eq!(copy.status_code, 503);
    assert_eq!(copy.content().unwrap(), b"oops".to_vec());
}
