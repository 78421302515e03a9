use loadboard::headers::{header_text_or_default, header_value_to_str, RequestHeaders};
use loadboard::helper::build_url::build_absolute_url;
use loadboard::helper::tenant_context::search_path_statement;
use loadboard::middleware::tenant::tenant_domain;
use loadboard::text::{parse_u16, push_decimal, push_signed_decimal};

fn decimal(n: u64) -> String {
    let mut s = String::new();
    push_decimal(&mut s, n);
    s
}

fn signed(n: i64) -> String {
    let mut s = String::new();
    push_signed_decimal(&mut s, n);
    s
}

#[test]
fn decimal_text_of_numbers() {
    assert_eq!(decimal(0), "0");
    assert_eq!(decimal(7), "7");
    assert_eq!(decimal(10), "10");
    assert_eq!(decimal(65535), "65535");
    assert_eq!(decimal(u64::MAX), u64::MAX.to_string());
}

#[test]
fn decimal_text_appends() {
    let mut s = String::from("page=");
    push_decimal(&mut s, 12);
    assert_eq!(s, "page=12");
}

#[test]
fn signed_decimal_text() {
    assert_eq!(signed(0), "0");
    assert_eq!(signed(-1), "-1");
    assert_eq!(signed(123), "123");
    assert_eq!(signed(i64::MIN), i64::MIN.to_string());
    assert_eq!(signed(i64::MAX), i64::MAX.to_string());
}

#[test]
fn port_numbers_are_read() {
    assert_eq!(parse_u16("8080"), Some(8080));
    assert_eq!(parse_u16("+80"), Some(80));
    assert_eq!(parse_u16("00080"), Some(80));
    assert_eq!(parse_u16("0"), Some(0));
    assert_eq!(parse_u16("65535"), Some(65535));
}

#[test]
fn port_numbers_are_refused() {
    assert_eq!(parse_u16(""), None);
    assert_eq!(parse_u16("+"), None);
    assert_eq!(parse_u16("-1"), None);
    assert_eq!(parse_u16("65536"), None);
    assert_eq!(parse_u16("99999999999"), None);
    assert_eq!(parse_u16("8a"), None);
    assert_eq!(parse_u16(" 80"), None);
    assert_eq!(parse_u16("++8"), None);
}

#[test]
fn port_reader_agrees_with_std() {
    for text in ["8080", "+1", "-0", "0x10", "655350", "", "+", "1_0", "٣"] {
        assert_eq!(parse_u16(text), text.parse::<u16>().ok(), "{text}");
    }
}

#[test]
fn written_number_reads_back() {
    for n in [0u16, 9, 10, 443, 8080, 65535] {
        assert_eq!(parse_u16(&decimal(n as u64)), Some(n));
    }
}

#[test]
fn header_values_as_text() {
    assert_eq!(header_value_to_str(b"example.com"), Some("example.com".to_string()));
    assert_eq!(header_value_to_str(b"a\tb c"), Some("a\tb c".to_string()));
    assert_eq!(header_value_to_str(b""), Some(String::new()));
    assert_eq!(header_value_to_str(&[0x68, 0xc3, 0xa9]), None);
    assert_eq!(header_value_to_str(&[0x61, 0x01]), None);
    assert_eq!(header_value_to_str(&[0x7f]), None);
}

#[test]
fn header_text_falls_back_to_default() {
    assert_eq!(header_text_or_default(&None, "http"), "http");
    assert_eq!(header_text_or_default(&Some(b"https".to_vec()), "http"), "https");
    assert_eq!(header_text_or_default(&Some(vec![0xff]), "http"), "http");
}

#[test]
fn absolute_url_defaults() {
    let headers = RequestHeaders::empty();
    assert_eq!(build_absolute_url(&headers), "http://localhost");
}

#[test]
fn absolute_url_from_headers() {
    let headers = RequestHeaders {
        host: Some(b"api.example.com:8443".to_vec()),
        forwarded_proto: Some(b"https".to_vec()),
        authorization: None,
    };
    assert_eq!(build_absolute_url(&headers), "https://api.example.com:8443");
}

#[test]
fn absolute_url_ignores_non_ascii_host() {
    let headers = RequestHeaders {
        host: Some("bücher.example".as_bytes().to_vec()),
        forwarded_proto: None,
        authorization: None,
    };
    assert_eq!(build_absolute_url(&headers), "http://localhost");
}

#[test]
fn tenant_domain_from_host() {
    let mut headers = RequestHeaders::empty();
    assert_eq!(tenant_domain(&headers), "localhost");
    headers.host = Some(b"acme.test.atrek.icu".to_vec());
    assert_eq!(tenant_domain(&headers), "acme.test.atrek.icu");
    headers.host = Some(vec![b'a', 0x00]);
    assert_eq!(tenant_domain(&headers), "localhost");
}

#[test]
fn search_path_for_schema() {
    assert_eq!(search_path_statement("tenant_acme"), r#"SET search_path TO "tenant_acme""#);
    assert_eq!(search_path_statement(""), r#"SET search_path TO """#);
}
