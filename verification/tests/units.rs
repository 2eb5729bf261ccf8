//! Unit tests for the codecs and small building blocks.
use aqa_send::cookie::{
    parse_cookie, parse_set_cookie, render_set_cookie, Cookie, DateHeader, DayName, SameSite,
};
use aqa_send::db_stuff::{AccountType, Uuid};
use aqa_send::digits::{fmt_i64, fmt_u64};
use aqa_send::error::{error_body, json_escape, status_text, ErrorContentType};
use aqa_send::headers::{
    parse_download_count, parse_lifetime, parse_visibility, DownloadCount, HeaderError, Lifetime,
    Visibility,
};
use aqa_send::multipart::{Multipart, MultipartError};
use aqa_send::uuid_text::{fmt_uuid, parse_uuid};

#[test]
fn decimal_rendering() {
    assert_eq!(fmt_u64(0), "0");
    assert_eq!(fmt_u64(7), "7");
    assert_eq!(fmt_u64(1234567890), "1234567890");
    assert_eq!(fmt_u64(u64::MAX), "18446744073709551615");
    assert_eq!(fmt_i64(-12305), "-12305");
    assert_eq!(fmt_i64(i64::MIN), "-9223372036854775808");
}

#[test]
fn uuid_text_round_trip() {
    let u = Uuid(0x0123456789abcdef0123456789abcdefu128);
    let text = fmt_uuid(&u);
    assert_eq!(text, "01234567-89ab-cdef-0123-456789abcdef");
    assert_eq!(parse_uuid(&text), Some(u));
    assert_eq!(parse_uuid("0123456789abcdef0123456789abcdef"), Some(u));
    assert_eq!(parse_uuid("0123456789ABCDEF0123456789ABCDEF"), Some(u));
    assert_eq!(parse_uuid("not-a-uuid"), None);
    assert_eq!(parse_uuid(""), None);
}

#[test]
fn download_count_header() {
    assert_eq!(parse_download_count(Some("1")), Ok(DownloadCount::Count(1)));
    assert_eq!(parse_download_count(Some("5")), Ok(DownloadCount::Count(5)));
    assert_eq!(parse_download_count(Some("10")), Ok(DownloadCount::Count(10)));
    assert_eq!(parse_download_count(Some("100")), Ok(DownloadCount::Count(100)));
    assert_eq!(parse_download_count(Some("infinite")), Ok(DownloadCount::Infinite));
    assert_eq!(
        parse_download_count(Some("7")),
        Err(HeaderError::DownloadCountInvalidCount)
    );
    assert_eq!(
        parse_download_count(None),
        Err(HeaderError::DownloadCountHeaderMissing)
    );
    assert_eq!(DownloadCount::Count(10).bucket(), "10");
    assert_eq!(DownloadCount::Infinite.bucket(), "infinite");
}

#[test]
fn lifetime_header() {
    assert_eq!(parse_lifetime(None), Ok(Lifetime::Infinite));
    assert_eq!(parse_lifetime(Some("infinite")), Ok(Lifetime::Infinite));
    assert_eq!(parse_lifetime(Some("1 min")), Ok(Lifetime::Duration(60_000)));
    assert_eq!(parse_lifetime(Some("5 mins")), Ok(Lifetime::Duration(300_000)));
    assert_eq!(parse_lifetime(Some("1 hour")), Ok(Lifetime::Duration(3_600_000)));
    assert_eq!(parse_lifetime(Some("1 day")), Ok(Lifetime::Duration(86_400_000)));
    assert_eq!(parse_lifetime(Some("7 days")), Ok(Lifetime::Duration(604_800_000)));
    assert_eq!(parse_lifetime(Some("30 days")), Ok(Lifetime::Duration(2_592_000_000)));
    assert_eq!(parse_lifetime(Some("2 weeks")), Err(HeaderError::LifetimeValue));
}

#[test]
fn visibility_header() {
    assert_eq!(parse_visibility(None), Ok(Visibility::Public));
    assert_eq!(parse_visibility(Some("public")), Ok(Visibility::Public));
    assert_eq!(parse_visibility(Some("private")), Ok(Visibility::Private));
    assert_eq!(parse_visibility(Some("hidden")), Err(HeaderError::VisibilityParse));
}

#[test]
fn account_type_parsing() {
    assert_eq!(AccountType::from_str("admin"), Ok(AccountType::Admin));
    assert_eq!(AccountType::from_str("user"), Ok(AccountType::User));
    assert!(AccountType::from_str("root").is_err());
}

#[test]
fn cookie_header_pairs() {
    let pairs = parse_cookie("a=1; b=2; a=3").unwrap();
    assert_eq!(pairs.len(), 3);
    assert_eq!(pairs[0], ("a".to_string(), "1".to_string()));
    assert_eq!(pairs[2], ("a".to_string(), "3".to_string()));
    assert!(parse_cookie(";;;").is_none());
}

#[test]
fn set_cookie_render_parse() {
    let cookie = Cookie {
        name: "session".to_string(),
        value: "abc123".to_string(),
        expires: None,
        max_age: Some(-7),
        domain: Some("example.com".to_string()),
        path: Some("/docs".to_string()),
        secure: true,
        http_only: true,
        same_site: Some(SameSite::NoneValue),
    };
    let rendered = render_set_cookie(&cookie);
    assert_eq!(
        rendered,
        "session=abc123; Max-Age=-7; Domain=example.com; Path=/docs; Secure; HttpOnly; SameSite=None"
    );
    let parsed = parse_set_cookie(&rendered).unwrap();
    assert_eq!(parsed, cookie);
}

#[test]
fn status_phrases() {
    assert_eq!(status_text(404), "404 Not Found");
    assert_eq!(status_text(500), "500 Internal Server Error");
}

#[test]
fn error_bodies() {
    assert_eq!(json_escape("a\"b\\c"), "a\\\"b\\\\c");
    assert_eq!(
        error_body(404, "gone \"away\"", true, ErrorContentType::Json),
        "{\"status\":404,\"message\":\"gone \\\"away\\\"\"}"
    );
    assert_eq!(
        error_body(500, "secret detail", false, ErrorContentType::PlainText),
        "500 Internal Server Error"
    );
}

#[test]
fn multipart_whole_form() {
    let boundary = b"--XYZ".to_vec();
    let mut m = Multipart::new(boundary, 1000);
    let body = b"--XYZ\r\nContent-Disposition: form-data; name=\"username\"\r\n\r\nAla\r\n--XYZ\r\nContent-Disposition: form-data; name=\"file\"; filename=\"notes.txt\"\r\nContent-Type: text/plain\r\n\r\nhello world\r\n--XYZ--\r\n";
    m.feed(body);
    m.finish();
    let chunks = m.read_all_chunks().unwrap();
    assert_eq!(chunks.len(), 2);
    assert_eq!(chunks[0].0.name, "username");
    assert_eq!(chunks[0].0.file_name, None);
    assert_eq!(chunks[0].1, b"Ala".to_vec());
    assert_eq!(chunks[1].0.name, "file");
    assert_eq!(chunks[1].0.file_name, Some("notes.txt".to_string()));
    assert_eq!(chunks[1].0.content_type, Some("text/plain".to_string()));
    assert_eq!(chunks[1].1, b"hello world".to_vec());
}

#[test]
fn multipart_size_cap() {
    let boundary = b"--XYZ".to_vec();
    let mut m = Multipart::new(boundary, 5);
    let body = b"--XYZ\r\nContent-Disposition: form-data; name=\"f\"\r\n\r\nmore than five bytes\r\n--XYZ--\r\n";
    m.feed(body);
    m.finish();
    assert_eq!(m.read_all_chunks().unwrap_err(), MultipartError::TooBig);
}

#[test]
fn multipart_missing_name() {
    let boundary = b"--XYZ".to_vec();
    let mut m = Multipart::new(boundary, 1000);
    let body = b"--XYZ\r\nContent-Disposition: form-data; other=\"x\"\r\n\r\ndata\r\n--XYZ--\r\n";
    m.feed(body);
    m.finish();
    assert_eq!(m.read_all_chunks().unwrap_err(), MultipartError::NameNotFound);
}

#[test]
fn set_cookie_with_expiry_round_trip() {
    let cookie = Cookie {
        name: "id".to_string(),
        value: "a3fWa".to_string(),
        expires: Some(DateHeader {
            day_name: DayName::Fri,
            day: 3,
            month: 2,
            year: 2023,
            hour: 23,
            minute: 59,
            second: 7,
        }),
        max_age: None,
        domain: None,
        path: None,
        secure: false,
        http_only: false,
        same_site: Some(SameSite::Lax),
    };
    let rendered = render_set_cookie(&cookie);
    assert_eq!(rendered, "id=a3fWa; Expires=Fri, 03 Feb 2023 23:59:07 GMT; SameSite=Lax");
    assert_eq!(parse_set_cookie(&rendered), Some(cookie));
}
