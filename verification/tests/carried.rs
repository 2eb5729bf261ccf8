//! The library's own historical unit tests: log colors, path splitting,
//! date and cookie parsing.
use aqa_send::cookie::{parse_date, parse_set_cookie, Cookie, DateHeader, DayName, SameSite};
use aqa_send::logger::log_colors;
use aqa_send::split_uri_path;

#[test]
fn color_test() {
    for c in log_colors() {
        println!("\x1B[0;{}mHello World\x1b[0m", c);
    }
}

#[test]
fn uri_path_splitter() {
    let uri = "/";
    let path = split_uri_path(uri);
    assert_eq!(path.len(), 0);

    let uri = "/index.html";
    let path = split_uri_path(uri);
    assert_eq!(path.len(), 1);
    assert_eq!(path[0], "index.html");

    let uri = "/index/.html";
    let path = split_uri_path(uri);
    assert_eq!(path.len(), 2);
    assert_eq!(path[0], "index");
    assert_eq!(path[1], ".html");

    let uri = "/index.html/";
    let path = split_uri_path(uri);
    assert_eq!(path.len(), 1);
    assert_eq!(path[0], "index.html");
}

#[test]
fn test_date_parser() {
    let date = "Wed, 21 Oct 2015 07:28:01 GMT";
    let (date, _) = parse_date(date, 0).unwrap();
    assert!(matches!(date.day_name, DayName::Wed));
    assert_eq!(date.day, 21);
    assert_eq!(date.month, 10);
    assert_eq!(date.year, 2015);
    assert_eq!(date.hour, 7);
    assert_eq!(date.minute, 28);
    assert_eq!(date.second, 1);
}

#[test]
fn test_parse_cookie_with_expiry_date() {
    let cookie = "id=a3fWa; Expires=Wed, 21 Oct 2015 07:28:00 GMT";
    let cookie = parse_set_cookie(cookie).unwrap();

    let expected = Cookie {
        name: "id".to_string(),
        value: "a3fWa".to_string(),
        expires: Some(DateHeader {
            day_name: DayName::Wed,
            day: 21,
            month: 10,
            year: 2015,
            hour: 7,
            minute: 28,
            second: 0,
        }),
        max_age: None,
        domain: None,
        path: None,
        secure: false,
        http_only: false,
        same_site: None,
    };
    assert_eq!(cookie, expected);
}

#[test]
fn test_parse_cookie() {
    let cookie = "id=a3fWa";
    let cookie = parse_set_cookie(cookie).unwrap();

    let expected = Cookie {
        name: "id".to_string(),
        value: "a3fWa".to_string(),
        expires: None,
        max_age: None,
        domain: None,
        path: None,
        secure: false,
        http_only: false,
        same_site: None,
    };
    assert_eq!(cookie, expected);
}

#[test]
fn test_parse_cookie_with_all_attributes() {
    let cookie = "id=a3fWa; Expires=Wed, 21 Oct 2015 07:28:00 GMT; HttpOnly; Secure; SameSite=Strict; Domain=foo.example.com; Max-Age=12305; Path=/docs/Web/HTTP";
    let cookie = parse_set_cookie(cookie).unwrap();

    let expected = Cookie {
        name: "id".to_string(),
        value: "a3fWa".to_string(),
        expires: Some(DateHeader {
            day_name: DayName::Wed,
            day: 21,
            month: 10,
            year: 2015,
            hour: 7,
            minute: 28,
            second: 0,
        }),
        max_age: Some(12305),
        domain: Some("foo.example.com".to_string()),
        path: Some("/docs/Web/HTTP".to_string()),
        secure: true,
        http_only: true,
        same_site: Some(SameSite::Strict),
    };
    assert_eq!(cookie, expected);
}
