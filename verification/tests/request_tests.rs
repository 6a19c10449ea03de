use http_client::menu::{parse_menu_selection, MenuAction, MenuError};
use http_client::request::{delete, get, post, put, req_with_body, req_without_body};
use http_client::url::{Scheme, Target};

fn target(host: &str, path: &str, scheme: Scheme) -> Target {
    Target { host: host.to_string(), path: path.to_string(), scheme }
}

#[test]
fn get_request_text() {
    let t = target("example.com", "foo", Scheme::Plain);
    assert_eq!(
        get(&t),
        "GET /foo HTTP/1.1\r\nHost: example.com\r\nConnection: close\r\n\r\n"
    );
}

#[test]
fn delete_request_text() {
    let t = target("example.com", "a/b", Scheme::Encrypted);
    assert_eq!(
        delete(&t),
        "DELETE /a/b HTTP/1.1\r\nHost: example.com\r\nConnection: close\r\n\r\n"
    );
}

#[test]
fn get_request_empty_path() {
    let t = target("example.com", "", Scheme::Plain);
    assert_eq!(
        get(&t),
        "GET / HTTP/1.1\r\nHost: example.com\r\nConnection: close\r\n\r\n"
    );
}

#[test]
fn post_request_text_with_length() {
    let t = target("example.com", "api", Scheme::Plain);
    let body = "{\"a\":1}";
    assert_eq!(
        post(&t, body),
        "POST /api HTTP/1.1\r\nHost: example.com\r\nConnection: close\r\n\
         Content-Type: application/json\r\nContent-Length: 7\r\n\r\n{\"a\":1}"
    );
}

#[test]
fn put_request_empty_body() {
    let t = target("h", "", Scheme::CustomPort(81));
    assert_eq!(
        put(&t, ""),
        "PUT / HTTP/1.1\r\nHost: h\r\nConnection: close\r\n\
         Content-Type: application/json\r\nContent-Length: 0\r\n\r\n"
    );
}

#[test]
fn content_length_counts_bytes_not_chars() {
    let t = target("h", "", Scheme::Plain);
    // A two-byte UTF-8 character must count as two.
    let body = "é";
    let s = req_with_body("POST", &t, body);
    assert!(s.contains("Content-Length: 2\r\n"));
}

#[test]
fn builders_take_any_method_token() {
    let t = target("h", "p", Scheme::Plain);
    assert_eq!(
        req_without_body("OPTIONS", &t),
        "OPTIONS /p HTTP/1.1\r\nHost: h\r\nConnection: close\r\n\r\n"
    );
}

#[test]
fn menu_selects_each_action() {
    assert_eq!(parse_menu_selection("1"), Ok(MenuAction::SendGet));
    assert_eq!(parse_menu_selection("2"), Ok(MenuAction::SendPost));
    assert_eq!(parse_menu_selection("3"), Ok(MenuAction::SendPut));
    assert_eq!(parse_menu_selection("4"), Ok(MenuAction::SendDelete));
    assert_eq!(parse_menu_selection("5"), Ok(MenuAction::Exit));
}

#[test]
fn menu_trims_the_line() {
    assert_eq!(parse_menu_selection(" 3\n"), Ok(MenuAction::SendPut));
}

#[test]
fn menu_rejects_out_of_range() {
    assert_eq!(parse_menu_selection("0"), Err(MenuError::OutOfRange));
    assert_eq!(parse_menu_selection("6"), Err(MenuError::OutOfRange));
}

#[test]
fn menu_rejects_non_numbers() {
    assert_eq!(parse_menu_selection("abc"), Err(MenuError::NotANumber));
    assert_eq!(parse_menu_selection(""), Err(MenuError::NotANumber));
    assert_eq!(parse_menu_selection("2x"), Err(MenuError::NotANumber));
    // A number too large for the machine's reading is not a number.
    assert_eq!(
        parse_menu_selection("99999999999999999999999999"),
        Err(MenuError::NotANumber)
    );
}

#[test]
fn menu_error_messages() {
    assert_eq!(MenuError::NotANumber.message(), "Input must be a number.");
    assert_eq!(MenuError::OutOfRange.message(), "Input must be between 1 and 5.\n");
}
