//! Reading requests and writing responses.

use evk_datalogger::http::{
    json_err, json_ok, json_response, parse_head, parse_header_line, parse_request_line,
    preflight_response, write_response, BadLength, HeaderLine, RequestHead,
};
use evk_datalogger::text::{decimal, same_text};

fn lines(text: &[&str]) -> Vec<String> {
    text.iter().map(|l| l.to_string()).collect()
}

fn pair(m: &str, p: &str) -> Option<(String, String)> {
    Some((m.to_string(), p.to_string()))
}

#[test]
fn request_line_is_method_and_path_without_query() {
    assert_eq!(parse_request_line("GET /stream?t=1234 HTTP/1.1\r\n"), pair("GET", "/stream"));
    assert_eq!(parse_request_line("PUT /api/biases HTTP/1.1\r\n"), pair("PUT", "/api/biases"));
    assert_eq!(parse_request_line("  GET\t/ \r\n"), pair("GET", "/"));
    assert_eq!(parse_request_line("GET /a?b?c"), pair("GET", "/a"));
    assert_eq!(parse_request_line("GET ?x"), pair("GET", ""));
    assert_eq!(parse_request_line("GET\u{2003}/é\u{a0}x"), pair("GET", "/é"));
    assert_eq!(parse_request_line("GET\r\n"), None);
    assert_eq!(parse_request_line("\r\n"), None);
    assert_eq!(parse_request_line(""), None);
}

#[test]
fn header_lines_are_classified() {
    assert_eq!(parse_header_line("\r\n"), HeaderLine::End);
    assert_eq!(parse_header_line(""), HeaderLine::End);
    assert_eq!(parse_header_line(" \r\n"), HeaderLine::Other);
    assert_eq!(parse_header_line("Host: x\r\n"), HeaderLine::Other);
    assert_eq!(parse_header_line("Content-Length: 42\r\n"), HeaderLine::Length(Some(42)));
    assert_eq!(parse_header_line("CONTENT-LENGTH:007\r\n"), HeaderLine::Length(Some(7)));
    assert_eq!(parse_header_line("content-length:\t+5 \r\n"), HeaderLine::Length(Some(5)));
    assert_eq!(parse_header_line("content-length: 5:6\r\n"), HeaderLine::Length(Some(5)));
    assert_eq!(parse_header_line("content-length:\r\n"), HeaderLine::Length(None));
    assert_eq!(parse_header_line("content-length: -1\r\n"), HeaderLine::Length(None));
    assert_eq!(parse_header_line("content-length: +\r\n"), HeaderLine::Length(None));
    assert_eq!(parse_header_line("content-length: 1 2\r\n"), HeaderLine::Length(None));
    assert_eq!(parse_header_line("content-length: \u{661}\r\n"), HeaderLine::Length(None));
    assert_eq!(parse_header_line("content-length : 5\r\n"), HeaderLine::Other);
    let max = format!("content-length: {}", usize::MAX);
    assert_eq!(parse_header_line(&max), HeaderLine::Length(Some(usize::MAX)));
    let over = format!("content-length: {}0", usize::MAX);
    assert_eq!(parse_header_line(&over), HeaderLine::Length(None));
}

#[test]
fn counts_are_read_as_the_standard_library_reads_them() {
    let texts = ["0", "00", "+0", "++1", "1+", "18446744073709551615", "18446744073709551616", "9x", ""];
    for t in texts {
        let expected: Option<usize> = t.parse().ok();
        let got = parse_header_line(&format!("Content-Length: {t}\r\n"));
        assert_eq!(got, HeaderLine::Length(expected), "{t}");
    }
}

#[test]
fn white_space_is_what_the_standard_library_takes_for_it() {
    for n in 0u32..0x3100 {
        if let Some(c) = char::from_u32(n) {
            let line = format!("A{c}B");
            assert_eq!(parse_request_line(&line).is_some(), c.is_whitespace(), "{n:x}");
        }
    }
}

#[test]
fn a_request_is_read_line_by_line() {
    let head = parse_head(
        BadLength::Drop,
        &lines(&["PUT /api/recording HTTP/1.1\r\n", "Host: a\r\n", "Content-Length: 18\r\n", "\r\n"]),
    );
    match &head {
        RequestHead::Complete { method, path, content_length } => {
            assert_eq!((method.as_str(), path.as_str(), *content_length), ("PUT", "/api/recording", 18));
        }
        other => panic!("{other:?}"),
    }
    let body = b"{\"recording\":true}".to_vec();
    let req = head.finish(body.clone()).unwrap();
    assert_eq!((req.method.as_str(), req.path.as_str()), ("PUT", "/api/recording"));
    assert_eq!(req.body, body);
}

#[test]
fn the_last_length_counts_and_a_missing_one_is_zero() {
    let head = parse_head(
        BadLength::Empty,
        &lines(&["GET / HTTP/1.1\r\n", "Content-Length: 3\r\n", "content-length: 1\r\n", "\r\n", "x"]),
    );
    assert!(matches!(head, RequestHead::Complete { content_length: 1, .. }));
    let head = parse_head(BadLength::Drop, &lines(&["GET / HTTP/1.1\r\n", ""]));
    assert!(matches!(head, RequestHead::Complete { content_length: 0, .. }));
}

#[test]
fn a_bad_length_drops_the_request_or_empties_the_body() {
    let l = lines(&["GET / HTTP/1.1\r\n", "Content-Length: 9\r\n", "Content-Length: x\r\n", "\r\n"]);
    assert!(matches!(parse_head(BadLength::Drop, &l), RequestHead::Dropped));
    assert!(matches!(
        parse_head(BadLength::Empty, &l),
        RequestHead::Complete { content_length: 0, .. }
    ));
}

#[test]
fn unfinished_heads_give_no_request() {
    assert!(parse_head(BadLength::Drop, &lines(&[])).finish(vec![]).is_none());
    assert!(parse_head(BadLength::Drop, &lines(&["GET /"])).finish(vec![]).is_none());
    assert!(parse_head(BadLength::Drop, &lines(&["GET", "\r\n"])).finish(vec![]).is_none());
    let head = parse_head(BadLength::Drop, &lines(&["GET / x", "content-length: 2", "\r\n"]));
    assert!(head.finish(vec![1]).is_none());
}

#[test]
fn settled_heads_do_not_change() {
    let head = RequestHead::Dropped.feed(BadLength::Drop, "GET / HTTP/1.1");
    assert!(matches!(head, RequestHead::Dropped));
}

#[test]
fn responses_carry_their_length() {
    let r = write_response(200, "OK", "image/jpeg", &[1, 2, 3]);
    let mut expected = b"HTTP/1.1 200 OK\r\nContent-Type: image/jpeg\r\nContent-Length: 3\r\n\
        Cache-Control: no-cache\r\nAccess-Control-Allow-Origin: *\r\n\r\n"
        .to_vec();
    expected.extend_from_slice(&[1, 2, 3]);
    assert_eq!(r, expected);
    assert_eq!(
        json_ok("{}"),
        write_response(200, "OK", "application/json", b"{}"),
    );
    assert_eq!(json_response(201, "Created", "[]"), write_response(201, "Created", "application/json", b"[]"));
    // The length counts bytes, not characters.
    let text = String::from_utf8(json_ok("\"–\"")).unwrap();
    assert!(text.contains("Content-Length: 5\r\n"));
}

#[test]
fn the_written_length_is_read_back() {
    let text = String::from_utf8(json_ok("\"0123456789\"")).unwrap();
    let line = text.split("\r\n").find(|l| l.starts_with("Content-Length")).unwrap();
    assert_eq!(parse_header_line(line), HeaderLine::Length(Some(12)));
}

#[test]
fn errors_are_json_strings() {
    let r = String::from_utf8(json_err(400, "Bad Request", "a \"b\" \\ \n\t\u{1}\u{7f}é")).unwrap();
    let (head, body) = r.split_once("\r\n\r\n").unwrap();
    assert!(head.starts_with("HTTP/1.1 400 Bad Request\r\n"));
    assert_eq!(body, "{\"error\":\"a \\\"b\\\" \\\\ \\n\\t\\u0001\u{7f}é\"}");
    let all: String = (0u32..0x100).filter_map(char::from_u32).collect();
    let r = String::from_utf8(json_err(400, "Bad Request", &all)).unwrap();
    let (_, body) = r.split_once("\r\n\r\n").unwrap();
    let v: serde_json::Value = serde_json::from_str(body).unwrap();
    assert_eq!(v["error"].as_str().unwrap(), all);
}

#[test]
fn preflight_is_answered_without_a_body() {
    assert_eq!(
        String::from_utf8(preflight_response()).unwrap(),
        "HTTP/1.1 204 No Content\r\nAccess-Control-Allow-Origin: *\r\n\
         Access-Control-Allow-Methods: GET, PUT, OPTIONS\r\n\
         Access-Control-Allow-Headers: Content-Type\r\n\r\n"
    );
}

#[test]
fn decimals() {
    for n in [0u64, 9, 10, 255, 1000, u64::MAX] {
        assert_eq!(decimal(n), n.to_string());
    }
    assert!(same_text("äb", "äb"));
    assert!(!same_text("äb", "ab"));
    assert!(!same_text("a", "ab"));
}
