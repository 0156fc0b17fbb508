use srvr::codec::{u64_to_dec, DecodeError, GetReq, HttpMethod};
use srvr::SRVR;

fn route_of(r: Result<HttpMethod, DecodeError>) -> String {
    match r {
        Ok(HttpMethod::Get(g)) => g.route,
        Err(_) => panic!("expected a decoded request"),
    }
}

fn get(route: &str) -> HttpMethod {
    HttpMethod::Get(GetReq {
        route: String::from(route),
    })
}

#[test]
fn decode_route_is_second_token() {
    let raw = String::from("GET / HTTP/1.1\r\n\r\n");
    assert_eq!(route_of(SRVR::decode_message(&raw)), "/");
}

#[test]
fn decode_any_method_is_accepted() {
    let raw = String::from("BREW /teapot HTTP/1.1\r\n");
    assert_eq!(route_of(SRVR::decode_message(&raw)), "/teapot");
}

#[test]
fn decode_without_line_break_uses_whole_input_as_request_line() {
    let raw = String::from("GET /x");
    assert_eq!(route_of(SRVR::decode_message(&raw)), "/x");
}

#[test]
fn decode_missing_second_token_gives_empty_route() {
    let raw = String::from("GET\r\nHost: x\r\n\r\n");
    assert_eq!(route_of(SRVR::decode_message(&raw)), "");
}

#[test]
fn decode_trailing_space_gives_empty_route() {
    let raw = String::from("GET \r\n");
    assert_eq!(route_of(SRVR::decode_message(&raw)), "");
}

#[test]
fn decode_double_space_gives_empty_route() {
    let raw = String::from("GET  /late\r\n");
    assert_eq!(route_of(SRVR::decode_message(&raw)), "");
}

#[test]
fn decode_unicode_route() {
    let raw = String::from("GET /héllo HTTP/1.1\r\n\r\n");
    assert_eq!(route_of(SRVR::decode_message(&raw)), "/héllo");
}

#[test]
fn decode_empty_input_fails() {
    let raw = String::new();
    assert!(matches!(
        SRVR::decode_message(&raw),
        Err(DecodeError::MissingRequestLine)
    ));
}

#[test]
fn decode_leading_line_break_fails() {
    let raw = String::from("\r\nGET / HTTP/1.1\r\n");
    assert!(matches!(
        SRVR::decode_message(&raw),
        Err(DecodeError::MissingRequestLine)
    ));
}

#[test]
fn encode_index_route_exact() {
    let date = String::from("Thu, 01 Jan 1970 00:00:00 GMT");
    let body = Some(String::from("hello"));
    let res = SRVR::encode_with_date(get("/"), &date, &body);
    assert_eq!(
        res,
        "HTTP/1.1 200 OK\r\nDate: Thu, 01 Jan 1970 00:00:00 GMT\r\n\
         Content-Type: text/html; charset=UTF-8\r\nContent-Length: 5\r\n\r\nhello"
    );
}

#[test]
fn encode_index_route_missing_file_gives_empty_body() {
    let date = String::from("D");
    let res = SRVR::encode_with_date(get("/"), &date, &None);
    assert_eq!(
        res,
        "HTTP/1.1 200 OK\r\nDate: D\r\n\
         Content-Type: text/html; charset=UTF-8\r\nContent-Length: 0\r\n\r\n"
    );
}

#[test]
fn encode_content_length_counts_bytes_not_chars() {
    let date = String::from("D");
    let body = Some(String::from("héllo"));
    let res = SRVR::encode_with_date(get("/"), &date, &body);
    assert!(res.ends_with("Content-Length: 6\r\n\r\nhéllo"));
}

#[test]
fn encode_other_route_headers_only() {
    let date = String::from("Thu, 01 Jan 1970 00:00:00 GMT");
    let body = Some(String::from("hello"));
    let res = SRVR::encode_with_date(get("/missing"), &date, &body);
    assert_eq!(
        res,
        "HTTP/1.1 200 OK\r\nDate: Thu, 01 Jan 1970 00:00:00 GMT\r\n\
         Content-Type: text/html; charset=UTF-8\r\n"
    );
    assert!(!res.contains("Content-Length"));
    assert!(!res.contains("hello"));
}

#[test]
fn encode_query_and_unicode_routes_headers_only() {
    let date = String::from("D");
    let body = Some(String::from("hello"));
    for route in ["/a?b=c", "/héllo", "//", "/index.html", ""] {
        let res = SRVR::encode_with_date(get(route), &date, &body);
        assert_eq!(
            res,
            "HTTP/1.1 200 OK\r\nDate: D\r\nContent-Type: text/html; charset=UTF-8\r\n"
        );
    }
}

#[test]
fn round_trip_index_route_is_idempotent_in_content() {
    let raw = String::from("GET / HTTP/1.1\r\n\r\n");
    let date = String::from("Thu, 01 Jan 1970 00:00:00 GMT");
    let body = Some(String::from("<h1>index</h1>"));
    let first = SRVR::encode_with_date(
        SRVR::decode_message(&raw).ok().unwrap(),
        &date,
        &body,
    );
    let second = SRVR::encode_with_date(
        SRVR::decode_message(&raw).ok().unwrap(),
        &date,
        &body,
    );
    assert_eq!(first, second);
}

#[test]
fn scenario_index_request_full_response() {
    let raw = String::from("GET / HTTP/1.1\r\n\r\n");
    let request = SRVR::decode_message(&raw).ok().unwrap();
    match &request {
        HttpMethod::Get(g) => assert_eq!(g.route, "/"),
    }
    let body = Some(String::from("<h1>index</h1>"));
    let res = SRVR::encode_message(request, &body);
    assert!(res.starts_with("HTTP/1.1 200 OK\r\nDate: "));
    assert!(res.contains("\r\nContent-Type: text/html; charset=UTF-8\r\n"));
    assert!(res.ends_with("Content-Length: 14\r\n\r\n<h1>index</h1>"));
    let after_date = &res["HTTP/1.1 200 OK\r\nDate: ".len()..];
    let date = &after_date[..after_date.find("\r\n").unwrap()];
    assert!(date.ends_with(" GMT"));
    assert!(date.len() >= 20);
}

#[test]
fn scenario_missing_route_headers_only_response() {
    let raw = String::from("GET /missing HTTP/1.1\r\n\r\n");
    let request = SRVR::decode_message(&raw).ok().unwrap();
    match &request {
        HttpMethod::Get(g) => assert_eq!(g.route, "/missing"),
    }
    let res = SRVR::encode_message(request, &Some(String::from("<h1>index</h1>")));
    assert!(res.starts_with("HTTP/1.1 200 OK\r\nDate: "));
    assert!(res.ends_with("Content-Type: text/html; charset=UTF-8\r\n"));
    assert!(!res.contains("Content-Length"));
    assert!(!res.contains("<h1>index</h1>"));
}

#[test]
fn decimal_rendering_exact() {
    assert_eq!(u64_to_dec(0), "0");
    assert_eq!(u64_to_dec(7), "7");
    assert_eq!(u64_to_dec(10), "10");
    assert_eq!(u64_to_dec(409), "409");
    assert_eq!(u64_to_dec(18446744073709551615), "18446744073709551615");
}
