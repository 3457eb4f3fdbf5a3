use http_server::method::Method;
use http_server::request::{ParseError, Request};
use http_server::response::Response;
use http_server::status_code::StatusCode;

#[test]
fn parses_full_request_line() {
    let buf = b"GET /search?name=abc&sort=1 HTTP/1.1\r\n\r\n";
    let req = Request::try_from(&buf[..]).unwrap();
    assert_eq!(req.method(), Method::GET);
    assert_eq!(req.path(), "/search");
    assert_eq!(req.query_string().as_deref(), Some("name=abc&sort=1"));
}

#[test]
fn parses_every_method() {
    let verbs = [
        "GET", "PUT", "POST", "PATCH", "DELETE", "HEAD", "OPTIONS", "TRACE", "CONNECT",
    ];
    for verb in verbs {
        let line = format!("{} /items?q=1 HTTP/1.1\r\nHost: x\r\n", verb);
        let req = Request::try_from(line.as_bytes()).unwrap();
        assert_eq!(format!("{:?}", req.method()), verb);
        assert_eq!(req.path(), "/items");
        assert_eq!(req.query_string().as_deref(), Some("q=1"));
    }
}

#[test]
fn parses_target_without_query() {
    let buf = b"POST /submit HTTP/1.1\r\n\r\n";
    let req = Request::try_from(&buf[..]).unwrap();
    assert_eq!(req.method(), Method::POST);
    assert_eq!(req.path(), "/submit");
    assert!(req.query_string().is_none());
}

#[test]
fn query_component_keeps_later_question_marks() {
    let buf = b"GET /a?b?c HTTP/1.1\r\n";
    let req = Request::try_from(&buf[..]).unwrap();
    assert_eq!(req.path(), "/a");
    assert_eq!(req.query_string().as_deref(), Some("b?c"));
}

#[test]
fn wrong_protocol_version_is_rejected() {
    let buf = b"GET /x HTTP/1.0\r\n";
    let err = Request::try_from(&buf[..]).unwrap_err();
    assert_eq!(err, ParseError::InvalidProtocolError);
}

#[test]
fn unknown_method_is_rejected() {
    let buf = b"FOO /x HTTP/1.1\r\n";
    let err = Request::try_from(&buf[..]).unwrap_err();
    assert_eq!(err, ParseError::InvalidMethodError);
}

#[test]
fn lowercase_method_is_rejected() {
    let buf = b"get /x HTTP/1.1\r\n";
    let err = Request::try_from(&buf[..]).unwrap_err();
    assert_eq!(err, ParseError::InvalidMethodError);
}

#[test]
fn missing_tokens_are_rejected() {
    let buf = b"GET\r\n";
    let err = Request::try_from(&buf[..]).unwrap_err();
    assert_eq!(err, ParseError::InvalidRequestError);
}

#[test]
fn empty_buffer_is_rejected() {
    let err = Request::try_from(&b""[..]).unwrap_err();
    assert_eq!(err, ParseError::InvalidRequestError);
}

#[test]
fn invalid_utf8_is_rejected_before_token_extraction() {
    // 0xc3 starts a two-byte encoding but 0x28 cannot continue it.
    let buf = [0xc3u8, 0x28, b' ', b'/', b' ', b'H'];
    let err = Request::try_from(&buf[..]).unwrap_err();
    assert_eq!(err, ParseError::InvalidEncodingError);
}

#[test]
fn invalid_utf8_tail_is_rejected() {
    let mut buf = b"GET /x HTTP/1.1\r\n".to_vec();
    buf.push(0xff);
    let err = Request::try_from(&buf[..]).unwrap_err();
    assert_eq!(err, ParseError::InvalidEncodingError);
}

#[test]
fn error_messages_are_fixed() {
    assert_eq!(ParseError::InvalidRequestError.message(), "Invalid Request");
    assert_eq!(ParseError::InvalidEncodingError.message(), "Invalid Encoding");
    assert_eq!(ParseError::InvalidProtocolError.message(), "Invalid Protocol");
    assert_eq!(ParseError::InvalidMethodError.message(), "Invalid Method");
}

#[test]
fn serializing_a_response_leaves_the_request_unchanged() {
    let buf = b"GET /page?x=1 HTTP/1.1\r\n\r\n";
    let req = Request::try_from(&buf[..]).unwrap();
    let body = format!("<p>{}</p>", req.path());
    let response = Response::new(StatusCode::Okay, Some(body));
    let wire = response.serialize();
    assert_eq!(wire, "HTTP/1.1 200 Ok \r\n\r\n<p>/page</p>");
    assert_eq!(req.method(), Method::GET);
    assert_eq!(req.path(), "/page");
    assert_eq!(req.query_string().as_deref(), Some("x=1"));
}
