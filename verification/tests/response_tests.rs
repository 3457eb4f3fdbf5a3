use http_server::request::{ParseError, Request};
use http_server::response::Response;
use http_server::server::{Handler, Server};
use http_server::status_code::StatusCode;

#[test]
fn serializes_ok_with_body() {
    let response = Response::new(StatusCode::Okay, Some("hi".to_string()));
    assert_eq!(response.serialize(), "HTTP/1.1 200 Ok \r\n\r\nhi");
}

#[test]
fn serializes_not_found_without_body() {
    let response = Response::new(StatusCode::NotFound, None);
    assert_eq!(response.serialize(), "HTTP/1.1 404 Not Found \r\n\r\n");
}

#[test]
fn serializes_bad_request_and_server_error() {
    let bad = Response::new(StatusCode::BadRequest, None);
    assert_eq!(bad.serialize(), "HTTP/1.1 400 Bad Request \r\n\r\n");
    let oops = Response::new(StatusCode::InternalServerError, Some("x".to_string()));
    assert_eq!(oops.serialize(), "HTTP/1.1 500 Internal Server Error \r\n\r\nx");
}

#[test]
fn send_appends_wire_bytes_to_the_sink() {
    let response = Response::new(StatusCode::Okay, Some("hi".to_string()));
    let mut sink: Vec<u8> = b"previous".to_vec();
    response.send(&mut sink);
    assert_eq!(sink, b"previousHTTP/1.1 200 Ok \r\n\r\nhi".to_vec());
}

#[test]
fn status_codes_carry_their_values_and_phrases() {
    assert_eq!(StatusCode::Okay.code(), 200);
    assert_eq!(StatusCode::BadRequest.code(), 400);
    assert_eq!(StatusCode::NotFound.code(), 404);
    assert_eq!(StatusCode::InternalServerError.code(), 500);
    assert_eq!(StatusCode::Okay.code_str(), "200");
    assert_eq!(StatusCode::Okay.reason_phrase(), "Ok");
    assert_eq!(StatusCode::BadRequest.reason_phrase(), "Bad Request");
    assert_eq!(StatusCode::NotFound.reason_phrase(), "Not Found");
    assert_eq!(
        StatusCode::InternalServerError.reason_phrase(),
        "Internal Server Error"
    );
}

#[test]
fn server_keeps_its_address() {
    let server = Server::new("127.0.0.1:8080".to_string());
    assert_eq!(server.addr(), "127.0.0.1:8080");
}

struct DefaultHandler;

impl Handler for DefaultHandler {}

#[test]
fn default_handler_answers_ok_with_placeholder_body() {
    let buf = b"GET / HTTP/1.1\r\n";
    let req = Request::try_from(&buf[..]).unwrap();
    let mut handler = DefaultHandler;
    let response = handler.handle_request(&req);
    assert_eq!(response.status_code(), StatusCode::Okay);
    assert_eq!(response.serialize(), "HTTP/1.1 200 Ok \r\n\r\n<h1>Test</h1>");
}

#[test]
fn default_handler_answers_bad_request_without_body() {
    let mut handler = DefaultHandler;
    let response = handler.handle_bad_request(&ParseError::InvalidProtocolError);
    assert_eq!(response.status_code(), StatusCode::BadRequest);
    assert_eq!(response.serialize(), "HTTP/1.1 400 Bad Request \r\n\r\n");
}
