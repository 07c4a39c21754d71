use httptunnel::common::{Headers, HttpVersion};
use httptunnel::request::{ParseOptions, Request};
use httptunnel::response::{Response, Status};

#[test]
fn status_codes_and_reasons() {
    assert_eq!(Status::OK.to_u16(), 200);
    assert_eq!(Status::OK.to_str(), "OK");
    assert_eq!(Status::BadRequest.to_u16(), 400);
    assert_eq!(Status::BadRequest.to_str(), "Bad Request");
    assert_eq!(Status::MethodNotAllowed.to_u16(), 405);
    assert_eq!(Status::MethodNotAllowed.to_str(), "Method Not Allowed");
    assert_eq!(Status::RequestHeaderFieldsTooLarge.to_u16(), 431);
    assert_eq!(
        Status::RequestHeaderFieldsTooLarge.to_str(),
        "Request Header Fields Too Large"
    );
    assert_eq!(Status::UriTooLong.to_u16(), 414);
    assert_eq!(Status::UriTooLong.to_str(), "URI Too Long");
    assert_eq!(Status::BadGateway.to_u16(), 502);
    assert_eq!(Status::BadGateway.to_str(), "Bad Gateway");
}

#[test]
fn error_response_carries_content_length_and_body() {
    let mut resp = Response::error_response(Status::BadRequest, "oops!");
    let mut out: Vec<u8> = Vec::new();
    resp.write_to_stream(&mut out).unwrap();
    assert_eq!(
        String::from_utf8(out).unwrap(),
        "HTTP/1.1 400 Bad Request\r\nContent-length:5\r\n\r\noops!"
    );
}

#[test]
fn fixed_body_get_scenario_produces_the_exact_wire_bytes() {
    // A GET "/" handled by a fixed-body handler.
    let parsed = Request::parse(b"GET / HTTP/1.1\r\n\r\n", &ParseOptions::default()).unwrap();
    let body = "Hello world.";
    let headers = Headers::new(vec![(
        "Content-length".to_owned(),
        format!("{}", body.len()),
    )]);
    let mut response = Response::new(
        Status::OK,
        parsed.start_line.version,
        headers,
        body.as_bytes().to_vec(),
    );
    let mut out: Vec<u8> = Vec::new();
    response.write_to_stream(&mut out).unwrap();
    assert_eq!(
        String::from_utf8(out).unwrap(),
        "HTTP/1.1 200 OK\r\nContent-length:12\r\n\r\nHello world."
    );
}

#[test]
fn writing_an_exhausted_body_emits_headers_only() {
    let mut resp = Response::error_response(Status::OK, "payload");
    let mut first: Vec<u8> = Vec::new();
    resp.write_to_stream(&mut first).unwrap();
    assert_eq!(
        String::from_utf8(first).unwrap(),
        "HTTP/1.1 200 OK\r\nContent-length:7\r\n\r\npayload"
    );

    // The body is drained now; a second pass writes the head alone and is
    // not an error.
    let mut second: Vec<u8> = Vec::new();
    resp.write_to_stream(&mut second).unwrap();
    assert_eq!(
        String::from_utf8(second).unwrap(),
        "HTTP/1.1 200 OK\r\nContent-length:7\r\n\r\n"
    );
}

#[test]
fn header_lines_keep_insertion_order() {
    let headers = Headers::new(vec![
        ("b".to_owned(), "2".to_owned()),
        ("a".to_owned(), "1".to_owned()),
    ]);
    let mut resp = Response::new(Status::OK, HttpVersion::Http1_0, headers, Vec::new());
    let mut out: Vec<u8> = Vec::new();
    resp.write_to_stream(&mut out).unwrap();
    assert_eq!(
        String::from_utf8(out).unwrap(),
        "HTTP/1.0 200 OK\r\nb:2\r\na:1\r\n\r\n"
    );
}

#[test]
fn headers_get_prefers_the_latest_entry() {
    let headers = Headers::new(vec![
        ("k".to_owned(), "old".to_owned()),
        ("k".to_owned(), "new".to_owned()),
    ]);
    assert_eq!(headers.get("k").unwrap(), "new");
    assert!(headers.get("missing").is_none());
}
