use httptunnel::common::HttpVersion;
use httptunnel::request::{Authority, Method, ParseOptions, Request, StartLine, Target};
use httptunnel::Error;

#[test]
fn can_parse_start_line() {
    let start_line = StartLine::parse("CONNECT horse.billy:80 HTTP/1.1").unwrap();

    assert_eq!(start_line.method, Method::CONNECT);
    assert_eq!(
        start_line.target,
        Target::Authority(Authority {
            domain: "horse.billy".to_owned(),
            port: Some(80),
        })
    );

    let start_line = StartLine::parse("CONNECT horse.billy HTTP/1.1").unwrap();

    assert_eq!(start_line.method, Method::CONNECT);
    assert_eq!(
        start_line.target,
        Target::Authority(Authority {
            domain: "horse.billy".to_owned(),
            port: None,
        })
    );
}

#[test]
fn can_parse_request() {
    let request_str = format!(
        "{}{}{}",
        "CONNECT horse.billy:443 HTTP/1.1\r\n", "header1: horse\r\n", "\r\n"
    );

    let parsed = Request::parse(request_str.as_bytes(), &ParseOptions::default()).unwrap();

    assert_eq!(parsed.start_line.method, Method::CONNECT);
    assert_eq!(
        parsed.start_line.target,
        Target::Authority(Authority {
            domain: "horse.billy".to_owned(),
            port: Some(443),
        })
    );
    assert_eq!(parsed.start_line.version, HttpVersion::Http1_1);
    assert_eq!(parsed.headers.get("header1").unwrap(), "horse");
}

#[test]
fn parses_the_giphy_connect_request() {
    let bytes = b"CONNECT api.giphy.com:443 HTTP/1.1\r\nheader1: horse\r\n\r\n";
    let parsed = Request::parse(bytes, &ParseOptions::default()).unwrap();

    assert_eq!(parsed.start_line.method, Method::CONNECT);
    assert_eq!(
        parsed.start_line.target,
        Target::Authority(Authority {
            domain: "api.giphy.com".to_owned(),
            port: Some(443),
        })
    );
    assert_eq!(parsed.headers.get("header1").unwrap(), "horse");
}

#[test]
fn bare_lf_is_tolerated() {
    let bytes = b"GET / HTTP/1.1\n\n";
    let parsed = Request::parse(bytes, &ParseOptions::default()).unwrap();
    assert_eq!(parsed.start_line.method, Method::GET);
    assert_eq!(parsed.start_line.target, Target::Path("/".to_owned()));
}

#[test]
fn trailing_bytes_are_left_alone() {
    let bytes = b"GET / HTTP/1.1\r\n\r\nBODYBYTES";
    let parsed = Request::parse(bytes, &ParseOptions::default()).unwrap();
    assert_eq!(parsed.start_line.method, Method::GET);
}

#[test]
fn duplicate_header_last_write_wins() {
    let bytes = b"GET / HTTP/1.1\r\na: 1\r\na: 2\r\n\r\n";
    let parsed = Request::parse(bytes, &ParseOptions::default()).unwrap();
    assert_eq!(parsed.headers.get("a").unwrap(), "2");
}

#[test]
fn over_long_start_line_is_rejected() {
    let opts = ParseOptions::default();
    // One byte more than the limit, and no terminator yet: the parser must
    // give up before accepting further bytes.
    let bytes = vec![b'a'; opts.max_start_line_len() + 2];
    assert_eq!(
        Request::parse(&bytes, &opts),
        Err(Error::StartLineExceedsMaxLength)
    );
}

#[test]
fn over_long_header_is_rejected_under_the_section_budget() {
    let opts = ParseOptions::default();
    let mut bytes = b"GET / HTTP/1.1\r\n".to_vec();
    bytes.extend_from_slice(&vec![b'h'; opts.max_header_len() + 2]);
    assert_eq!(Request::parse(&bytes, &opts), Err(Error::HeaderTooLong));
}

#[test]
fn over_long_headers_section_is_rejected() {
    let opts = ParseOptions::default();
    let mut bytes = b"GET / HTTP/1.1\r\n".to_vec();
    // Many short headers: each line stays under the per-header limit, but
    // together they exhaust the section budget.
    for i in 0..opts.max_headers_section_len() {
        bytes.extend_from_slice(format!("h{}: vvvvvvvvvvvvvvvv\r\n", i).as_bytes());
        if bytes.len() > opts.max_headers_section_len() * 2 {
            break;
        }
    }
    assert_eq!(
        Request::parse(&bytes, &opts),
        Err(Error::HeadersSectionTooLong)
    );
}

#[test]
fn stream_end_mid_line_is_unexpected_end_of_stream() {
    let opts = ParseOptions::default();
    assert_eq!(
        Request::parse(b"GET / HTT", &opts),
        Err(Error::UnexpectedEndOfStream)
    );
    assert_eq!(Request::parse(b"", &opts), Err(Error::UnexpectedEndOfStream));
    // A CR at the very end still waits for its LF.
    assert_eq!(
        Request::parse(b"GET / HTTP/1.1\r", &opts),
        Err(Error::UnexpectedEndOfStream)
    );
}

#[test]
fn cr_without_lf_is_unexpected_cr() {
    let opts = ParseOptions::default();
    assert_eq!(
        Request::parse(b"GET / HTTP/1.1\rX", &opts),
        Err(Error::UnexpectedCR)
    );
}

#[test]
fn non_ascii_byte_is_invalid_encoding() {
    let opts = ParseOptions::default();
    assert_eq!(
        Request::parse(b"GET /\xc3\xa9 HTTP/1.1\r\n\r\n", &opts),
        Err(Error::InvalidEncoding)
    );
}

#[test]
fn bad_method_and_bad_version_and_bad_start_line() {
    let opts = ParseOptions::default();
    assert!(matches!(
        Request::parse(b"FETCH / HTTP/1.1\r\n\r\n", &opts),
        Err(Error::InvalidMethod(ref s)) if s == "FETCH"
    ));
    assert_eq!(
        Request::parse(b"GET / HTTP/9.9\r\n\r\n", &opts),
        Err(Error::InvalidHttpVersion)
    );
    assert_eq!(
        Request::parse(b"GET\r\n\r\n", &opts),
        Err(Error::InvalidStartLine)
    );
    assert_eq!(
        Request::parse(b"GET / HTTP/1.1\r\nbadheader\r\n\r\n", &opts),
        Err(Error::InvalidHeader)
    );
}

#[test]
fn tokens_after_the_version_are_ignored() {
    let sl = StartLine::parse("GET / HTTP/1.1 extra tokens").unwrap();
    assert_eq!(sl.method, Method::GET);
    assert_eq!(sl.version, HttpVersion::Http1_1);
}

#[test]
fn doubled_space_makes_an_empty_invalid_target() {
    assert_eq!(
        StartLine::parse("GET  / HTTP/1.1").unwrap_err(),
        Error::InvalidTarget
    );
    assert_eq!(
        StartLine::parse("GET /").unwrap_err(),
        Error::InvalidStartLine
    );
}

#[test]
fn max_start_line_len_is_target_plus_verb_spaces_version() {
    let opts = ParseOptions::default();
    assert_eq!(opts.max_start_line_len(), 16384 + 7 + 2 + 8);
    assert_eq!(opts.max_headers_section_len(), 16384);
    assert_eq!(opts.max_header_len(), 1024);
}
