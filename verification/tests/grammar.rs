use httptunnel::common::{Headers, HttpVersion};
use httptunnel::request::{Authority, Method, Target};
use httptunnel::Error;

#[test]
fn can_parse_header() {
    let header = Headers::parse_header(":");

    assert_eq!(header, Err(Error::InvalidHeader));

    let header = Headers::parse_header("  a : b");

    assert_eq!(header, Ok(("a", "b")));
}

#[test]
fn header_with_empty_value_is_invalid() {
    assert_eq!(Headers::parse_header("a:"), Err(Error::InvalidHeader));
}

#[test]
fn header_without_colon_is_invalid() {
    assert_eq!(Headers::parse_header("key-only"), Err(Error::InvalidHeader));
}

#[test]
fn header_splits_on_first_colon() {
    assert_eq!(Headers::parse_header("a: b:c"), Ok(("a", "b:c")));
}

#[test]
fn methods_round_trip() {
    let methods = [
        Method::GET,
        Method::POST,
        Method::PUT,
        Method::HEAD,
        Method::DELETE,
        Method::CONNECT,
        Method::OPTIONS,
        Method::TRACE,
        Method::PATCH,
    ];
    let strings = [
        "GET", "POST", "PUT", "HEAD", "DELETE", "CONNECT", "OPTIONS", "TRACE", "PATCH",
    ];
    for (m, s) in methods.iter().zip(strings.iter()) {
        assert_eq!(Method::parse(m.to_str()), Ok(*m));
        assert_eq!(Method::parse(s).unwrap().to_str(), *s);
    }
    assert!(matches!(
        Method::parse("get"),
        Err(Error::InvalidMethod(ref s)) if s == "get"
    ));
}

#[test]
fn versions_round_trip() {
    let versions = [
        HttpVersion::Http1_0,
        HttpVersion::Http1_1,
        HttpVersion::Http2_0,
    ];
    let strings = ["HTTP/1.0", "HTTP/1.1", "HTTP/2.0"];
    for (v, s) in versions.iter().zip(strings.iter()) {
        assert_eq!(HttpVersion::parse(v.to_str()), Ok(*v));
        assert_eq!(HttpVersion::parse(s).unwrap().to_str(), *s);
    }
    assert_eq!(HttpVersion::parse("HTTP/3.0"), Err(Error::InvalidHttpVersion));
}

#[test]
fn target_classification() {
    assert_eq!(
        Target::parse("/"),
        Ok(Target::Path("/".to_owned()))
    );
    assert_eq!(
        Target::parse("/a/b?c"),
        Ok(Target::Path("/a/b?c".to_owned()))
    );
    assert_eq!(Target::parse("*"), Ok(Target::Glob));
    assert_eq!(Target::parse("*x"), Err(Error::InvalidTarget));
    assert_eq!(
        Target::parse("host.example"),
        Ok(Target::Authority(Authority {
            domain: "host.example".to_owned(),
            port: None,
        }))
    );
    assert_eq!(
        Target::parse("host.example:8080"),
        Ok(Target::Authority(Authority {
            domain: "host.example".to_owned(),
            port: Some(8080),
        }))
    );
    assert_eq!(Target::parse("host.example:999999"), Err(Error::InvalidTarget));
}

#[test]
fn target_empty_is_invalid() {
    assert_eq!(Target::parse(""), Err(Error::InvalidTarget));
}

#[test]
fn target_url_fallback_uses_the_url_parser() {
    // A single label is not an authority, and it is no absolute URL either.
    assert_eq!(Target::parse("notaurl"), Err(Error::InvalidTarget));
    // An absolute URL must come back as the Url variant.
    assert!(matches!(
        Target::parse("http://example.com/a"),
        Ok(Target::Url(_))
    ));
    // Scheme present but no host: the URL parser rejects it.
    assert_eq!(Target::parse("http://"), Err(Error::InvalidTarget));
}

#[test]
fn error_describe_names_the_variant() {
    assert_eq!(Error::InvalidTarget.describe(), "InvalidTarget");
    assert_eq!(
        Error::InvalidMethod("got".to_owned()).describe(),
        "InvalidMethod(got)"
    );
}
