use httptunnel::common::{Headers, HttpVersion};
use httptunnel::proxy::{
    bad_gateway_response, proxy_decision, tunnel_established_response, ProxyAction, UPSTREAM_HOST,
};
use httptunnel::request::{Authority, Method, ParseOptions, Request, StartLine, Target};
use httptunnel::server::HttpServerBuilder;
use httptunnel::{Error, HttpClient};

fn connect_request(domain: &str, port: Option<u16>) -> Request {
    Request {
        start_line: StartLine {
            method: Method::CONNECT,
            target: Target::Authority(Authority {
                domain: domain.to_owned(),
                port,
            }),
            version: HttpVersion::Http1_1,
        },
        headers: Headers::new(Vec::new()),
    }
}

#[test]
fn connect_to_the_allowed_host_dials() {
    let req = connect_request(UPSTREAM_HOST, Some(443));
    match proxy_decision(&req) {
        ProxyAction::Dial { domain, port } => {
            assert_eq!(domain, UPSTREAM_HOST);
            assert_eq!(port, 443);
        }
        ProxyAction::Respond(_) => panic!("expected a dial"),
    }
}

#[test]
fn connect_to_another_host_gets_400_and_no_dial() {
    let req = connect_request("evil.example", Some(443));
    match proxy_decision(&req) {
        ProxyAction::Respond(mut resp) => {
            assert_eq!(resp.status.to_u16(), 400);
            let mut out: Vec<u8> = Vec::new();
            resp.write_to_stream(&mut out).unwrap();
            assert!(String::from_utf8(out).unwrap().ends_with("Invalid proxy target"));
        }
        ProxyAction::Dial { .. } => panic!("must not dial a host off the allow list"),
    }
}

#[test]
fn non_connect_method_gets_405() {
    let mut req = connect_request(UPSTREAM_HOST, Some(443));
    req.start_line.method = Method::GET;
    match proxy_decision(&req) {
        ProxyAction::Respond(resp) => assert_eq!(resp.status.to_u16(), 405),
        ProxyAction::Dial { .. } => panic!("must not dial for GET"),
    }
}

#[test]
fn wrong_port_gets_400() {
    let req = connect_request(UPSTREAM_HOST, Some(8080));
    match proxy_decision(&req) {
        ProxyAction::Respond(mut resp) => {
            assert_eq!(resp.status.to_u16(), 400);
            let mut out: Vec<u8> = Vec::new();
            resp.write_to_stream(&mut out).unwrap();
            assert!(String::from_utf8(out)
                .unwrap()
                .ends_with("Invalid port. Must use 443"));
        }
        ProxyAction::Dial { .. } => panic!("must not dial on a foreign port"),
    }
}

#[test]
fn missing_port_gets_400() {
    let req = connect_request(UPSTREAM_HOST, None);
    match proxy_decision(&req) {
        ProxyAction::Respond(resp) => assert_eq!(resp.status.to_u16(), 400),
        ProxyAction::Dial { .. } => panic!("must not dial without an explicit port"),
    }
}

#[test]
fn non_authority_target_gets_400() {
    let mut req = connect_request(UPSTREAM_HOST, Some(443));
    req.start_line.target = Target::Path("/".to_owned());
    match proxy_decision(&req) {
        ProxyAction::Respond(resp) => assert_eq!(resp.status.to_u16(), 400),
        ProxyAction::Dial { .. } => panic!("must not dial a path target"),
    }
}

#[test]
fn upstream_failure_and_tunnel_open_responses() {
    let mut bad = bad_gateway_response();
    let mut out: Vec<u8> = Vec::new();
    bad.write_to_stream(&mut out).unwrap();
    assert_eq!(
        String::from_utf8(out).unwrap(),
        "HTTP/1.1 502 Bad Gateway\r\nContent-length:33\r\n\r\nFailed to proxy to remote service"
    );

    let mut open = tunnel_established_response();
    let mut out: Vec<u8> = Vec::new();
    open.write_to_stream(&mut out).unwrap();
    assert_eq!(
        String::from_utf8(out).unwrap(),
        "HTTP/1.1 200 OK\r\nContent-length:0\r\n\r\n"
    );
}

#[test]
fn wire_bytes_to_decision_end_to_end() {
    let opts = ParseOptions::default();
    let allowed = Request::parse(b"CONNECT api.giphy.com:443 HTTP/1.1\r\n\r\n", &opts).unwrap();
    assert!(matches!(
        proxy_decision(&allowed),
        ProxyAction::Dial { .. }
    ));

    let foreign = Request::parse(b"CONNECT other.example:443 HTTP/1.1\r\n\r\n", &opts).unwrap();
    match proxy_decision(&foreign) {
        ProxyAction::Respond(resp) => assert_eq!(resp.status.to_u16(), 400),
        ProxyAction::Dial { .. } => panic!("must not dial a host off the allow list"),
    }
}

#[test]
fn builder_requires_a_bind_address() {
    assert!(matches!(
        HttpServerBuilder::new().build(),
        Err(Error::NoBindAddress)
    ));
    let server = HttpServerBuilder::new()
        .bind_addr("127.0.0.1:12345".to_owned())
        .parse_options(ParseOptions::default())
        .build()
        .unwrap();
    assert_eq!(server.bind_addr, "127.0.0.1:12345");
    assert!(server.notify_start.is_none());
}

#[test]
fn parse_error_mapping_matches_the_server_policy() {
    let mut r = httptunnel::server::response_for_parse_error(&Error::HeadersSectionTooLong);
    assert_eq!(r.status.to_u16(), 431);
    r = httptunnel::server::response_for_parse_error(&Error::HeaderTooLong);
    assert_eq!(r.status.to_u16(), 431);
    r = httptunnel::server::response_for_parse_error(&Error::StartLineExceedsMaxLength);
    assert_eq!(r.status.to_u16(), 414);
    let mut r = httptunnel::server::response_for_parse_error(&Error::InvalidTarget);
    assert_eq!(r.status.to_u16(), 400);
    let mut out: Vec<u8> = Vec::new();
    r.write_to_stream(&mut out).unwrap();
    assert!(String::from_utf8(out).unwrap().ends_with("InvalidTarget"));
}

#[test]
fn client_dial_address_needs_a_port() {
    let client = HttpClient::new(&Authority {
        domain: "api.giphy.com".to_owned(),
        port: Some(443),
    });
    assert_eq!(client.dial_address().unwrap(), "api.giphy.com:443");

    let portless = HttpClient::new(&Authority {
        domain: "api.giphy.com".to_owned(),
        port: None,
    });
    assert!(matches!(portless.dial_address(), Err(Error::MissingPort)));
}
