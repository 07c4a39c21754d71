use vstd::prelude::*;

use crate::error::{spec_describe, Error};
use crate::request::ParseOptions;
use crate::response::{is_error_response, Response, Status};

verus! {

/// A one-shot channel's sending half, used as an opaque value: the server
/// fires it once, right after binding, to signal readiness.
#[verifier::external_type_specification]
#[verifier::external_body]
#[verifier::reject_recursive_types(T)]
pub struct ExSender<T>(futures::channel::oneshot::Sender<T>);

/// Collects a server's configuration before it is built.
pub struct HttpServerBuilder {
    pub parse_options: ParseOptions,
    pub bind_addr: Option<String>,
    pub notify_start: Option<futures::channel::oneshot::Sender<()>>,
}

impl HttpServerBuilder {
    pub fn new() -> (r: Self)
        ensures
            r.bind_addr is None,
            r.notify_start is None,
            r.parse_options.spec_max_target_len() == 16384,
            r.parse_options.spec_max_headers_section_len() == 16384,
            r.parse_options.spec_max_header_len() == 1024,
            r.parse_options.spec_max_body_len() == 2097152,
            r.parse_options.wf(),
    {
        Self { parse_options: ParseOptions::default(), bind_addr: None, notify_start: None }
    }

    /// Define limits on what the server is willing to parse.
    pub fn parse_options(self, options: ParseOptions) -> (r: Self)
        ensures
            r.parse_options == options,
            r.bind_addr == self.bind_addr,
            r.notify_start == self.notify_start,
    {
        Self { parse_options: options, ..self }
    }

    pub fn bind_addr(self, addr: String) -> (r: Self)
        ensures
            r.bind_addr == Some(addr),
            r.parse_options == self.parse_options,
            r.notify_start == self.notify_start,
    {
        Self { bind_addr: Some(addr), ..self }
    }

    pub fn notify_start(self, sender: futures::channel::oneshot::Sender<()>) -> (r: Self)
        ensures
            r.notify_start == Some(sender),
            r.parse_options == self.parse_options,
            r.bind_addr == self.bind_addr,
    {
        Self { notify_start: Some(sender), ..self }
    }

    /// Fails exactly when no bind address was given.
    pub fn build(self) -> (r: Result<HttpServer, Error>)
        ensures
            match r {
                Ok(s) => self.bind_addr matches Some(a) && s.bind_addr == a && s.parse_options
                    == self.parse_options && s.notify_start == self.notify_start,
                Err(e) => self.bind_addr is None && e == Error::NoBindAddress,
            },
    {
        match self.bind_addr {
            Some(addr) => Ok(
                HttpServer {
                    parse_options: self.parse_options,
                    bind_addr: addr,
                    notify_start: self.notify_start,
                },
            ),
            None => Err(Error::NoBindAddress),
        }
    }
}

/// A built server: its limits, where to listen, and the optional
/// ready-signal, fired once before accepting.
pub struct HttpServer {
    pub parse_options: ParseOptions,
    pub bind_addr: String,
    pub notify_start: Option<futures::channel::oneshot::Sender<()>>,
}

/// The response the server writes back when the request could not be
/// parsed: over-long headers map to 431, an over-long start line to 414,
/// and everything else to 400 carrying the error's description.
pub fn response_for_parse_error(e: &Error) -> (r: Response)
    ensures
        match e {
            Error::HeadersSectionTooLong => is_error_response(
                r,
                Status::RequestHeaderFieldsTooLarge,
                "Headers too long."@,
            ),
            Error::HeaderTooLong => is_error_response(
                r,
                Status::RequestHeaderFieldsTooLarge,
                "A header is too long."@,
            ),
            Error::StartLineExceedsMaxLength => is_error_response(
                r,
                Status::UriTooLong,
                "The target in the start line is too long."@,
            ),
            _ => is_error_response(r, Status::BadRequest, spec_describe(*e)),
        },
{
    match e {
        Error::HeadersSectionTooLong => Response::error_response(
            Status::RequestHeaderFieldsTooLarge,
            "Headers too long.",
        ),
        Error::HeaderTooLong => Response::error_response(
            Status::RequestHeaderFieldsTooLarge,
            "A header is too long.",
        ),
        Error::StartLineExceedsMaxLength => Response::error_response(
            Status::UriTooLong,
            "The target in the start line is too long.",
        ),
        _ => {
            let text = e.describe();
            Response::error_response(Status::BadRequest, text.as_str())
        },
    }
}

} // verus!
