use vstd::prelude::*;

use crate::request::{Method, Request, Target};
use crate::response::{is_error_response, Response, Status};
use crate::text::str_eq;

verus! {

/// The one upstream host this gateway is willing to tunnel to.
pub const UPSTREAM_HOST: &'static str = "api.giphy.com";

/// What the tunnel handler decides to do with a request: answer it
/// directly, or dial the upstream and relay.
pub enum ProxyAction {
    Respond(Response),
    Dial { domain: String, port: u16 },
}

/// The validation table of the tunnel handler: only CONNECT, only an
/// authority target, only port 443, only the allow-listed host; a valid
/// request dials, everything else is answered with the exact 4xx below.
pub open spec fn spec_proxy_decision(req: &Request, r: ProxyAction) -> bool {
    if req.start_line.method != Method::CONNECT {
        r matches ProxyAction::Respond(resp) && is_error_response(
            resp,
            Status::MethodNotAllowed,
            Seq::empty(),
        )
    } else {
        match req.start_line.target {
            Target::Authority(a) => if a.port matches Some(p) && p != 443 {
                r matches ProxyAction::Respond(resp) && is_error_response(
                    resp,
                    Status::BadRequest,
                    "Invalid port. Must use 443"@,
                )
            } else if a.domain@ != UPSTREAM_HOST@ || a.port is None {
                r matches ProxyAction::Respond(resp) && is_error_response(
                    resp,
                    Status::BadRequest,
                    "Invalid proxy target"@,
                )
            } else {
                r matches ProxyAction::Dial { domain, port } && domain@ == a.domain@ && port == 443
            },
            _ => r matches ProxyAction::Respond(resp) && is_error_response(
                resp,
                Status::BadRequest,
                "Invalid proxy target"@,
            ),
        }
    }
}

/// Validates a request against the tunnel policy. No dial happens unless
/// the request is a CONNECT to the allow-listed host on port 443.
pub fn proxy_decision(request: &Request) -> (r: ProxyAction)
    ensures
        spec_proxy_decision(request, r),
{
    if request.start_line.method != Method::CONNECT {
        proof {
            reveal_strlit("");
            assert(""@ =~= Seq::<char>::empty());
        }
        return ProxyAction::Respond(Response::error_response(Status::MethodNotAllowed, ""));
    }
    let host = match &request.start_line.target {
        Target::Authority(a) => a,
        _ => {
            return ProxyAction::Respond(
                Response::error_response(Status::BadRequest, "Invalid proxy target"),
            );
        },
    };
    if let Some(port) = host.port {
        if port != 443 {
            return ProxyAction::Respond(
                Response::error_response(Status::BadRequest, "Invalid port. Must use 443"),
            );
        }
    }
    let port_present = host.port.is_some();
    if !str_eq(host.domain.as_str(), UPSTREAM_HOST) || !port_present {
        return ProxyAction::Respond(
            Response::error_response(Status::BadRequest, "Invalid proxy target"),
        );
    }
    ProxyAction::Dial { domain: host.domain.clone(), port: 443 }
}

/// The 502 answer for an upstream that cannot be resolved or dialled.
pub fn bad_gateway_response() -> (r: Response)
    ensures
        is_error_response(r, Status::BadGateway, "Failed to proxy to remote service"@),
{
    Response::error_response(Status::BadGateway, "Failed to proxy to remote service")
}

/// The bodyless 200 written straight onto the client connection once the
/// upstream is dialled, to signal that the tunnel is open.
pub fn tunnel_established_response() -> (r: Response)
    ensures
        is_error_response(r, Status::OK, Seq::empty()),
{
    proof {
        reveal_strlit("");
        assert(""@ =~= Seq::<char>::empty());
    }
    Response::error_response(Status::OK, "")
}

} // verus!
