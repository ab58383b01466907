//! The dispatcher's decisions and the responses it synthesizes. Every
//! request produces exactly one response: an unmatched path a 404, a sandbox
//! that could not be built a 500, and any guest failure — an explicit error
//! value, a translation failure, or a substrate trap — a 500 carrying the
//! error text, never a crash of the host.

use vstd::prelude::*;

verus! {

use vstd::string::StringSliceAdditionalSpecFns;
use crate::config::{Config, route_spec};
use crate::http::{Header, HeaderView, Response, ResponseView, Version};
use crate::service::{find_service, Registry, Service};

/// The 404 synthesized when no route matches; no sandbox is built for it.
pub open spec fn not_found_view() -> ResponseView {
    ResponseView {
        status: 404,
        version: Version::Http11,
        headers: Seq::empty(),
        body: "Not Found".spec_bytes(),
    }
}

/// The 500 synthesized when the sandbox could not be constructed.
pub open spec fn internal_error_view() -> ResponseView {
    ResponseView {
        status: 500,
        version: Version::Http11,
        headers: Seq::empty(),
        body: "Internal Server Error".spec_bytes(),
    }
}

/// The 500 that contains a guest's failure: the body is exactly the error
/// text and the one header declares it plain text.
pub open spec fn error_response_view(message: Seq<u8>) -> ResponseView {
    ResponseView {
        status: 500,
        version: Version::Http11,
        headers: seq![
            HeaderView { key: "Content-Type".spec_bytes(), value: "text/plain".spec_bytes() },
        ],
        body: message,
    }
}

/// The response translated back to the transport: a guest success verbatim, a
/// guest failure as the 500 carrying its text.
pub open spec fn finish_view(outcome: Result<ResponseView, Seq<u8>>) -> ResponseView {
    match outcome {
        Ok(resp) => resp,
        Err(message) => error_response_view(message),
    }
}

/// What the dispatcher answers, as a function of the route table, the request
/// path, whether the sandbox was built, and the guest's outcome.
pub open spec fn dispatch_view(
    routes: Map<Seq<u8>, Seq<char>>,
    path: Seq<u8>,
    sandbox_ok: bool,
    outcome: Result<ResponseView, Seq<u8>>,
) -> ResponseView {
    match route_spec(routes, path) {
        None => not_found_view(),
        Some(_) => if !sandbox_ok {
            internal_error_view()
        } else {
            finish_view(outcome)
        },
    }
}

/// The first dispatch step: a path that no route matches, or whose routed
/// name loaded no service, is answered with the 404 at once, before any
/// sandbox exists; otherwise the loaded service to dispatch to is named.
pub enum RouteOutcome<'a> {
    Dispatch { service: &'a Service },
    Respond { response: Response },
}

/// Consults the router and the registry; either missing synthesizes the 404
/// and stops the request — no service, not an error.
pub fn route_request<'a>(config: &Config, registry: &'a Registry, path: &[u8]) -> (outcome:
    RouteOutcome<'a>)
    ensures
        match route_spec(config.routes_view(), path@) {
            Some(name) => match find_service(registry.services@, name) {
                Some(service) => outcome matches RouteOutcome::Dispatch { service: s } && *s
                    == service,
                None => outcome matches RouteOutcome::Respond { response } && response@
                    == not_found_view(),
            },
            None => outcome matches RouteOutcome::Respond { response } && response@
                == not_found_view(),
        },
{
    match config.route(path) {
        Some(description) => match registry.get(&description.name) {
            Some(service) => RouteOutcome::Dispatch { service },
            None => RouteOutcome::Respond { response: not_found_response() },
        },
        None => RouteOutcome::Respond { response: not_found_response() },
    }
}

/// The 404 for a path no route matches.
pub fn not_found_response() -> (r: Response)
    ensures
        r@ == not_found_view(),
{
    let r = Response {
        status: 404,
        version: Version::Http11,
        headers: Vec::new(),
        body: "Not Found".as_bytes_vec(),
    };
    proof {
        assert(r@ =~= not_found_view());
    }
    r
}

/// The 500 for a sandbox that could not be constructed.
pub fn internal_error_response() -> (r: Response)
    ensures
        r@ == internal_error_view(),
{
    let r = Response {
        status: 500,
        version: Version::Http11,
        headers: Vec::new(),
        body: "Internal Server Error".as_bytes_vec(),
    };
    proof {
        assert(r@ =~= internal_error_view());
    }
    r
}

/// The 500 that carries a guest failure: body exactly the error text, with a
/// plain-text content type.
pub fn error_response(message: Vec<u8>) -> (r: Response)
    ensures
        r@ == error_response_view(message@),
{
    let mut headers: Vec<Header> = Vec::new();
    headers.push(
        Header { key: "Content-Type".as_bytes_vec(), value: "text/plain".as_bytes_vec() },
    );
    let r = Response { status: 500, version: Version::Http11, headers, body: message };
    proof {
        assert(r@ =~= error_response_view(message@));
    }
    r
}

/// The last dispatch step: a guest success is translated back verbatim; any
/// failure — an error the handler returned, a translation failure, or a trap
/// the substrate reported — becomes the 500 carrying its text. One response
/// per request, whatever the guest did.
pub fn finish_invocation(outcome: Result<Response, Vec<u8>>) -> (r: Response)
    ensures
        outcome matches Ok(resp) ==> r == resp,
        outcome matches Err(message) ==> r@ == error_response_view(message@),
{
    match outcome {
        Ok(resp) => resp,
        Err(message) => error_response(message),
    }
}

/// Identical requests get identical responses: the dispatched response is a
/// pure function of the route table, the request path, whether the sandbox
/// was built, and the guest's outcome. The executable steps are each pinned
/// to this function by their contracts, so two runs of an unchanged host on
/// one request — with the guest outcome unchanged, as it is for an unchanged
/// backing file — answer byte-identically.
pub proof fn lemma_dispatch_deterministic(
    routes: Map<Seq<u8>, Seq<char>>,
    path1: Seq<u8>,
    path2: Seq<u8>,
    sandbox_ok1: bool,
    sandbox_ok2: bool,
    outcome1: Result<ResponseView, Seq<u8>>,
    outcome2: Result<ResponseView, Seq<u8>>,
)
    requires
        path1 == path2,
        sandbox_ok1 == sandbox_ok2,
        outcome1 == outcome2,
    ensures
        dispatch_view(routes, path1, sandbox_ok1, outcome1) == dispatch_view(
            routes,
            path2,
            sandbox_ok2,
            outcome2,
        ),
{
}

} // verus!
