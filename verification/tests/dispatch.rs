use apogee_host::config::{Config, ServiceDescription};
use apogee_host::dispatch::{
    error_response, finish_invocation, internal_error_response, not_found_response, route_request,
    RouteOutcome,
};
use apogee_host::http::{
    parse_method, parse_version, translate_request, Header, Method, Response, TranslationError,
    Version,
};
use apogee_host::service::{ComponentHandle, Registry, Service, ServiceConfig};

fn registry_with(names: &[&str]) -> Registry {
    let outcomes = names
        .iter()
        .enumerate()
        .map(|(i, name)| {
            Ok(Service::assemble(
                format!("services/{name}").into_bytes(),
                ServiceConfig {
                    name: String::from(*name),
                    wasm: b"service.wasm".to_vec(),
                    filesystem: vec![],
                },
                ComponentHandle { id: i as u64 },
            ))
        })
        .collect();
    Registry::build(outcomes).0
}

#[test]
fn parse_method_maps_all_nine_verbs() {
    assert_eq!(parse_method(b"OPTIONS"), Ok(Method::Options));
    assert_eq!(parse_method(b"GET"), Ok(Method::Get));
    assert_eq!(parse_method(b"POST"), Ok(Method::Post));
    assert_eq!(parse_method(b"PUT"), Ok(Method::Put));
    assert_eq!(parse_method(b"DELETE"), Ok(Method::Delete));
    assert_eq!(parse_method(b"HEAD"), Ok(Method::Head));
    assert_eq!(parse_method(b"TRACE"), Ok(Method::Trace));
    assert_eq!(parse_method(b"CONNECT"), Ok(Method::Connect));
    assert_eq!(parse_method(b"PATCH"), Ok(Method::Patch));
}

#[test]
fn parse_method_rejects_unknown_verb() {
    assert_eq!(parse_method(b"BREW"), Err(TranslationError::UnknownMethod));
    assert_eq!(parse_method(b"get"), Err(TranslationError::UnknownMethod));
    assert_eq!(parse_method(b""), Err(TranslationError::UnknownMethod));
}

#[test]
fn parse_version_maps_all_known_versions() {
    assert_eq!(parse_version(b"HTTP/0.9"), Ok(Version::Http09));
    assert_eq!(parse_version(b"HTTP/1.0"), Ok(Version::Http10));
    assert_eq!(parse_version(b"HTTP/1.1"), Ok(Version::Http11));
    assert_eq!(parse_version(b"HTTP/2.0"), Ok(Version::Http2));
    assert_eq!(parse_version(b"HTTP/3.0"), Ok(Version::Http3));
}

#[test]
fn parse_version_rejects_unknown_version() {
    assert_eq!(parse_version(b"HTTP/4.0"), Err(TranslationError::UnknownVersion));
    assert_eq!(parse_version(b""), Err(TranslationError::UnknownVersion));
}

#[test]
fn translation_error_messages() {
    assert_eq!(TranslationError::UnknownMethod.message(), "Unknown method");
    assert_eq!(TranslationError::UnknownVersion.message(), "Unknown version");
}

#[test]
fn translate_request_preserves_headers_and_body() {
    let headers = vec![
        Header { key: b"b-second".to_vec(), value: b"2".to_vec() },
        Header { key: b"a-first".to_vec(), value: b"1".to_vec() },
        Header { key: b"a-first".to_vec(), value: b"3".to_vec() },
    ];
    let req = translate_request(b"POST", b"HTTP/1.1", b"/api/x".to_vec(), headers, b"payload".to_vec())
        .expect("should translate");
    assert_eq!(req.method, Method::Post);
    assert_eq!(req.version, Version::Http11);
    assert_eq!(req.uri, b"/api/x".to_vec());
    assert_eq!(req.body, b"payload".to_vec());
    assert_eq!(req.headers.len(), 3);
    assert_eq!(req.headers[0].key, b"b-second".to_vec());
    assert_eq!(req.headers[1].key, b"a-first".to_vec());
    assert_eq!(req.headers[1].value, b"1".to_vec());
    assert_eq!(req.headers[2].value, b"3".to_vec());
}

#[test]
fn translate_request_fails_on_unknown_method() {
    let r = translate_request(b"BREW", b"HTTP/1.1", b"/".to_vec(), vec![], vec![]);
    assert!(matches!(r, Err(TranslationError::UnknownMethod)));
}

#[test]
fn translate_request_fails_on_unknown_version() {
    let r = translate_request(b"GET", b"SPDY", b"/".to_vec(), vec![], vec![]);
    assert!(matches!(r, Err(TranslationError::UnknownVersion)));
}

#[test]
fn not_found_response_shape() {
    let r = not_found_response();
    assert_eq!(r.status, 404);
    assert_eq!(r.version, Version::Http11);
    assert!(r.headers.is_empty());
    assert_eq!(r.body, b"Not Found".to_vec());
}

#[test]
fn internal_error_response_shape() {
    let r = internal_error_response();
    assert_eq!(r.status, 500);
    assert_eq!(r.version, Version::Http11);
    assert!(r.headers.is_empty());
    assert_eq!(r.body, b"Internal Server Error".to_vec());
}

#[test]
fn error_response_carries_exact_error_text() {
    let r = error_response(b"Error - x-wit-throw-error header found".to_vec());
    assert_eq!(r.status, 500);
    assert_eq!(r.version, Version::Http11);
    assert_eq!(r.body, b"Error - x-wit-throw-error header found".to_vec());
    assert_eq!(r.headers.len(), 1);
    assert_eq!(r.headers[0].key, b"Content-Type".to_vec());
    assert_eq!(r.headers[0].value, b"text/plain".to_vec());
}

#[test]
fn finish_invocation_passes_success_verbatim() {
    let resp = Response {
        status: 200,
        version: Version::Http2,
        headers: vec![Header { key: b"x-wit-test".to_vec(), value: b"true".to_vec() }],
        body: b"<html>ok</html>".to_vec(),
    };
    let r = finish_invocation(Ok(resp));
    assert_eq!(r.status, 200);
    assert_eq!(r.version, Version::Http2);
    assert_eq!(r.headers.len(), 1);
    assert_eq!(r.headers[0].key, b"x-wit-test".to_vec());
    assert_eq!(r.body, b"<html>ok</html>".to_vec());
}

#[test]
fn finish_invocation_contains_guest_error() {
    let r = finish_invocation(Err(b"guest blew up".to_vec()));
    assert_eq!(r.status, 500);
    assert_eq!(r.body, b"guest blew up".to_vec());
    assert_eq!(r.headers[0].value, b"text/plain".to_vec());
}

#[test]
fn guest_error_does_not_stop_subsequent_requests() {
    // Error containment: one misbehaving invocation is answered with a 500
    // carrying its text, and the host goes on answering the next request.
    let mut c = Config::new();
    c.add_route(b"/api", ServiceDescription { name: String::from("svcA") });
    let registry = registry_with(&["svcA"]);
    let failed = finish_invocation(Err(b"handler error".to_vec()));
    assert_eq!(failed.status, 500);
    assert_eq!(failed.body, b"handler error".to_vec());
    match route_request(&c, &registry, b"/api/next") {
        RouteOutcome::Dispatch { service } => {
            assert_eq!(service.name, "svcA");
            let ok = finish_invocation(Ok(Response {
                status: 200,
                version: Version::Http11,
                headers: vec![],
                body: b"still serving".to_vec(),
            }));
            assert_eq!(ok.status, 200);
            assert_eq!(ok.body, b"still serving".to_vec());
        },
        RouteOutcome::Respond { .. } => panic!("expected a dispatch"),
    }
}

#[test]
fn route_request_dispatches_matched_path() {
    let mut c = Config::new();
    c.add_route(b"/api", ServiceDescription { name: String::from("svcA") });
    let registry = registry_with(&["svcA"]);
    match route_request(&c, &registry, b"/api/x") {
        RouteOutcome::Dispatch { service } => assert_eq!(service.name, "svcA"),
        RouteOutcome::Respond { .. } => panic!("expected a dispatch"),
    }
}

#[test]
fn route_request_answers_404_without_sandbox() {
    let c = Config::new();
    let registry = registry_with(&["svcA"]);
    match route_request(&c, &registry, b"/api/x") {
        RouteOutcome::Dispatch { .. } => panic!("expected a response"),
        RouteOutcome::Respond { response } => {
            assert_eq!(response.status, 404);
            assert_eq!(response.body, b"Not Found".to_vec());
        },
    }
}

#[test]
fn route_request_answers_404_when_routed_service_did_not_load() {
    // The route names a service, but no directory of that name loaded: the
    // caller sees "no service", not an error.
    let mut c = Config::new();
    c.add_route(b"/api", ServiceDescription { name: String::from("svcA") });
    let registry = registry_with(&["other"]);
    match route_request(&c, &registry, b"/api/x") {
        RouteOutcome::Dispatch { .. } => panic!("expected a response"),
        RouteOutcome::Respond { response } => assert_eq!(response.status, 404),
    }
}

#[test]
fn identical_requests_yield_identical_responses() {
    // The dispatch pipeline is a pure function of table, path and guest
    // outcome: run the same request twice against an unchanged router and an
    // unchanged outcome and compare the responses byte for byte.
    let mut c = Config::new();
    c.add_route(b"/api", ServiceDescription { name: String::from("svcA") });
    let registry = registry_with(&["svcA"]);
    let guest_body = b"stable file contents".to_vec();
    let run = |cfg: &Config| -> (u16, Vec<u8>) {
        match route_request(cfg, &registry, b"/api/x") {
            RouteOutcome::Dispatch { .. } => {
                let resp = Response {
                    status: 200,
                    version: Version::Http11,
                    headers: vec![],
                    body: guest_body.clone(),
                };
                let r = finish_invocation(Ok(resp));
                (r.status, r.body)
            },
            RouteOutcome::Respond { response } => (response.status, response.body),
        }
    };
    let first = run(&c);
    let second = run(&c);
    assert_eq!(first, second);
}
