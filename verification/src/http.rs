//! The component contract: the request/response types exchanged with a guest
//! component, and the mapping of the transport's method and version tokens
//! onto the contract's closed enums.

use vstd::prelude::*;

verus! {

use vstd::string::StringSliceAdditionalSpecFns;

/// The nine standard HTTP verbs of the component contract. A transport verb
/// outside this set is a translation error, never a guessed default.
#[derive(Clone, Copy, PartialEq, Eq, Structural, Debug)]
pub enum Method {
    Options,
    Get,
    Post,
    Put,
    Delete,
    Head,
    Trace,
    Connect,
    Patch,
}

/// The HTTP protocol versions of the component contract, HTTP/0.9 through
/// HTTP/3. An unknown transport version is a translation error.
#[derive(Clone, Copy, PartialEq, Eq, Structural, Debug)]
pub enum Version {
    Http09,
    Http10,
    Http11,
    Http2,
    Http3,
}

/// One header of a translated request or response: a raw key/value byte pair.
#[derive(Clone, Debug)]
pub struct Header {
    pub key: Vec<u8>,
    pub value: Vec<u8>,
}

#[verifier::ext_equal]
pub ghost struct HeaderView {
    pub key: Seq<u8>,
    pub value: Seq<u8>,
}

impl View for Header {
    type V = HeaderView;

    open spec fn view(&self) -> HeaderView {
        HeaderView { key: self.key@, value: self.value@ }
    }
}

/// A request in the component contract: fully translated and fully buffered
/// before the guest is invoked.
pub struct Request {
    pub method: Method,
    pub uri: Vec<u8>,
    pub version: Version,
    pub headers: Vec<Header>,
    pub body: Vec<u8>,
}

#[verifier::ext_equal]
pub ghost struct RequestView {
    pub method: Method,
    pub uri: Seq<u8>,
    pub version: Version,
    pub headers: Seq<HeaderView>,
    pub body: Seq<u8>,
}

impl View for Request {
    type V = RequestView;

    open spec fn view(&self) -> RequestView {
        RequestView {
            method: self.method,
            uri: self.uri@,
            version: self.version,
            headers: self.headers@.map_values(|h: Header| h@),
            body: self.body@,
        }
    }
}

/// A response in the component contract, translated back to the transport
/// verbatim: status, version, ordered headers, buffered body.
pub struct Response {
    pub status: u16,
    pub version: Version,
    pub headers: Vec<Header>,
    pub body: Vec<u8>,
}

#[verifier::ext_equal]
pub ghost struct ResponseView {
    pub status: u16,
    pub version: Version,
    pub headers: Seq<HeaderView>,
    pub body: Seq<u8>,
}

impl View for Response {
    type V = ResponseView;

    open spec fn view(&self) -> ResponseView {
        ResponseView {
            status: self.status,
            version: self.version,
            headers: self.headers@.map_values(|h: Header| h@),
            body: self.body@,
        }
    }
}

/// Why a transport request could not be translated into the component
/// contract.
#[derive(Clone, Copy, PartialEq, Eq, Structural, Debug)]
pub enum TranslationError {
    UnknownMethod,
    UnknownVersion,
}

impl TranslationError {
    /// The error text carried into the synthesized 500 response.
    pub fn message(&self) -> (s: String)
        ensures
            s@ == self.message_spec(),
    {
        match self {
            TranslationError::UnknownMethod => String::from_str("Unknown method"),
            TranslationError::UnknownVersion => String::from_str("Unknown version"),
        }
    }

    pub open spec fn message_spec(self) -> Seq<char> {
        match self {
            TranslationError::UnknownMethod => "Unknown method"@,
            TranslationError::UnknownVersion => "Unknown version"@,
        }
    }
}

/// The transport-level name of each verb, as raw bytes.
pub open spec fn method_token(m: Method) -> Seq<u8> {
    match m {
        Method::Options => "OPTIONS".spec_bytes(),
        Method::Get => "GET".spec_bytes(),
        Method::Post => "POST".spec_bytes(),
        Method::Put => "PUT".spec_bytes(),
        Method::Delete => "DELETE".spec_bytes(),
        Method::Head => "HEAD".spec_bytes(),
        Method::Trace => "TRACE".spec_bytes(),
        Method::Connect => "CONNECT".spec_bytes(),
        Method::Patch => "PATCH".spec_bytes(),
    }
}

/// The verb named by a transport token, if it is one of the nine.
pub open spec fn method_of_token(t: Seq<u8>) -> Option<Method> {
    if t == method_token(Method::Options) {
        Some(Method::Options)
    } else if t == method_token(Method::Get) {
        Some(Method::Get)
    } else if t == method_token(Method::Post) {
        Some(Method::Post)
    } else if t == method_token(Method::Put) {
        Some(Method::Put)
    } else if t == method_token(Method::Delete) {
        Some(Method::Delete)
    } else if t == method_token(Method::Head) {
        Some(Method::Head)
    } else if t == method_token(Method::Trace) {
        Some(Method::Trace)
    } else if t == method_token(Method::Connect) {
        Some(Method::Connect)
    } else if t == method_token(Method::Patch) {
        Some(Method::Patch)
    } else {
        None
    }
}

/// The transport-level token of each protocol version, as raw bytes.
pub open spec fn version_token(v: Version) -> Seq<u8> {
    match v {
        Version::Http09 => "HTTP/0.9".spec_bytes(),
        Version::Http10 => "HTTP/1.0".spec_bytes(),
        Version::Http11 => "HTTP/1.1".spec_bytes(),
        Version::Http2 => "HTTP/2.0".spec_bytes(),
        Version::Http3 => "HTTP/3.0".spec_bytes(),
    }
}

/// The protocol version named by a transport token, if it is a known one.
pub open spec fn version_of_token(t: Seq<u8>) -> Option<Version> {
    if t == version_token(Version::Http09) {
        Some(Version::Http09)
    } else if t == version_token(Version::Http10) {
        Some(Version::Http10)
    } else if t == version_token(Version::Http11) {
        Some(Version::Http11)
    } else if t == version_token(Version::Http2) {
        Some(Version::Http2)
    } else if t == version_token(Version::Http3) {
        Some(Version::Http3)
    } else {
        None
    }
}

/// Byte-for-byte equality of two byte strings.
pub fn bytes_eq(a: &[u8], b: &[u8]) -> (r: bool)
    ensures
        r == (a@ == b@),
{
    if a.len() != b.len() {
        assert(a@ != b@) by {
            assert(a@.len() != b@.len());
        }
        return false;
    }
    let mut i: usize = 0;
    while i < a.len()
        invariant
            i <= a@.len(),
            a@.len() == b@.len(),
            forall|j: int| 0 <= j < i ==> a@[j] == b@[j],
        decreases a@.len() - i,
    {
        if a[i] != b[i] {
            assert(a@ != b@) by {
                assert(a@[i as int] != b@[i as int]);
            }
            return false;
        }
        i = i + 1;
    }
    assert(a@ =~= b@);
    true
}

/// Maps the transport's verb token one-to-one onto the nine standard verbs;
/// any other token is rejected, never defaulted.
pub fn parse_method(token: &[u8]) -> (r: Result<Method, TranslationError>)
    ensures
        match method_of_token(token@) {
            Some(m) => r == Ok::<Method, TranslationError>(m),
            None => r == Err::<Method, TranslationError>(TranslationError::UnknownMethod),
        },
{
    if bytes_eq(token, "OPTIONS".as_bytes()) {
        Ok(Method::Options)
    } else if bytes_eq(token, "GET".as_bytes()) {
        Ok(Method::Get)
    } else if bytes_eq(token, "POST".as_bytes()) {
        Ok(Method::Post)
    } else if bytes_eq(token, "PUT".as_bytes()) {
        Ok(Method::Put)
    } else if bytes_eq(token, "DELETE".as_bytes()) {
        Ok(Method::Delete)
    } else if bytes_eq(token, "HEAD".as_bytes()) {
        Ok(Method::Head)
    } else if bytes_eq(token, "TRACE".as_bytes()) {
        Ok(Method::Trace)
    } else if bytes_eq(token, "CONNECT".as_bytes()) {
        Ok(Method::Connect)
    } else if bytes_eq(token, "PATCH".as_bytes()) {
        Ok(Method::Patch)
    } else {
        Err(TranslationError::UnknownMethod)
    }
}

/// Maps the transport's version token one-to-one onto HTTP/0.9 through
/// HTTP/3; any other token is rejected.
pub fn parse_version(token: &[u8]) -> (r: Result<Version, TranslationError>)
    ensures
        match version_of_token(token@) {
            Some(v) => r == Ok::<Version, TranslationError>(v),
            None => r == Err::<Version, TranslationError>(TranslationError::UnknownVersion),
        },
{
    if bytes_eq(token, "HTTP/0.9".as_bytes()) {
        Ok(Version::Http09)
    } else if bytes_eq(token, "HTTP/1.0".as_bytes()) {
        Ok(Version::Http10)
    } else if bytes_eq(token, "HTTP/1.1".as_bytes()) {
        Ok(Version::Http11)
    } else if bytes_eq(token, "HTTP/2.0".as_bytes()) {
        Ok(Version::Http2)
    } else if bytes_eq(token, "HTTP/3.0".as_bytes()) {
        Ok(Version::Http3)
    } else {
        Err(TranslationError::UnknownVersion)
    }
}

/// Translates a transport request into the component contract: the verb and
/// version tokens are mapped one-to-one, the header pairs and the fully
/// buffered body are carried over verbatim, order preserved.
pub fn translate_request(
    method_token_bytes: &[u8],
    version_token_bytes: &[u8],
    uri: Vec<u8>,
    headers: Vec<Header>,
    body: Vec<u8>,
) -> (r: Result<Request, TranslationError>)
    ensures
        match r {
            Ok(req) => {
                &&& method_of_token(method_token_bytes@) == Some(req.method)
                &&& version_of_token(version_token_bytes@) == Some(req.version)
                &&& req.uri@ == uri@
                &&& req.headers@ == headers@
                &&& req.body@ == body@
            },
            Err(e) => {
                &&& e == TranslationError::UnknownMethod ==> method_of_token(
                    method_token_bytes@,
                ) is None
                &&& e == TranslationError::UnknownVersion ==> version_of_token(
                    version_token_bytes@,
                ) is None
                &&& (method_of_token(method_token_bytes@) is None || version_of_token(
                    version_token_bytes@,
                ) is None)
            },
        },
{
    let method = parse_method(method_token_bytes)?;
    let version = parse_version(version_token_bytes)?;
    Ok(Request { method, uri, version, headers, body })
}

} // verus!
