//! Transport-agnostic request/response shapes.
//!
//! A refresh flow describes one logical HTTP call as an [`HttpRequest`]:
//! method, target URI, a complete UTF-8 body, and an optional bearer token to
//! attach as an `Authorization` header. The embedding program owns the actual
//! transport (connection pooling, TLS, admission control) and hands the
//! outcome back as an [`HttpResponse`] — plain status and body bytes. The
//! library never retries and never caches at this layer.

use vstd::prelude::*;

verus! {

/// The HTTP method of a request. The token-endpoint protocols here only ever
/// POST, but the shape is kept general.
#[derive(Clone, Copy, PartialEq, Eq, Structural)]
pub enum Method {
    Get,
    Post,
}

/// One fully-built HTTP call: everything the transport needs, nothing more.
pub struct HttpRequest {
    pub method: Method,
    pub uri: String,
    /// The request body, already serialized; the transport sends its UTF-8
    /// bytes verbatim.
    pub body: String,
    /// When present, the transport attaches `Authorization: Bearer <token>`.
    pub bearer: Option<String>,
}

/// One raw HTTP response: the status code and the full body bytes.
pub struct HttpResponse {
    pub status: u16,
    pub body: Vec<u8>,
}

/// The abstract value of a request.
pub struct HttpRequestV {
    pub method: Method,
    pub uri: Seq<char>,
    pub body: Seq<char>,
    pub bearer: Option<Seq<char>>,
}

impl View for HttpRequest {
    type V = HttpRequestV;

    open spec fn view(&self) -> HttpRequestV {
        HttpRequestV {
            method: self.method,
            uri: self.uri@,
            body: self.body@,
            bearer: match &self.bearer {
                Some(b) => Some(b@),
                None => None,
            },
        }
    }
}

/// The abstract value of a response.
pub struct HttpResponseV {
    pub status: u16,
    pub body: Seq<u8>,
}

impl View for HttpResponse {
    type V = HttpResponseV;

    open spec fn view(&self) -> HttpResponseV {
        HttpResponseV { status: self.status, body: self.body@ }
    }
}

/// The `Authorization` header value that presents `token` as a bearer
/// credential.
pub fn bearer_header_value(token: &str) -> (r: String)
    ensures
        r@ == "Bearer "@ + token@,
{
    let mut value = String::new();
    value.append("Bearer ");
    value.append(token);
    value
}

} // verus!
