//! Client-side credential manager.
//!
//! Given an ambient credential description — an OAuth2 refresh-token user
//! grant, or a workload-identity external-account descriptor — this library
//! produces short-lived bearer access tokens for a requested set of
//! authorization scopes, and caches them until they near expiry.
//!
//! The library itself performs no I/O. Network round trips and file reads are
//! expressed as a small instruction language ([`auth::credentials::Step`]):
//! the refresh flows decide which request to send next, and the embedding
//! program performs the transfer and hands the outcome back as an
//! [`auth::credentials::Event`]. Everything that decides — request
//! construction, response classification and decoding, expiry arithmetic, and
//! the scope-keyed token cache — is verified.

use vstd::prelude::*;

pub mod auth;
pub mod dispatch;
pub mod json;

verus! {

/// Unified error taxonomy for a failed token refresh.
///
/// Every layer propagates errors upward unchanged in kind; no layer retries
/// or swallows. Secrets never appear in any of these values: an HTTP error
/// carries only the status and the raw response body that the server sent.
pub enum Error {
    /// Reading the subject-token file (or the descriptor file) failed.
    Io(String),
    /// A response did not match the expected shape.
    Json(String),
    /// A connection/timeout-level failure from the transport collaborator.
    Transport(String),
    /// The server answered with a non-successful status code.
    Http { status: u16, body: Vec<u8> },
    /// No usable credential descriptor was found.
    NoAuthProvider,
}

/// The abstract value of an [`Error`].
pub enum ErrorV {
    Io(Seq<char>),
    Json(Seq<char>),
    Transport(Seq<char>),
    Http { status: u16, body: Seq<u8> },
    NoAuthProvider,
}

impl View for Error {
    type V = ErrorV;

    open spec fn view(&self) -> ErrorV {
        match self {
            Error::Io(m) => ErrorV::Io(m@),
            Error::Json(m) => ErrorV::Json(m@),
            Error::Transport(m) => ErrorV::Transport(m@),
            Error::Http { status, body } => ErrorV::Http { status: *status, body: body@ },
            Error::NoAuthProvider => ErrorV::NoAuthProvider,
        }
    }
}

impl Error {
    /// Classifies an HTTP response: a 2xx status passes the response through,
    /// anything else becomes an [`Error::Http`] carrying the status and the
    /// full response body. Never conflated with transport failures, which
    /// arrive as [`Error::Transport`] from the embedding program.
    pub fn check_response(response: dispatch::HttpResponse) -> (r: Result<
        dispatch::HttpResponse,
        Error,
    >)
        ensures
            200 <= response.status < 300 ==> r == Ok::<dispatch::HttpResponse, Error>(response),
            !(200 <= response.status < 300) ==> r == Err::<dispatch::HttpResponse, Error>(
                Error::Http { status: response.status, body: response.body },
            ),
    {
        if 200 <= response.status && response.status < 300 {
            Ok(response)
        } else {
            Err(Error::Http { status: response.status, body: response.body })
        }
    }
}

/// The fixed scope set used to bootstrap a two-stage exchange when the
/// caller's scopes are reserved for the final impersonation stage.
pub open spec fn default_scopes_view() -> Seq<Seq<char>> {
    seq!["https://www.googleapis.com/auth/cloud-platform"@]
}

/// The default scope sequence; see [`default_scopes_view`].
pub fn default_scopes() -> (r: Vec<String>)
    ensures
        r.deep_view() == default_scopes_view(),
{
    let mut r: Vec<String> = Vec::new();
    r.push(String::from_str("https://www.googleapis.com/auth/cloud-platform"));
    proof {
        assert(r.deep_view() =~= default_scopes_view());
    }
    r
}

} // verus!
