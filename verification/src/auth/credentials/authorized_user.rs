//! The OAuth2 refresh-token grant.
//!
//! An authorized-user credential holds a long-lived refresh token; one POST
//! to the OAuth2 token endpoint trades it for a short-lived access token
//! whose lifetime comes back as a relative `expires_in`.

use super::{Step, StepV};
use crate::dispatch::{HttpRequest, HttpRequestV, Method};
use crate::json;
use vstd::prelude::*;

verus! {

/// The OAuth2 token endpoint of the refresh-token grant.
pub open spec fn token_endpoint() -> Seq<char> {
    "https://oauth2.googleapis.com/token"@
}

/// An OAuth2 refresh-token user grant. Everything but `client_id` is a
/// secret; [`AuthorizedUser::debug_text`] is the only sanctioned rendering.
pub struct AuthorizedUser {
    pub client_id: String,
    pub client_secret: String,
    pub refresh_token: String,
}

/// The JSON body of the refresh-token grant request: the grant type, the
/// client credentials, the refresh token, and the requested scopes as one
/// space-joined string, order preserved, no deduplication.
pub open spec fn authorized_user_body(
    client_id: Seq<char>,
    client_secret: Seq<char>,
    refresh_token: Seq<char>,
    scopes: Seq<Seq<char>>,
) -> Seq<char> {
    "{\"grant_type\":\"refresh_token\",\"client_id\":"@ + json::quoted(client_id)
        + ",\"client_secret\":"@ + json::quoted(client_secret) + ",\"refresh_token\":"@
        + json::quoted(refresh_token) + ",\"scope\":"@ + json::quoted(json::join_spaces(scopes))
        + "}"@
}

impl AuthorizedUser {
    /// Begins a refresh: the stateless single-shot flow's only round trip,
    /// an unauthenticated POST of the grant to the token endpoint.
    pub fn refresh(&self, scopes: &Vec<String>) -> (r: Step)
        ensures
            r@ == StepV::Fetch(
                HttpRequestV {
                    method: Method::Post,
                    uri: token_endpoint(),
                    body: authorized_user_body(
                        self.client_id@,
                        self.client_secret@,
                        self.refresh_token@,
                        scopes.deep_view(),
                    ),
                    bearer: None,
                },
            ),
    {
        let mut body = String::new();
        body.append("{\"grant_type\":\"refresh_token\",\"client_id\":");
        json::write_quoted(&mut body, self.client_id.as_str());
        body.append(",\"client_secret\":");
        json::write_quoted(&mut body, self.client_secret.as_str());
        body.append(",\"refresh_token\":");
        json::write_quoted(&mut body, self.refresh_token.as_str());
        body.append(",\"scope\":");
        let joined = json::join_scopes(scopes);
        json::write_quoted(&mut body, joined.as_str());
        body.append("}");
        proof {
            assert(body@ =~= authorized_user_body(
                self.client_id@,
                self.client_secret@,
                self.refresh_token@,
                scopes.deep_view(),
            ));
        }
        Step::Fetch(
            HttpRequest {
                method: Method::Post,
                uri: String::from_str("https://oauth2.googleapis.com/token"),
                body,
                bearer: None,
            },
        )
    }

    /// A diagnostic rendering that shows the client id and redacts both
    /// secrets.
    pub fn debug_text(&self) -> (r: String)
        ensures
            r@ == "AuthorizedUser { client_id: "@ + self.client_id@
                + ", client_secret: \"***\", refresh_token: \"***\" }"@,
    {
        let mut out = String::new();
        out.append("AuthorizedUser { client_id: ");
        out.append(self.client_id.as_str());
        out.append(", client_secret: \"***\", refresh_token: \"***\" }");
        proof {
            assert(out@ =~= "AuthorizedUser { client_id: "@ + self.client_id@
                + ", client_secret: \"***\", refresh_token: \"***\" }"@);
        }
        out
    }
}

} // verus!
