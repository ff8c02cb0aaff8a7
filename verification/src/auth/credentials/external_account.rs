//! Workload-identity external accounts: STS token exchange, optionally
//! followed by service-account impersonation.
//!
//! The two-stage flow first reads a subject token from a local file, then
//! exchanges it at an STS endpoint. When an impersonation URL is configured,
//! the exchanged token is only a bootstrap credential: the exchange is made
//! with a fixed default scope set, and the caller's scopes are presented to
//! the impersonation endpoint, whose response names an absolute expiry.
//! Without impersonation, the caller's scopes go to the exchange directly
//! and the exchanged token is the final answer.

use super::{Step, StepV};
use crate::dispatch::{HttpRequest, HttpRequestV, Method};
use crate::json;
use vstd::prelude::*;

verus! {

/// Where the subject token comes from. Only a local file is supported.
pub enum CredentialSource {
    File(File),
}

/// A subject-token file: its contents, read whole, are the subject token.
pub struct File {
    pub file: String,
}

impl CredentialSource {
    /// The path of the subject-token file.
    pub open spec fn path(&self) -> Seq<char> {
        match self {
            CredentialSource::File(f) => f.file@,
        }
    }
}

/// A workload-identity external-account descriptor.
pub struct ExternalAccount {
    pub audience: String,
    pub subject_token_type: String,
    pub service_account_impersonation_url: Option<String>,
    pub token_url: String,
    pub credential_source: CredentialSource,
}

/// The JSON body of the STS token-exchange request: the fixed grant and
/// requested token types, the audience, one space-joined scope string, and
/// the subject token with its type.
pub open spec fn sts_exchange_body(
    audience: Seq<char>,
    scope: Seq<char>,
    subject_token: Seq<char>,
    subject_token_type: Seq<char>,
) -> Seq<char> {
    "{\"grantType\":\"urn:ietf:params:oauth:grant-type:token-exchange\",\"audience\":"@
        + json::quoted(audience) + ",\"scope\":"@ + json::quoted(scope)
        + ",\"requestedTokenType\":\"urn:ietf:params:oauth:token-type:access_token\",\"subjectToken\":"@
        + json::quoted(subject_token) + ",\"subjectTokenType\":"@ + json::quoted(
        subject_token_type,
    ) + "}"@
}

/// The JSON body of the impersonation request: no delegates, the caller's
/// scopes as a JSON array, and a fixed one-hour lifetime.
pub open spec fn impersonation_body(scopes: Seq<Seq<char>>) -> Seq<char> {
    "{\"delegates\":null,\"scope\":"@ + json::quoted_array(scopes) + ",\"lifetime\":\"3600s\"}"@
}

/// What an RFC 3339 timestamp text denotes in seconds since the Unix epoch,
/// if it is well-formed; applied by [`parse_rfc3339_secs`].
pub uninterp spec fn rfc3339_secs(s: Seq<char>) -> Option<i64>;

/// Relies on chrono's `DateTime::parse_from_rfc3339` and `timestamp`:
/// whether a text is a well-formed RFC 3339 date-time, and which epoch
/// second it names, depend on the text alone.
#[verifier::external_body]
pub(crate) fn parse_rfc3339_secs(s: &str) -> (r: Option<i64>)
    ensures
        r == rfc3339_secs(s@),
{
    chrono::DateTime::parse_from_rfc3339(s).ok().map(|t| t.timestamp())
}

impl ExternalAccount {
    /// The scopes sent at the exchange stage: the fixed default set when the
    /// exchanged token only bootstraps a later impersonation call, the
    /// caller's scopes when the exchange is the whole flow.
    pub open spec fn exchange_scopes(&self, scopes: Seq<Seq<char>>) -> Seq<Seq<char>> {
        if self.service_account_impersonation_url is Some {
            crate::default_scopes_view()
        } else {
            scopes
        }
    }

    /// Begins a refresh: the subject token is read first, from the
    /// configured file.
    pub fn refresh(&self) -> (r: Step)
        ensures
            r@ == StepV::ReadFile(self.credential_source.path()),
    {
        match &self.credential_source {
            CredentialSource::File(f) => Step::ReadFile(f.file.clone()),
        }
    }

    /// The STS token-exchange request. Its `scope` member carries the
    /// default scope set exactly when impersonation is configured, and the
    /// caller's scopes exactly when it is not; see
    /// [`ExternalAccount::exchange_scopes`].
    pub fn exchange_request(&self, scopes: &Vec<String>, subject_token: &str) -> (r: HttpRequest)
        ensures
            r@ == (HttpRequestV {
                method: Method::Post,
                uri: self.token_url@,
                body: sts_exchange_body(
                    self.audience@,
                    json::join_spaces(self.exchange_scopes(scopes.deep_view())),
                    subject_token@,
                    self.subject_token_type@,
                ),
                bearer: None,
            }),
    {
        let joined = if self.service_account_impersonation_url.is_some() {
            let defaults = crate::default_scopes();
            json::join_scopes(&defaults)
        } else {
            json::join_scopes(scopes)
        };
        let mut body = String::new();
        body.append("{\"grantType\":\"urn:ietf:params:oauth:grant-type:token-exchange\",\"audience\":");
        json::write_quoted(&mut body, self.audience.as_str());
        body.append(",\"scope\":");
        json::write_quoted(&mut body, joined.as_str());
        body.append(",\"requestedTokenType\":\"urn:ietf:params:oauth:token-type:access_token\",\"subjectToken\":");
        json::write_quoted(&mut body, subject_token);
        body.append(",\"subjectTokenType\":");
        json::write_quoted(&mut body, self.subject_token_type.as_str());
        body.append("}");
        proof {
            assert(body@ =~= sts_exchange_body(
                self.audience@,
                json::join_spaces(self.exchange_scopes(scopes.deep_view())),
                subject_token@,
                self.subject_token_type@,
            ));
        }
        HttpRequest {
            method: Method::Post,
            uri: self.token_url.clone(),
            body,
            bearer: None,
        }
    }

    /// The impersonation request: a POST to the configured impersonation
    /// URL, authenticated with the exchanged bootstrap token as bearer,
    /// asking for the caller's scopes.
    pub fn impersonation_request(&self, scopes: &Vec<String>, bearer: &str) -> (r: HttpRequest)
        requires
            self.service_account_impersonation_url is Some,
        ensures
            r@ == (HttpRequestV {
                method: Method::Post,
                uri: self.service_account_impersonation_url.unwrap()@,
                body: impersonation_body(scopes.deep_view()),
                bearer: Some(bearer@),
            }),
    {
        let mut body = String::new();
        body.append("{\"delegates\":null,\"scope\":");
        json::write_quoted_array(&mut body, scopes);
        body.append(",\"lifetime\":\"3600s\"}");
        proof {
            assert(body@ =~= impersonation_body(scopes.deep_view()));
        }
        let uri = match &self.service_account_impersonation_url {
            Some(u) => u.clone(),
            None => {
                proof {
                    assert(false);
                }
                String::new()
            },
        };
        HttpRequest {
            method: Method::Post,
            uri,
            body,
            bearer: Some(String::from_str(bearer)),
        }
    }
}

} // verus!
