//! Credential sources and the refresh flow.
//!
//! A [`Credentials`] value encapsulates exactly one way to obtain a fresh
//! token: an OAuth2 refresh-token grant ([`AuthorizedUser`]), or an STS
//! token exchange with optional service-account impersonation
//! ([`ExternalAccount`]). Adding a source means adding a variant and one
//! match arm.
//!
//! A refresh is a short conversation with the outside world — read a file,
//! one or two HTTP round trips. The library performs none of it: it returns
//! a [`Step`] naming the next piece of outside work, the embedding program
//! performs it and hands the outcome back as an [`Event`], and
//! [`Credentials::resume`] decides the next step. Every decision —
//! which endpoint, which body, which scopes, which bearer, how a response
//! is classified and decoded, how expiry is computed — is specified and
//! verified here; the embedding program only moves bytes.

use vstd::prelude::*;

pub mod authorized_user;
pub mod external_account;

use super::{Token, TokenV};
use crate::dispatch::{HttpRequest, HttpRequestV, HttpResponse, HttpResponseV, Method};
use crate::json;
use crate::{Error, ErrorV};
use authorized_user::AuthorizedUser;
use external_account::ExternalAccount;

verus! {

/// The next piece of outside work in a refresh, or its conclusion.
pub enum Step {
    /// Send this request and hand back the response.
    Fetch(HttpRequest),
    /// Read this file to its end and hand back its contents.
    ReadFile(String),
    /// The refresh succeeded with this token.
    Done(Token),
    /// The refresh failed; nothing was cached.
    Failed(Error),
}

/// The abstract value of a [`Step`].
pub enum StepV {
    Fetch(HttpRequestV),
    ReadFile(Seq<char>),
    Done(TokenV),
    Failed(ErrorV),
}

impl View for Step {
    type V = StepV;

    open spec fn view(&self) -> StepV {
        match self {
            Step::Fetch(r) => StepV::Fetch(r@),
            Step::ReadFile(p) => StepV::ReadFile(p@),
            Step::Done(t) => StepV::Done(t@),
            Step::Failed(e) => StepV::Failed(e@),
        }
    }
}

/// The outcome of the outside work a [`Step`] asked for. An `Err` carries
/// the failure rendered as text: an I/O error for [`Event::FileRead`], a
/// transport-level error for [`Event::Response`].
pub enum Event {
    FileRead(Result<String, String>),
    Response(Result<HttpResponse, String>),
}

/// The abstract value of an [`Event`].
pub enum EventV {
    FileRead(Result<Seq<char>, Seq<char>>),
    Response(Result<HttpResponseV, Seq<char>>),
}

impl View for Event {
    type V = EventV;

    open spec fn view(&self) -> EventV {
        match self {
            Event::FileRead(Ok(s)) => EventV::FileRead(Ok(s@)),
            Event::FileRead(Err(m)) => EventV::FileRead(Err(m@)),
            Event::Response(Ok(r)) => EventV::Response(Ok(r@)),
            Event::Response(Err(m)) => EventV::Response(Err(m@)),
        }
    }
}

/// Where a refresh conversation stands: what the flow is waiting for.
/// `started` is the time the refresh began; relative expiries are anchored
/// there, to be conservative about elapsed network latency.
pub enum FlowState {
    /// An authorized-user grant awaits the token endpoint's response.
    AwaitingToken { started: i64 },
    /// An external account awaits the subject-token file contents.
    AwaitingFile { started: i64 },
    /// An external account awaits the STS exchange response.
    AwaitingExchange { started: i64 },
    /// An external account awaits the impersonation response.
    AwaitingImpersonation,
    /// The flow has concluded with `Done` or `Failed`.
    Finished,
}

/// One in-flight refresh conversation: the caller's scopes, verbatim, and
/// the flow position.
pub struct Flow {
    pub scopes: Vec<String>,
    pub state: FlowState,
}

/// The decode-failure message for a response that does not hold the
/// expected members.
pub open spec fn shape_msg() -> Seq<char> {
    "unexpected token response shape"@
}

/// The decode-failure message for an expiry that cannot be represented.
pub open spec fn expiry_msg() -> Seq<char> {
    "token expiry out of range"@
}

/// What a token-endpoint response means when its expiry is relative: a 2xx
/// response must hold a flat JSON object with the token under `token_key`
/// and a lifetime in seconds under `expiry_key`; the token then expires at
/// `started + lifetime`. Anything else is the exact error that the caller
/// sees: a non-2xx status with its body, or a decode failure.
pub open spec fn relative_token_outcome(
    resp: HttpResponseV,
    started: i64,
    token_key: Seq<char>,
    expiry_key: Seq<char>,
) -> Result<TokenV, ErrorV> {
    if !(200 <= resp.status < 300) {
        Err(ErrorV::Http { status: resp.status, body: resp.body })
    } else if !vstd::utf8::valid_utf8(resp.body) {
        Err(ErrorV::Json(shape_msg()))
    } else {
        match json::spec_parse_object(vstd::utf8::decode_utf8(resp.body)) {
            None => Err(ErrorV::Json(shape_msg())),
            Some(ms) => match (json::spec_field_of(ms, token_key), json::spec_field_of(
                ms,
                expiry_key,
            )) {
                (Some(json::FieldV::Str(tok)), Some(json::FieldV::Int(lifetime))) => {
                    if i64::MIN <= started + lifetime <= i64::MAX {
                        Ok(TokenV { access_token: tok, expires_at: (started + lifetime) as i64 })
                    } else {
                        Err(ErrorV::Json(expiry_msg()))
                    }
                },
                _ => Err(ErrorV::Json(shape_msg())),
            },
        }
    }
}

/// What a token-endpoint response means when it names the expiry as an
/// absolute RFC 3339 timestamp under `expiry_key`: the token expires at that
/// instant verbatim — no arithmetic.
pub open spec fn absolute_token_outcome(
    resp: HttpResponseV,
    token_key: Seq<char>,
    expiry_key: Seq<char>,
) -> Result<TokenV, ErrorV> {
    if !(200 <= resp.status < 300) {
        Err(ErrorV::Http { status: resp.status, body: resp.body })
    } else if !vstd::utf8::valid_utf8(resp.body) {
        Err(ErrorV::Json(shape_msg()))
    } else {
        match json::spec_parse_object(vstd::utf8::decode_utf8(resp.body)) {
            None => Err(ErrorV::Json(shape_msg())),
            Some(ms) => match (json::spec_field_of(ms, token_key), json::spec_field_of(
                ms,
                expiry_key,
            )) {
                (Some(json::FieldV::Str(tok)), Some(json::FieldV::Str(stamp))) => {
                    match external_account::rfc3339_secs(stamp) {
                        Some(secs) => Ok(TokenV { access_token: tok, expires_at: secs }),
                        None => Err(ErrorV::Json(shape_msg())),
                    }
                },
                _ => Err(ErrorV::Json(shape_msg())),
            },
        }
    }
}

/// The abstract value of a `Result<Token, Error>`.
pub open spec fn token_result_view(r: Result<Token, Error>) -> Result<TokenV, ErrorV> {
    match r {
        Ok(t) => Ok(t@),
        Err(e) => Err(e@),
    }
}

/// Decodes a token-endpoint response with a relative expiry; see
/// [`relative_token_outcome`].
pub fn token_from_relative_response(
    response: HttpResponse,
    started: i64,
    token_key: &str,
    expiry_key: &str,
) -> (r: Result<Token, Error>)
    ensures
        token_result_view(r) == relative_token_outcome(response@, started, token_key@, expiry_key@),
{
    let checked = Error::check_response(response);
    match checked {
        Err(e) => Err(e),
        Ok(resp) => match json::utf8_to_string(&resp.body) {
            None => Err(Error::Json(String::from_str("unexpected token response shape"))),
            Some(text) => match json::parse_object(text.as_str()) {
                None => Err(Error::Json(String::from_str("unexpected token response shape"))),
                Some(ms) => {
                    let tok = json::field_of(&ms, token_key);
                    match tok {
                        Some(json::Field::Str(t)) => {
                            let t = t.clone();
                            let exp = json::field_of(&ms, expiry_key);
                            match exp {
                                Some(json::Field::Int(lifetime)) => {
                                    let sum: i128 = started as i128 + *lifetime as i128;
                                    if i64::MIN as i128 <= sum && sum <= i64::MAX as i128 {
                                        Ok(Token { access_token: t, expires_at: sum as i64 })
                                    } else {
                                        Err(
                                            Error::Json(
                                                String::from_str("token expiry out of range"),
                                            ),
                                        )
                                    }
                                },
                                _ => Err(
                                    Error::Json(
                                        String::from_str("unexpected token response shape"),
                                    ),
                                ),
                            }
                        },
                        _ => Err(
                            Error::Json(String::from_str("unexpected token response shape")),
                        ),
                    }
                },
            },
        },
    }
}

/// Decodes a token-endpoint response with an absolute expiry; see
/// [`absolute_token_outcome`].
pub fn token_from_absolute_response(
    response: HttpResponse,
    token_key: &str,
    expiry_key: &str,
) -> (r: Result<Token, Error>)
    ensures
        token_result_view(r) == absolute_token_outcome(response@, token_key@, expiry_key@),
{
    let checked = Error::check_response(response);
    match checked {
        Err(e) => Err(e),
        Ok(resp) => match json::utf8_to_string(&resp.body) {
            None => Err(Error::Json(String::from_str("unexpected token response shape"))),
            Some(text) => match json::parse_object(text.as_str()) {
                None => Err(Error::Json(String::from_str("unexpected token response shape"))),
                Some(ms) => {
                    let tok = json::field_of(&ms, token_key);
                    match tok {
                        Some(json::Field::Str(t)) => {
                            let t = t.clone();
                            let exp = json::field_of(&ms, expiry_key);
                            match exp {
                                Some(json::Field::Str(stamp)) => {
                                    match external_account::parse_rfc3339_secs(stamp.as_str()) {
                                        Some(secs) => Ok(
                                            Token { access_token: t, expires_at: secs },
                                        ),
                                        None => Err(
                                            Error::Json(
                                                String::from_str(
                                                    "unexpected token response shape",
                                                ),
                                            ),
                                        ),
                                    }
                                },
                                _ => Err(
                                    Error::Json(
                                        String::from_str("unexpected token response shape"),
                                    ),
                                ),
                            }
                        },
                        _ => Err(
                            Error::Json(String::from_str("unexpected token response shape")),
                        ),
                    }
                },
            },
        },
    }
}

/// The one credential description a process runs with; immutable after
/// construction.
pub enum Credentials {
    AuthorizedUser(AuthorizedUser),
    ExternalAccount(ExternalAccount),
}

/// The first step of a refresh: what each credential source does before it
/// has seen any outside answer.
pub open spec fn refresh_step_spec(c: Credentials, scopes: Seq<Seq<char>>, now: i64) -> (
    FlowState,
    StepV,
) {
    match c {
        Credentials::AuthorizedUser(u) => (
            FlowState::AwaitingToken { started: now },
            StepV::Fetch(
                HttpRequestV {
                    method: Method::Post,
                    uri: authorized_user::token_endpoint(),
                    body: authorized_user::authorized_user_body(
                        u.client_id@,
                        u.client_secret@,
                        u.refresh_token@,
                        scopes,
                    ),
                    bearer: None,
                },
            ),
        ),
        Credentials::ExternalAccount(e) => (
            FlowState::AwaitingFile { started: now },
            StepV::ReadFile(e.credential_source.path()),
        ),
    }
}

/// Which events a flow position can take, and from which credential kind.
pub open spec fn expects(state: FlowState, c: Credentials, ev: EventV) -> bool {
    match state {
        FlowState::AwaitingToken { .. } => c is AuthorizedUser && ev is Response,
        FlowState::AwaitingFile { .. } => c is ExternalAccount && ev is FileRead,
        FlowState::AwaitingExchange { .. } => c is ExternalAccount && ev is Response,
        FlowState::AwaitingImpersonation => (c matches Credentials::ExternalAccount(ea)
            && ea.service_account_impersonation_url is Some) && ev is Response,
        FlowState::Finished => false,
    }
}

/// The whole refresh protocol, one transition at a time: what each flow
/// position does with the event it was waiting for. Failure at any stage
/// concludes the flow with that stage's error; no partial credential
/// survives.
pub open spec fn resume_step_spec(
    c: Credentials,
    scopes: Seq<Seq<char>>,
    state: FlowState,
    ev: EventV,
) -> (FlowState, StepV) {
    match state {
        FlowState::AwaitingToken { started } => (
            FlowState::Finished,
            match ev {
                EventV::Response(Err(m)) => StepV::Failed(ErrorV::Transport(m)),
                EventV::Response(Ok(resp)) => match relative_token_outcome(
                    resp,
                    started,
                    "access_token"@,
                    "expires_in"@,
                ) {
                    Ok(t) => StepV::Done(t),
                    Err(e) => StepV::Failed(e),
                },
                _ => StepV::Failed(ErrorV::NoAuthProvider),
            },
        ),
        FlowState::AwaitingFile { started } => match (c, ev) {
            (Credentials::ExternalAccount(ea), EventV::FileRead(Ok(subject))) => (
                FlowState::AwaitingExchange { started },
                StepV::Fetch(
                    HttpRequestV {
                        method: Method::Post,
                        uri: ea.token_url@,
                        body: external_account::sts_exchange_body(
                            ea.audience@,
                            json::join_spaces(ea.exchange_scopes(scopes)),
                            subject,
                            ea.subject_token_type@,
                        ),
                        bearer: None,
                    },
                ),
            ),
            (_, EventV::FileRead(Err(m))) => (FlowState::Finished, StepV::Failed(ErrorV::Io(m))),
            _ => (FlowState::Finished, StepV::Failed(ErrorV::NoAuthProvider)),
        },
        FlowState::AwaitingExchange { started } => match (c, ev) {
            (Credentials::ExternalAccount(ea), EventV::Response(Ok(resp))) => match
                relative_token_outcome(resp, started, "accessToken"@, "expiresIn"@) {
                Err(e) => (FlowState::Finished, StepV::Failed(e)),
                Ok(t) => match ea.service_account_impersonation_url {
                    Option::None => (FlowState::Finished, StepV::Done(t)),
                    Option::Some(url) => (
                        FlowState::AwaitingImpersonation,
                        StepV::Fetch(
                            HttpRequestV {
                                method: Method::Post,
                                uri: url@,
                                body: external_account::impersonation_body(scopes),
                                bearer: Some(t.access_token),
                            },
                        ),
                    ),
                },
            },
            (_, EventV::Response(Err(m))) => (
                FlowState::Finished,
                StepV::Failed(ErrorV::Transport(m)),
            ),
            _ => (FlowState::Finished, StepV::Failed(ErrorV::NoAuthProvider)),
        },
        FlowState::AwaitingImpersonation => (
            FlowState::Finished,
            match ev {
                EventV::Response(Err(m)) => StepV::Failed(ErrorV::Transport(m)),
                EventV::Response(Ok(resp)) => match absolute_token_outcome(
                    resp,
                    "accessToken"@,
                    "expireTime"@,
                ) {
                    Ok(t) => StepV::Done(t),
                    Err(e) => StepV::Failed(e),
                },
                _ => StepV::Failed(ErrorV::NoAuthProvider),
            },
        ),
        FlowState::Finished => (FlowState::Finished, StepV::Failed(ErrorV::NoAuthProvider)),
    }
}

impl Credentials {
    /// Begins a refresh for `scopes` at time `now`: hands back the flow and
    /// its first step, as [`refresh_step_spec`] states for this credential
    /// kind.
    pub fn refresh(&self, scopes: &Vec<String>, now: i64) -> (r: (Flow, Step))
        ensures
            r.0.scopes.deep_view() == scopes.deep_view(),
            (r.0.state, r.1@) == refresh_step_spec(*self, scopes.deep_view(), now),
    {
        let owned = super::cache::clone_scopes(scopes);
        match self {
            Credentials::AuthorizedUser(u) => {
                let step = u.refresh(scopes);
                (Flow { scopes: owned, state: FlowState::AwaitingToken { started: now } }, step)
            },
            Credentials::ExternalAccount(e) => {
                let step = e.refresh();
                (Flow { scopes: owned, state: FlowState::AwaitingFile { started: now } }, step)
            },
        }
    }

    /// Advances a refresh with the outcome of the step it was waiting for,
    /// as [`resume_step_spec`] states. The flow's own scopes — not anything
    /// the embedding program re-supplies — drive every scope decision.
    pub fn resume(&self, flow: Flow, event: Event) -> (r: (Flow, Step))
        requires
            expects(flow.state, *self, event@),
        ensures
            r.0.scopes.deep_view() == flow.scopes.deep_view(),
            (r.0.state, r.1@) == resume_step_spec(
                *self,
                flow.scopes.deep_view(),
                flow.state,
                event@,
            ),
    {
        let Flow { scopes, state } = flow;
        match state {
            FlowState::AwaitingToken { started } => match event {
                Event::Response(Err(m)) => (
                    Flow { scopes, state: FlowState::Finished },
                    Step::Failed(Error::Transport(m)),
                ),
                Event::Response(Ok(resp)) => {
                    let step = match token_from_relative_response(
                        resp,
                        started,
                        "access_token",
                        "expires_in",
                    ) {
                        Ok(t) => Step::Done(t),
                        Err(e) => Step::Failed(e),
                    };
                    (Flow { scopes, state: FlowState::Finished }, step)
                },
                Event::FileRead(_) => {
                    proof {
                        assert(false);
                    }
                    (
                        Flow { scopes, state: FlowState::Finished },
                        Step::Failed(Error::NoAuthProvider),
                    )
                },
            },
            FlowState::AwaitingFile { started } => match self {
                Credentials::ExternalAccount(ea) => match event {
                    Event::FileRead(Ok(subject)) => {
                        let req = ea.exchange_request(&scopes, subject.as_str());
                        (
                            Flow { scopes, state: FlowState::AwaitingExchange { started } },
                            Step::Fetch(req),
                        )
                    },
                    Event::FileRead(Err(m)) => (
                        Flow { scopes, state: FlowState::Finished },
                        Step::Failed(Error::Io(m)),
                    ),
                    Event::Response(_) => {
                        proof {
                            assert(false);
                        }
                        (
                            Flow { scopes, state: FlowState::Finished },
                            Step::Failed(Error::NoAuthProvider),
                        )
                    },
                },
                Credentials::AuthorizedUser(_) => {
                    proof {
                        assert(false);
                    }
                    (
                        Flow { scopes, state: FlowState::Finished },
                        Step::Failed(Error::NoAuthProvider),
                    )
                },
            },
            FlowState::AwaitingExchange { started } => match self {
                Credentials::ExternalAccount(ea) => match event {
                    Event::Response(Ok(resp)) => {
                        match token_from_relative_response(
                            resp,
                            started,
                            "accessToken",
                            "expiresIn",
                        ) {
                            Err(e) => (
                                Flow { scopes, state: FlowState::Finished },
                                Step::Failed(e),
                            ),
                            Ok(t) => match &ea.service_account_impersonation_url {
                                None => (
                                    Flow { scopes, state: FlowState::Finished },
                                    Step::Done(t),
                                ),
                                Some(_) => {
                                    let req = ea.impersonation_request(
                                        &scopes,
                                        t.access_token.as_str(),
                                    );
                                    (
                                        Flow {
                                            scopes,
                                            state: FlowState::AwaitingImpersonation,
                                        },
                                        Step::Fetch(req),
                                    )
                                },
                            },
                        }
                    },
                    Event::Response(Err(m)) => (
                        Flow { scopes, state: FlowState::Finished },
                        Step::Failed(Error::Transport(m)),
                    ),
                    Event::FileRead(_) => {
                        proof {
                            assert(false);
                        }
                        (
                            Flow { scopes, state: FlowState::Finished },
                            Step::Failed(Error::NoAuthProvider),
                        )
                    },
                },
                Credentials::AuthorizedUser(_) => {
                    proof {
                        assert(false);
                    }
                    (
                        Flow { scopes, state: FlowState::Finished },
                        Step::Failed(Error::NoAuthProvider),
                    )
                },
            },
            FlowState::AwaitingImpersonation => match event {
                Event::Response(Ok(resp)) => {
                    let step = match token_from_absolute_response(
                        resp,
                        "accessToken",
                        "expireTime",
                    ) {
                        Ok(t) => Step::Done(t),
                        Err(e) => Step::Failed(e),
                    };
                    (Flow { scopes, state: FlowState::Finished }, step)
                },
                Event::Response(Err(m)) => (
                    Flow { scopes, state: FlowState::Finished },
                    Step::Failed(Error::Transport(m)),
                ),
                Event::FileRead(_) => {
                    proof {
                        assert(false);
                    }
                    (
                        Flow { scopes, state: FlowState::Finished },
                        Step::Failed(Error::NoAuthProvider),
                    )
                },
            },
            FlowState::Finished => {
                proof {
                    assert(false);
                }
                (Flow { scopes, state: FlowState::Finished }, Step::Failed(Error::NoAuthProvider))
            },
        }
    }
}

} // verus!

verus! {

/// An authorized-user refresh that receives a well-formed 2xx token
/// response concludes with exactly the token the endpoint named, its expiry
/// anchored at the time the refresh began — `started + expires_in`, not the
/// response-arrival time.
pub proof fn lemma_authorized_user_round_trip(
    c: Credentials,
    scopes: Seq<Seq<char>>,
    started: i64,
    resp: HttpResponseV,
    ms: Seq<(Seq<char>, json::FieldV)>,
    tok: Seq<char>,
    lifetime: i64,
)
    requires
        c is AuthorizedUser,
        200 <= resp.status < 300,
        vstd::utf8::valid_utf8(resp.body),
        json::spec_parse_object(vstd::utf8::decode_utf8(resp.body)) == Some(ms),
        json::spec_field_of(ms, "access_token"@) == Some(json::FieldV::Str(tok)),
        json::spec_field_of(ms, "expires_in"@) == Some(json::FieldV::Int(lifetime)),
        i64::MIN <= started + lifetime <= i64::MAX,
    ensures
        resume_step_spec(c, scopes, FlowState::AwaitingToken { started }, EventV::Response(Ok(resp)))
            == (
        FlowState::Finished,
        StepV::Done(TokenV { access_token: tok, expires_at: (started + lifetime) as i64 }),
        ),
{
}

/// Without impersonation, the STS exchange is made with the caller's
/// requested scopes, space-joined and order preserved, against the
/// configured token URL, unauthenticated.
pub proof fn lemma_exchange_uses_caller_scopes(
    ea: ExternalAccount,
    scopes: Seq<Seq<char>>,
    started: i64,
    subject: Seq<char>,
)
    requires
        ea.service_account_impersonation_url is None,
    ensures
        resume_step_spec(
            Credentials::ExternalAccount(ea),
            scopes,
            FlowState::AwaitingFile { started },
            EventV::FileRead(Ok(subject)),
        ) == (
        FlowState::AwaitingExchange { started },
        StepV::Fetch(
            HttpRequestV {
                method: Method::Post,
                uri: ea.token_url@,
                body: external_account::sts_exchange_body(
                    ea.audience@,
                    json::join_spaces(scopes),
                    subject,
                    ea.subject_token_type@,
                ),
                bearer: None,
            },
        ),
        ),
{
}

/// Without impersonation, the exchanged token is the final answer: a
/// well-formed exchange response concludes the flow with it directly.
pub proof fn lemma_exchange_concludes_without_impersonation(
    ea: ExternalAccount,
    scopes: Seq<Seq<char>>,
    started: i64,
    resp: HttpResponseV,
    exchanged: TokenV,
)
    requires
        ea.service_account_impersonation_url is None,
        relative_token_outcome(resp, started, "accessToken"@, "expiresIn"@) == Ok::<
            TokenV,
            ErrorV,
        >(exchanged),
    ensures
        resume_step_spec(
            Credentials::ExternalAccount(ea),
            scopes,
            FlowState::AwaitingExchange { started },
            EventV::Response(Ok(resp)),
        ) == (FlowState::Finished, StepV::Done(exchanged)),
{
}

/// With impersonation configured, the STS exchange is made with the fixed
/// default scope set — the exchanged token only bootstraps the
/// impersonation call, so the caller's scopes are withheld until then.
pub proof fn lemma_exchange_uses_default_scopes(
    ea: ExternalAccount,
    scopes: Seq<Seq<char>>,
    started: i64,
    subject: Seq<char>,
)
    requires
        ea.service_account_impersonation_url is Some,
    ensures
        resume_step_spec(
            Credentials::ExternalAccount(ea),
            scopes,
            FlowState::AwaitingFile { started },
            EventV::FileRead(Ok(subject)),
        ) == (
        FlowState::AwaitingExchange { started },
        StepV::Fetch(
            HttpRequestV {
                method: Method::Post,
                uri: ea.token_url@,
                body: external_account::sts_exchange_body(
                    ea.audience@,
                    json::join_spaces(crate::default_scopes_view()),
                    subject,
                    ea.subject_token_type@,
                ),
                bearer: None,
            },
        ),
        ),
{
}

/// A successful exchange under impersonation does not conclude the flow: the
/// next step presents the exchanged token as bearer to the configured
/// impersonation URL and asks for the caller's scopes.
pub proof fn lemma_impersonation_carries_bearer(
    ea: ExternalAccount,
    url: String,
    scopes: Seq<Seq<char>>,
    started: i64,
    resp: HttpResponseV,
    exchanged: TokenV,
)
    requires
        ea.service_account_impersonation_url == Some(url),
        relative_token_outcome(resp, started, "accessToken"@, "expiresIn"@) == Ok::<
            TokenV,
            ErrorV,
        >(exchanged),
    ensures
        resume_step_spec(
            Credentials::ExternalAccount(ea),
            scopes,
            FlowState::AwaitingExchange { started },
            EventV::Response(Ok(resp)),
        ) == (
        FlowState::AwaitingImpersonation,
        StepV::Fetch(
            HttpRequestV {
                method: Method::Post,
                uri: url@,
                body: external_account::impersonation_body(scopes),
                bearer: Some(exchanged.access_token),
            },
        ),
        ),
{
}

/// The impersonation response names an absolute expiry; the flow concludes
/// with that instant verbatim — no arithmetic against the refresh start.
pub proof fn lemma_impersonation_expiry_verbatim(
    ea: ExternalAccount,
    scopes: Seq<Seq<char>>,
    resp: HttpResponseV,
    ms: Seq<(Seq<char>, json::FieldV)>,
    tok: Seq<char>,
    stamp: Seq<char>,
    secs: i64,
)
    requires
        ea.service_account_impersonation_url is Some,
        200 <= resp.status < 300,
        vstd::utf8::valid_utf8(resp.body),
        json::spec_parse_object(vstd::utf8::decode_utf8(resp.body)) == Some(ms),
        json::spec_field_of(ms, "accessToken"@) == Some(json::FieldV::Str(tok)),
        json::spec_field_of(ms, "expireTime"@) == Some(json::FieldV::Str(stamp)),
        external_account::rfc3339_secs(stamp) == Some(secs),
    ensures
        resume_step_spec(
            Credentials::ExternalAccount(ea),
            scopes,
            FlowState::AwaitingImpersonation,
            EventV::Response(Ok(resp)),
        ) == (
        FlowState::Finished,
        StepV::Done(TokenV { access_token: tok, expires_at: secs }),
        ),
{
}

} // verus!
