use cloud_auth::auth::credentials::authorized_user::AuthorizedUser;
use cloud_auth::auth::credentials::external_account::{
    CredentialSource, ExternalAccount, File,
};
use cloud_auth::auth::credentials::{Credentials, Event, Flow, Step};
use cloud_auth::dispatch::{HttpResponse, Method};
use cloud_auth::Error;

fn scopes(names: &[&str]) -> Vec<String> {
    names.iter().map(|s| s.to_string()).collect()
}

fn authorized_user() -> Credentials {
    Credentials::AuthorizedUser(AuthorizedUser {
        client_id: "cid".to_string(),
        client_secret: "csecret".to_string(),
        refresh_token: "rtok".to_string(),
    })
}

fn external_account(impersonation: Option<&str>) -> Credentials {
    Credentials::ExternalAccount(ExternalAccount {
        audience: "aud".to_string(),
        subject_token_type: "urn:ietf:params:oauth:token-type:jwt".to_string(),
        service_account_impersonation_url: impersonation.map(|s| s.to_string()),
        token_url: "https://sts.example/token".to_string(),
        credential_source: CredentialSource::File(File {
            file: "/var/run/subject".to_string(),
        }),
    })
}

fn ok_response(body: &str) -> Event {
    Event::Response(Ok(HttpResponse {
        status: 200,
        body: body.as_bytes().to_vec(),
    }))
}

fn json_of(body: &str) -> serde_json::Value {
    serde_json::from_str(body).expect("request body must be valid JSON")
}

#[test]
fn authorized_user_round_trip() {
    let creds = authorized_user();
    let t0 = 1_700_000_000;
    let (flow, step) = creds.refresh(&scopes(&["s1", "s2"]), t0);
    let request = match step {
        Step::Fetch(r) => r,
        _ => panic!("expected a fetch step"),
    };
    assert!(matches!(request.method, Method::Post));
    assert_eq!(request.uri, "https://oauth2.googleapis.com/token");
    assert!(request.bearer.is_none());
    let body = json_of(&request.body);
    assert_eq!(body["grant_type"].as_str(), Some("refresh_token"));
    assert_eq!(body["client_id"].as_str(), Some("cid"));
    assert_eq!(body["client_secret"].as_str(), Some("csecret"));
    assert_eq!(body["refresh_token"].as_str(), Some("rtok"));
    assert_eq!(body["scope"].as_str(), Some("s1 s2"));

    let (_, step) = creds.resume(
        flow,
        ok_response("{\"access_token\":\"tok123\",\"expires_in\":3600}"),
    );
    match step {
        Step::Done(token) => {
            assert_eq!(token.access_token, "tok123");
            assert_eq!(token.expires_at, t0 + 3600);
        }
        _ => panic!("expected a token"),
    }
}

#[test]
fn authorized_user_tolerates_extra_members_and_whitespace() {
    let creds = authorized_user();
    let (flow, _) = creds.refresh(&scopes(&["s"]), 10);
    let (_, step) = creds.resume(
        flow,
        ok_response(
            " { \"token_type\" : \"Bearer\" , \"access_token\" : \"t\" ,\n\t\"scope\": \"s\", \"extra\": null, \"ok\": true, \"expires_in\" : 60 } ",
        ),
    );
    match step {
        Step::Done(token) => {
            assert_eq!(token.access_token, "t");
            assert_eq!(token.expires_at, 70);
        }
        _ => panic!("expected a token"),
    }
}

#[test]
fn external_account_without_impersonation() {
    let creds = external_account(None);
    let t0 = 500;
    let (flow, step) = creds.refresh(&scopes(&["scope1"]), t0);
    match &step {
        Step::ReadFile(path) => assert_eq!(path, "/var/run/subject"),
        _ => panic!("expected a file read"),
    }
    let (flow, step) = creds.resume(flow, Event::FileRead(Ok("subj".to_string())));
    let request = match step {
        Step::Fetch(r) => r,
        _ => panic!("expected the exchange fetch"),
    };
    assert_eq!(request.uri, "https://sts.example/token");
    assert!(request.bearer.is_none());
    let body = json_of(&request.body);
    assert_eq!(
        body["grantType"].as_str(),
        Some("urn:ietf:params:oauth:grant-type:token-exchange")
    );
    assert_eq!(body["audience"].as_str(), Some("aud"));
    // No impersonation URL: the caller's scopes go out directly.
    assert_eq!(body["scope"].as_str(), Some("scope1"));
    assert_eq!(
        body["requestedTokenType"].as_str(),
        Some("urn:ietf:params:oauth:token-type:access_token")
    );
    assert_eq!(body["subjectToken"].as_str(), Some("subj"));
    assert_eq!(
        body["subjectTokenType"].as_str(),
        Some("urn:ietf:params:oauth:token-type:jwt")
    );

    let (_, step) = creds.resume(
        flow,
        ok_response("{\"accessToken\":\"exch\",\"expiresIn\":1800}"),
    );
    match step {
        Step::Done(token) => {
            assert_eq!(token.access_token, "exch");
            assert_eq!(token.expires_at, t0 + 1800);
        }
        _ => panic!("expected the exchanged token"),
    }
}

#[test]
fn external_account_with_impersonation() {
    let creds = external_account(Some("https://impersonate.example/sa"));
    let t0 = 900;
    let (flow, _) = creds.refresh(&scopes(&["scope1"]), t0);
    let (flow, step) = creds.resume(flow, Event::FileRead(Ok("subj".to_string())));
    let request = match step {
        Step::Fetch(r) => r,
        _ => panic!("expected the exchange fetch"),
    };
    // Impersonation configured: the exchange asks for the default scope set,
    // not the caller's scopes.
    let body = json_of(&request.body);
    assert_eq!(
        body["scope"].as_str(),
        Some("https://www.googleapis.com/auth/cloud-platform")
    );

    let (flow, step) = creds.resume(
        flow,
        ok_response("{\"accessToken\":\"exch\",\"expiresIn\":1800}"),
    );
    let request = match step {
        Step::Fetch(r) => r,
        _ => panic!("expected the impersonation fetch"),
    };
    assert_eq!(request.uri, "https://impersonate.example/sa");
    // The impersonation call is bearer-authenticated with the exchanged token.
    assert_eq!(request.bearer.as_deref(), Some("exch"));
    assert_eq!(
        cloud_auth::dispatch::bearer_header_value("exch"),
        "Bearer exch"
    );
    let body = json_of(&request.body);
    assert!(body["delegates"].is_null());
    assert_eq!(body["scope"].as_array().unwrap().len(), 1);
    assert_eq!(body["scope"][0].as_str(), Some("scope1"));
    assert_eq!(body["lifetime"].as_str(), Some("3600s"));

    let (_, step) = creds.resume(
        flow,
        ok_response("{\"accessToken\":\"final\",\"expireTime\":\"2024-01-01T00:00:00Z\"}"),
    );
    match step {
        Step::Done(token) => {
            assert_eq!(token.access_token, "final");
            // The absolute expiry is used verbatim, no arithmetic against t0.
            let expected = chrono::DateTime::parse_from_rfc3339("2024-01-01T00:00:00Z")
                .unwrap()
                .timestamp();
            assert_eq!(token.expires_at, expected);
            assert_eq!(token.expires_at, 1_704_067_200);
        }
        _ => panic!("expected the impersonated token"),
    }
}

#[test]
fn http_error_classification() {
    // A non-2xx response is an HTTP-status error carrying status and raw
    // body, never a decode or transport error.
    let creds = authorized_user();
    let (flow, _) = creds.refresh(&scopes(&["s"]), 0);
    let (_, step) = creds.resume(
        flow,
        Event::Response(Ok(HttpResponse {
            status: 404,
            body: b"{\"error\":\"nope\"}".to_vec(),
        })),
    );
    match step {
        Step::Failed(Error::Http { status, body }) => {
            assert_eq!(status, 404);
            assert_eq!(body, b"{\"error\":\"nope\"}".to_vec());
        }
        _ => panic!("expected an HTTP status error"),
    }
}

#[test]
fn check_response_passes_success_through() {
    let ok = Error::check_response(HttpResponse {
        status: 204,
        body: b"x".to_vec(),
    });
    assert!(matches!(ok, Ok(r) if r.status == 204));
    let err = Error::check_response(HttpResponse {
        status: 500,
        body: b"boom".to_vec(),
    });
    match err {
        Err(Error::Http { status, body }) => {
            assert_eq!(status, 500);
            assert_eq!(body, b"boom".to_vec());
        }
        _ => panic!("expected an HTTP status error"),
    }
}

#[test]
fn transport_failure_is_distinct() {
    let creds = authorized_user();
    let (flow, _) = creds.refresh(&scopes(&["s"]), 0);
    let (_, step) = creds.resume(
        flow,
        Event::Response(Err("connection refused".to_string())),
    );
    match step {
        Step::Failed(Error::Transport(m)) => assert_eq!(m, "connection refused"),
        _ => panic!("expected a transport error"),
    }
}

#[test]
fn decode_failure_on_malformed_body() {
    let creds = authorized_user();
    let (flow, _) = creds.refresh(&scopes(&["s"]), 0);
    let (_, step) = creds.resume(flow, ok_response("{\"access_token\":12}"));
    assert!(matches!(step, Step::Failed(Error::Json(_))));
}

#[test]
fn io_failure_aborts_external_account_flow() {
    let creds = external_account(None);
    let (flow, _) = creds.refresh(&scopes(&["s"]), 0);
    let (_, step) = creds.resume(
        flow,
        Event::FileRead(Err("no such file".to_string())),
    );
    match step {
        Step::Failed(Error::Io(m)) => assert_eq!(m, "no such file"),
        _ => panic!("expected an I/O error"),
    }
}

#[test]
fn scope_strings_are_escaped_in_request_bodies() {
    // If the emitter passed text through unescaped, this body would not be
    // valid JSON and the round trip through a real JSON parser would fail.
    let creds = Credentials::AuthorizedUser(AuthorizedUser {
        client_id: "id \"quoted\" \\ back\nslash\ttab\u{1}".to_string(),
        client_secret: "s".to_string(),
        refresh_token: "r".to_string(),
    });
    let (_, step) = creds.refresh(&scopes(&["sc\"ope", "b"]), 0);
    let request = match step {
        Step::Fetch(r) => r,
        _ => panic!("expected a fetch step"),
    };
    let body = json_of(&request.body);
    assert_eq!(
        body["client_id"].as_str(),
        Some("id \"quoted\" \\ back\nslash\ttab\u{1}")
    );
    assert_eq!(body["scope"].as_str(), Some("sc\"ope b"));
}

#[test]
fn non_ascii_access_token_survives_decoding() {
    // Exercises the UTF-8 decoding boundary: the response bytes are not the
    // characters, so an identity-shaped decoder would get this wrong.
    let creds = authorized_user();
    let (flow, _) = creds.refresh(&scopes(&["s"]), 0);
    let body = "{\"access_token\":\"t\u{00f6}k\u{00ea}n \u{65e5}\",\"expires_in\":1}";
    let (_, step) = creds.resume(flow, ok_response(body));
    match step {
        Step::Done(token) => assert_eq!(token.access_token, "t\u{00f6}k\u{00ea}n \u{65e5}"),
        _ => panic!("expected a token"),
    }
}

#[test]
fn authorized_user_debug_text_redacts_secrets() {
    let au = AuthorizedUser {
        client_id: "cid".to_string(),
        client_secret: "hidden".to_string(),
        refresh_token: "hidden-too".to_string(),
    };
    let text = au.debug_text();
    assert_eq!(
        text,
        "AuthorizedUser { client_id: cid, client_secret: \"***\", refresh_token: \"***\" }"
    );
    assert!(!text.contains("hidden"));
}

fn run_flow(creds: &Credentials, mut flow: Flow, mut step: Step, response: &str) -> Step {
    loop {
        match step {
            Step::ReadFile(_) => {
                let next = creds.resume(flow, Event::FileRead(Ok("subj".to_string())));
                flow = next.0;
                step = next.1;
            }
            Step::Fetch(_) => {
                let next = creds.resume(flow, ok_response(response));
                flow = next.0;
                step = next.1;
            }
            done => return done,
        }
    }
}

#[test]
fn racing_refreshes_converge_to_a_valid_cache() {
    // Documented thundering-herd shape: several callers miss for the same
    // scopes and each completes a full refresh; every store succeeds and the
    // last write wins, with no corruption.
    let creds = authorized_user();
    let key = scopes(&["s"]);
    let now = 100;
    let mut manager = cloud_auth::auth::Manager::new(authorized_user());
    let mut flows = Vec::new();
    for _ in 0..3 {
        match manager.refresh(&key, 60, now) {
            cloud_auth::auth::RefreshOutcome::Begin(flow, step) => flows.push((flow, step)),
            _ => panic!("cache starts empty"),
        }
    }
    let mut last = None;
    for (n, (flow, step)) in flows.into_iter().enumerate() {
        let body = format!(
            "{{\"access_token\":\"tok{}\",\"expires_in\":{}}}",
            n,
            600 + n
        );
        match run_flow(&creds, flow, step, &body) {
            Step::Done(token) => {
                last = Some(token.clone());
                manager.store(&key, token, now);
            }
            _ => panic!("refresh must succeed"),
        }
    }
    let last = last.unwrap();
    match manager.refresh(&key, 60, now) {
        cloud_auth::auth::RefreshOutcome::Cached(token) => {
            assert_eq!(token.access_token, last.access_token);
            assert_eq!(token.expires_at, last.expires_at);
        }
        _ => panic!("expected a cache hit"),
    }
}
