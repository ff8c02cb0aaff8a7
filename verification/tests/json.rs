use cloud_auth::auth::credentials::authorized_user::AuthorizedUser;
use cloud_auth::auth::credentials::{Credentials, Step};
use cloud_auth::json::{field_of, parse_object, Field};

fn get<'a>(ms: &'a Vec<(String, Field)>, name: &str) -> &'a Field {
    field_of(ms, name).expect("member must be present")
}

#[test]
fn decodes_flat_objects() {
    let ms = parse_object(
        " {\"a\": \"x\", \"n\": -42, \"t\": true, \"f\": false, \"z\": null} ",
    )
    .unwrap();
    assert!(matches!(get(&ms, "a"), Field::Str(s) if s == "x"));
    assert!(matches!(get(&ms, "n"), Field::Int(-42)));
    assert!(matches!(get(&ms, "t"), Field::Bool(true)));
    assert!(matches!(get(&ms, "f"), Field::Bool(false)));
    assert!(matches!(get(&ms, "z"), Field::Null));
    assert!(field_of(&ms, "missing").is_none());
}

#[test]
fn decodes_the_empty_object() {
    let ms = parse_object("  { }  ").unwrap();
    assert!(ms.is_empty());
}

#[test]
fn decodes_string_escapes() {
    let ms = parse_object(
        "{\"s\": \"q\\\" b\\\\ s\\/ \\b\\f\\n\\r\\t \\u0041 \\u00e9 \\ud83d\\ude00\"}",
    )
    .unwrap();
    match get(&ms, "s") {
        Field::Str(s) => assert_eq!(
            s,
            "q\" b\\ s/ \u{8}\u{c}\n\r\t A \u{e9} \u{1f600}"
        ),
        _ => panic!("expected a string"),
    }
}

#[test]
fn rejects_malformed_documents() {
    // Nested values, floats, lone surrogates, trailing text, and bare
    // control characters are all outside this dialect.
    assert!(parse_object("{\"a\": {\"b\": 1}}").is_none());
    assert!(parse_object("{\"a\": [1, 2]}").is_none());
    assert!(parse_object("{\"a\": 1.5}").is_none());
    assert!(parse_object("{\"a\": 1e3}").is_none());
    assert!(parse_object("{\"a\": 01}").is_none());
    assert!(parse_object("{\"a\": \"\\ud83d\"}").is_none());
    assert!(parse_object("{\"a\": 1} trailing").is_none());
    assert!(parse_object("{\"a\": \"\u{1}\"}").is_none());
    assert!(parse_object("{\"a\": 1,}").is_none());
    assert!(parse_object("[1]").is_none());
    assert!(parse_object("").is_none());
}

#[test]
fn integer_bounds_are_exact() {
    let ms = parse_object("{\"max\": 9223372036854775807, \"min\": -9223372036854775808}")
        .unwrap();
    assert!(matches!(get(&ms, "max"), Field::Int(i64::MAX)));
    assert!(matches!(get(&ms, "min"), Field::Int(i64::MIN)));
    assert!(parse_object("{\"a\": 9223372036854775808}").is_none());
    assert!(parse_object("{\"a\": -9223372036854775809}").is_none());
    assert!(parse_object("{\"a\": 99999999999999999999999999}").is_none());
}

#[test]
fn first_member_wins_on_duplicate_names() {
    let ms = parse_object("{\"a\": 1, \"a\": 2}").unwrap();
    assert!(matches!(get(&ms, "a"), Field::Int(1)));
}

#[test]
fn default_scopes_name_the_platform_scope() {
    let scopes = cloud_auth::default_scopes();
    assert_eq!(
        scopes,
        vec!["https://www.googleapis.com/auth/cloud-platform".to_string()]
    );
}

#[test]
fn emitted_bodies_decode_to_the_original_values() {
    // The decoder inverts the emitter: a request body built by the library
    // is decodable by the library's own decoder, escapes and all.
    let secret = "we\"ird \\ secret\nwith \u{3} control";
    let creds = Credentials::AuthorizedUser(AuthorizedUser {
        client_id: "cid".to_string(),
        client_secret: secret.to_string(),
        refresh_token: "rtok".to_string(),
    });
    let scopes = vec!["a".to_string(), "b".to_string()];
    let (_, step) = creds.refresh(&scopes, 0);
    let body = match step {
        Step::Fetch(request) => request.body,
        _ => panic!("expected a fetch step"),
    };
    let ms = parse_object(&body).expect("an emitted body is decodable");
    assert!(matches!(get(&ms, "client_secret"), Field::Str(s) if s == secret));
    assert!(matches!(get(&ms, "scope"), Field::Str(s) if s == "a b"));
}
