//! How a session is established.

use dxlink::error::DXLinkError;
use dxlink::handshake::{check_reply, Due, Handshake, HandshakeStep, Phase};
use dxlink::json::JsonValue;

const SETUP: &str = r#"{"channel":0,"type":"SETUP","version":"1.0","keepaliveTimeout":30}"#;

fn auth_state(state: &str) -> String {
    format!(r#"{{"channel":0,"type":"AUTH_STATE","state":"{state}"}}"#)
}

fn after_setup() -> Handshake {
    let mut handshake = Handshake::new(60);
    handshake.on_server_setup(Some(SETUP), None).expect("a SETUP");
    handshake
}

fn complaint(raw: Option<&str>) -> DXLinkError {
    Handshake::new(60).on_server_setup(raw, None).unwrap_err()
}

#[test]
fn a_server_that_asks_for_the_credential_gets_it_once() {
    let handshake = Handshake::new(60);
    assert_eq!(
        handshake.setup_message().to_value().render(),
        r#"{"channel":0,"type":"SETUP","keepaliveTimeout":60,"acceptKeepaliveTimeout":60,"version":"0.1-dxlink-rs/0.3.0"}"#
    );

    let mut handshake = after_setup();
    assert_eq!(handshake.negotiated(), Some(30));
    assert_eq!(handshake.phase(), Phase::AuthState);

    let asked = handshake
        .on_auth_state(Some(&auth_state("UNAUTHORIZED")), None, "secret")
        .expect("the server asks");
    match asked {
        HandshakeStep::Authenticate(auth) => assert_eq!(
            auth.to_value().render(),
            r#"{"channel":0,"type":"AUTH","token":"secret"}"#
        ),
        HandshakeStep::Established => panic!("the credential is due"),
    }
    assert_eq!(handshake.phase(), Phase::Authorization);

    let done = handshake
        .on_auth_state(Some(&auth_state("AUTHORIZED")), None, "secret")
        .expect("the server accepts");
    assert!(matches!(done, HandshakeStep::Established));
    assert_eq!(handshake.phase(), Phase::Established);
}

#[test]
fn a_session_that_is_authorized_needs_no_credential() {
    let mut handshake = after_setup();
    let done = handshake
        .on_auth_state(Some(&auth_state("AUTHORIZED")), None, "secret")
        .expect("authorized");
    assert!(matches!(done, HandshakeStep::Established));
}

#[test]
fn a_credential_that_is_refused_is_an_authentication_error() {
    let mut handshake = after_setup();
    handshake
        .on_auth_state(Some(&auth_state("UNAUTHORIZED")), None, "secret")
        .expect("the server asks");
    let error = handshake
        .on_auth_state(Some(&auth_state("UNAUTHORIZED")), None, "secret")
        .map(|_| ())
        .unwrap_err();
    assert_eq!(
        error.to_string(),
        "Authentication error: during AUTH, the server reported state UNAUTHORIZED instead of \
         AUTHORIZED"
    );

    let error = after_setup()
        .on_auth_state(Some(&auth_state("MAYBE")), None, "secret")
        .map(|_| ())
        .unwrap_err();
    assert_eq!(
        error.to_string(),
        "Protocol error: during SETUP, the server reported an unknown authentication state: MAYBE"
    );
}

#[test]
fn a_deadline_of_zero_is_none() {
    for setup in [
        r#"{"channel":0,"type":"SETUP","keepaliveTimeout":0}"#,
        r#"{"channel":0,"type":"SETUP","keepaliveTimeout":null}"#,
        r#"{"channel":0,"type":"SETUP"}"#,
    ] {
        let mut handshake = Handshake::new(60);
        handshake.on_server_setup(Some(setup), None).expect("a SETUP");
        assert_eq!(handshake.negotiated(), None);
    }
}

#[test]
fn an_answer_that_is_not_the_one_that_is_due_is_named() {
    assert_eq!(
        complaint(None).to_string(),
        "Timeout error: timed out after 10s waiting for SETUP on channel 0 during SETUP"
    );
    let words = serde_json::from_str::<serde_json::Value>("{nope").unwrap_err();
    assert_eq!(
        complaint(Some("{nope")).to_string(),
        format!(
            "Protocol error: during SETUP, expected SETUP on channel 0 but the server sent \
             malformed JSON: {words}"
        )
    );
    assert_eq!(
        complaint(Some(r#"{"channel":0,"type":"KEEPALIVE"}"#)).to_string(),
        "Protocol error: during SETUP, expected SETUP but received KEEPALIVE"
    );
    assert_eq!(
        complaint(Some("[]")).to_string(),
        "Protocol error: during SETUP, expected SETUP but received <missing type>"
    );
    assert_eq!(
        complaint(Some(r#"{"channel":7,"type":"SETUP"}"#)).to_string(),
        "Protocol error: during SETUP, expected SETUP on channel 0 but it arrived on channel 7"
    );
    assert_eq!(
        complaint(Some(r#"{"type":"SETUP"}"#)).to_string(),
        "Protocol error: during SETUP, expected SETUP on channel 0 but it arrived on channel \
         <missing>"
    );
}

/// How the JSON library refuses a message.
fn refusal(words: &str) -> Option<serde_json::Error> {
    Some(serde::de::Error::custom(words))
}

#[test]
fn a_message_that_is_refused_as_one_of_its_type_ends_the_handshake() {
    let twice = r#"{"channel":0,"type":"SETUP","version":"a","version":"b"}"#;
    let words = "duplicate field `version` at line 1 column 50";
    let mut handshake = Handshake::new(60);
    let error = handshake
        .on_server_setup(Some(twice), refusal(words))
        .unwrap_err();
    assert!(matches!(error, DXLinkError::Serialization(_)));
    assert_eq!(error.to_string(), format!("Serialization error: {words}"));
    assert_eq!(handshake.phase(), Phase::Setup);

    let words = "missing field `state` at line 1 column 33";
    let mut handshake = after_setup();
    let error = handshake
        .on_auth_state(
            Some(r#"{"channel":0,"type":"AUTH_STATE"}"#),
            refusal(words),
            "t",
        )
        .map(|_| ())
        .unwrap_err();
    assert_eq!(error.to_string(), format!("Serialization error: {words}"));
    assert_eq!(handshake.phase(), Phase::AuthState);

    // What is not the message that is due is named as such first.
    let error = Handshake::new(60)
        .on_server_setup(Some("[]"), refusal("invalid length 0"))
        .unwrap_err();
    assert_eq!(
        error.to_string(),
        "Protocol error: during SETUP, expected SETUP but received <missing type>"
    );

    // Nothing is taken for a message whose fields are not there.
    assert_eq!(
        complaint(Some(r#"{"channel":0,"type":"SETUP","version":4}"#)).to_string(),
        "Serialization error: field `version` should be a string, got 4"
    );
    let error = after_setup()
        .on_auth_state(Some(r#"{"channel":0,"type":"AUTH_STATE"}"#), None, "t")
        .map(|_| ())
        .unwrap_err();
    assert_eq!(
        error.to_string(),
        "Serialization error: missing field `state`"
    );
}

#[test]
fn an_error_of_the_server_is_reported_without_what_it_must_not_repeat() {
    let secret = "s".repeat(40);
    let raw = format!(
        r#"{{"channel":0,"type":"ERROR","error":"unauthorized","message":"bad token {secret}"}}"#
    );
    let error = complaint(Some(&raw));
    assert!(matches!(error, DXLinkError::Authentication(_)));
    assert_eq!(
        error.to_string(),
        "Authentication error: during SETUP, the server returned unauthorized: bad token \
         <redacted>"
    );

    let due = Due {
        state: "AUTH",
        expected_type: "AUTH_STATE",
        channel: 0,
    };
    let value = JsonValue::parse(r#"{"type":"ERROR"}"#).expect("JSON");
    let error = check_reply(&due, &value).unwrap_err();
    assert_eq!(
        error.to_string(),
        "Protocol error: during AUTH, the server returned unknown: "
    );
}
