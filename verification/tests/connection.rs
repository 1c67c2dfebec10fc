//! What may reach a log, and what a frame means.

use dxlink::connection::{
    connect_failed, connect_timed_out, on_frame, redact_sensitive, redact_value,
    sanitize_server_text, CloseReason, Frame, Received, MAX_CLOSE_REASON_LEN,
    MAX_CLOSE_REASON_WORD_LEN, REDACTED_PLACEHOLDER,
};
use dxlink::error::DXLinkError;
use dxlink::json::JsonValue;
use dxlink::messages::{AuthMessage, KeepaliveMessage};
use dxlink::text::{control_char, white_space};
use tokio_tungstenite::tungstenite;

#[test]
fn test_redact_sensitive_masks_auth_token() {
    let auth_msg = AuthMessage {
        channel: 0,
        message_type: "AUTH".to_string(),
        token: "super-secret-token".to_string(),
    };
    let json = auth_msg.to_value().render();

    let redacted = redact_sensitive(&json);

    assert!(!redacted.contains("super-secret-token"));
    let value: serde_json::Value = serde_json::from_str(&redacted).unwrap();
    assert_eq!(value["token"], REDACTED_PLACEHOLDER);
    assert_eq!(value["type"], "AUTH");
    assert_eq!(value["channel"], 0);
}

#[test]
fn test_redact_sensitive_masks_nested_tokens() {
    let json = r#"{"outer":{"token":"secret-a"},"list":[{"Token":"secret-b"}],"safe":"visible"}"#;

    let redacted = redact_sensitive(json);

    assert!(!redacted.contains("secret-a"));
    assert!(!redacted.contains("secret-b"));
    assert!(redacted.contains("visible"));
}

#[test]
fn test_redact_sensitive_leaves_other_messages_untouched() {
    let keepalive = KeepaliveMessage {
        channel: 3,
        message_type: "KEEPALIVE".to_string(),
    };
    let json = keepalive.to_value().render();

    let redacted = redact_sensitive(&json);

    let value: serde_json::Value = serde_json::from_str(&redacted).unwrap();
    assert_eq!(value["channel"], 3);
    assert_eq!(value["type"], "KEEPALIVE");
    assert!(!redacted.contains(REDACTED_PLACEHOLDER));
    assert_eq!(redacted, json);
}

#[test]
fn test_redact_sensitive_withholds_unparseable_payloads() {
    assert_eq!(redact_sensitive("not json"), REDACTED_PLACEHOLDER);
}

#[test]
fn a_credential_is_masked_whatever_it_is_and_twice_changes_nothing() {
    let json = r#"{"TOKEN":{"deep":["a",1]},"a":[[{"tOkEn":null}]],"tokens":"kept"}"#;
    let once = redact_sensitive(json);
    assert_eq!(
        once,
        r#"{"TOKEN":"<redacted>","a":[[{"tOkEn":"<redacted>"}]],"tokens":"kept"}"#
    );
    assert_eq!(redact_sensitive(&once), once);

    let mut value = JsonValue::Object(vec![
        ("token".to_string(), JsonValue::Bool(true)),
        ("other".to_string(), JsonValue::Null),
    ]);
    redact_value(&mut value);
    assert_eq!(value.render(), r#"{"token":"<redacted>","other":null}"#);
}

#[test]
fn test_sanitize_server_text_keeps_ordinary_text() {
    // The diagnostic value of a close reason is the whole point of keeping it,
    // so normal wording must survive untouched.
    assert_eq!(
        sanitize_server_text("invalid token, please re-authenticate"),
        "invalid token, please re-authenticate"
    );
}

#[test]
fn test_sanitize_server_text_masks_credential_shaped_runs() {
    let token = "a".repeat(64);
    let sanitized = sanitize_server_text(&format!("rejected token {token} for user bob"));

    assert!(!sanitized.contains(&token), "token survived: {sanitized}");
    assert!(sanitized.contains(REDACTED_PLACEHOLDER));
    // Everything that is not credential-shaped is still readable.
    assert!(sanitized.contains("rejected token"));
    assert!(sanitized.contains("for user bob"));
}

#[test]
fn test_sanitize_server_text_drops_control_characters() {
    let sanitized = sanitize_server_text("bad\u{0}token\nsecond line\u{7}");

    assert!(!sanitized.contains('\u{0}'));
    assert!(!sanitized.contains('\u{7}'));
    assert!(!sanitized.contains('\n'));
}

#[test]
fn test_sanitize_server_text_is_bounded() {
    // Many short words: nothing is credential-shaped, so only the overall
    // length limit applies.
    let long = "word ".repeat(200);
    let sanitized = sanitize_server_text(&long);

    assert_eq!(sanitized.chars().count(), MAX_CLOSE_REASON_LEN);
}

#[test]
fn test_sanitize_server_text_handles_empty_input() {
    assert_eq!(sanitize_server_text(""), "");
}

#[test]
fn the_longest_word_is_kept_and_one_more_letter_masks_it() {
    let word = "x".repeat(MAX_CLOSE_REASON_WORD_LEN);
    assert_eq!(sanitize_server_text(&word), word);
    assert_eq!(sanitize_server_text(&format!("{word}x")), REDACTED_PLACEHOLDER);
    assert_eq!(sanitize_server_text("  a \u{2003} b  "), "a b");
}

#[test]
fn characters_are_classified_as_unicode_classifies_them() {
    for n in 0..=0x10_ffff_u32 {
        if let Some(c) = char::from_u32(n) {
            assert_eq!(control_char(c), c.is_control(), "control: {n:#x}");
            assert_eq!(white_space(c), c.is_whitespace(), "white space: {n:#x}");
        }
    }
}

#[test]
fn frames_mean_what_the_protocol_says() {
    assert!(matches!(
        on_frame(Frame::Text("payload".to_string())),
        Received::Payload(text) if text == "payload"
    ));
    assert!(matches!(on_frame(Frame::Ping), Received::Skip));
    assert!(matches!(on_frame(Frame::Pong), Received::Skip));
    assert!(matches!(on_frame(Frame::Raw), Received::Skip));

    let close = Frame::Close(Some(CloseReason {
        code: 4401,
        reason: format!("bad token {}", "z".repeat(40)),
    }));
    match on_frame(close) {
        Received::Closed(DXLinkError::Connection(text)) => assert_eq!(
            text,
            "server closed the connection (code 4401, reason: bad token <redacted>)"
        ),
        _ => panic!("a close is a lost connection"),
    }
    match on_frame(Frame::Close(None)) {
        Received::Closed(DXLinkError::Connection(text)) => {
            assert_eq!(text, "server closed the connection (no close frame)")
        }
        _ => panic!("a close is a lost connection"),
    }
    match on_frame(Frame::Binary(12)) {
        Received::Failed(DXLinkError::UnexpectedMessage(text)) => assert_eq!(
            text,
            "Expected text message, got a binary frame of 12 bytes"
        ),
        _ => panic!("a binary frame has no place"),
    }
    assert!(matches!(
        on_frame(Frame::Failed(tungstenite::Error::ConnectionClosed)),
        Received::Failed(DXLinkError::WebSocket(_))
    ));
    match on_frame(Frame::End) {
        Received::Failed(DXLinkError::Connection(text)) => {
            assert_eq!(text, "Connection closed unexpectedly")
        }
        _ => panic!("the end of the stream is a lost connection"),
    }
}

#[test]
fn a_connection_that_is_not_established_says_why() {
    assert_eq!(
        connect_failed("refused").to_string(),
        "Connection error: Failed to connect: refused"
    );
    assert_eq!(
        connect_timed_out("wss://x").to_string(),
        "Timeout error: timed out after 10s establishing the WebSocket connection to wss://x"
    );
}

#[test]
fn test_failure_dumps_do_not_carry_the_token() {
    let mut message = JsonValue::parse(r#"{"type":"AUTH","channel":0,"token":"real-secret"}"#)
        .expect("an object");
    redact_value(&mut message);
    let dumped = format!("{:#?}", vec![message]);

    assert!(!dumped.contains("real-secret"), "token leaked: {dumped}");
    assert!(dumped.contains("<redacted>"));
    // The rest of the message still has to be readable, that is the point
    // of the dump.
    assert!(dumped.contains("AUTH"));
}

#[test]
fn sanitized_text_is_tidy() {
    for text in [
        "  a \t\u{3000} b\nc  ".to_string(),
        "word ".repeat(200),
        format!("{} {}", "x".repeat(33), "y".repeat(32)),
        "abcdefghi ".repeat(12),
        "ab ".repeat(60),
        String::new(),
    ] {
        let once = sanitize_server_text(&text);
        assert!(!once.starts_with(' ') && !once.contains("  "), "{once:?}");
        assert_eq!(sanitize_server_text(&once), once.trim_end());
    }
    assert_eq!(sanitize_server_text("  a \t\u{3000} b  "), "a b");
    assert_eq!(sanitize_server_text(&"word ".repeat(200)).chars().count(), 120);
}
