//! How errors read, and what they mean for the session.

use dxlink::error::{DXLinkError, DXLinkResult};
use tokio_tungstenite::tungstenite;

fn json_error() -> serde_json::Error {
    serde_json::from_str::<serde_json::Value>("invalid json").unwrap_err()
}

#[test]
fn test_error_display() {
    let ws_error = tungstenite::Error::ConnectionClosed;
    let error = DXLinkError::WebSocket(ws_error);
    assert!(error.to_string().starts_with("WebSocket error:"));

    let error = DXLinkError::Serialization(json_error());
    assert!(error.to_string().starts_with("Serialization error:"));

    let error = DXLinkError::Authentication("Invalid token".to_string());
    assert_eq!(error.to_string(), "Authentication error: Invalid token");

    let error = DXLinkError::Connection("Connection refused".to_string());
    assert_eq!(error.to_string(), "Connection error: Connection refused");

    let error = DXLinkError::Channel("Channel not found".to_string());
    assert_eq!(error.to_string(), "Channel error: Channel not found");

    let error = DXLinkError::Protocol("Invalid protocol".to_string());
    assert_eq!(error.to_string(), "Protocol error: Invalid protocol");

    let error = DXLinkError::Timeout("Operation timed out".to_string());
    assert_eq!(error.to_string(), "Timeout error: Operation timed out");

    let error = DXLinkError::UnexpectedMessage("Unexpected message received".to_string());
    assert_eq!(
        error.to_string(),
        "Unexpected message: Unexpected message received"
    );

    let error = DXLinkError::Unknown("Unknown error occurred".to_string());
    assert_eq!(error.to_string(), "Unknown error: Unknown error occurred");
}

#[test]
fn test_from_websocket_error() {
    let ws_error = tungstenite::Error::ConnectionClosed;
    let error: DXLinkError = ws_error.into();

    match error {
        DXLinkError::WebSocket(_) => {}
        _ => panic!("Expected WebSocket error"),
    }
}

#[test]
fn test_from_serialization_error() {
    let error: DXLinkError = json_error().into();

    match error {
        DXLinkError::Serialization(_) => {}
        _ => panic!("Expected Serialization error"),
    }
}

#[test]
fn test_result_type_alias() {
    let ok_result: DXLinkResult<i32> = Ok(42);
    assert_eq!(ok_result.unwrap(), 42);

    let err_result: DXLinkResult<i32> = Err(DXLinkError::Unknown("test".to_string()));
    assert!(err_result.is_err());

    match err_result {
        Ok(_) => panic!("Expected error"),
        Err(e) => match e {
            DXLinkError::Unknown(msg) => assert_eq!(msg, "test"),
            _ => panic!("Expected Unknown error"),
        },
    }
}

fn returns_websocket_error() -> DXLinkResult<()> {
    let ws_error = tungstenite::Error::ConnectionClosed;
    Err(ws_error.into())
}

fn propagates_error() -> DXLinkResult<()> {
    returns_websocket_error()?;
    Ok(())
}

#[test]
fn test_error_propagation() {
    let result = propagates_error();
    assert!(result.is_err());
    match result {
        Ok(_) => panic!("Expected error"),
        Err(e) => match e {
            DXLinkError::WebSocket(_) => {}
            _ => panic!("Expected WebSocket error"),
        },
    }
}

#[test]
fn the_words_of_an_outside_error_follow_its_prefix() {
    let error = DXLinkError::WebSocket(tungstenite::Error::ConnectionClosed);
    assert_eq!(
        error.to_string(),
        format!("WebSocket error: {}", tungstenite::Error::ConnectionClosed)
    );
    let error = DXLinkError::Serialization(json_error());
    assert_eq!(
        error.to_string(),
        format!("Serialization error: {}", json_error())
    );
    let error = DXLinkError::unreadable("missing field `state`");
    assert_eq!(
        error.to_string(),
        "Serialization error: missing field `state`"
    );
}

#[test]
fn only_a_lost_or_refused_connection_is_terminal() {
    assert!(DXLinkError::WebSocket(tungstenite::Error::ConnectionClosed).is_terminal());
    assert!(DXLinkError::Connection("gone".to_string()).is_terminal());
    assert!(DXLinkError::Authentication("no".to_string()).is_terminal());

    assert!(!DXLinkError::Serialization(json_error()).is_terminal());
    assert!(!DXLinkError::Channel("c".to_string()).is_terminal());
    assert!(!DXLinkError::Protocol("p".to_string()).is_terminal());
    assert!(!DXLinkError::Timeout("t".to_string()).is_terminal());
    assert!(!DXLinkError::UnexpectedMessage("u".to_string()).is_terminal());
    assert!(!DXLinkError::Unknown("?".to_string()).is_terminal());
}

#[test]
fn an_error_made_from_words_says_them() {
    for words in ["missing field `state`", "odd at line 3", "", "no such field at line 2 column 7"] {
        let error = DXLinkError::unreadable(words);
        assert_eq!(error.to_string(), format!("Serialization error: {words}"));
    }
}
