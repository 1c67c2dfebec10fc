//! What can go wrong, and what it means for the session.

use vstd::prelude::*;

verus! {

/// The error of the WebSocket transport, carried through as it is.
#[verifier::external_type_specification]
#[verifier::external_body]
pub struct ExTransportError(tokio_tungstenite::tungstenite::Error);

/// The error of the JSON library, carried through as it is.
#[verifier::external_type_specification]
#[verifier::external_body]
pub struct ExJsonError(serde_json::Error);

/// Everything that can go wrong.
#[derive(Debug)]
pub enum DXLinkError {
    /// The transport failed.
    WebSocket(tokio_tungstenite::tungstenite::Error),
    /// A message could not be written or read as JSON.
    Serialization(serde_json::Error),
    /// The server does not accept the credentials.
    Authentication(String),
    /// There is no connection, or it is gone.
    Connection(String),
    /// A channel is not what the operation needs.
    Channel(String),
    /// Client and server disagree about the protocol.
    Protocol(String),
    /// An answer did not come in time.
    Timeout(String),
    /// A frame arrived that has no place in the protocol.
    UnexpectedMessage(String),
    /// Anything else.
    Unknown(String),
}

/// What an error says: its kind and its text.
pub enum ErrorView {
    WebSocket(tokio_tungstenite::tungstenite::Error),
    Serialization(serde_json::Error),
    Authentication(Seq<char>),
    Connection(Seq<char>),
    Channel(Seq<char>),
    Protocol(Seq<char>),
    Timeout(Seq<char>),
    UnexpectedMessage(Seq<char>),
    Unknown(Seq<char>),
}

impl View for DXLinkError {
    type V = ErrorView;

    open spec fn view(&self) -> ErrorView {
        match *self {
            DXLinkError::WebSocket(e) => ErrorView::WebSocket(e),
            DXLinkError::Serialization(e) => ErrorView::Serialization(e),
            DXLinkError::Authentication(text) => ErrorView::Authentication(text@),
            DXLinkError::Connection(text) => ErrorView::Connection(text@),
            DXLinkError::Channel(text) => ErrorView::Channel(text@),
            DXLinkError::Protocol(text) => ErrorView::Protocol(text@),
            DXLinkError::Timeout(text) => ErrorView::Timeout(text@),
            DXLinkError::UnexpectedMessage(text) => ErrorView::UnexpectedMessage(text@),
            DXLinkError::Unknown(text) => ErrorView::Unknown(text@),
        }
    }
}

/// The result of an operation that can fail with a [`DXLinkError`].
pub type DXLinkResult<T> = Result<T, DXLinkError>;

/// Whether a text is how an error reads.
///
/// The text of an error with a text of its own is its prefix and that text.
/// The errors of the transport and of the JSON library have words of their
/// own, which can depend on the machine; there the prefix alone is fixed, but
/// for an error of the JSON library that was made from some words.
pub open spec fn reads_as(text: Seq<char>, error: ErrorView) -> bool {
    match error {
        ErrorView::WebSocket(_) => "WebSocket error: "@.is_prefix_of(text),
        ErrorView::Serialization(e) => {
            &&& "Serialization error: "@.is_prefix_of(text)
            &&& forall|words: Seq<char>|
                e == #[trigger] reading_error(words) && !ends_in_position(words) ==> text
                    == "Serialization error: "@ + words
        },
        ErrorView::Authentication(detail) => text == "Authentication error: "@ + detail,
        ErrorView::Connection(detail) => text == "Connection error: "@ + detail,
        ErrorView::Channel(detail) => text == "Channel error: "@ + detail,
        ErrorView::Protocol(detail) => text == "Protocol error: "@ + detail,
        ErrorView::Timeout(detail) => text == "Timeout error: "@ + detail,
        ErrorView::UnexpectedMessage(detail) => text == "Unexpected message: "@ + detail,
        ErrorView::Unknown(detail) => text == "Unknown error: "@ + detail,
    }
}

/// Whether an error means that the connection cannot be used any more.
///
/// The transport is gone, or the server does not accept the client. A read
/// that timed out, a frame that has no place and a message that cannot be
/// understood say nothing about the socket.
pub open spec fn ends_connection(error: ErrorView) -> bool {
    error is WebSocket || error is Connection || error is Authentication
}

/// The words of a transport error.
///
/// Stands for the `Display` of the transport's error; nothing is claimed of
/// them, since an error of the operating system speaks its language.
#[verifier::external_body]
fn transport_words(error: &tokio_tungstenite::tungstenite::Error) -> String {
    error.to_string()
}

/// Whether a text consists of digits.
pub open spec fn is_digits(text: Seq<char>) -> bool {
    forall|i: int| 0 <= i < text.len() ==> '0' <= #[trigger] text[i] <= '9'
}

/// Whether words end in a line and a column.
pub open spec fn ends_in_position(words: Seq<char>) -> bool {
    exists|rest: Seq<char>, line: Seq<char>, column: Seq<char>|
        is_digits(line) && is_digits(column) && words == #[trigger] (rest + " at line "@ + line
            + " column "@ + column)
}

/// The words of a JSON error.
///
/// Stands for the `Display` of the JSON library's error. Claims that an error
/// which was made from some words says those words; where they end in a line
/// and a column the library takes these for the place of the error and writes
/// them anew, and nothing is claimed. Of any other error nothing is claimed
/// either, since it can wrap one of the operating system.
#[verifier::external_body]
fn json_words(error: &serde_json::Error) -> (r: String)
    ensures
        forall|words: Seq<char>|
            *error == #[trigger] reading_error(words) && !ends_in_position(words) ==> r@ == words,
{
    error.to_string()
}

/// The error of the JSON library that carries some words.
pub uninterp spec fn reading_error(words: Seq<char>) -> serde_json::Error;

/// An error of the JSON library for a message whose fields are not as they
/// should be.
///
/// Stands for `serde::de::Error::custom` on the JSON library's error. The error
/// is a function of the words, and is named [`reading_error`]. How it reads is
/// what the words of a JSON error say.
#[verifier::external_body]
fn json_error(words: &str) -> (r: serde_json::Error)
    ensures
        r == reading_error(words@),
{
    serde::de::Error::custom(words)
}

fn prefixed(prefix: &str, detail: &str) -> (r: String)
    ensures
        r@ == prefix@ + detail@,
        prefix@.is_prefix_of(r@),
{
    let mut text = prefix.to_owned();
    text.append(detail);
    text
}

impl DXLinkError {
    /// How the error reads.
    pub fn to_string(&self) -> (r: String)
        ensures
            reads_as(r@, self@),
    {
        match self {
            DXLinkError::WebSocket(e) => prefixed("WebSocket error: ", transport_words(e).as_str()),
            DXLinkError::Serialization(e) => prefixed(
                "Serialization error: ",
                json_words(e).as_str(),
            ),
            DXLinkError::Authentication(e) => prefixed("Authentication error: ", e.as_str()),
            DXLinkError::Connection(e) => prefixed("Connection error: ", e.as_str()),
            DXLinkError::Channel(e) => prefixed("Channel error: ", e.as_str()),
            DXLinkError::Protocol(e) => prefixed("Protocol error: ", e.as_str()),
            DXLinkError::Timeout(e) => prefixed("Timeout error: ", e.as_str()),
            DXLinkError::UnexpectedMessage(e) => prefixed("Unexpected message: ", e.as_str()),
            DXLinkError::Unknown(e) => prefixed("Unknown error: ", e.as_str()),
        }
    }

    /// The error of a message whose fields are not as they should be.
    pub fn unreadable(words: &str) -> (r: DXLinkError)
        ensures
            r@ == ErrorView::Serialization(reading_error(words@)),
    {
        DXLinkError::Serialization(json_error(words))
    }

    /// Whether the error means that the connection cannot be used any more.
    pub fn is_terminal(&self) -> (r: bool)
        ensures
            r == ends_connection(self@),
    {
        match self {
            DXLinkError::WebSocket(_) | DXLinkError::Connection(_) | DXLinkError::Authentication(
                _,
            ) => true,
            DXLinkError::Serialization(_) | DXLinkError::Channel(_) | DXLinkError::Protocol(_)
            | DXLinkError::Timeout(_) | DXLinkError::UnexpectedMessage(_)
            | DXLinkError::Unknown(_) => false,
        }
    }
}

impl From<tokio_tungstenite::tungstenite::Error> for DXLinkError {
    fn from(e: tokio_tungstenite::tungstenite::Error) -> (r: Self) {
        DXLinkError::WebSocket(e)
    }
}

impl vstd::std_specs::convert::FromSpecImpl<tokio_tungstenite::tungstenite::Error> for DXLinkError {
    open spec fn obeys_from_spec() -> bool {
        true
    }

    open spec fn from_spec(e: tokio_tungstenite::tungstenite::Error) -> Self {
        DXLinkError::WebSocket(e)
    }
}

impl From<serde_json::Error> for DXLinkError {
    fn from(e: serde_json::Error) -> (r: Self) {
        DXLinkError::Serialization(e)
    }
}

impl vstd::std_specs::convert::FromSpecImpl<serde_json::Error> for DXLinkError {
    open spec fn obeys_from_spec() -> bool {
        true
    }

    open spec fn from_spec(e: serde_json::Error) -> Self {
        DXLinkError::Serialization(e)
    }
}

} // verus!
