//! The decisions of a client of DXLink, the WebSocket protocol for market data.
//!
//! Nothing here reads a socket, a clock or a random number. A function takes what was received,
//! what was asked or how long was waited, and says what follows: the events in a batch, the
//! message to send, the state to keep, the next thing to do. The program around it does the
//! input and output.
//!
//! - [`connection`], [`handshake`], [`reader`]: what arrives on a connection and what it means
//! - [`compact`], [`layout`], [`events`], [`schema`]: the batches of a feed, decoded by the layout
//!   that was agreed for its channel
//! - [`client`], [`requests`], [`subscriptions`], [`messages`]: what the client keeps and sends
//! - [`reconnect`], [`supervisor`], [`replay`], [`shutdown`], [`delivery`]: how long a lost
//!   session is waited for, how it is rebuilt, and how it ends
//! - [`wire`], [`full`]: messages and events as JSON
//! - [`json`], [`text`], [`error`]: what these are built from
//! - [`promises`], [`wire_promises`]: what holds of all of it, from an input to its result

pub(crate) mod channels;
pub mod client;
pub mod compact;
pub mod connection;
pub mod delivery;
pub mod error;
pub mod events;
pub mod full;
pub mod handshake;
pub mod json;
pub mod layout;
pub mod messages;
pub mod promises;
pub mod reader;
pub mod reconnect;
pub mod replay;
pub mod requests;
pub mod schema;
pub mod shutdown;
pub mod subscriptions;
pub mod supervisor;
pub mod text;
pub mod wire;
pub mod wire_promises;
