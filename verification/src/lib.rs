//! Protocol and state logic of a small JSON-over-TCP chat: the messages that
//! clients and server exchange, their wire encoding, the server's table of
//! users and rooms, and the client's command line.

pub mod json;
pub mod room;
pub mod table;
pub mod protocol;
pub mod server_messages;
pub mod shapes;
pub mod text;
pub mod user;
pub mod dispatch;
pub mod client;
pub mod server;
pub mod connection;
pub mod laws;
pub mod wire_laws;
