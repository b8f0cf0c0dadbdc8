//! Message shapes of the server in which every variant carries the name of
//! its kind as a `type` text field, alongside the typed messages of
//! `protocol`. They are data only: the server reads and writes the typed
//! messages.
use std::collections::HashMap;
use vstd::prelude::*;

use crate::protocol::State;

verus! {

/// A message of either direction, with its kind as text.
pub enum Menssages {
    Identify { type_msg: String, username: String },
    Response { type_msg: String, operation: String, result: String, extra: String },
    NewUser { type_msg: String, username: String },
    Status { type_msg: String, status: String },
    NewStatus { type_msg: String, username: String, status: String },
    Users { type_msg: String },
    GiveUsers { type_msg: String, users: HashMap<String, State> },
}

/// A message from a client, with its kind as text.
pub enum TypeReciveMesagges {
    Identify { type_msg: String, username: String },
    NewUser { type_msg: String, username: String },
    Status { type_msg: String, status: String },
    Users { type_msg: String },
    TextFrom { type_msg: String, username: String, text: String },
    PublicText { type_msg: String, text: String },
    RoomMesagge { type_msg: String, roomname: String },
    Invitation { type_msg: String, roomname: String, usernames: String },
    JoinRoom { type_msg: String, roomname: String },
    RoomText { type_msg: String, roomname: String, text: String },
    Disconect { type_msg: String },
}

/// A message to a client, with its kind as text.
pub enum TypeSendMesagges {
    Response { type_msg: String, operation: String, result: String, extra: String },
    NewStatus { type_msg: String, username: String, status: State },
    GiveUsers { type_msg: String, users: HashMap<String, State> },
    TextFrom { type_msg: String, username: String, text: String },
    Invitation { type_msg: String, usernamme: String, roomname: String },
    RoomOperations { type_msg: String, roomname: String, username: String },
    RoomUsers { type_msg: String, roomname: String, users: HashMap<String, State> },
    IdentifyOrDisconect { type_msg: String, username: String },
    UsersList { type_msg: String, users: HashMap<String, State> },
    RoomText { type_msg: String, roomname: String, username: String, text: String },
    Invalid { type_msg: String, operation: String, result: String },
}

} // verus!
