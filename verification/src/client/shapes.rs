//! Message shapes of the client in which every variant carries the name of
//! its kind as a `type` text field. They are data only: the client reads
//! and writes the typed messages of `protocol`.
use std::collections::HashMap;
use vstd::prelude::*;

verus! {

/// A message to a client, with its kind as text.
pub enum TypeReciveMesagge {
    Identify { typ_msg: String, username: String },
    Status { typ_msg: String, username: String, status: String },
    UsersList { typ_msg: String, users: HashMap<String, String> },
    TextFrom { typ_msg: String, username: String, text: String },
    PublicTextFrom { typ_msg: String, username: String, text: String },
    JoinedRoom { typ_msg: String, roomname: String, username: String },
    RoomUserList { typ_msg: String, roomname: String, users: HashMap<String, String> },
    RoomTextFrom { typ_msg: String, roomname: String, username: String, text: String },
    LeftRoom { typ_msg: String, roomname: String, username: String },
    Disconected { typ_msg: String, username: String },
}

/// A message from a client, with its kind as text.
pub enum TypeSendMesagges {
    Identify { typ_msg: String, username: String },
    Status { typ_msg: String, status: String },
    Users { typ_msg: String },
    Text { typ_msg: String, username: String, text: String },
    PublicText { typ_msg: String, text: String },
    NewRoom { typ_msg: String, roomname: String },
    Invite { typ_msg: String, roomname: String, usernames: Vec<String> },
    JoinRoom { typ_msg: String, roomname: String },
    RoomUsers { typ_msg: String, roomname: String },
    RoomText { typ_msg: String, roomname: String, text: String },
    LeaveRoom { typ_msg: String, roomname: String },
    Disconect { typ_msg: String },
}

} // verus!
