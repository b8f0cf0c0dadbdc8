//! The messages of the chat protocol and their encoding. Each message is a
//! JSON object whose first member is `"type"`, naming the kind of message,
//! followed by the message's fields in declaration order; an absent optional
//! field is left out.
use vstd::prelude::*;

use crate::json::{encode_string_array, json_member, json_object, json_str, string_array, ObjectWriter};

verus! {

/// The presence state of a user.
#[derive(Clone, Copy, Debug, PartialEq, Eq, Structural)]
pub enum State {
    Busy,
    Away,
    Active,
}

/// The operation that a `RESPONSE` answers.
#[derive(Clone, Copy, Debug, PartialEq, Eq, Structural)]
pub enum Operations {
    Invite,
    JoinRoom,
    RoomUsers,
    RoomText,
    LeaveRoom,
    Identify,
    Text,
    NewRoom,
    Invalid,
}

/// The outcome that a `RESPONSE` reports.
#[derive(Clone, Copy, Debug, PartialEq, Eq, Structural)]
pub enum Resultado {
    Success,
    UserAlreadyExists,
    NoSuchUser,
    RoomAlreadyExists,
    NoSuchRoom,
    NotInvited,
    NotJoined,
    NotIdentified,
    Invalid,
}

/// A message from the server to a client.
#[derive(Clone, Debug, PartialEq, Eq)]
pub enum TypeSendMessages {
    Response { operation: Operations, result: Resultado, extra: Option<String> },
    NewUser { username: String },
    NewStatus { username: String, status: State },
    /// Each user's name with its state. The server's listings hold each
    /// name once (`distinct_names`).
    UserList { users: Vec<(String, State)> },
    TextFrom { username: String, text: String },
    PublicTextFrom { username: String, text: String },
    Invitation { username: String, roomname: String },
    JoinedRoom { roomname: String, username: String },
    /// Each member's name with its state. The server's listings hold each
    /// name once (`distinct_names`).
    RoomUserList { roomname: String, users: Vec<(String, State)> },
    RoomTextFrom { roomname: String, username: String, text: String },
    LeftRoom { roomname: String, username: String },
    Disconnected { username: String },
}

/// A message from a client to the server.
#[derive(Clone, Debug, PartialEq, Eq)]
pub enum TypeReciveMessages {
    Identify { username: String },
    Status { status: State },
    Users,
    Text { username: String, text: String },
    PublicText { text: String },
    NewRoom { roomname: String },
    Invite { roomname: String, usernames: Vec<String> },
    JoinRoom { roomname: String },
    RoomUsers { roomname: String },
    RoomText { roomname: String, text: String },
    LeaveRoom { roomname: String },
    Disconect,
}

/// A server message with its text as characters.
pub ghost enum SendView {
    Response { operation: Operations, result: Resultado, extra: Option<Seq<char>> },
    NewUser { username: Seq<char> },
    NewStatus { username: Seq<char>, status: State },
    UserList { users: Seq<(Seq<char>, State)> },
    TextFrom { username: Seq<char>, text: Seq<char> },
    PublicTextFrom { username: Seq<char>, text: Seq<char> },
    Invitation { username: Seq<char>, roomname: Seq<char> },
    JoinedRoom { roomname: Seq<char>, username: Seq<char> },
    RoomUserList { roomname: Seq<char>, users: Seq<(Seq<char>, State)> },
    RoomTextFrom { roomname: Seq<char>, username: Seq<char>, text: Seq<char> },
    LeftRoom { roomname: Seq<char>, username: Seq<char> },
    Disconnected { username: Seq<char> },
}

/// A client message with its text as characters.
pub ghost enum ReciveView {
    Identify { username: Seq<char> },
    Status { status: State },
    Users,
    Text { username: Seq<char>, text: Seq<char> },
    PublicText { text: Seq<char> },
    NewRoom { roomname: Seq<char> },
    Invite { roomname: Seq<char>, usernames: Seq<Seq<char>> },
    JoinRoom { roomname: Seq<char> },
    RoomUsers { roomname: Seq<char> },
    RoomText { roomname: Seq<char>, text: Seq<char> },
    LeaveRoom { roomname: Seq<char> },
    Disconect,
}

pub open spec fn strings_view(v: Seq<String>) -> Seq<Seq<char>> {
    v.map_values(|s: String| s@)
}


impl View for TypeSendMessages {
    type V = SendView;

    open spec fn view(&self) -> SendView {
        match self {
            TypeSendMessages::Response { operation, result, extra } => SendView::Response {
                operation: *operation,
                result: *result,
                extra: match extra {
                    Some(e) => Some(e@),
                    None => None,
                },
            },
            TypeSendMessages::NewUser { username } => SendView::NewUser { username: username@ },
            TypeSendMessages::NewStatus { username, status } => SendView::NewStatus {
                username: username@,
                status: *status,
            },
            TypeSendMessages::UserList { users } => SendView::UserList { users: states_view(users@) },
            TypeSendMessages::TextFrom { username, text } => SendView::TextFrom {
                username: username@,
                text: text@,
            },
            TypeSendMessages::PublicTextFrom { username, text } => SendView::PublicTextFrom {
                username: username@,
                text: text@,
            },
            TypeSendMessages::Invitation { username, roomname } => SendView::Invitation {
                username: username@,
                roomname: roomname@,
            },
            TypeSendMessages::JoinedRoom { roomname, username } => SendView::JoinedRoom {
                roomname: roomname@,
                username: username@,
            },
            TypeSendMessages::RoomUserList { roomname, users } => SendView::RoomUserList {
                roomname: roomname@,
                users: states_view(users@),
            },
            TypeSendMessages::RoomTextFrom { roomname, username, text } => SendView::RoomTextFrom {
                roomname: roomname@,
                username: username@,
                text: text@,
            },
            TypeSendMessages::LeftRoom { roomname, username } => SendView::LeftRoom {
                roomname: roomname@,
                username: username@,
            },
            TypeSendMessages::Disconnected { username } => SendView::Disconnected {
                username: username@,
            },
        }
    }
}

impl View for TypeReciveMessages {
    type V = ReciveView;

    open spec fn view(&self) -> ReciveView {
        match self {
            TypeReciveMessages::Identify { username } => ReciveView::Identify { username: username@ },
            TypeReciveMessages::Status { status } => ReciveView::Status { status: *status },
            TypeReciveMessages::Users => ReciveView::Users,
            TypeReciveMessages::Text { username, text } => ReciveView::Text {
                username: username@,
                text: text@,
            },
            TypeReciveMessages::PublicText { text } => ReciveView::PublicText { text: text@ },
            TypeReciveMessages::NewRoom { roomname } => ReciveView::NewRoom { roomname: roomname@ },
            TypeReciveMessages::Invite { roomname, usernames } => ReciveView::Invite {
                roomname: roomname@,
                usernames: strings_view(usernames@),
            },
            TypeReciveMessages::JoinRoom { roomname } => ReciveView::JoinRoom { roomname: roomname@ },
            TypeReciveMessages::RoomUsers { roomname } => ReciveView::RoomUsers { roomname: roomname@ },
            TypeReciveMessages::RoomText { roomname, text } => ReciveView::RoomText {
                roomname: roomname@,
                text: text@,
            },
            TypeReciveMessages::LeaveRoom { roomname } => ReciveView::LeaveRoom { roomname: roomname@ },
            TypeReciveMessages::Disconect => ReciveView::Disconect,
        }
    }
}

pub open spec fn state_name(s: State) -> Seq<char> {
    match s {
        State::Busy => "BUSY"@,
        State::Away => "AWAY"@,
        State::Active => "ACTIVE"@,
    }
}

pub open spec fn operation_name(o: Operations) -> Seq<char> {
    match o {
        Operations::Invite => "INVITE"@,
        Operations::JoinRoom => "JOIN_ROOM"@,
        Operations::RoomUsers => "ROOM_USERS"@,
        Operations::RoomText => "ROOM_TEXT"@,
        Operations::LeaveRoom => "LEAVE_ROOM"@,
        Operations::Identify => "IDENTIFY"@,
        Operations::Text => "TEXT"@,
        Operations::NewRoom => "NEW_ROOM"@,
        Operations::Invalid => "INVALID"@,
    }
}

pub open spec fn result_name(r: Resultado) -> Seq<char> {
    match r {
        Resultado::Success => "SUCCESS"@,
        Resultado::UserAlreadyExists => "USER_ALREADY_EXISTS"@,
        Resultado::NoSuchUser => "NO_SUCH_USER"@,
        Resultado::RoomAlreadyExists => "ROOM_ALREADY_EXISTS"@,
        Resultado::NoSuchRoom => "NO_SUCH_ROOM"@,
        Resultado::NotInvited => "NOT_INVITED"@,
        Resultado::NotJoined => "NOT_JOINED"@,
        Resultado::NotIdentified => "NOT_IDENTIFIED"@,
        Resultado::Invalid => "INVALID"@,
    }
}

pub fn state_str(s: State) -> (r: &'static str)
    ensures
        r@ == state_name(s),
{
    match s {
        State::Busy => "BUSY",
        State::Away => "AWAY",
        State::Active => "ACTIVE",
    }
}

pub fn operation_str(o: Operations) -> (r: &'static str)
    ensures
        r@ == operation_name(o),
{
    match o {
        Operations::Invite => "INVITE",
        Operations::JoinRoom => "JOIN_ROOM",
        Operations::RoomUsers => "ROOM_USERS",
        Operations::RoomText => "ROOM_TEXT",
        Operations::LeaveRoom => "LEAVE_ROOM",
        Operations::Identify => "IDENTIFY",
        Operations::Text => "TEXT",
        Operations::NewRoom => "NEW_ROOM",
        Operations::Invalid => "INVALID",
    }
}

pub fn result_str(r: Resultado) -> (s: &'static str)
    ensures
        s@ == result_name(r),
{
    match r {
        Resultado::Success => "SUCCESS",
        Resultado::UserAlreadyExists => "USER_ALREADY_EXISTS",
        Resultado::NoSuchUser => "NO_SUCH_USER",
        Resultado::RoomAlreadyExists => "ROOM_ALREADY_EXISTS",
        Resultado::NoSuchRoom => "NO_SUCH_ROOM",
        Resultado::NotInvited => "NOT_INVITED",
        Resultado::NotJoined => "NOT_JOINED",
        Resultado::NotIdentified => "NOT_IDENTIFIED",
        Resultado::Invalid => "INVALID",
    }
}

/// `"key":"text"`
pub open spec fn text_member(key: Seq<char>, text: Seq<char>) -> Seq<u8> {
    json_member(key, json_str(text))
}

/// The JSON object of a list of names with their states.
pub open spec fn states_json(users: Seq<(Seq<char>, State)>) -> Seq<u8> {
    json_object(users.map_values(|p: (Seq<char>, State)| text_member(p.0, state_name(p.1))))
}

/// The names and states of a list of users, as characters.
pub open spec fn states_view(users: Seq<(String, State)>) -> Seq<(Seq<char>, State)> {
    users.map_values(|p: (String, State)| (p.0@, p.1))
}

/// The members of a server message, in order.
pub open spec fn send_members(m: SendView) -> Seq<Seq<u8>> {
    match m {
        SendView::Response { operation, result, extra } => {
            let fixed = seq![
                text_member("type"@, "RESPONSE"@),
                text_member("operation"@, operation_name(operation)),
                text_member("result"@, result_name(result)),
            ];
            match extra {
                Some(e) => fixed.push(text_member("extra"@, e)),
                None => fixed,
            }
        },
        SendView::NewUser { username } => seq![
            text_member("type"@, "NEW_USER"@),
            text_member("username"@, username),
        ],
        SendView::NewStatus { username, status } => seq![
            text_member("type"@, "NEW_STATUS"@),
            text_member("username"@, username),
            text_member("status"@, state_name(status)),
        ],
        SendView::UserList { users } => seq![
            text_member("type"@, "USER_LIST"@),
            json_member("users"@, states_json(users)),
        ],
        SendView::TextFrom { username, text } => seq![
            text_member("type"@, "TEXT_FROM"@),
            text_member("username"@, username),
            text_member("text"@, text),
        ],
        SendView::PublicTextFrom { username, text } => seq![
            text_member("type"@, "PUBLIC_TEXT_FROM"@),
            text_member("username"@, username),
            text_member("text"@, text),
        ],
        SendView::Invitation { username, roomname } => seq![
            text_member("type"@, "INVITATION"@),
            text_member("username"@, username),
            text_member("roomname"@, roomname),
        ],
        SendView::JoinedRoom { roomname, username } => seq![
            text_member("type"@, "JOINED_ROOM"@),
            text_member("roomname"@, roomname),
            text_member("username"@, username),
        ],
        SendView::RoomUserList { roomname, users } => seq![
            text_member("type"@, "ROOM_USER_LIST"@),
            text_member("roomname"@, roomname),
            json_member("users"@, states_json(users)),
        ],
        SendView::RoomTextFrom { roomname, username, text } => seq![
            text_member("type"@, "ROOM_TEXT_FROM"@),
            text_member("roomname"@, roomname),
            text_member("username"@, username),
            text_member("text"@, text),
        ],
        SendView::LeftRoom { roomname, username } => seq![
            text_member("type"@, "LEFT_ROOM"@),
            text_member("roomname"@, roomname),
            text_member("username"@, username),
        ],
        SendView::Disconnected { username } => seq![
            text_member("type"@, "DISCONNECTED"@),
            text_member("username"@, username),
        ],
    }
}

/// The JSON text of a server message.
pub open spec fn send_json(m: SendView) -> Seq<u8> {
    json_object(send_members(m))
}

/// The JSON object of a list of names with their states.
pub fn encode_states(users: &Vec<(String, State)>) -> (r: Vec<u8>)
    ensures
        r@ == states_json(states_view(users@)),
{
    let mut w = ObjectWriter::open();
    let mut i: usize = 0;
    let ghost f = |p: (String, State)| text_member(p.0@, state_name(p.1));
    let ghost g = |p: (Seq<char>, State)| text_member(p.0, state_name(p.1));
    assert(w.members@ =~= users@.subrange(0, 0).map_values(f));
    while i < users.len()
        invariant
            i <= users@.len(),
            w.wf(),
            w.members@ == users@.subrange(0, i as int).map_values(f),
            f == (|p: (String, State)| text_member(p.0@, state_name(p.1))),
        decreases users@.len() - i,
    {
        let name = users[i].0.as_str();
        let state = state_str(users[i].1);
        let ghost before = w.members@;
        w.text_member(name, state);
        i = i + 1;
        assert(users@.subrange(0, i as int) == users@.subrange(0, i - 1 as int).push(users@[i - 1]));
        assert(w.members@ =~= users@.subrange(0, i as int).map_values(f));
    }
    assert(users@.subrange(0, users@.len() as int) == users@);
    assert(w.members@ =~= states_view(users@).map_values(g));
    w.close()
}

/// The JSON text of a server message.
pub fn encode_send(m: &TypeSendMessages) -> (r: Vec<u8>)
    ensures
        r@ == send_json(m@),
{
    let mut w = ObjectWriter::open();
    match m {
        TypeSendMessages::Response { operation, result, extra } => {
            w.text_member("type", "RESPONSE");
            w.text_member("operation", operation_str(*operation));
            w.text_member("result", result_str(*result));
            match extra {
                Some(e) => w.text_member("extra", e.as_str()),
                None => {},
            }
        },
        TypeSendMessages::NewUser { username } => {
            w.text_member("type", "NEW_USER");
            w.text_member("username", username.as_str());
        },
        TypeSendMessages::NewStatus { username, status } => {
            w.text_member("type", "NEW_STATUS");
            w.text_member("username", username.as_str());
            w.text_member("status", state_str(*status));
        },
        TypeSendMessages::UserList { users } => {
            w.text_member("type", "USER_LIST");
            let v = encode_states(users);
            w.member("users", v.as_slice());
        },
        TypeSendMessages::TextFrom { username, text } => {
            w.text_member("type", "TEXT_FROM");
            w.text_member("username", username.as_str());
            w.text_member("text", text.as_str());
        },
        TypeSendMessages::PublicTextFrom { username, text } => {
            w.text_member("type", "PUBLIC_TEXT_FROM");
            w.text_member("username", username.as_str());
            w.text_member("text", text.as_str());
        },
        TypeSendMessages::Invitation { username, roomname } => {
            w.text_member("type", "INVITATION");
            w.text_member("username", username.as_str());
            w.text_member("roomname", roomname.as_str());
        },
        TypeSendMessages::JoinedRoom { roomname, username } => {
            w.text_member("type", "JOINED_ROOM");
            w.text_member("roomname", roomname.as_str());
            w.text_member("username", username.as_str());
        },
        TypeSendMessages::RoomUserList { roomname, users } => {
            w.text_member("type", "ROOM_USER_LIST");
            w.text_member("roomname", roomname.as_str());
            let v = encode_states(users);
            w.member("users", v.as_slice());
        },
        TypeSendMessages::RoomTextFrom { roomname, username, text } => {
            w.text_member("type", "ROOM_TEXT_FROM");
            w.text_member("roomname", roomname.as_str());
            w.text_member("username", username.as_str());
            w.text_member("text", text.as_str());
        },
        TypeSendMessages::LeftRoom { roomname, username } => {
            w.text_member("type", "LEFT_ROOM");
            w.text_member("roomname", roomname.as_str());
            w.text_member("username", username.as_str());
        },
        TypeSendMessages::Disconnected { username } => {
            w.text_member("type", "DISCONNECTED");
            w.text_member("username", username.as_str());
        },
    }
    assert(w.members@ =~= send_members(m@));
    w.close()
}

/// The members of a client message, in order.
pub open spec fn recive_members(m: ReciveView) -> Seq<Seq<u8>> {
    match m {
        ReciveView::Identify { username } => seq![
            text_member("type"@, "IDENTIFY"@),
            text_member("username"@, username),
        ],
        ReciveView::Status { status } => seq![
            text_member("type"@, "STATUS"@),
            text_member("status"@, state_name(status)),
        ],
        ReciveView::Users => seq![text_member("type"@, "USERS"@)],
        ReciveView::Text { username, text } => seq![
            text_member("type"@, "TEXT"@),
            text_member("username"@, username),
            text_member("text"@, text),
        ],
        ReciveView::PublicText { text } => seq![
            text_member("type"@, "PUBLIC_TEXT"@),
            text_member("text"@, text),
        ],
        ReciveView::NewRoom { roomname } => seq![
            text_member("type"@, "NEW_ROOM"@),
            text_member("roomname"@, roomname),
        ],
        ReciveView::Invite { roomname, usernames } => seq![
            text_member("type"@, "INVITE"@),
            text_member("roomname"@, roomname),
            json_member("usernames"@, string_array(usernames)),
        ],
        ReciveView::JoinRoom { roomname } => seq![
            text_member("type"@, "JOIN_ROOM"@),
            text_member("roomname"@, roomname),
        ],
        ReciveView::RoomUsers { roomname } => seq![
            text_member("type"@, "ROOM_USERS"@),
            text_member("roomname"@, roomname),
        ],
        ReciveView::RoomText { roomname, text } => seq![
            text_member("type"@, "ROOM_TEXT"@),
            text_member("roomname"@, roomname),
            text_member("text"@, text),
        ],
        ReciveView::LeaveRoom { roomname } => seq![
            text_member("type"@, "LEAVE_ROOM"@),
            text_member("roomname"@, roomname),
        ],
        ReciveView::Disconect => seq![text_member("type"@, "DISCONNECT"@)],
    }
}

/// The JSON text of a client message.
pub open spec fn recive_json(m: ReciveView) -> Seq<u8> {
    json_object(recive_members(m))
}

/// The JSON text of a client message.
pub fn encode_recive(m: &TypeReciveMessages) -> (r: Vec<u8>)
    ensures
        r@ == recive_json(m@),
{
    let mut w = ObjectWriter::open();
    match m {
        TypeReciveMessages::Identify { username } => {
            w.text_member("type", "IDENTIFY");
            w.text_member("username", username.as_str());
        },
        TypeReciveMessages::Status { status } => {
            w.text_member("type", "STATUS");
            w.text_member("status", state_str(*status));
        },
        TypeReciveMessages::Users => {
            w.text_member("type", "USERS");
        },
        TypeReciveMessages::Text { username, text } => {
            w.text_member("type", "TEXT");
            w.text_member("username", username.as_str());
            w.text_member("text", text.as_str());
        },
        TypeReciveMessages::PublicText { text } => {
            w.text_member("type", "PUBLIC_TEXT");
            w.text_member("text", text.as_str());
        },
        TypeReciveMessages::NewRoom { roomname } => {
            w.text_member("type", "NEW_ROOM");
            w.text_member("roomname", roomname.as_str());
        },
        TypeReciveMessages::Invite { roomname, usernames } => {
            w.text_member("type", "INVITE");
            w.text_member("roomname", roomname.as_str());
            let v = encode_string_array(usernames);
            w.member("usernames", v.as_slice());
        },
        TypeReciveMessages::JoinRoom { roomname } => {
            w.text_member("type", "JOIN_ROOM");
            w.text_member("roomname", roomname.as_str());
        },
        TypeReciveMessages::RoomUsers { roomname } => {
            w.text_member("type", "ROOM_USERS");
            w.text_member("roomname", roomname.as_str());
        },
        TypeReciveMessages::RoomText { roomname, text } => {
            w.text_member("type", "ROOM_TEXT");
            w.text_member("roomname", roomname.as_str());
            w.text_member("text", text.as_str());
        },
        TypeReciveMessages::LeaveRoom { roomname } => {
            w.text_member("type", "LEAVE_ROOM");
            w.text_member("roomname", roomname.as_str());
        },
        TypeReciveMessages::Disconect => {
            w.text_member("type", "DISCONNECT");
        },
    }
    assert(w.members@ =~= recive_members(m@));
    w.close()
}

} // verus!
