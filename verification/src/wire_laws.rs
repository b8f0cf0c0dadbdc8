//! Properties of the wire format that span both directions: every message
//! is a JSON object whose first member names its kind, and the kinds of the
//! server's messages are apart from the kinds of the clients' messages, so
//! no message of one direction reads as one of the other.
use vstd::prelude::*;

use crate::laws::{text_line, text_members};
use crate::protocol::{
    operation_name, recive_json, recive_members, result_name, send_members, state_name, text_member, Operations,
    ReciveView, Resultado, SendView, State,
};
use crate::server_messages::line;

verus! {

/// The protocol name of the kind of a server message.
pub open spec fn server_kind(m: SendView) -> Seq<char> {
    match m {
        SendView::Response { .. } => "RESPONSE"@,
        SendView::NewUser { .. } => "NEW_USER"@,
        SendView::NewStatus { .. } => "NEW_STATUS"@,
        SendView::UserList { .. } => "USER_LIST"@,
        SendView::TextFrom { .. } => "TEXT_FROM"@,
        SendView::PublicTextFrom { .. } => "PUBLIC_TEXT_FROM"@,
        SendView::Invitation { .. } => "INVITATION"@,
        SendView::JoinedRoom { .. } => "JOINED_ROOM"@,
        SendView::RoomUserList { .. } => "ROOM_USER_LIST"@,
        SendView::RoomTextFrom { .. } => "ROOM_TEXT_FROM"@,
        SendView::LeftRoom { .. } => "LEFT_ROOM"@,
        SendView::Disconnected { .. } => "DISCONNECTED"@,
    }
}

/// The protocol name of the kind of a client message.
pub open spec fn client_kind(m: ReciveView) -> Seq<char> {
    match m {
        ReciveView::Identify { .. } => "IDENTIFY"@,
        ReciveView::Status { .. } => "STATUS"@,
        ReciveView::Users => "USERS"@,
        ReciveView::Text { .. } => "TEXT"@,
        ReciveView::PublicText { .. } => "PUBLIC_TEXT"@,
        ReciveView::NewRoom { .. } => "NEW_ROOM"@,
        ReciveView::Invite { .. } => "INVITE"@,
        ReciveView::JoinRoom { .. } => "JOIN_ROOM"@,
        ReciveView::RoomUsers { .. } => "ROOM_USERS"@,
        ReciveView::RoomText { .. } => "ROOM_TEXT"@,
        ReciveView::LeaveRoom { .. } => "LEAVE_ROOM"@,
        ReciveView::Disconect => "DISCONNECT"@,
    }
}

/// The text members of a server message after its kind, by name, in the
/// order they are written; `None` for the lists of users, which are not
/// text.
pub open spec fn server_text_fields(m: SendView) -> Option<Seq<(Seq<char>, Seq<char>)>> {
    match m {
        SendView::Response { operation, result, extra } => Some(
            match extra {
                Some(e) => seq![("operation"@, operation_name(operation)), ("result"@, result_name(result)), ("extra"@, e)],
                None => seq![("operation"@, operation_name(operation)), ("result"@, result_name(result))],
            },
        ),
        SendView::NewUser { username } => Some(seq![("username"@, username)]),
        SendView::NewStatus { username, status } => Some(seq![("username"@, username), ("status"@, state_name(status))]),
        SendView::UserList { .. } => None,
        SendView::TextFrom { username, text } => Some(seq![("username"@, username), ("text"@, text)]),
        SendView::PublicTextFrom { username, text } => Some(seq![("username"@, username), ("text"@, text)]),
        SendView::Invitation { username, roomname } => Some(seq![("username"@, username), ("roomname"@, roomname)]),
        SendView::JoinedRoom { roomname, username } => Some(seq![("roomname"@, roomname), ("username"@, username)]),
        SendView::RoomUserList { .. } => None,
        SendView::RoomTextFrom { roomname, username, text } => Some(
            seq![("roomname"@, roomname), ("username"@, username), ("text"@, text)],
        ),
        SendView::LeftRoom { roomname, username } => Some(seq![("roomname"@, roomname), ("username"@, username)]),
        SendView::Disconnected { username } => Some(seq![("username"@, username)]),
    }
}

/// Every server message whose members are text is written as the line of
/// its kind followed by its fields, each under its name, carrying the
/// message's own values.
#[verifier::spinoff_prover]
pub proof fn law_server_line_carries_fields(m: SendView)
    ensures
        server_text_fields(m) matches Some(f) ==> line(m) == text_line(server_kind(m), f),
{
    reveal_with_fuel(text_members, 4);
    match m {
        SendView::Response { operation, result, extra } => {
            let fixed = seq![
                text_member("type"@, "RESPONSE"@),
                text_member("operation"@, operation_name(operation)),
                text_member("result"@, result_name(result)),
            ];
            match extra {
                Some(e) => {
                    let f = seq![("operation"@, operation_name(operation)), ("result"@, result_name(result)), ("extra"@, e)];
                    assert(send_members(m) == fixed.push(text_member("extra"@, e)));
                    assert(seq![text_member("type"@, "RESPONSE"@)] + text_members(f) =~= fixed.push(text_member("extra"@, e)));
                },
                None => {
                    let f = seq![("operation"@, operation_name(operation)), ("result"@, result_name(result))];
                    assert(seq![text_member("type"@, "RESPONSE"@)] + text_members(f) =~= fixed);
                },
            }
        },
        SendView::NewUser { .. } => {
            let f = server_text_fields(m)->0;
            assert(seq![text_member("type"@, server_kind(m))] + text_members(f) =~= send_members(m));
        },
        SendView::NewStatus { .. } => {
            let f = server_text_fields(m)->0;
            assert(seq![text_member("type"@, server_kind(m))] + text_members(f) =~= send_members(m));
        },
        SendView::TextFrom { .. } => {
            let f = server_text_fields(m)->0;
            assert(seq![text_member("type"@, server_kind(m))] + text_members(f) =~= send_members(m));
        },
        SendView::PublicTextFrom { .. } => {
            let f = server_text_fields(m)->0;
            assert(seq![text_member("type"@, server_kind(m))] + text_members(f) =~= send_members(m));
        },
        SendView::Invitation { .. } => {
            let f = server_text_fields(m)->0;
            assert(seq![text_member("type"@, server_kind(m))] + text_members(f) =~= send_members(m));
        },
        SendView::JoinedRoom { .. } => {
            let f = server_text_fields(m)->0;
            assert(seq![text_member("type"@, server_kind(m))] + text_members(f) =~= send_members(m));
        },
        SendView::RoomTextFrom { .. } => {
            let f = server_text_fields(m)->0;
            assert(seq![text_member("type"@, server_kind(m))] + text_members(f) =~= send_members(m));
        },
        SendView::LeftRoom { .. } => {
            let f = server_text_fields(m)->0;
            assert(seq![text_member("type"@, server_kind(m))] + text_members(f) =~= send_members(m));
        },
        SendView::Disconnected { .. } => {
            let f = server_text_fields(m)->0;
            assert(seq![text_member("type"@, server_kind(m))] + text_members(f) =~= send_members(m));
        },
        _ => {},
    }
}

/// The text members of a client message after its kind, by name, in the
/// order they are written; `None` for an invitation, whose names are a
/// list.
pub open spec fn client_text_fields(m: ReciveView) -> Option<Seq<(Seq<char>, Seq<char>)>> {
    match m {
        ReciveView::Identify { username } => Some(seq![("username"@, username)]),
        ReciveView::Status { status } => Some(seq![("status"@, state_name(status))]),
        ReciveView::Users => Some(seq![]),
        ReciveView::Text { username, text } => Some(seq![("username"@, username), ("text"@, text)]),
        ReciveView::PublicText { text } => Some(seq![("text"@, text)]),
        ReciveView::NewRoom { roomname } => Some(seq![("roomname"@, roomname)]),
        ReciveView::Invite { .. } => None,
        ReciveView::JoinRoom { roomname } => Some(seq![("roomname"@, roomname)]),
        ReciveView::RoomUsers { roomname } => Some(seq![("roomname"@, roomname)]),
        ReciveView::RoomText { roomname, text } => Some(seq![("roomname"@, roomname), ("text"@, text)]),
        ReciveView::LeaveRoom { roomname } => Some(seq![("roomname"@, roomname)]),
        ReciveView::Disconect => Some(seq![]),
    }
}

/// Every client message whose members are text is written as the JSON
/// object of its kind followed by its fields, each under its name,
/// carrying the message's own values.
pub proof fn law_client_json_carries_fields(m: ReciveView)
    ensures
        client_text_fields(m) matches Some(f) ==> recive_json(m).push(10u8) == text_line(client_kind(m), f),
{
    reveal_with_fuel(text_members, 4);
    match m {
        ReciveView::Identify { .. } => {
            let f = client_text_fields(m)->0;
            assert(seq![text_member("type"@, client_kind(m))] + text_members(f) =~= recive_members(m));
        },
        ReciveView::Status { .. } => {
            let f = client_text_fields(m)->0;
            assert(seq![text_member("type"@, client_kind(m))] + text_members(f) =~= recive_members(m));
        },
        ReciveView::Text { .. } => {
            let f = client_text_fields(m)->0;
            assert(seq![text_member("type"@, client_kind(m))] + text_members(f) =~= recive_members(m));
        },
        ReciveView::PublicText { .. } => {
            let f = client_text_fields(m)->0;
            assert(seq![text_member("type"@, client_kind(m))] + text_members(f) =~= recive_members(m));
        },
        ReciveView::NewRoom { .. } => {
            let f = client_text_fields(m)->0;
            assert(seq![text_member("type"@, client_kind(m))] + text_members(f) =~= recive_members(m));
        },
        ReciveView::JoinRoom { .. } => {
            let f = client_text_fields(m)->0;
            assert(seq![text_member("type"@, client_kind(m))] + text_members(f) =~= recive_members(m));
        },
        ReciveView::RoomUsers { .. } => {
            let f = client_text_fields(m)->0;
            assert(seq![text_member("type"@, client_kind(m))] + text_members(f) =~= recive_members(m));
        },
        ReciveView::RoomText { .. } => {
            let f = client_text_fields(m)->0;
            assert(seq![text_member("type"@, client_kind(m))] + text_members(f) =~= recive_members(m));
        },
        ReciveView::LeaveRoom { .. } => {
            let f = client_text_fields(m)->0;
            assert(seq![text_member("type"@, client_kind(m))] + text_members(f) =~= recive_members(m));
        },
        ReciveView::Users => {
            assert(seq![text_member("type"@, client_kind(m))] + text_members(seq![]) =~= recive_members(m));
        },
        ReciveView::Disconect => {
            assert(seq![text_member("type"@, client_kind(m))] + text_members(seq![]) =~= recive_members(m));
        },
        _ => {},
    }
}

/// Every server message is written with its kind as its first member,
/// `"type"`.
pub proof fn law_server_message_names_its_kind(m: SendView)
    ensures
        send_members(m).len() >= 1,
        send_members(m)[0] == text_member("type"@, server_kind(m)),
{
}

/// Every client message is written with its kind as its first member,
/// `"type"`.
pub proof fn law_client_message_names_its_kind(m: ReciveView)
    ensures
        recive_members(m).len() >= 1,
        recive_members(m)[0] == text_member("type"@, client_kind(m)),
{
    match m {
        ReciveView::Users => assert(recive_members(m) == seq![text_member("type"@, "USERS"@)]),
        ReciveView::Disconect => assert(recive_members(m) == seq![text_member("type"@, "DISCONNECT"@)]),
        _ => {},
    }
}

/// No server message is of the kind of a client message.
pub proof fn law_server_kinds_are_not_client_kinds(m: SendView, r: ReciveView)
    ensures
        server_kind(m) != client_kind(r),
{
    match m {
        SendView::Response {..} => {
            reveal_strlit("RESPONSE");
            match r {
                ReciveView::Identify {..} => {
                    reveal_strlit("IDENTIFY");
                    assert("RESPONSE"@[0] != "IDENTIFY"@[0]);
                },
                ReciveView::Status {..} => {
                    reveal_strlit("STATUS");
                    assert("RESPONSE"@.len() != "STATUS"@.len());
                },
                ReciveView::Users => {
                    reveal_strlit("USERS");
                    assert("RESPONSE"@.len() != "USERS"@.len());
                },
                ReciveView::Text {..} => {
                    reveal_strlit("TEXT");
                    assert("RESPONSE"@.len() != "TEXT"@.len());
                },
                ReciveView::PublicText {..} => {
                    reveal_strlit("PUBLIC_TEXT");
                    assert("RESPONSE"@.len() != "PUBLIC_TEXT"@.len());
                },
                ReciveView::NewRoom {..} => {
                    reveal_strlit("NEW_ROOM");
                    assert("RESPONSE"@[0] != "NEW_ROOM"@[0]);
                },
                ReciveView::Invite {..} => {
                    reveal_strlit("INVITE");
                    assert("RESPONSE"@.len() != "INVITE"@.len());
                },
                ReciveView::JoinRoom {..} => {
                    reveal_strlit("JOIN_ROOM");
                    assert("RESPONSE"@.len() != "JOIN_ROOM"@.len());
                },
                ReciveView::RoomUsers {..} => {
                    reveal_strlit("ROOM_USERS");
                    assert("RESPONSE"@.len() != "ROOM_USERS"@.len());
                },
                ReciveView::RoomText {..} => {
                    reveal_strlit("ROOM_TEXT");
                    assert("RESPONSE"@.len() != "ROOM_TEXT"@.len());
                },
                ReciveView::LeaveRoom {..} => {
                    reveal_strlit("LEAVE_ROOM");
                    assert("RESPONSE"@.len() != "LEAVE_ROOM"@.len());
                },
                ReciveView::Disconect => {
                    reveal_strlit("DISCONNECT");
                    assert("RESPONSE"@.len() != "DISCONNECT"@.len());
                },
            }
        },
        SendView::NewUser {..} => {
            reveal_strlit("NEW_USER");
            match r {
                ReciveView::Identify {..} => {
                    reveal_strlit("IDENTIFY");
                    assert("NEW_USER"@[0] != "IDENTIFY"@[0]);
                },
                ReciveView::Status {..} => {
                    reveal_strlit("STATUS");
                    assert("NEW_USER"@.len() != "STATUS"@.len());
                },
                ReciveView::Users => {
                    reveal_strlit("USERS");
                    assert("NEW_USER"@.len() != "USERS"@.len());
                },
                ReciveView::Text {..} => {
                    reveal_strlit("TEXT");
                    assert("NEW_USER"@.len() != "TEXT"@.len());
                },
                ReciveView::PublicText {..} => {
                    reveal_strlit("PUBLIC_TEXT");
                    assert("NEW_USER"@.len() != "PUBLIC_TEXT"@.len());
                },
                ReciveView::NewRoom {..} => {
                    reveal_strlit("NEW_ROOM");
                    assert("NEW_USER"@[4] != "NEW_ROOM"@[4]);
                },
                ReciveView::Invite {..} => {
                    reveal_strlit("INVITE");
                    assert("NEW_USER"@.len() != "INVITE"@.len());
                },
                ReciveView::JoinRoom {..} => {
                    reveal_strlit("JOIN_ROOM");
                    assert("NEW_USER"@.len() != "JOIN_ROOM"@.len());
                },
                ReciveView::RoomUsers {..} => {
                    reveal_strlit("ROOM_USERS");
                    assert("NEW_USER"@.len() != "ROOM_USERS"@.len());
                },
                ReciveView::RoomText {..} => {
                    reveal_strlit("ROOM_TEXT");
                    assert("NEW_USER"@.len() != "ROOM_TEXT"@.len());
                },
                ReciveView::LeaveRoom {..} => {
                    reveal_strlit("LEAVE_ROOM");
                    assert("NEW_USER"@.len() != "LEAVE_ROOM"@.len());
                },
                ReciveView::Disconect => {
                    reveal_strlit("DISCONNECT");
                    assert("NEW_USER"@.len() != "DISCONNECT"@.len());
                },
            }
        },
        SendView::NewStatus {..} => {
            reveal_strlit("NEW_STATUS");
            match r {
                ReciveView::Identify {..} => {
                    reveal_strlit("IDENTIFY");
                    assert("NEW_STATUS"@.len() != "IDENTIFY"@.len());
                },
                ReciveView::Status {..} => {
                    reveal_strlit("STATUS");
                    assert("NEW_STATUS"@.len() != "STATUS"@.len());
                },
                ReciveView::Users => {
                    reveal_strlit("USERS");
                    assert("NEW_STATUS"@.len() != "USERS"@.len());
                },
                ReciveView::Text {..} => {
                    reveal_strlit("TEXT");
                    assert("NEW_STATUS"@.len() != "TEXT"@.len());
                },
                ReciveView::PublicText {..} => {
                    reveal_strlit("PUBLIC_TEXT");
                    assert("NEW_STATUS"@.len() != "PUBLIC_TEXT"@.len());
                },
                ReciveView::NewRoom {..} => {
                    reveal_strlit("NEW_ROOM");
                    assert("NEW_STATUS"@.len() != "NEW_ROOM"@.len());
                },
                ReciveView::Invite {..} => {
                    reveal_strlit("INVITE");
                    assert("NEW_STATUS"@.len() != "INVITE"@.len());
                },
                ReciveView::JoinRoom {..} => {
                    reveal_strlit("JOIN_ROOM");
                    assert("NEW_STATUS"@.len() != "JOIN_ROOM"@.len());
                },
                ReciveView::RoomUsers {..} => {
                    reveal_strlit("ROOM_USERS");
                    assert("NEW_STATUS"@[0] != "ROOM_USERS"@[0]);
                },
                ReciveView::RoomText {..} => {
                    reveal_strlit("ROOM_TEXT");
                    assert("NEW_STATUS"@.len() != "ROOM_TEXT"@.len());
                },
                ReciveView::LeaveRoom {..} => {
                    reveal_strlit("LEAVE_ROOM");
                    assert("NEW_STATUS"@[0] != "LEAVE_ROOM"@[0]);
                },
                ReciveView::Disconect => {
                    reveal_strlit("DISCONNECT");
                    assert("NEW_STATUS"@[0] != "DISCONNECT"@[0]);
                },
            }
        },
        SendView::UserList {..} => {
            reveal_strlit("USER_LIST");
            match r {
                ReciveView::Identify {..} => {
                    reveal_strlit("IDENTIFY");
                    assert("USER_LIST"@.len() != "IDENTIFY"@.len());
                },
                ReciveView::Status {..} => {
                    reveal_strlit("STATUS");
                    assert("USER_LIST"@.len() != "STATUS"@.len());
                },
                ReciveView::Users => {
                    reveal_strlit("USERS");
                    assert("USER_LIST"@.len() != "USERS"@.len());
                },
                ReciveView::Text {..} => {
                    reveal_strlit("TEXT");
                    assert("USER_LIST"@.len() != "TEXT"@.len());
                },
                ReciveView::PublicText {..} => {
                    reveal_strlit("PUBLIC_TEXT");
                    assert("USER_LIST"@.len() != "PUBLIC_TEXT"@.len());
                },
                ReciveView::NewRoom {..} => {
                    reveal_strlit("NEW_ROOM");
                    assert("USER_LIST"@.len() != "NEW_ROOM"@.len());
                },
                ReciveView::Invite {..} => {
                    reveal_strlit("INVITE");
                    assert("USER_LIST"@.len() != "INVITE"@.len());
                },
                ReciveView::JoinRoom {..} => {
                    reveal_strlit("JOIN_ROOM");
                    assert("USER_LIST"@[0] != "JOIN_ROOM"@[0]);
                },
                ReciveView::RoomUsers {..} => {
                    reveal_strlit("ROOM_USERS");
                    assert("USER_LIST"@.len() != "ROOM_USERS"@.len());
                },
                ReciveView::RoomText {..} => {
                    reveal_strlit("ROOM_TEXT");
                    assert("USER_LIST"@[0] != "ROOM_TEXT"@[0]);
                },
                ReciveView::LeaveRoom {..} => {
                    reveal_strlit("LEAVE_ROOM");
                    assert("USER_LIST"@.len() != "LEAVE_ROOM"@.len());
                },
                ReciveView::Disconect => {
                    reveal_strlit("DISCONNECT");
                    assert("USER_LIST"@.len() != "DISCONNECT"@.len());
                },
            }
        },
        SendView::TextFrom {..} => {
            reveal_strlit("TEXT_FROM");
            match r {
                ReciveView::Identify {..} => {
                    reveal_strlit("IDENTIFY");
                    assert("TEXT_FROM"@.len() != "IDENTIFY"@.len());
                },
                ReciveView::Status {..} => {
                    reveal_strlit("STATUS");
                    assert("TEXT_FROM"@.len() != "STATUS"@.len());
                },
                ReciveView::Users => {
                    reveal_strlit("USERS");
                    assert("TEXT_FROM"@.len() != "USERS"@.len());
                },
                ReciveView::Text {..} => {
                    reveal_strlit("TEXT");
                    assert("TEXT_FROM"@.len() != "TEXT"@.len());
                },
                ReciveView::PublicText {..} => {
                    reveal_strlit("PUBLIC_TEXT");
                    assert("TEXT_FROM"@.len() != "PUBLIC_TEXT"@.len());
                },
                ReciveView::NewRoom {..} => {
                    reveal_strlit("NEW_ROOM");
                    assert("TEXT_FROM"@.len() != "NEW_ROOM"@.len());
                },
                ReciveView::Invite {..} => {
                    reveal_strlit("INVITE");
                    assert("TEXT_FROM"@.len() != "INVITE"@.len());
                },
                ReciveView::JoinRoom {..} => {
                    reveal_strlit("JOIN_ROOM");
                    assert("TEXT_FROM"@[0] != "JOIN_ROOM"@[0]);
                },
                ReciveView::RoomUsers {..} => {
                    reveal_strlit("ROOM_USERS");
                    assert("TEXT_FROM"@.len() != "ROOM_USERS"@.len());
                },
                ReciveView::RoomText {..} => {
                    reveal_strlit("ROOM_TEXT");
                    assert("TEXT_FROM"@[0] != "ROOM_TEXT"@[0]);
                },
                ReciveView::LeaveRoom {..} => {
                    reveal_strlit("LEAVE_ROOM");
                    assert("TEXT_FROM"@.len() != "LEAVE_ROOM"@.len());
                },
                ReciveView::Disconect => {
                    reveal_strlit("DISCONNECT");
                    assert("TEXT_FROM"@.len() != "DISCONNECT"@.len());
                },
            }
        },
        SendView::PublicTextFrom {..} => {
            reveal_strlit("PUBLIC_TEXT_FROM");
            match r {
                ReciveView::Identify {..} => {
                    reveal_strlit("IDENTIFY");
                    assert("PUBLIC_TEXT_FROM"@.len() != "IDENTIFY"@.len());
                },
                ReciveView::Status {..} => {
                    reveal_strlit("STATUS");
                    assert("PUBLIC_TEXT_FROM"@.len() != "STATUS"@.len());
                },
                ReciveView::Users => {
                    reveal_strlit("USERS");
                    assert("PUBLIC_TEXT_FROM"@.len() != "USERS"@.len());
                },
                ReciveView::Text {..} => {
                    reveal_strlit("TEXT");
                    assert("PUBLIC_TEXT_FROM"@.len() != "TEXT"@.len());
                },
                ReciveView::PublicText {..} => {
                    reveal_strlit("PUBLIC_TEXT");
                    assert("PUBLIC_TEXT_FROM"@.len() != "PUBLIC_TEXT"@.len());
                },
                ReciveView::NewRoom {..} => {
                    reveal_strlit("NEW_ROOM");
                    assert("PUBLIC_TEXT_FROM"@.len() != "NEW_ROOM"@.len());
                },
                ReciveView::Invite {..} => {
                    reveal_strlit("INVITE");
                    assert("PUBLIC_TEXT_FROM"@.len() != "INVITE"@.len());
                },
                ReciveView::JoinRoom {..} => {
                    reveal_strlit("JOIN_ROOM");
                    assert("PUBLIC_TEXT_FROM"@.len() != "JOIN_ROOM"@.len());
                },
                ReciveView::RoomUsers {..} => {
                    reveal_strlit("ROOM_USERS");
                    assert("PUBLIC_TEXT_FROM"@.len() != "ROOM_USERS"@.len());
                },
                ReciveView::RoomText {..} => {
                    reveal_strlit("ROOM_TEXT");
                    assert("PUBLIC_TEXT_FROM"@.len() != "ROOM_TEXT"@.len());
                },
                ReciveView::LeaveRoom {..} => {
                    reveal_strlit("LEAVE_ROOM");
                    assert("PUBLIC_TEXT_FROM"@.len() != "LEAVE_ROOM"@.len());
                },
                ReciveView::Disconect => {
                    reveal_strlit("DISCONNECT");
                    assert("PUBLIC_TEXT_FROM"@.len() != "DISCONNECT"@.len());
                },
            }
        },
        SendView::Invitation {..} => {
            reveal_strlit("INVITATION");
            match r {
                ReciveView::Identify {..} => {
                    reveal_strlit("IDENTIFY");
                    assert("INVITATION"@.len() != "IDENTIFY"@.len());
                },
                ReciveView::Status {..} => {
                    reveal_strlit("STATUS");
                    assert("INVITATION"@.len() != "STATUS"@.len());
                },
                ReciveView::Users => {
                    reveal_strlit("USERS");
                    assert("INVITATION"@.len() != "USERS"@.len());
                },
                ReciveView::Text {..} => {
                    reveal_strlit("TEXT");
                    assert("INVITATION"@.len() != "TEXT"@.len());
                },
                ReciveView::PublicText {..} => {
                    reveal_strlit("PUBLIC_TEXT");
                    assert("INVITATION"@.len() != "PUBLIC_TEXT"@.len());
                },
                ReciveView::NewRoom {..} => {
                    reveal_strlit("NEW_ROOM");
                    assert("INVITATION"@.len() != "NEW_ROOM"@.len());
                },
                ReciveView::Invite {..} => {
                    reveal_strlit("INVITE");
                    assert("INVITATION"@.len() != "INVITE"@.len());
                },
                ReciveView::JoinRoom {..} => {
                    reveal_strlit("JOIN_ROOM");
                    assert("INVITATION"@.len() != "JOIN_ROOM"@.len());
                },
                ReciveView::RoomUsers {..} => {
                    reveal_strlit("ROOM_USERS");
                    assert("INVITATION"@[0] != "ROOM_USERS"@[0]);
                },
                ReciveView::RoomText {..} => {
                    reveal_strlit("ROOM_TEXT");
                    assert("INVITATION"@.len() != "ROOM_TEXT"@.len());
                },
                ReciveView::LeaveRoom {..} => {
                    reveal_strlit("LEAVE_ROOM");
                    assert("INVITATION"@[0] != "LEAVE_ROOM"@[0]);
                },
                ReciveView::Disconect => {
                    reveal_strlit("DISCONNECT");
                    assert("INVITATION"@[0] != "DISCONNECT"@[0]);
                },
            }
        },
        SendView::JoinedRoom {..} => {
            reveal_strlit("JOINED_ROOM");
            match r {
                ReciveView::Identify {..} => {
                    reveal_strlit("IDENTIFY");
                    assert("JOINED_ROOM"@.len() != "IDENTIFY"@.len());
                },
                ReciveView::Status {..} => {
                    reveal_strlit("STATUS");
                    assert("JOINED_ROOM"@.len() != "STATUS"@.len());
                },
                ReciveView::Users => {
                    reveal_strlit("USERS");
                    assert("JOINED_ROOM"@.len() != "USERS"@.len());
                },
                ReciveView::Text {..} => {
                    reveal_strlit("TEXT");
                    assert("JOINED_ROOM"@.len() != "TEXT"@.len());
                },
                ReciveView::PublicText {..} => {
                    reveal_strlit("PUBLIC_TEXT");
                    assert("JOINED_ROOM"@[0] != "PUBLIC_TEXT"@[0]);
                },
                ReciveView::NewRoom {..} => {
                    reveal_strlit("NEW_ROOM");
                    assert("JOINED_ROOM"@.len() != "NEW_ROOM"@.len());
                },
                ReciveView::Invite {..} => {
                    reveal_strlit("INVITE");
                    assert("JOINED_ROOM"@.len() != "INVITE"@.len());
                },
                ReciveView::JoinRoom {..} => {
                    reveal_strlit("JOIN_ROOM");
                    assert("JOINED_ROOM"@.len() != "JOIN_ROOM"@.len());
                },
                ReciveView::RoomUsers {..} => {
                    reveal_strlit("ROOM_USERS");
                    assert("JOINED_ROOM"@.len() != "ROOM_USERS"@.len());
                },
                ReciveView::RoomText {..} => {
                    reveal_strlit("ROOM_TEXT");
                    assert("JOINED_ROOM"@.len() != "ROOM_TEXT"@.len());
                },
                ReciveView::LeaveRoom {..} => {
                    reveal_strlit("LEAVE_ROOM");
                    assert("JOINED_ROOM"@.len() != "LEAVE_ROOM"@.len());
                },
                ReciveView::Disconect => {
                    reveal_strlit("DISCONNECT");
                    assert("JOINED_ROOM"@.len() != "DISCONNECT"@.len());
                },
            }
        },
        SendView::RoomUserList {..} => {
            reveal_strlit("ROOM_USER_LIST");
            match r {
                ReciveView::Identify {..} => {
                    reveal_strlit("IDENTIFY");
                    assert("ROOM_USER_LIST"@.len() != "IDENTIFY"@.len());
                },
                ReciveView::Status {..} => {
                    reveal_strlit("STATUS");
                    assert("ROOM_USER_LIST"@.len() != "STATUS"@.len());
                },
                ReciveView::Users => {
                    reveal_strlit("USERS");
                    assert("ROOM_USER_LIST"@.len() != "USERS"@.len());
                },
                ReciveView::Text {..} => {
                    reveal_strlit("TEXT");
                    assert("ROOM_USER_LIST"@.len() != "TEXT"@.len());
                },
                ReciveView::PublicText {..} => {
                    reveal_strlit("PUBLIC_TEXT");
                    assert("ROOM_USER_LIST"@.len() != "PUBLIC_TEXT"@.len());
                },
                ReciveView::NewRoom {..} => {
                    reveal_strlit("NEW_ROOM");
                    assert("ROOM_USER_LIST"@.len() != "NEW_ROOM"@.len());
                },
                ReciveView::Invite {..} => {
                    reveal_strlit("INVITE");
                    assert("ROOM_USER_LIST"@.len() != "INVITE"@.len());
                },
                ReciveView::JoinRoom {..} => {
                    reveal_strlit("JOIN_ROOM");
                    assert("ROOM_USER_LIST"@.len() != "JOIN_ROOM"@.len());
                },
                ReciveView::RoomUsers {..} => {
                    reveal_strlit("ROOM_USERS");
                    assert("ROOM_USER_LIST"@.len() != "ROOM_USERS"@.len());
                },
                ReciveView::RoomText {..} => {
                    reveal_strlit("ROOM_TEXT");
                    assert("ROOM_USER_LIST"@.len() != "ROOM_TEXT"@.len());
                },
                ReciveView::LeaveRoom {..} => {
                    reveal_strlit("LEAVE_ROOM");
                    assert("ROOM_USER_LIST"@.len() != "LEAVE_ROOM"@.len());
                },
                ReciveView::Disconect => {
                    reveal_strlit("DISCONNECT");
                    assert("ROOM_USER_LIST"@.len() != "DISCONNECT"@.len());
                },
            }
        },
        SendView::RoomTextFrom {..} => {
            reveal_strlit("ROOM_TEXT_FROM");
            match r {
                ReciveView::Identify {..} => {
                    reveal_strlit("IDENTIFY");
                    assert("ROOM_TEXT_FROM"@.len() != "IDENTIFY"@.len());
                },
                ReciveView::Status {..} => {
                    reveal_strlit("STATUS");
                    assert("ROOM_TEXT_FROM"@.len() != "STATUS"@.len());
                },
                ReciveView::Users => {
                    reveal_strlit("USERS");
                    assert("ROOM_TEXT_FROM"@.len() != "USERS"@.len());
                },
                ReciveView::Text {..} => {
                    reveal_strlit("TEXT");
                    assert("ROOM_TEXT_FROM"@.len() != "TEXT"@.len());
                },
                ReciveView::PublicText {..} => {
                    reveal_strlit("PUBLIC_TEXT");
                    assert("ROOM_TEXT_FROM"@.len() != "PUBLIC_TEXT"@.len());
                },
                ReciveView::NewRoom {..} => {
                    reveal_strlit("NEW_ROOM");
                    assert("ROOM_TEXT_FROM"@.len() != "NEW_ROOM"@.len());
                },
                ReciveView::Invite {..} => {
                    reveal_strlit("INVITE");
                    assert("ROOM_TEXT_FROM"@.len() != "INVITE"@.len());
                },
                ReciveView::JoinRoom {..} => {
                    reveal_strlit("JOIN_ROOM");
                    assert("ROOM_TEXT_FROM"@.len() != "JOIN_ROOM"@.len());
                },
                ReciveView::RoomUsers {..} => {
                    reveal_strlit("ROOM_USERS");
                    assert("ROOM_TEXT_FROM"@.len() != "ROOM_USERS"@.len());
                },
                ReciveView::RoomText {..} => {
                    reveal_strlit("ROOM_TEXT");
                    assert("ROOM_TEXT_FROM"@.len() != "ROOM_TEXT"@.len());
                },
                ReciveView::LeaveRoom {..} => {
                    reveal_strlit("LEAVE_ROOM");
                    assert("ROOM_TEXT_FROM"@.len() != "LEAVE_ROOM"@.len());
                },
                ReciveView::Disconect => {
                    reveal_strlit("DISCONNECT");
                    assert("ROOM_TEXT_FROM"@.len() != "DISCONNECT"@.len());
                },
            }
        },
        SendView::LeftRoom {..} => {
            reveal_strlit("LEFT_ROOM");
            match r {
                ReciveView::Identify {..} => {
                    reveal_strlit("IDENTIFY");
                    assert("LEFT_ROOM"@.len() != "IDENTIFY"@.len());
                },
                ReciveView::Status {..} => {
                    reveal_strlit("STATUS");
                    assert("LEFT_ROOM"@.len() != "STATUS"@.len());
                },
                ReciveView::Users => {
                    reveal_strlit("USERS");
                    assert("LEFT_ROOM"@.len() != "USERS"@.len());
                },
                ReciveView::Text {..} => {
                    reveal_strlit("TEXT");
                    assert("LEFT_ROOM"@.len() != "TEXT"@.len());
                },
                ReciveView::PublicText {..} => {
                    reveal_strlit("PUBLIC_TEXT");
                    assert("LEFT_ROOM"@.len() != "PUBLIC_TEXT"@.len());
                },
                ReciveView::NewRoom {..} => {
                    reveal_strlit("NEW_ROOM");
                    assert("LEFT_ROOM"@.len() != "NEW_ROOM"@.len());
                },
                ReciveView::Invite {..} => {
                    reveal_strlit("INVITE");
                    assert("LEFT_ROOM"@.len() != "INVITE"@.len());
                },
                ReciveView::JoinRoom {..} => {
                    reveal_strlit("JOIN_ROOM");
                    assert("LEFT_ROOM"@[0] != "JOIN_ROOM"@[0]);
                },
                ReciveView::RoomUsers {..} => {
                    reveal_strlit("ROOM_USERS");
                    assert("LEFT_ROOM"@.len() != "ROOM_USERS"@.len());
                },
                ReciveView::RoomText {..} => {
                    reveal_strlit("ROOM_TEXT");
                    assert("LEFT_ROOM"@[0] != "ROOM_TEXT"@[0]);
                },
                ReciveView::LeaveRoom {..} => {
                    reveal_strlit("LEAVE_ROOM");
                    assert("LEFT_ROOM"@.len() != "LEAVE_ROOM"@.len());
                },
                ReciveView::Disconect => {
                    reveal_strlit("DISCONNECT");
                    assert("LEFT_ROOM"@.len() != "DISCONNECT"@.len());
                },
            }
        },
        SendView::Disconnected {..} => {
            reveal_strlit("DISCONNECTED");
            match r {
                ReciveView::Identify {..} => {
                    reveal_strlit("IDENTIFY");
                    assert("DISCONNECTED"@.len() != "IDENTIFY"@.len());
                },
                ReciveView::Status {..} => {
                    reveal_strlit("STATUS");
                    assert("DISCONNECTED"@.len() != "STATUS"@.len());
                },
                ReciveView::Users => {
                    reveal_strlit("USERS");
                    assert("DISCONNECTED"@.len() != "USERS"@.len());
                },
                ReciveView::Text {..} => {
                    reveal_strlit("TEXT");
                    assert("DISCONNECTED"@.len() != "TEXT"@.len());
                },
                ReciveView::PublicText {..} => {
                    reveal_strlit("PUBLIC_TEXT");
                    assert("DISCONNECTED"@.len() != "PUBLIC_TEXT"@.len());
                },
                ReciveView::NewRoom {..} => {
                    reveal_strlit("NEW_ROOM");
                    assert("DISCONNECTED"@.len() != "NEW_ROOM"@.len());
                },
                ReciveView::Invite {..} => {
                    reveal_strlit("INVITE");
                    assert("DISCONNECTED"@.len() != "INVITE"@.len());
                },
                ReciveView::JoinRoom {..} => {
                    reveal_strlit("JOIN_ROOM");
                    assert("DISCONNECTED"@.len() != "JOIN_ROOM"@.len());
                },
                ReciveView::RoomUsers {..} => {
                    reveal_strlit("ROOM_USERS");
                    assert("DISCONNECTED"@.len() != "ROOM_USERS"@.len());
                },
                ReciveView::RoomText {..} => {
                    reveal_strlit("ROOM_TEXT");
                    assert("DISCONNECTED"@.len() != "ROOM_TEXT"@.len());
                },
                ReciveView::LeaveRoom {..} => {
                    reveal_strlit("LEAVE_ROOM");
                    assert("DISCONNECTED"@.len() != "LEAVE_ROOM"@.len());
                },
                ReciveView::Disconect => {
                    reveal_strlit("DISCONNECT");
                    assert("DISCONNECTED"@.len() != "DISCONNECT"@.len());
                },
            }
        },
    }
}

/// The states travel under their protocol names, each its own.
pub proof fn law_state_names()
    ensures
        state_name(State::Active) == "ACTIVE"@,
        state_name(State::Away) == "AWAY"@,
        state_name(State::Busy) == "BUSY"@,
        state_name(State::Active) != state_name(State::Away),
        state_name(State::Active) != state_name(State::Busy),
        state_name(State::Away) != state_name(State::Busy),
{
    reveal_strlit("ACTIVE");
    reveal_strlit("AWAY");
    reveal_strlit("BUSY");
    assert("ACTIVE"@.len() != "AWAY"@.len());
    assert("ACTIVE"@.len() != "BUSY"@.len());
    assert("AWAY"@[0] != "BUSY"@[0]);
}

/// The operations and results of an answer travel under their protocol
/// names.
pub proof fn law_answer_names()
    ensures
        operation_name(Operations::Identify) == "IDENTIFY"@,
        operation_name(Operations::Text) == "TEXT"@,
        operation_name(Operations::NewRoom) == "NEW_ROOM"@,
        operation_name(Operations::Invite) == "INVITE"@,
        operation_name(Operations::JoinRoom) == "JOIN_ROOM"@,
        operation_name(Operations::RoomUsers) == "ROOM_USERS"@,
        operation_name(Operations::RoomText) == "ROOM_TEXT"@,
        operation_name(Operations::LeaveRoom) == "LEAVE_ROOM"@,
        operation_name(Operations::Invalid) == "INVALID"@,
        result_name(Resultado::Success) == "SUCCESS"@,
        result_name(Resultado::UserAlreadyExists) == "USER_ALREADY_EXISTS"@,
        result_name(Resultado::NoSuchUser) == "NO_SUCH_USER"@,
        result_name(Resultado::RoomAlreadyExists) == "ROOM_ALREADY_EXISTS"@,
        result_name(Resultado::NoSuchRoom) == "NO_SUCH_ROOM"@,
        result_name(Resultado::NotInvited) == "NOT_INVITED"@,
        result_name(Resultado::NotJoined) == "NOT_JOINED"@,
        result_name(Resultado::NotIdentified) == "NOT_IDENTIFIED"@,
        result_name(Resultado::Invalid) == "INVALID"@,
{
}

} // verus!
