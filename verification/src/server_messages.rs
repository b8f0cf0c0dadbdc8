//! The messages that the server sends, each as one line of JSON text.
use vstd::prelude::*;

use crate::protocol::{
    encode_send, send_json, states_view, Operations, Resultado, SendView, State, TypeSendMessages,
};

verus! {

/// A message as it is written: its JSON text, then a newline.
pub open spec fn line(m: SendView) -> Seq<u8> {
    send_json(m).push(10u8)
}

/// The JSON text of `m` followed by the byte `end`.
fn encode_line(m: TypeSendMessages, end: u8) -> (r: Vec<u8>)
    ensures
        r@ == send_json(m@).push(end),
{
    let mut bytes = encode_send(&m);
    bytes.push(end);
    bytes
}

/// Answers a first message that is not an identification.
pub fn generate_not_identified_msg() -> (r: Vec<u8>)
    ensures
        r@ == line(SendView::Response { operation: Operations::Invalid, result: Resultado::NotIdentified, extra: None }),
{
    encode_line(TypeSendMessages::Response { operation: Operations::Invalid, result: Resultado::NotIdentified, extra: None }, 10u8)
}

/// Answers a message that breaks the protocol.
pub fn generate_not_valid_msg() -> (r: Vec<u8>)
    ensures
        r@ == line(SendView::Response { operation: Operations::Invalid, result: Resultado::Invalid, extra: None }),
{
    encode_line(TypeSendMessages::Response { operation: Operations::Invalid, result: Resultado::Invalid, extra: None }, 10u8)
}

/// Answers a private text to a user that is not connected.
pub fn generate_text_user_not_exist(username: &str) -> (r: Vec<u8>)
    ensures
        r@ == line(SendView::Response { operation: Operations::Text, result: Resultado::NoSuchUser, extra: Some(username@) }),
{
    encode_line(TypeSendMessages::Response { operation: Operations::Text, result: Resultado::NoSuchUser, extra: Some(username.to_owned()) }, 10u8)
}

/// Accepts an identification.
pub fn generate_succes_identify_response(name: &str) -> (r: Vec<u8>)
    ensures
        r@ == line(SendView::Response { operation: Operations::Identify, result: Resultado::Success, extra: Some(name@) }),
{
    encode_line(TypeSendMessages::Response { operation: Operations::Identify, result: Resultado::Success, extra: Some(name.to_owned()) }, 10u8)
}

/// Refuses an identification whose name is taken.
pub fn generate_user_already_exists_response(name: &str) -> (r: Vec<u8>)
    ensures
        r@ == line(SendView::Response { operation: Operations::Identify, result: Resultado::UserAlreadyExists, extra: Some(name@) }),
{
    encode_line(TypeSendMessages::Response { operation: Operations::Identify, result: Resultado::UserAlreadyExists, extra: Some(name.to_owned()) }, 10u8)
}

/// Announces that a user left the chat.
pub fn generate_disconected_msg(username: &str) -> (r: Vec<u8>)
    ensures
        r@ == line(SendView::Disconnected { username: username@ }),
{
    encode_line(TypeSendMessages::Disconnected { username: username.to_owned() }, 10u8)
}

/// Relays a public text.
pub fn generate_public_text_from(username: &str, text: &str) -> (r: Vec<u8>)
    ensures
        r@ == line(SendView::PublicTextFrom { username: username@, text: text@ }),
{
    encode_line(TypeSendMessages::PublicTextFrom { username: username.to_owned(), text: text.to_owned() }, 10u8)
}

/// Announces a user's new state.
pub fn generate_new_status_msg(username: &str, status: State) -> (r: Vec<u8>)
    ensures
        r@ == line(SendView::NewStatus { username: username@, status }),
{
    encode_line(TypeSendMessages::NewStatus { username: username.to_owned(), status }, 10u8)
}

/// Lists the connected users with their states.
pub fn generate_users_msg(map: Vec<(String, State)>) -> (r: Vec<u8>)
    ensures
        r@ == line(SendView::UserList { users: states_view(map@) }),
{
    encode_line(TypeSendMessages::UserList { users: map }, 10u8)
}

/// Relays a private text.
pub fn generate_text_from_msg(username: &str, text: &str) -> (r: Vec<u8>)
    ensures
        r@ == line(SendView::TextFrom { username: username@, text: text@ }),
{
    encode_line(TypeSendMessages::TextFrom { username: username.to_owned(), text: text.to_owned() }, 10u8)
}

/// Answers a private text to a user that is not connected.
pub fn generate_text_form_user_not_exist_response(username: &str) -> (r: Vec<u8>)
    ensures
        r@ == line(SendView::Response { operation: Operations::Text, result: Resultado::NoSuchUser, extra: Some(username@) }),
{
    encode_line(TypeSendMessages::Response { operation: Operations::Text, result: Resultado::NoSuchUser, extra: Some(username.to_owned()) }, 10u8)
}

/// Announces a newly identified user.
pub fn generate_new_user_msg(username: &str) -> (r: Vec<u8>)
    ensures
        r@ == line(SendView::NewUser { username: username@ }),
{
    encode_line(TypeSendMessages::NewUser { username: username.to_owned() }, 10u8)
}

/// Invites the receiver to a room.
pub fn generate_invitation_msg(username: &str, roomname: &str) -> (r: Vec<u8>)
    ensures
        r@ == line(SendView::Invitation { username: username@, roomname: roomname@ }),
{
    encode_line(TypeSendMessages::Invitation { username: username.to_owned(), roomname: roomname.to_owned() }, 10u8)
}

/// Refuses to join a room without an invitation.
pub fn generate_not_invitated_msg(roomname: &str) -> (r: Vec<u8>)
    ensures
        r@ == line(SendView::Response { operation: Operations::JoinRoom, result: Resultado::NotInvited, extra: Some(roomname@) }),
{
    encode_line(TypeSendMessages::Response { operation: Operations::JoinRoom, result: Resultado::NotInvited, extra: Some(roomname.to_owned()) }, 10u8)
}

/// Confirms that the receiver joined a room.
pub fn success_join_room_response(roomname: &str) -> (r: Vec<u8>)
    ensures
        r@ == line(SendView::Response { operation: Operations::JoinRoom, result: Resultado::Success, extra: Some(roomname@) }),
{
    encode_line(TypeSendMessages::Response { operation: Operations::JoinRoom, result: Resultado::Success, extra: Some(roomname.to_owned()) }, 10u8)
}

/// Announces a new member of a room.
pub fn generate_new_room_user_msg(roomname: &str, new_user: &str) -> (r: Vec<u8>)
    ensures
        r@ == line(SendView::JoinedRoom { roomname: roomname@, username: new_user@ }),
{
    encode_line(TypeSendMessages::JoinedRoom { roomname: roomname.to_owned(), username: new_user.to_owned() }, 10u8)
}

/// Lists the members of a room with their states.
pub fn generate_room_users_msg(roomname: &str, users_map: Vec<(String, State)>) -> (r: Vec<u8>)
    ensures
        r@ == line(SendView::RoomUserList { roomname: roomname@, users: states_view(users_map@) }),
{
    encode_line(TypeSendMessages::RoomUserList { roomname: roomname.to_owned(), users: users_map }, 10u8)
}

/// Refuses a room text from a non-member.
pub fn generate_not_joined_response(roomname: &str) -> (r: Vec<u8>)
    ensures
        r@ == line(SendView::Response { operation: Operations::RoomText, result: Resultado::NotJoined, extra: Some(roomname@) }),
{
    encode_line(TypeSendMessages::Response { operation: Operations::RoomText, result: Resultado::NotJoined, extra: Some(roomname.to_owned()) }, 10u8)
}

/// Announces that a member left a room.
pub fn generate_user_leaved_room(username: &str, roomname: &str) -> (r: Vec<u8>)
    ensures
        r@ == line(SendView::LeftRoom { roomname: roomname@, username: username@ }),
{
    encode_line(TypeSendMessages::LeftRoom { roomname: roomname.to_owned(), username: username.to_owned() }, 10u8)
}

/// Refuses an invitation to a room that does not exist.
pub fn no_such_room_invite_msg(roomname: &str) -> (r: Vec<u8>)
    ensures
        r@ == line(SendView::Response { operation: Operations::JoinRoom, result: Resultado::NoSuchRoom, extra: Some(roomname@) }),
{
    encode_line(TypeSendMessages::Response { operation: Operations::JoinRoom, result: Resultado::NoSuchRoom, extra: Some(roomname.to_owned()) }, 10u8)
}

/// Refuses an invitation of a user that is not connected.
pub fn no_such_user_invite_msg(username: &str) -> (r: Vec<u8>)
    ensures
        r@ == line(SendView::Response { operation: Operations::Invite, result: Resultado::NoSuchUser, extra: Some(username@) }),
{
    encode_line(TypeSendMessages::Response { operation: Operations::Invite, result: Resultado::NoSuchUser, extra: Some(username.to_owned()) }, 10u8)
}

/// Refuses to join a room that does not exist.
pub fn no_such_room_join_room_msg(roomname: &str) -> (r: Vec<u8>)
    ensures
        r@ == line(SendView::Response { operation: Operations::JoinRoom, result: Resultado::NoSuchRoom, extra: Some(roomname@) }),
{
    encode_line(TypeSendMessages::Response { operation: Operations::JoinRoom, result: Resultado::NoSuchRoom, extra: Some(roomname.to_owned()) }, 10u8)
}

/// Confirms that a room was created.
pub fn new_room_success(roomname: &str) -> (r: Vec<u8>)
    ensures
        r@ == line(SendView::Response { operation: Operations::NewRoom, result: Resultado::Success, extra: Some(roomname@) }),
{
    encode_line(TypeSendMessages::Response { operation: Operations::NewRoom, result: Resultado::Success, extra: Some(roomname.to_owned()) }, 10u8)
}

/// Refuses to leave a room that does not exist.
pub fn leave_room_not_such_room(roomname: &str) -> (r: Vec<u8>)
    ensures
        r@ == line(SendView::Response { operation: Operations::LeaveRoom, result: Resultado::NoSuchRoom, extra: Some(roomname@) }),
{
    encode_line(TypeSendMessages::Response { operation: Operations::LeaveRoom, result: Resultado::NoSuchRoom, extra: Some(roomname.to_owned()) }, 10u8)
}

/// Refuses a text to a room that does not exist.
pub fn room_text_no_such_room(roomname: &str) -> (r: Vec<u8>)
    ensures
        r@ == line(SendView::Response { operation: Operations::RoomText, result: Resultado::NoSuchRoom, extra: Some(roomname@) }),
{
    encode_line(TypeSendMessages::Response { operation: Operations::RoomText, result: Resultado::NoSuchRoom, extra: Some(roomname.to_owned()) }, 10u8)
}

/// Refuses the member list of a room to a non-member. This message alone ends with the byte `n` in place of the newline.
pub fn room_users_not_joined(roomname: &str) -> (r: Vec<u8>)
    ensures
        r@ == send_json(SendView::Response { operation: Operations::RoomUsers, result: Resultado::NotJoined, extra: Some(roomname@) }).push(110u8),
{
    encode_line(TypeSendMessages::Response { operation: Operations::RoomUsers, result: Resultado::NotJoined, extra: Some(roomname.to_owned()) }, 110u8)
}

/// Refuses the member list of a room that does not exist.
pub fn room_users_no_such_room(roomname: &str) -> (r: Vec<u8>)
    ensures
        r@ == line(SendView::Response { operation: Operations::RoomUsers, result: Resultado::NoSuchRoom, extra: Some(roomname@) }),
{
    encode_line(TypeSendMessages::Response { operation: Operations::RoomUsers, result: Resultado::NoSuchRoom, extra: Some(roomname.to_owned()) }, 10u8)
}

/// Refuses to leave a room that the sender is not in.
pub fn generate_not_joined_leave_room_response(roomname: &str) -> (r: Vec<u8>)
    ensures
        r@ == line(SendView::Response { operation: Operations::LeaveRoom, result: Resultado::NotJoined, extra: Some(roomname@) }),
{
    encode_line(TypeSendMessages::Response { operation: Operations::LeaveRoom, result: Resultado::NotJoined, extra: Some(roomname.to_owned()) }, 10u8)
}

/// Relays a room text.
pub fn generate_room_text_from(username: &str, roomname: &str, text: &str) -> (r: Vec<u8>)
    ensures
        r@ == line(SendView::RoomTextFrom { roomname: roomname@, username: username@, text: text@ }),
{
    encode_line(TypeSendMessages::RoomTextFrom { roomname: roomname.to_owned(), username: username.to_owned(), text: text.to_owned() }, 10u8)
}

} // verus!
