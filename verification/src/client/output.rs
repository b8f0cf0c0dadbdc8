//! What the client writes to the server for each action of the user.
use vstd::prelude::*;

use crate::client::input::{Action, ActionView};
use crate::protocol::{encode_recive, recive_json, ReciveView, TypeReciveMessages};
use crate::text::copy_string;

verus! {

/// The message that carries an action to the server; help stays local.
pub open spec fn action_message(a: ActionView) -> Option<ReciveView> {
    match a {
        ActionView::Status { status } => Some(ReciveView::Status { status }),
        ActionView::Users => Some(ReciveView::Users),
        ActionView::PrivateText { username, text } => Some(ReciveView::Text { username, text }),
        ActionView::Disconnect => Some(ReciveView::Disconect),
        ActionView::PublicText { text } => Some(ReciveView::PublicText { text }),
        ActionView::Help => None,
        ActionView::NewRoom { roomname } => Some(ReciveView::NewRoom { roomname }),
        ActionView::Invite { roomname, usernames } => Some(ReciveView::Invite { roomname, usernames }),
        ActionView::JoinRoom { roomname } => Some(ReciveView::JoinRoom { roomname }),
        ActionView::RoomUsers { roomname } => Some(ReciveView::RoomUsers { roomname }),
        ActionView::RoomText { roomname, text } => Some(ReciveView::RoomText { roomname, text }),
        ActionView::LeaveRoom { roomname } => Some(ReciveView::LeaveRoom { roomname }),
    }
}

/// A client message as it is written: its JSON text, then a newline.
pub open spec fn request_line(m: ReciveView) -> Seq<u8> {
    recive_json(m).push(10u8)
}

/// The line that carries a client message.
pub fn request_bytes(m: &TypeReciveMessages) -> (r: Vec<u8>)
    ensures
        r@ == request_line(m@),
{
    let mut msg = encode_recive(m);
    msg.push(10u8);
    msg
}

/// The line to send for an action of the user, if it goes to the server.
pub fn procces_user_msg(action: Action) -> (r: Option<Vec<u8>>)
    ensures
        match action_message(action@) {
            Some(m) => r matches Some(bytes) && bytes@ == request_line(m),
            None => r is None,
        },
{
    let message = match action {
        Action::Disconnect => TypeReciveMessages::Disconect,
        Action::Help => {
            return None;
        },
        Action::PrivateText { username, text } => TypeReciveMessages::Text { username, text },
        Action::Status { status } => TypeReciveMessages::Status { status },
        Action::Users => TypeReciveMessages::Users,
        Action::PublicText { text } => TypeReciveMessages::PublicText { text },
        Action::NewRoom { roomname } => TypeReciveMessages::NewRoom { roomname },
        Action::Invite { roomname, usernames } => TypeReciveMessages::Invite { roomname, usernames },
        Action::JoinRoom { roomname } => TypeReciveMessages::JoinRoom { roomname },
        Action::RoomUsers { roomname } => TypeReciveMessages::RoomUsers { roomname },
        Action::RoomText { roomname, text } => TypeReciveMessages::RoomText { roomname, text },
        Action::LeaveRoom { roomname } => TypeReciveMessages::LeaveRoom { roomname },
    };
    Some(request_bytes(&message))
}

/// The identification line for the name `name`.
pub fn generate_identify(name: String) -> (r: Vec<u8>)
    ensures
        r@ == request_line(ReciveView::Identify { username: name@ }),
{
    request_bytes(&TypeReciveMessages::Identify { username: name })
}

} // verus!
