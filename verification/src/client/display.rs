//! What the server's messages mean to the user: which notice the client
//! shows for each, and how the answer to an identification is read.
use vstd::prelude::*;

use crate::protocol::{states_view, strings_view, Operations, Resultado, SendView, State, TypeSendMessages};
use crate::text::{chars_of, copy_string, string_of, trim, trim_by, trim_chars, trim_chars_by, Strip};
use vstd::string::*;

verus! {

/// The notice that the client shows for a message of the server.
#[derive(Debug, PartialEq, Eq)]
pub enum ViewAction {
    UserDisconnected { username: String },
    NewStatus { username: String, status: State },
    PublicText { username: String, text: String },
    NewRoomCreated { roomname: String },
    RoomAlreadyExists { roomname: String },
    NoSuchRoomToInvite { roomname: String },
    NoSuchUserToInvite { username: String },
    JoinRoomSuccess { roomname: String },
    NoSuchRoomToJoin { roomname: String },
    NotInvitedToRoom { roomname: String },
    NoSuchRoomToGetUsers { roomname: String },
    NotJoinedRoomToGetUsers { roomname: String },
    NoSuchRoomToSendRoomText { roomname: String },
    NotJoinedToSendRoomText { roomname: String },
    NoSuchRoomToLeave { roomname: String },
    NotJoinedToLeave { roomname: String },
    InvalidResponse,
    NoSuchUserForText { username: String },
    Users { users: Vec<(String, State)> },
    PrivateText { username: String, text: String },
    NewUserConnected { username: String },
    InvitationToRoom { username: String, roomname: String },
    UserJoinedRoom { username: String, roomname: String },
    UserLeftRoom { username: String, roomname: String },
    RoomTextFrom { username: String, roomname: String, text: String },
    RoomUsers { roomname: String, users: Vec<(String, State)> },
    Nothing,
}

pub ghost enum ViewActionView {
    UserDisconnected { username: Seq<char> },
    NewStatus { username: Seq<char>, status: State },
    PublicText { username: Seq<char>, text: Seq<char> },
    NewRoomCreated { roomname: Seq<char> },
    RoomAlreadyExists { roomname: Seq<char> },
    NoSuchRoomToInvite { roomname: Seq<char> },
    NoSuchUserToInvite { username: Seq<char> },
    JoinRoomSuccess { roomname: Seq<char> },
    NoSuchRoomToJoin { roomname: Seq<char> },
    NotInvitedToRoom { roomname: Seq<char> },
    NoSuchRoomToGetUsers { roomname: Seq<char> },
    NotJoinedRoomToGetUsers { roomname: Seq<char> },
    NoSuchRoomToSendRoomText { roomname: Seq<char> },
    NotJoinedToSendRoomText { roomname: Seq<char> },
    NoSuchRoomToLeave { roomname: Seq<char> },
    NotJoinedToLeave { roomname: Seq<char> },
    InvalidResponse,
    NoSuchUserForText { username: Seq<char> },
    Users { users: Seq<(Seq<char>, State)> },
    PrivateText { username: Seq<char>, text: Seq<char> },
    NewUserConnected { username: Seq<char> },
    InvitationToRoom { username: Seq<char>, roomname: Seq<char> },
    UserJoinedRoom { username: Seq<char>, roomname: Seq<char> },
    UserLeftRoom { username: Seq<char>, roomname: Seq<char> },
    RoomTextFrom { username: Seq<char>, roomname: Seq<char>, text: Seq<char> },
    RoomUsers { roomname: Seq<char>, users: Seq<(Seq<char>, State)> },
    Nothing,
}

impl View for ViewAction {
    type V = ViewActionView;

    open spec fn view(&self) -> ViewActionView {
        match self {
            ViewAction::UserDisconnected { username } => ViewActionView::UserDisconnected { username: username@ },
            ViewAction::NewStatus { username, status } => ViewActionView::NewStatus { username: username@, status: *status },
            ViewAction::PublicText { username, text } => ViewActionView::PublicText { username: username@, text: text@ },
            ViewAction::NewRoomCreated { roomname } => ViewActionView::NewRoomCreated { roomname: roomname@ },
            ViewAction::RoomAlreadyExists { roomname } => ViewActionView::RoomAlreadyExists { roomname: roomname@ },
            ViewAction::NoSuchRoomToInvite { roomname } => ViewActionView::NoSuchRoomToInvite { roomname: roomname@ },
            ViewAction::NoSuchUserToInvite { username } => ViewActionView::NoSuchUserToInvite { username: username@ },
            ViewAction::JoinRoomSuccess { roomname } => ViewActionView::JoinRoomSuccess { roomname: roomname@ },
            ViewAction::NoSuchRoomToJoin { roomname } => ViewActionView::NoSuchRoomToJoin { roomname: roomname@ },
            ViewAction::NotInvitedToRoom { roomname } => ViewActionView::NotInvitedToRoom { roomname: roomname@ },
            ViewAction::NoSuchRoomToGetUsers { roomname } => ViewActionView::NoSuchRoomToGetUsers { roomname: roomname@ },
            ViewAction::NotJoinedRoomToGetUsers { roomname } => ViewActionView::NotJoinedRoomToGetUsers { roomname: roomname@ },
            ViewAction::NoSuchRoomToSendRoomText { roomname } => ViewActionView::NoSuchRoomToSendRoomText { roomname: roomname@ },
            ViewAction::NotJoinedToSendRoomText { roomname } => ViewActionView::NotJoinedToSendRoomText { roomname: roomname@ },
            ViewAction::NoSuchRoomToLeave { roomname } => ViewActionView::NoSuchRoomToLeave { roomname: roomname@ },
            ViewAction::NotJoinedToLeave { roomname } => ViewActionView::NotJoinedToLeave { roomname: roomname@ },
            ViewAction::InvalidResponse => ViewActionView::InvalidResponse,
            ViewAction::NoSuchUserForText { username } => ViewActionView::NoSuchUserForText { username: username@ },
            ViewAction::Users { users } => ViewActionView::Users { users: states_view(users@) },
            ViewAction::PrivateText { username, text } => ViewActionView::PrivateText { username: username@, text: text@ },
            ViewAction::NewUserConnected { username } => ViewActionView::NewUserConnected { username: username@ },
            ViewAction::InvitationToRoom { username, roomname } => ViewActionView::InvitationToRoom { username: username@, roomname: roomname@ },
            ViewAction::UserJoinedRoom { username, roomname } => ViewActionView::UserJoinedRoom { username: username@, roomname: roomname@ },
            ViewAction::UserLeftRoom { username, roomname } => ViewActionView::UserLeftRoom { username: username@, roomname: roomname@ },
            ViewAction::RoomTextFrom { username, roomname, text } => ViewActionView::RoomTextFrom { username: username@, roomname: roomname@, text: text@ },
            ViewAction::RoomUsers { roomname, users } => ViewActionView::RoomUsers { roomname: roomname@, users: states_view(users@) },
            ViewAction::Nothing => ViewActionView::Nothing,
        }
    }
}

/// The notice for a message of the server, if the client knows it. An
/// answer whose subject is missing shows nothing.
pub open spec fn displayed(m: SendView) -> Option<ViewActionView> {
    match m {
        SendView::Disconnected { username } => Some(ViewActionView::UserDisconnected { username }),
        SendView::NewStatus { username, status } => Some(ViewActionView::NewStatus { username, status }),
        SendView::PublicTextFrom { username, text } => Some(ViewActionView::PublicText { username, text }),
        SendView::Response { operation, result, extra } => match (operation, result) {
            (Operations::NewRoom, Resultado::Success) => Some(match extra {
                Some(e) => ViewActionView::NewRoomCreated { roomname: e },
                None => ViewActionView::Nothing,
            }),
            (Operations::NewRoom, Resultado::RoomAlreadyExists) => Some(match extra {
                Some(e) => ViewActionView::RoomAlreadyExists { roomname: e },
                None => ViewActionView::Nothing,
            }),
            (Operations::Invite, Resultado::NoSuchRoom) => Some(match extra {
                Some(e) => ViewActionView::NoSuchRoomToInvite { roomname: e },
                None => ViewActionView::Nothing,
            }),
            (Operations::Invite, Resultado::NoSuchUser) => Some(match extra {
                Some(e) => ViewActionView::NoSuchUserToInvite { username: e },
                None => ViewActionView::Nothing,
            }),
            (Operations::JoinRoom, Resultado::Success) => Some(match extra {
                Some(e) => ViewActionView::JoinRoomSuccess { roomname: e },
                None => ViewActionView::Nothing,
            }),
            (Operations::JoinRoom, Resultado::NoSuchRoom) => Some(match extra {
                Some(e) => ViewActionView::NoSuchRoomToJoin { roomname: e },
                None => ViewActionView::Nothing,
            }),
            (Operations::JoinRoom, Resultado::NotInvited) => Some(match extra {
                Some(e) => ViewActionView::NotInvitedToRoom { roomname: e },
                None => ViewActionView::Nothing,
            }),
            (Operations::RoomUsers, Resultado::NoSuchRoom) => Some(match extra {
                Some(e) => ViewActionView::NoSuchRoomToGetUsers { roomname: e },
                None => ViewActionView::Nothing,
            }),
            (Operations::RoomUsers, Resultado::NotJoined) => Some(match extra {
                Some(e) => ViewActionView::NotJoinedRoomToGetUsers { roomname: e },
                None => ViewActionView::Nothing,
            }),
            (Operations::RoomText, Resultado::NoSuchRoom) => Some(match extra {
                Some(e) => ViewActionView::NoSuchRoomToSendRoomText { roomname: e },
                None => ViewActionView::Nothing,
            }),
            (Operations::RoomText, Resultado::NotJoined) => Some(match extra {
                Some(e) => ViewActionView::NotJoinedToSendRoomText { roomname: e },
                None => ViewActionView::Nothing,
            }),
            (Operations::LeaveRoom, Resultado::NoSuchRoom) => Some(match extra {
                Some(e) => ViewActionView::NoSuchRoomToLeave { roomname: e },
                None => ViewActionView::Nothing,
            }),
            (Operations::LeaveRoom, Resultado::NotJoined) => Some(match extra {
                Some(e) => ViewActionView::NotJoinedToLeave { roomname: e },
                None => ViewActionView::Nothing,
            }),
            (Operations::Text, Resultado::NoSuchUser) => Some(match extra {
                Some(e) => ViewActionView::NoSuchUserForText { username: e },
                None => ViewActionView::Nothing,
            }),
            (Operations::Invalid, Resultado::Invalid) => Some(ViewActionView::InvalidResponse),
            _ => None,
        },
        SendView::UserList { users } => Some(ViewActionView::Users { users }),
        SendView::TextFrom { username, text } => Some(ViewActionView::PrivateText { username, text }),
        SendView::NewUser { username } => Some(ViewActionView::NewUserConnected { username }),
        SendView::Invitation { username, roomname } => Some(ViewActionView::InvitationToRoom { username, roomname }),
        SendView::JoinedRoom { roomname, username } => Some(ViewActionView::UserJoinedRoom { username, roomname }),
        SendView::LeftRoom { roomname, username } => Some(ViewActionView::UserLeftRoom { username, roomname }),
        SendView::RoomTextFrom { roomname, username, text } => Some(
            ViewActionView::RoomTextFrom { username, roomname, text },
        ),
        SendView::RoomUserList { roomname, users } => Some(ViewActionView::RoomUsers { roomname, users }),
    }
}

/// Whether the client knows the message: the others break the protocol
/// from the client's side.
pub fn is_displayable(message: &TypeSendMessages) -> (r: bool)
    ensures
        r == displayed(message@) is Some,
{
    match message {
        TypeSendMessages::Response { operation, result, .. } => match (*operation, *result) {
            (Operations::NewRoom, Resultado::Success) => true,
            (Operations::NewRoom, Resultado::RoomAlreadyExists) => true,
            (Operations::Invite, Resultado::NoSuchRoom) => true,
            (Operations::Invite, Resultado::NoSuchUser) => true,
            (Operations::JoinRoom, Resultado::Success) => true,
            (Operations::JoinRoom, Resultado::NoSuchRoom) => true,
            (Operations::JoinRoom, Resultado::NotInvited) => true,
            (Operations::RoomUsers, Resultado::NoSuchRoom) => true,
            (Operations::RoomUsers, Resultado::NotJoined) => true,
            (Operations::RoomText, Resultado::NoSuchRoom) => true,
            (Operations::RoomText, Resultado::NotJoined) => true,
            (Operations::LeaveRoom, Resultado::NoSuchRoom) => true,
            (Operations::LeaveRoom, Resultado::NotJoined) => true,
            (Operations::Text, Resultado::NoSuchUser) => true,
            (Operations::Invalid, Resultado::Invalid) => true,
            _ => false,
        },
        _ => true,
    }
}

/// The notice for a message that the client knows.
pub fn procces_server_msg_aux(message: TypeSendMessages) -> (r: ViewAction)
    requires
        displayed(message@) is Some,
    ensures
        displayed(message@) == Some(r@),
{
    match message {
        TypeSendMessages::Disconnected { username } => ViewAction::UserDisconnected { username },
        TypeSendMessages::NewStatus { username, status } => ViewAction::NewStatus { username, status },
        TypeSendMessages::PublicTextFrom { username, text } => ViewAction::PublicText { username, text },
        TypeSendMessages::Response { operation, result, extra } => match (operation, result) {
            (Operations::NewRoom, Resultado::Success) => match extra {
                Some(e) => ViewAction::NewRoomCreated { roomname: e },
                None => ViewAction::Nothing,
            },
            (Operations::NewRoom, Resultado::RoomAlreadyExists) => match extra {
                Some(e) => ViewAction::RoomAlreadyExists { roomname: e },
                None => ViewAction::Nothing,
            },
            (Operations::Invite, Resultado::NoSuchRoom) => match extra {
                Some(e) => ViewAction::NoSuchRoomToInvite { roomname: e },
                None => ViewAction::Nothing,
            },
            (Operations::Invite, Resultado::NoSuchUser) => match extra {
                Some(e) => ViewAction::NoSuchUserToInvite { username: e },
                None => ViewAction::Nothing,
            },
            (Operations::JoinRoom, Resultado::Success) => match extra {
                Some(e) => ViewAction::JoinRoomSuccess { roomname: e },
                None => ViewAction::Nothing,
            },
            (Operations::JoinRoom, Resultado::NoSuchRoom) => match extra {
                Some(e) => ViewAction::NoSuchRoomToJoin { roomname: e },
                None => ViewAction::Nothing,
            },
            (Operations::JoinRoom, Resultado::NotInvited) => match extra {
                Some(e) => ViewAction::NotInvitedToRoom { roomname: e },
                None => ViewAction::Nothing,
            },
            (Operations::RoomUsers, Resultado::NoSuchRoom) => match extra {
                Some(e) => ViewAction::NoSuchRoomToGetUsers { roomname: e },
                None => ViewAction::Nothing,
            },
            (Operations::RoomUsers, Resultado::NotJoined) => match extra {
                Some(e) => ViewAction::NotJoinedRoomToGetUsers { roomname: e },
                None => ViewAction::Nothing,
            },
            (Operations::RoomText, Resultado::NoSuchRoom) => match extra {
                Some(e) => ViewAction::NoSuchRoomToSendRoomText { roomname: e },
                None => ViewAction::Nothing,
            },
            (Operations::RoomText, Resultado::NotJoined) => match extra {
                Some(e) => ViewAction::NotJoinedToSendRoomText { roomname: e },
                None => ViewAction::Nothing,
            },
            (Operations::LeaveRoom, Resultado::NoSuchRoom) => match extra {
                Some(e) => ViewAction::NoSuchRoomToLeave { roomname: e },
                None => ViewAction::Nothing,
            },
            (Operations::LeaveRoom, Resultado::NotJoined) => match extra {
                Some(e) => ViewAction::NotJoinedToLeave { roomname: e },
                None => ViewAction::Nothing,
            },
            (Operations::Text, Resultado::NoSuchUser) => match extra {
                Some(e) => ViewAction::NoSuchUserForText { username: e },
                None => ViewAction::Nothing,
            },
            (Operations::Invalid, Resultado::Invalid) => ViewAction::InvalidResponse,
            _ => ViewAction::Nothing,
        },
        TypeSendMessages::UserList { users } => ViewAction::Users { users },
        TypeSendMessages::TextFrom { username, text } => ViewAction::PrivateText { username, text },
        TypeSendMessages::NewUser { username } => ViewAction::NewUserConnected { username },
        TypeSendMessages::Invitation { username, roomname } => ViewAction::InvitationToRoom { username, roomname },
        TypeSendMessages::JoinedRoom { roomname, username } => ViewAction::UserJoinedRoom { username, roomname },
        TypeSendMessages::LeftRoom { roomname, username } => ViewAction::UserLeftRoom { username, roomname },
        TypeSendMessages::RoomTextFrom { roomname, username, text } => ViewAction::RoomTextFrom { username, roomname, text },
        TypeSendMessages::RoomUserList { roomname, users } => ViewAction::RoomUsers { roomname, users },
    }
}

/// A line read from the server without the whitespace around it, then
/// without the NUL characters around that.
pub open spec fn cleaned_server_line(line: Seq<char>) -> Seq<char> {
    trim_by(trim(line), Strip::Nul)
}

/// A line read from the server, cleaned: see `cleaned_server_line`.
pub fn clean_server_line(line: &str) -> (r: String)
    ensures
        r@ == cleaned_server_line(line@),
{
    let chars = chars_of(line);
    let trimmed = trim_chars(&chars);
    let clean = trim_chars_by(&trimmed, Strip::Nul);
    string_of(clean.as_slice())
}

/// How the client reads the answer to its identification: the name it was
/// accepted under, `Err` when the name is taken, and `None` for any other
/// message, which breaks the protocol.
pub open spec fn identify_reply(m: SendView) -> Option<Result<Seq<char>, ()>> {
    match m {
        SendView::Response { operation: Operations::Identify, result: Resultado::Success, extra: Some(name) } => Some(
            Ok(name),
        ),
        SendView::Response { operation: Operations::Identify, result: Resultado::UserAlreadyExists, .. } => Some(
            Err(()),
        ),
        _ => None,
    }
}

/// Whether `message` is an answer to an identification.
pub fn is_identify_reply(message: &TypeSendMessages) -> (r: bool)
    ensures
        r == identify_reply(message@) is Some,
{
    match message {
        TypeSendMessages::Response { operation: Operations::Identify, result: Resultado::Success, extra: Some(_) } => true,
        TypeSendMessages::Response { operation: Operations::Identify, result: Resultado::UserAlreadyExists, .. } => true,
        _ => false,
    }
}

/// The name that the server accepted, or `Err` when it refused it as taken.
pub fn get_identify_response(message: TypeSendMessages) -> (r: Result<String, ()>)
    requires
        identify_reply(message@) is Some,
    ensures
        match identify_reply(message@) {
            Some(Ok(name)) => r matches Ok(n) && n@ == name,
            _ => r is Err,
        },
{
    match message {
        TypeSendMessages::Response { result: Resultado::Success, extra: Some(name), .. } => Ok(name),
        _ => Err(()),
    }
}

/// The greeting of the desktop front end to `name`.
pub fn ping_backend(name: &str) -> (r: String)
    ensures
        r@ == "¡Conexión exitosa, "@ + name@ + "! El core nativo de Rust está listo para recibir los sockets TCP."@,
{
    let mut r = String::from_str("¡Conexión exitosa, ");
    r.append(name);
    r.append("! El core nativo de Rust está listo para recibir los sockets TCP.");
    r
}

/// The help text of the client. The client has no help text, so this is
/// `None`; a front end that asks for it stops there.
pub fn print_help_msg() -> (r: Option<String>)
    ensures
        r is None,
{
    None
}

/// The word the client shows for a state.
pub open spec fn state_word(status: State) -> Seq<char> {
    match status {
        State::Active => "Activo"@,
        State::Away => "Inactivo"@,
        State::Busy => "Ocupado"@,
    }
}

/// The name of a state as the client lists it.
pub open spec fn state_label(status: State) -> Seq<char> {
    match status {
        State::Active => "Active"@,
        State::Away => "Away"@,
        State::Busy => "Busy"@,
    }
}

/// One line per user: its name, a colon and its state.
pub open spec fn listing_lines(users: Seq<(Seq<char>, State)>) -> Seq<Seq<char>> {
    users.map_values(|u: (Seq<char>, State)| u.0 + ": "@ + state_label(u.1))
}

/// The lines the client prints for a notice.
pub open spec fn notice_lines(action: ViewActionView) -> Seq<Seq<char>> {
    match action {
        ViewActionView::UserDisconnected { username } => seq!["El usuario "@ + username + " se ha desconectado"@],
        ViewActionView::NewStatus { username, status } => seq!["El estado de "@ + username + " ahora es "@ + state_word(status)],
        ViewActionView::PublicText { username, text } => seq![username + ": "@ + text],
        ViewActionView::NewRoomCreated { roomname } => seq!["Se creó el cuarto "@ + roomname],
        ViewActionView::RoomAlreadyExists { roomname } => seq!["El cuarto "@ + roomname + " ya existe"@],
        ViewActionView::NoSuchRoomToInvite { roomname } => seq!["No existe el cuarto "@ + roomname + " para invitar"@],
        ViewActionView::NoSuchUserToInvite { username } => seq!["No existe el usuario "@ + username + " para invitar"@],
        ViewActionView::JoinRoomSuccess { roomname } => seq!["Te uniste al cuarto "@ + roomname],
        ViewActionView::NoSuchRoomToJoin { roomname } => seq!["No existe el cuarto "@ + roomname],
        ViewActionView::NotInvitedToRoom { roomname } => seq!["No estás invitado al cuarto "@ + roomname],
        ViewActionView::NoSuchRoomToGetUsers { roomname } => seq!["No existe el cuarto "@ + roomname],
        ViewActionView::NotJoinedRoomToGetUsers { roomname } => seq!["No estás en el cuarto "@ + roomname],
        ViewActionView::NoSuchRoomToSendRoomText { roomname } => seq!["No existe el cuarto "@ + roomname],
        ViewActionView::NotJoinedToSendRoomText { roomname } => seq!["No estás en el cuarto "@ + roomname],
        ViewActionView::NoSuchRoomToLeave { roomname } => seq!["No existe el cuarto "@ + roomname],
        ViewActionView::NotJoinedToLeave { roomname } => seq!["No estás en el cuarto "@ + roomname],
        ViewActionView::InvalidResponse => seq!["El mensaje enviado al servidor fue inválido"@],
        ViewActionView::NoSuchUserForText { username } => seq!["El usuario "@ + username + " al que se intentó enviar mensaje privado no existe."@],
        ViewActionView::PrivateText { username, text } => seq!["Mensaje privado de "@ + username + ": "@ + text],
        ViewActionView::NewUserConnected { username } => seq![username + " se ha conectado al chat"@],
        ViewActionView::InvitationToRoom { username, roomname } => seq![username + " te invitó al cuarto "@ + roomname],
        ViewActionView::UserJoinedRoom { username, roomname } => seq![username + " se unió al cuarto "@ + roomname],
        ViewActionView::UserLeftRoom { username, roomname } => seq![username + " salió del cuarto "@ + roomname],
        ViewActionView::RoomTextFrom { username, roomname, text } => seq!["["@ + roomname + "] "@ + username + ": "@ + text],
        ViewActionView::Users { users } => seq!["Los usuarios actuales son:"@] + listing_lines(users),
        ViewActionView::RoomUsers { roomname, users } => seq!["Los usuarios del cuarto "@ + roomname + " son:"@] + listing_lines(users),
        ViewActionView::Nothing => Seq::empty(),
    }
}

fn state_word_str(status: State) -> (r: &'static str)
    ensures
        r@ == state_word(status),
{
    match status {
        State::Active => "Activo",
        State::Away => "Inactivo",
        State::Busy => "Ocupado",
    }
}

fn state_label_str(status: State) -> (r: &'static str)
    ensures
        r@ == state_label(status),
{
    match status {
        State::Active => "Active",
        State::Away => "Away",
        State::Busy => "Busy",
    }
}

fn one_line(l: String) -> (r: Vec<String>)
    ensures
        strings_view(r@) == seq![l@],
{
    let mut r: Vec<String> = Vec::new();
    r.push(l);
    assert(strings_view(r@) =~= seq![l@]);
    r
}

/// `header`, then one line per user.
fn listing(header: String, users: &Vec<(String, State)>) -> (r: Vec<String>)
    ensures
        strings_view(r@) == seq![header@] + listing_lines(states_view(users@)),
{
    let ghost all = listing_lines(states_view(users@));
    let mut r: Vec<String> = Vec::new();
    r.push(header);
    let mut i: usize = 0;
    while i < users.len()
        invariant
            i <= users@.len(),
            all == listing_lines(states_view(users@)),
            strings_view(r@) =~= seq![header@] + all.subrange(0, i as int),
        decreases users@.len() - i,
    {
        let mut l = copy_string(&users[i].0);
        l.append(": ");
        l.append(state_label_str(users[i].1));
        let ghost prev = strings_view(r@);
        r.push(l);
        i = i + 1;
        assert(all[i - 1] == users@[i - 1].0@ + ": "@ + state_label(users@[i - 1].1));
        assert(all.subrange(0, i as int) =~= all.subrange(0, i - 1 as int).push(all[i - 1]));
        assert(strings_view(r@) =~= prev.push(all[i - 1]));
    }
    assert(all.subrange(0, users@.len() as int) =~= all);
    r
}

/// The lines the client prints for the notice `action`, one after the
/// other; none for a message it does not show.
pub fn notice(action: &ViewAction) -> (r: Vec<String>)
    ensures
        strings_view(r@) == notice_lines(action@),
{
    match action {
        ViewAction::UserDisconnected { username } => {
            let mut l = String::from_str("El usuario ");
            l.append(username.as_str());
            l.append(" se ha desconectado");
            one_line(l)
        },
        ViewAction::NewStatus { username, status } => {
            let mut l = String::from_str("El estado de ");
            l.append(username.as_str());
            l.append(" ahora es ");
            l.append(state_word_str(*status));
            one_line(l)
        },
        ViewAction::PublicText { username, text } => {
            let mut l = String::from_str(username.as_str());
            l.append(": ");
            l.append(text.as_str());
            one_line(l)
        },
        ViewAction::NewRoomCreated { roomname } => {
            let mut l = String::from_str("Se creó el cuarto ");
            l.append(roomname.as_str());
            one_line(l)
        },
        ViewAction::RoomAlreadyExists { roomname } => {
            let mut l = String::from_str("El cuarto ");
            l.append(roomname.as_str());
            l.append(" ya existe");
            one_line(l)
        },
        ViewAction::NoSuchRoomToInvite { roomname } => {
            let mut l = String::from_str("No existe el cuarto ");
            l.append(roomname.as_str());
            l.append(" para invitar");
            one_line(l)
        },
        ViewAction::NoSuchUserToInvite { username } => {
            let mut l = String::from_str("No existe el usuario ");
            l.append(username.as_str());
            l.append(" para invitar");
            one_line(l)
        },
        ViewAction::JoinRoomSuccess { roomname } => {
            let mut l = String::from_str("Te uniste al cuarto ");
            l.append(roomname.as_str());
            one_line(l)
        },
        ViewAction::NoSuchRoomToJoin { roomname } => {
            let mut l = String::from_str("No existe el cuarto ");
            l.append(roomname.as_str());
            one_line(l)
        },
        ViewAction::NotInvitedToRoom { roomname } => {
            let mut l = String::from_str("No estás invitado al cuarto ");
            l.append(roomname.as_str());
            one_line(l)
        },
        ViewAction::NoSuchRoomToGetUsers { roomname } => {
            let mut l = String::from_str("No existe el cuarto ");
            l.append(roomname.as_str());
            one_line(l)
        },
        ViewAction::NotJoinedRoomToGetUsers { roomname } => {
            let mut l = String::from_str("No estás en el cuarto ");
            l.append(roomname.as_str());
            one_line(l)
        },
        ViewAction::NoSuchRoomToSendRoomText { roomname } => {
            let mut l = String::from_str("No existe el cuarto ");
            l.append(roomname.as_str());
            one_line(l)
        },
        ViewAction::NotJoinedToSendRoomText { roomname } => {
            let mut l = String::from_str("No estás en el cuarto ");
            l.append(roomname.as_str());
            one_line(l)
        },
        ViewAction::NoSuchRoomToLeave { roomname } => {
            let mut l = String::from_str("No existe el cuarto ");
            l.append(roomname.as_str());
            one_line(l)
        },
        ViewAction::NotJoinedToLeave { roomname } => {
            let mut l = String::from_str("No estás en el cuarto ");
            l.append(roomname.as_str());
            one_line(l)
        },
        ViewAction::InvalidResponse => {
            let mut l = String::from_str("El mensaje enviado al servidor fue inválido");
            one_line(l)
        },
        ViewAction::NoSuchUserForText { username } => {
            let mut l = String::from_str("El usuario ");
            l.append(username.as_str());
            l.append(" al que se intentó enviar mensaje privado no existe.");
            one_line(l)
        },
        ViewAction::PrivateText { username, text } => {
            let mut l = String::from_str("Mensaje privado de ");
            l.append(username.as_str());
            l.append(": ");
            l.append(text.as_str());
            one_line(l)
        },
        ViewAction::NewUserConnected { username } => {
            let mut l = String::from_str(username.as_str());
            l.append(" se ha conectado al chat");
            one_line(l)
        },
        ViewAction::InvitationToRoom { username, roomname } => {
            let mut l = String::from_str(username.as_str());
            l.append(" te invitó al cuarto ");
            l.append(roomname.as_str());
            one_line(l)
        },
        ViewAction::UserJoinedRoom { username, roomname } => {
            let mut l = String::from_str(username.as_str());
            l.append(" se unió al cuarto ");
            l.append(roomname.as_str());
            one_line(l)
        },
        ViewAction::UserLeftRoom { username, roomname } => {
            let mut l = String::from_str(username.as_str());
            l.append(" salió del cuarto ");
            l.append(roomname.as_str());
            one_line(l)
        },
        ViewAction::RoomTextFrom { username, roomname, text } => {
            let mut l = String::from_str("[");
            l.append(roomname.as_str());
            l.append("] ");
            l.append(username.as_str());
            l.append(": ");
            l.append(text.as_str());
            one_line(l)
        },
        ViewAction::Users { users } => listing(String::from_str("Los usuarios actuales son:"), users),
        ViewAction::RoomUsers { roomname, users } => {
            let mut h = String::from_str("Los usuarios del cuarto ");
            h.append(roomname.as_str());
            h.append(" son:");
            listing(h, users)
        },
        ViewAction::Nothing => Vec::new(),
    }
}

} // verus!
