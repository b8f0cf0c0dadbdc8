//! Properties of the client: what a typed line asks for, that every action
//! but help reaches the server carrying what was typed, and how a message
//! of the server is shown.
use vstd::prelude::*;

use crate::client::display::{displayed, notice_lines, ViewActionView};
use crate::client::input::{command_action, entry_action, join_words, ActionView};
use crate::client::output::{action_message, request_line};
use crate::json::json_object;
use crate::protocol::{recive_members, state_name, text_member, ReciveView, SendView, State};
use crate::text::{is_white, trim, words, words_acc};

verus! {

/// A word: at least one character, none of them whitespace.
pub open spec fn is_word(w: Seq<char>) -> bool {
    w.len() > 0 && forall|i: int| 0 <= i < w.len() ==> !is_white(#[trigger] w[i])
}

/// Words, each at least one character and none of them whitespace.
pub open spec fn all_words(ws: Seq<Seq<char>>) -> bool {
    forall|i: int| 0 <= i < ws.len() ==> is_word(#[trigger] ws[i])
}

proof fn lemma_words_run(w: Seq<char>, rest: Seq<char>, done: Seq<Seq<char>>, cur: Seq<char>)
    requires
        forall|i: int| 0 <= i < w.len() ==> !is_white(#[trigger] w[i]),
    ensures
        words_acc(w + rest, done, cur) == words_acc(rest, done, cur + w),
    decreases w.len(),
{
    if w.len() == 0 {
        assert(w + rest =~= rest);
        assert(cur + w =~= cur);
    } else {
        assert((w + rest)[0] == w[0]);
        assert((w + rest).drop_first() =~= w.drop_first() + rest);
        lemma_words_run(w.drop_first(), rest, done, cur.push(w[0]));
        assert(cur.push(w[0]) + w.drop_first() =~= cur + w);
    }
}

proof fn lemma_join_words_front(ws: Seq<Seq<char>>)
    requires
        ws.len() >= 2,
    ensures
        join_words(ws) == ws[0] + seq![' '] + join_words(ws.drop_first()),
    decreases ws.len(),
{
    if ws.len() > 2 {
        lemma_join_words_front(ws.drop_last());
        assert(ws.drop_last().drop_first() =~= ws.drop_first().drop_last());
        assert(ws.drop_first().last() == ws.last());
        assert(join_words(ws.drop_first()) == join_words(ws.drop_first().drop_last()) + seq![' '] + ws.last());
        assert(join_words(ws) == join_words(ws.drop_last()) + seq![' '] + ws.last());
        assert(ws.drop_last()[0] == ws[0]);
        assert(join_words(ws) =~= ws[0] + seq![' '] + join_words(ws.drop_first()));
    } else {
        assert(ws.drop_first() =~= seq![ws[1]]);
        assert(ws.drop_last() =~= seq![ws[0]]);
        assert(join_words(ws.drop_first()) == ws[1]);
        assert(join_words(ws.drop_last()) == ws[0]);
        assert(ws.last() == ws[1]);
        assert(join_words(ws) =~= ws[0] + seq![' '] + join_words(ws.drop_first()));
    }
}

proof fn lemma_words_acc_joined(ws: Seq<Seq<char>>, done: Seq<Seq<char>>)
    requires
        ws.len() >= 1,
        all_words(ws),
    ensures
        words_acc(join_words(ws), done, Seq::empty()) == done + ws,
    decreases ws.len(),
{
    assert(is_word(ws[0]));
    if ws.len() == 1 {
        lemma_words_run(ws[0], Seq::empty(), done, Seq::empty());
        assert(ws[0] + Seq::<char>::empty() =~= ws[0]);
        assert(Seq::<char>::empty() + ws[0] =~= ws[0]);
        assert(done.push(ws[0]) =~= done + ws);
    } else {
        lemma_join_words_front(ws);
        let tail = ws.drop_first();
        let r = seq![' '] + join_words(tail);
        assert(join_words(ws) =~= ws[0] + r);
        lemma_words_run(ws[0], r, done, Seq::empty());
        assert(Seq::<char>::empty() + ws[0] =~= ws[0]);
        assert(r[0] == ' ');
        assert(is_white(' '));
        assert(r.drop_first() =~= join_words(tail));
        assert forall|i: int| 0 <= i < tail.len() implies is_word(#[trigger] tail[i]) by {
            assert(tail[i] == ws[i + 1]);
        }
        lemma_words_acc_joined(tail, done.push(ws[0]));
        assert(done.push(ws[0]) + tail =~= done + ws);
    }
}

/// Splitting words joined by single spaces gives the words back.
pub proof fn lemma_words_of_joined(ws: Seq<Seq<char>>)
    requires
        ws.len() >= 1,
        all_words(ws),
    ensures
        words(join_words(ws)) == ws,
{
    lemma_words_acc_joined(ws, Seq::empty());
    assert(Seq::<Seq<char>>::empty() + ws =~= ws);
}

proof fn lemma_join_words_ends(ws: Seq<Seq<char>>)
    requires
        ws.len() >= 1,
        all_words(ws),
    ensures
        join_words(ws).len() > 0,
        join_words(ws)[0] == ws[0][0],
        join_words(ws).last() == ws.last().last(),
    decreases ws.len(),
{
    assert(is_word(ws[0]));
    assert(is_word(ws.last()));
    if ws.len() > 1 {
        assert forall|i: int| 0 <= i < ws.drop_last().len() implies is_word(#[trigger] ws.drop_last()[i]) by {
            assert(ws.drop_last()[i] == ws[i]);
        }
        lemma_join_words_ends(ws.drop_last());
    }
}

/// A line of words joined by single spaces that starts with a command reads
/// as that command applied to the words.
proof fn lemma_command_line(ws: Seq<Seq<char>>)
    requires
        ws.len() >= 1,
        all_words(ws),
        ws[0].len() > 0 && ws[0][0] == '/',
    ensures
        entry_action(join_words(ws)) == Some(command_action(ws)),
{
    let l = join_words(ws);
    lemma_join_words_ends(ws);
    lemma_words_of_joined(ws);
    assert(is_word(ws.last()));
    assert(!is_white(l[0]));
    assert(!is_white(l.last()));
    assert(trim(l) == l);
}

/// `/privateText`, a user name and a text of one or more words, typed with
/// single spaces, ask to send that text to that user.
pub proof fn law_private_text_command(username: Seq<char>, text: Seq<Seq<char>>)
    requires
        is_word(username),
        text.len() >= 1,
        all_words(text),
    ensures
        entry_action(join_words(seq!["/privateText"@, username] + text)) == Some(
            Ok::<ActionView, ()>(ActionView::PrivateText { username, text: join_words(text) }),
        ),
{
    reveal_strlit("/status");
    reveal_strlit("/users");
    reveal_strlit("/privateText");
    reveal_strlit("/disconnect");
    reveal_strlit("/help");
    reveal_strlit("/newRoom");
    reveal_strlit("/invite");
    reveal_strlit("/joinRoom");
    reveal_strlit("/roomUsers");
    reveal_strlit("/roomText");
    reveal_strlit("/leaveRoom");
    let ws = seq!["/privateText"@, username] + text;
    assert forall|i: int| 0 <= i < ws.len() implies is_word(#[trigger] ws[i]) by {
        if i >= 2 {
            assert(ws[i] == text[i - 2]);
        }
    }
    lemma_command_line(ws);
    assert(ws.skip(2) =~= text);
}

/// `/roomText`, a room name and a text of one or more words, typed with
/// single spaces, ask to send that text to that room.
pub proof fn law_room_text_command(roomname: Seq<char>, text: Seq<Seq<char>>)
    requires
        is_word(roomname),
        text.len() >= 1,
        all_words(text),
    ensures
        entry_action(join_words(seq!["/roomText"@, roomname] + text)) == Some(
            Ok::<ActionView, ()>(ActionView::RoomText { roomname, text: join_words(text) }),
        ),
{
    reveal_strlit("/status");
    reveal_strlit("/users");
    reveal_strlit("/privateText");
    reveal_strlit("/disconnect");
    reveal_strlit("/help");
    reveal_strlit("/newRoom");
    reveal_strlit("/invite");
    reveal_strlit("/joinRoom");
    reveal_strlit("/roomUsers");
    reveal_strlit("/roomText");
    reveal_strlit("/leaveRoom");
    assert("/roomText"@.len() != "/status"@.len());
    assert("/roomText"@.len() != "/users"@.len());
    assert("/roomText"@.len() != "/privateText"@.len());
    assert("/roomText"@.len() != "/disconnect"@.len());
    assert("/roomText"@.len() != "/help"@.len());
    assert("/roomText"@.len() != "/newRoom"@.len());
    assert("/roomText"@.len() != "/invite"@.len());
    assert("/roomText"@[1] != "/joinRoom"@[1]);
    assert("/roomText"@.len() != "/roomUsers"@.len());
    let ws = seq!["/roomText"@, roomname] + text;
    assert forall|i: int| 0 <= i < ws.len() implies is_word(#[trigger] ws[i]) by {
        if i >= 2 {
            assert(ws[i] == text[i - 2]);
        }
    }
    lemma_command_line(ws);
    assert(ws.skip(2) =~= text);
}

/// The line of a client message of kind `kind` with the text members
/// `members` (name and text), written in that order.
pub open spec fn request_text_line(kind: Seq<char>, members: Seq<(Seq<char>, Seq<char>)>) -> Seq<u8> {
    json_object(seq![text_member("type"@, kind)] + crate::laws::text_members(members)).push(10u8)
}

/// Every action but help goes to the server.
pub proof fn law_actions_reach_the_server(a: ActionView)
    ensures
        a is Help <==> action_message(a) is None,
{
}

/// A public text is sent as a `PUBLIC_TEXT` line carrying the text as typed.
pub proof fn law_public_text_is_sent(text: Seq<char>)
    ensures
        action_message(ActionView::PublicText { text }) matches Some(m) && request_line(m) == request_text_line(
            "PUBLIC_TEXT"@,
            seq![("text"@, text)],
        ),
{
    reveal_with_fuel(crate::laws::text_members, 2);
    assert(seq![text_member("type"@, "PUBLIC_TEXT"@)] + crate::laws::text_members(seq![("text"@, text)]) =~= recive_members(
        ReciveView::PublicText { text },
    ));
}

/// A private text is sent as a `TEXT` line naming the user and carrying the
/// text as typed.
pub proof fn law_private_text_is_sent(username: Seq<char>, text: Seq<char>)
    ensures
        action_message(ActionView::PrivateText { username, text }) matches Some(m) && request_line(m) == request_text_line(
            "TEXT"@,
            seq![("username"@, username), ("text"@, text)],
        ),
{
    reveal_with_fuel(crate::laws::text_members, 3);
    assert(seq![text_member("type"@, "TEXT"@)] + crate::laws::text_members(seq![("username"@, username), ("text"@, text)])
        =~= recive_members(ReciveView::Text { username, text }));
}

/// A room text is sent as a `ROOM_TEXT` line naming the room and carrying
/// the text as typed.
pub proof fn law_room_text_is_sent(roomname: Seq<char>, text: Seq<char>)
    ensures
        action_message(ActionView::RoomText { roomname, text }) matches Some(m) && request_line(m) == request_text_line(
            "ROOM_TEXT"@,
            seq![("roomname"@, roomname), ("text"@, text)],
        ),
{
    reveal_with_fuel(crate::laws::text_members, 3);
    assert(seq![text_member("type"@, "ROOM_TEXT"@)] + crate::laws::text_members(seq![("roomname"@, roomname), ("text"@, text)])
        =~= recive_members(ReciveView::RoomText { roomname, text }));
}

/// A new state is sent as a `STATUS` line carrying the state's name.
pub proof fn law_status_is_sent(status: State)
    ensures
        action_message(ActionView::Status { status }) matches Some(m) && request_line(m) == request_text_line(
            "STATUS"@,
            seq![("status"@, state_name(status))],
        ),
{
    reveal_with_fuel(crate::laws::text_members, 2);
    assert(seq![text_member("type"@, "STATUS"@)] + crate::laws::text_members(seq![("status"@, state_name(status))])
        =~= recive_members(ReciveView::Status { status }));
}

/// A command on a room is sent as the line of its kind naming the room.
pub proof fn law_room_commands_are_sent(roomname: Seq<char>)
    ensures
        action_message(ActionView::NewRoom { roomname }) matches Some(m) && request_line(m) == request_text_line(
            "NEW_ROOM"@,
            seq![("roomname"@, roomname)],
        ),
        action_message(ActionView::JoinRoom { roomname }) matches Some(m) && request_line(m) == request_text_line(
            "JOIN_ROOM"@,
            seq![("roomname"@, roomname)],
        ),
        action_message(ActionView::RoomUsers { roomname }) matches Some(m) && request_line(m) == request_text_line(
            "ROOM_USERS"@,
            seq![("roomname"@, roomname)],
        ),
        action_message(ActionView::LeaveRoom { roomname }) matches Some(m) && request_line(m) == request_text_line(
            "LEAVE_ROOM"@,
            seq![("roomname"@, roomname)],
        ),
{
    reveal_with_fuel(crate::laws::text_members, 2);
    assert(seq![text_member("type"@, "NEW_ROOM"@)] + crate::laws::text_members(seq![("roomname"@, roomname)])
        =~= recive_members(ReciveView::NewRoom { roomname }));
    assert(seq![text_member("type"@, "JOIN_ROOM"@)] + crate::laws::text_members(seq![("roomname"@, roomname)])
        =~= recive_members(ReciveView::JoinRoom { roomname }));
    assert(seq![text_member("type"@, "ROOM_USERS"@)] + crate::laws::text_members(seq![("roomname"@, roomname)])
        =~= recive_members(ReciveView::RoomUsers { roomname }));
    assert(seq![text_member("type"@, "LEAVE_ROOM"@)] + crate::laws::text_members(seq![("roomname"@, roomname)])
        =~= recive_members(ReciveView::LeaveRoom { roomname }));
}

/// The commands without arguments are sent as a line of their kind alone.
pub proof fn law_bare_commands_are_sent()
    ensures
        action_message(ActionView::Users) matches Some(m) && request_line(m) == request_text_line("USERS"@, seq![]),
        action_message(ActionView::Disconnect) matches Some(m) && request_line(m) == request_text_line("DISCONNECT"@, seq![]),
{
    assert(seq![text_member("type"@, "USERS"@)] + crate::laws::text_members(seq![]) =~= recive_members(ReciveView::Users));
    assert(seq![text_member("type"@, "DISCONNECT"@)] + crate::laws::text_members(seq![]) =~= recive_members(ReciveView::Disconect));
}

/// A private message is shown as a private text, naming its sender and
/// carrying its text; a public message with the same sender and text is
/// shown differently, as a public text.
pub proof fn law_private_and_public_texts_are_told_apart(username: Seq<char>, text: Seq<char>)
    ensures
        displayed(SendView::TextFrom { username, text }) matches Some(v) && notice_lines(v) == seq![
            "Mensaje privado de "@ + username + ": "@ + text,
        ],
        displayed(SendView::PublicTextFrom { username, text }) matches Some(v) && notice_lines(v) == seq![
            username + ": "@ + text,
        ],
        displayed(SendView::TextFrom { username, text }) != displayed(SendView::PublicTextFrom { username, text }),
{
    reveal_strlit("Mensaje privado de ");
    reveal_strlit(": ");
    assert(("Mensaje privado de "@ + username + ": "@ + text).len() != (username + ": "@ + text).len());
}

/// The command words are all different.
proof fn lemma_commands_differ()
    ensures
        "/status"@ != "/users"@,
        "/status"@ != "/privateText"@,
        "/status"@ != "/disconnect"@,
        "/status"@ != "/help"@,
        "/status"@ != "/newRoom"@,
        "/status"@ != "/invite"@,
        "/status"@ != "/joinRoom"@,
        "/status"@ != "/roomUsers"@,
        "/status"@ != "/roomText"@,
        "/status"@ != "/leaveRoom"@,
        "/users"@ != "/privateText"@,
        "/users"@ != "/disconnect"@,
        "/users"@ != "/help"@,
        "/users"@ != "/newRoom"@,
        "/users"@ != "/invite"@,
        "/users"@ != "/joinRoom"@,
        "/users"@ != "/roomUsers"@,
        "/users"@ != "/roomText"@,
        "/users"@ != "/leaveRoom"@,
        "/privateText"@ != "/disconnect"@,
        "/privateText"@ != "/help"@,
        "/privateText"@ != "/newRoom"@,
        "/privateText"@ != "/invite"@,
        "/privateText"@ != "/joinRoom"@,
        "/privateText"@ != "/roomUsers"@,
        "/privateText"@ != "/roomText"@,
        "/privateText"@ != "/leaveRoom"@,
        "/disconnect"@ != "/help"@,
        "/disconnect"@ != "/newRoom"@,
        "/disconnect"@ != "/invite"@,
        "/disconnect"@ != "/joinRoom"@,
        "/disconnect"@ != "/roomUsers"@,
        "/disconnect"@ != "/roomText"@,
        "/disconnect"@ != "/leaveRoom"@,
        "/help"@ != "/newRoom"@,
        "/help"@ != "/invite"@,
        "/help"@ != "/joinRoom"@,
        "/help"@ != "/roomUsers"@,
        "/help"@ != "/roomText"@,
        "/help"@ != "/leaveRoom"@,
        "/newRoom"@ != "/invite"@,
        "/newRoom"@ != "/joinRoom"@,
        "/newRoom"@ != "/roomUsers"@,
        "/newRoom"@ != "/roomText"@,
        "/newRoom"@ != "/leaveRoom"@,
        "/invite"@ != "/joinRoom"@,
        "/invite"@ != "/roomUsers"@,
        "/invite"@ != "/roomText"@,
        "/invite"@ != "/leaveRoom"@,
        "/joinRoom"@ != "/roomUsers"@,
        "/joinRoom"@ != "/roomText"@,
        "/joinRoom"@ != "/leaveRoom"@,
        "/roomUsers"@ != "/roomText"@,
        "/roomUsers"@ != "/leaveRoom"@,
        "/roomText"@ != "/leaveRoom"@,
{
    reveal_strlit("/status");
    reveal_strlit("/users");
    reveal_strlit("/privateText");
    reveal_strlit("/disconnect");
    reveal_strlit("/help");
    reveal_strlit("/newRoom");
    reveal_strlit("/invite");
    reveal_strlit("/joinRoom");
    reveal_strlit("/roomUsers");
    reveal_strlit("/roomText");
    reveal_strlit("/leaveRoom");
    assert("/status"@.len() != "/users"@.len());
    assert("/status"@.len() != "/privateText"@.len());
    assert("/status"@.len() != "/disconnect"@.len());
    assert("/status"@.len() != "/help"@.len());
    assert("/status"@.len() != "/newRoom"@.len());
    assert("/status"@[1] != "/invite"@[1]);
    assert("/status"@.len() != "/joinRoom"@.len());
    assert("/status"@.len() != "/roomUsers"@.len());
    assert("/status"@.len() != "/roomText"@.len());
    assert("/status"@.len() != "/leaveRoom"@.len());
    assert("/users"@.len() != "/privateText"@.len());
    assert("/users"@.len() != "/disconnect"@.len());
    assert("/users"@.len() != "/help"@.len());
    assert("/users"@.len() != "/newRoom"@.len());
    assert("/users"@.len() != "/invite"@.len());
    assert("/users"@.len() != "/joinRoom"@.len());
    assert("/users"@.len() != "/roomUsers"@.len());
    assert("/users"@.len() != "/roomText"@.len());
    assert("/users"@.len() != "/leaveRoom"@.len());
    assert("/privateText"@.len() != "/disconnect"@.len());
    assert("/privateText"@.len() != "/help"@.len());
    assert("/privateText"@.len() != "/newRoom"@.len());
    assert("/privateText"@.len() != "/invite"@.len());
    assert("/privateText"@.len() != "/joinRoom"@.len());
    assert("/privateText"@.len() != "/roomUsers"@.len());
    assert("/privateText"@.len() != "/roomText"@.len());
    assert("/privateText"@.len() != "/leaveRoom"@.len());
    assert("/disconnect"@.len() != "/help"@.len());
    assert("/disconnect"@.len() != "/newRoom"@.len());
    assert("/disconnect"@.len() != "/invite"@.len());
    assert("/disconnect"@.len() != "/joinRoom"@.len());
    assert("/disconnect"@.len() != "/roomUsers"@.len());
    assert("/disconnect"@.len() != "/roomText"@.len());
    assert("/disconnect"@.len() != "/leaveRoom"@.len());
    assert("/help"@.len() != "/newRoom"@.len());
    assert("/help"@.len() != "/invite"@.len());
    assert("/help"@.len() != "/joinRoom"@.len());
    assert("/help"@.len() != "/roomUsers"@.len());
    assert("/help"@.len() != "/roomText"@.len());
    assert("/help"@.len() != "/leaveRoom"@.len());
    assert("/newRoom"@.len() != "/invite"@.len());
    assert("/newRoom"@.len() != "/joinRoom"@.len());
    assert("/newRoom"@.len() != "/roomUsers"@.len());
    assert("/newRoom"@.len() != "/roomText"@.len());
    assert("/newRoom"@.len() != "/leaveRoom"@.len());
    assert("/invite"@.len() != "/joinRoom"@.len());
    assert("/invite"@.len() != "/roomUsers"@.len());
    assert("/invite"@.len() != "/roomText"@.len());
    assert("/invite"@.len() != "/leaveRoom"@.len());
    assert("/joinRoom"@.len() != "/roomUsers"@.len());
    assert("/joinRoom"@[1] != "/roomText"@[1]);
    assert("/joinRoom"@.len() != "/leaveRoom"@.len());
    assert("/roomUsers"@.len() != "/roomText"@.len());
    assert("/roomUsers"@[1] != "/leaveRoom"@[1]);
    assert("/roomText"@.len() != "/leaveRoom"@.len());
}

/// A command given the arguments it needs is never refused: it asks for
/// its action with the arguments it was given.
pub proof fn law_commands_with_arguments_are_accepted(args: Seq<Seq<char>>)
    requires
        args.len() >= 1,
    ensures
        args[0] == "/users"@ ==> command_action(args) == Ok::<ActionView, ()>(ActionView::Users),
        args[0] == "/disconnect"@ ==> command_action(args) == Ok::<ActionView, ()>(ActionView::Disconnect),
        args[0] == "/help"@ ==> command_action(args) == Ok::<ActionView, ()>(ActionView::Help),
        args[0] == "/status"@ && args.len() >= 2 && args[1] == "away"@ ==> command_action(args) == Ok::<ActionView, ()>(
            ActionView::Status { status: State::Away },
        ),
        args[0] == "/status"@ && args.len() >= 2 && args[1] == "busy"@ ==> command_action(args) == Ok::<ActionView, ()>(
            ActionView::Status { status: State::Busy },
        ),
        args[0] == "/status"@ && args.len() >= 2 && args[1] == "active"@ ==> command_action(args) == Ok::<ActionView, ()>(
            ActionView::Status { status: State::Active },
        ),
        args[0] == "/privateText"@ && args.len() >= 3 ==> command_action(args) == Ok::<ActionView, ()>(
            ActionView::PrivateText { username: args[1], text: join_words(args.skip(2)) },
        ),
        args[0] == "/newRoom"@ && args.len() >= 2 ==> command_action(args) == Ok::<ActionView, ()>(
            ActionView::NewRoom { roomname: args[1] },
        ),
        args[0] == "/invite"@ && args.len() >= 3 ==> command_action(args) == Ok::<ActionView, ()>(
            ActionView::Invite { roomname: args[1], usernames: args.skip(2) },
        ),
        args[0] == "/joinRoom"@ && args.len() >= 2 ==> command_action(args) == Ok::<ActionView, ()>(
            ActionView::JoinRoom { roomname: args[1] },
        ),
        args[0] == "/roomUsers"@ && args.len() >= 2 ==> command_action(args) == Ok::<ActionView, ()>(
            ActionView::RoomUsers { roomname: args[1] },
        ),
        args[0] == "/roomText"@ && args.len() >= 3 ==> command_action(args) == Ok::<ActionView, ()>(
            ActionView::RoomText { roomname: args[1], text: join_words(args.skip(2)) },
        ),
        args[0] == "/leaveRoom"@ && args.len() >= 2 ==> command_action(args) == Ok::<ActionView, ()>(
            ActionView::LeaveRoom { roomname: args[1] },
        ),
{
    lemma_commands_differ();
    reveal_strlit("away");
    reveal_strlit("busy");
    reveal_strlit("active");
    assert("away"@[0] != "busy"@[0]);
    assert("away"@.len() != "active"@.len());
    assert("busy"@.len() != "active"@.len());
}

/// Each message the server relays is shown naming who it is about and
/// carrying what it says.
pub proof fn law_relayed_messages_are_shown(username: Seq<char>, roomname: Seq<char>, text: Seq<char>)
    ensures
        displayed(SendView::Disconnected { username }) matches Some(v) && notice_lines(v) == seq![
            "El usuario "@ + username + " se ha desconectado"@,
        ],
        displayed(SendView::NewUser { username }) matches Some(v) && notice_lines(v) == seq![
            username + " se ha conectado al chat"@,
        ],
        displayed(SendView::NewStatus { username, status: State::Active }) matches Some(v) && notice_lines(v) == seq![
            "El estado de "@ + username + " ahora es "@ + "Activo"@,
        ],
        displayed(SendView::NewStatus { username, status: State::Away }) matches Some(v) && notice_lines(v) == seq![
            "El estado de "@ + username + " ahora es "@ + "Inactivo"@,
        ],
        displayed(SendView::NewStatus { username, status: State::Busy }) matches Some(v) && notice_lines(v) == seq![
            "El estado de "@ + username + " ahora es "@ + "Ocupado"@,
        ],
        displayed(SendView::Invitation { username, roomname }) matches Some(v) && notice_lines(v) == seq![
            username + " te invitó al cuarto "@ + roomname,
        ],
        displayed(SendView::JoinedRoom { roomname, username }) matches Some(v) && notice_lines(v) == seq![
            username + " se unió al cuarto "@ + roomname,
        ],
        displayed(SendView::LeftRoom { roomname, username }) matches Some(v) && notice_lines(v) == seq![
            username + " salió del cuarto "@ + roomname,
        ],
        displayed(SendView::RoomTextFrom { roomname, username, text }) matches Some(v) && notice_lines(v) == seq![
            "["@ + roomname + "] "@ + username + ": "@ + text,
        ],
{
}

/// A line that does not start with `/`, typed without whitespace at its
/// ends, asks to send that very line as a public text.
pub proof fn law_plain_line_is_public_text(line: Seq<char>)
    requires
        line.len() > 0,
        line[0] != '/',
        !is_white(line[0]),
        !is_white(line.last()),
    ensures
        entry_action(line) == Some(Ok::<ActionView, ()>(ActionView::PublicText { text: line })),
{
    assert(trim(line) == line);
}

} // verus!
