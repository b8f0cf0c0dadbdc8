//! Properties of the chat server that span several of its operations.
use vstd::prelude::*;

use crate::connection::{name_step, IdentifyStep};
use crate::dispatch::{broadcast, except_set, keyed_by_name, lists_keys, lists_states, sends_to, single};
use crate::json::json_object;
use crate::protocol::{send_members, text_member, Operations, Resultado, SendView, State};
use crate::room::{fresh_invitees, lemma_with_invitations_keeps, with_guests, with_invitations};
use crate::server::{
    disconnect_effect, invite_effect, join_room_effect, leave_room_effect,
    new_room_effect, private_text_effect, public_text_effect, registered, room_text_effect, rooms_without,
    sessions_of, status_effect,
    ServerView,
};
use crate::user::UserView;
use crate::server_messages::line;
use crate::text::lowercase;

verus! {

/// Once a user is connected under a name, identifying again with any name
/// of the same key (the same name in another case, say) is refused as taken,
/// with the name asked for given back.
pub proof fn law_taken_name_is_refused(pre: ServerView, name: Seq<char>, tx: u64, other: Seq<char>, r: IdentifyStep)
    requires
        lowercase(other) == lowercase(name),
        name_step(r, registered(pre, name, tx).users, other),
    ensures
        r matches IdentifyStep::Retry(answer) && answer@ == line(
            SendView::Response { operation: Operations::Identify, result: Resultado::UserAlreadyExists, extra: Some(other) },
        ),
{
}

/// On a server without users, the first user to connect is listed alone,
/// under its name, as active.
pub proof fn law_first_user_is_listed_active(pre: ServerView, name: Seq<char>, tx: u64, list: Seq<(Seq<char>, State)>)
    requires
        pre.users.dom().is_empty(),
        pre.sessions.len() < usize::MAX,
        lists_states(list, registered(pre, name, tx).users, registered(pre, name, tx).sessions),
    ensures
        list == seq![(name, State::Active)],
{
    let post = registered(pre, name, tx);
    let keys = choose|keys: Seq<Seq<char>>| #[trigger] lists_keys(keys, post.users, Set::empty()) && {
        &&& list.len() == keys.len()
        &&& forall|i: int| 0 <= i < list.len() ==> #[trigger] list[i] == (
            post.sessions[post.users[keys[i]] as int].name,
            post.sessions[post.users[keys[i]] as int].state,
        )
    };
    let k = lowercase(name);
    assert(post.users.contains_key(k));
    assert(keys.contains(k));
    assert forall|x: Seq<char>| #[trigger] keys.contains(x) implies x == k by {
        assert(post.users.contains_key(x));
        if x != k {
            assert(pre.users.contains_key(x));
            assert(pre.users.dom().contains(x));
        }
    }
    assert(keys.len() == 1) by {
        if keys.len() > 1 {
            assert(keys.contains(keys[0]));
            assert(keys.contains(keys[1]));
            assert(keys[0] != keys[1]);
        }
    }
    assert(keys[0] == k);
    assert(post.users[k] as int == pre.sessions.len());
    assert(list[0] == (post.sessions[post.users[k] as int].name, post.sessions[post.users[k] as int].state));
    assert(list =~= seq![(name, State::Active)]);
}

/// After a connected user sets its state, the list of users shows it with
/// that state.
pub proof fn law_status_is_listed(
    pre: ServerView,
    post: ServerView,
    out: Seq<crate::dispatch::Outgoing>,
    sender: Seq<char>,
    status: State,
    list: Seq<(Seq<char>, State)>,
)
    requires
        pre.wf(),
        pre.users.contains_key(lowercase(sender)),
        status_effect(pre, post, out, sender, status),
        lists_states(list, post.users, post.sessions),
    ensures
        list.contains((pre.sessions[pre.users[lowercase(sender)] as int].name, status)),
{
    let k = lowercase(sender);
    let keys = choose|keys: Seq<Seq<char>>| #[trigger] lists_keys(keys, post.users, Set::empty()) && {
        &&& list.len() == keys.len()
        &&& forall|i: int| 0 <= i < list.len() ==> #[trigger] list[i] == (
            post.sessions[post.users[keys[i]] as int].name,
            post.sessions[post.users[keys[i]] as int].state,
        )
    };
    assert(keys.contains(k));
    let i = choose|i: int| 0 <= i < keys.len() && keys[i] == k;
    assert(list[i] == (post.sessions[post.users[k] as int].name, post.sessions[post.users[k] as int].state));
}

/// A user that disconnects is no longer connected, is no longer a member of
/// any room it joined nor a guest of any room it was invited to, and every
/// other room stays as it was. The rooms are searched under the lower case
/// of the user's key.
pub proof fn law_disconnect_leaves_rooms(
    pre: ServerView,
    post: ServerView,
    out: Seq<crate::dispatch::Outgoing>,
    sender: Seq<char>,
    rk: Seq<char>,
)
    requires
        pre.users.contains_key(lowercase(sender)),
        disconnect_effect(pre, post, out, sender),
        pre.rooms.contains_key(rk),
    ensures
        !post.users.contains_key(lowercase(sender)),
        post.rooms.contains_key(rk),
        pre.sessions[pre.users[lowercase(sender)] as int].rooms_keys.contains(rk) ==> !post.rooms[rk].users.contains_key(
            lowercase(lowercase(sender)),
        ),
        pre.sessions[pre.users[lowercase(sender)] as int].invitations_room_keys.contains(rk) ==> !post.rooms[rk].guests.contains_key(
            lowercase(lowercase(sender)),
        ),
        !pre.sessions[pre.users[lowercase(sender)] as int].rooms_keys.contains(rk)
            && !pre.sessions[pre.users[lowercase(sender)] as int].invitations_room_keys.contains(rk) ==> post.rooms[rk] == pre.rooms[rk],
{
}

/// A user that disconnects leaves every room it is a member or a guest of:
/// no room keeps its session, as a member or as a guest, under the lower
/// case of its key, and, where that lower case is the key itself, no room
/// keeps its session at all. (A room may still hold another session under
/// the same key: one that connected under that key while this one was
/// connected.)
pub proof fn law_disconnect_leaves_every_room(
    pre: ServerView,
    post: ServerView,
    out: Seq<crate::dispatch::Outgoing>,
    sender: Seq<char>,
)
    requires
        pre.wf(),
        pre.users.contains_key(lowercase(sender)),
        disconnect_effect(pre, post, out, sender),
    ensures
        forall|rk: Seq<char>| #[trigger] post.rooms.contains_key(rk) && post.rooms[rk].users.contains_key(lowercase(lowercase(sender)))
            ==> post.rooms[rk].users[lowercase(lowercase(sender))] != pre.users[lowercase(sender)],
        forall|rk: Seq<char>| #[trigger] post.rooms.contains_key(rk) && post.rooms[rk].guests.contains_key(lowercase(lowercase(sender)))
            ==> post.rooms[rk].guests[lowercase(lowercase(sender))] != pre.users[lowercase(sender)],
        lowercase(lowercase(sender)) == lowercase(sender) ==> forall|rk: Seq<char>, k: Seq<char>|
            post.rooms.contains_key(rk) && #[trigger] post.rooms[rk].users.contains_key(k) ==> post.rooms[rk].users[k] != pre.users[lowercase(sender)],
        lowercase(lowercase(sender)) == lowercase(sender) ==> forall|rk: Seq<char>, k: Seq<char>|
            post.rooms.contains_key(rk) && #[trigger] post.rooms[rk].guests.contains_key(k) ==> post.rooms[rk].guests[k] != pre.users[lowercase(sender)],
{
    let key = lowercase(sender);
    let mk = lowercase(key);
    let id = pre.users[key];
    let u = pre.sessions[id as int];
    assert forall|rk: Seq<char>| #[trigger] post.rooms.contains_key(rk) && post.rooms[rk].users.contains_key(mk)
        implies post.rooms[rk].users[mk] != id by {
        assert(pre.rooms.contains_key(rk));
        if u.rooms_keys.contains(rk) {
            assert(post.rooms[rk].users == pre.rooms[rk].users.remove(mk));
        } else {
            assert(post.rooms[rk].users == pre.rooms[rk].users);
            assert(pre.rooms[rk].users.contains_key(mk));
            assert(pre.sessions[pre.rooms[rk].users[mk] as int].rooms_keys.contains(rk));
        }
    }
    assert forall|rk: Seq<char>| #[trigger] post.rooms.contains_key(rk) && post.rooms[rk].guests.contains_key(mk)
        implies post.rooms[rk].guests[mk] != id by {
        assert(pre.rooms.contains_key(rk));
        if u.invitations_room_keys.contains(rk) {
            assert(post.rooms[rk].guests == pre.rooms[rk].guests.remove(mk));
        } else {
            assert(post.rooms[rk].guests == pre.rooms[rk].guests);
            assert(pre.rooms[rk].guests.contains_key(mk));
            assert(pre.sessions[pre.rooms[rk].guests[mk] as int].invitations_room_keys.contains(rk));
        }
    }
    if mk == key {
        assert forall|rk: Seq<char>, k: Seq<char>| post.rooms.contains_key(rk) && #[trigger] post.rooms[rk].guests.contains_key(k)
            implies post.rooms[rk].guests[k] != id by {
            assert(pre.rooms.contains_key(rk));
            assert(pre.room_wf(rk));
            assert(pre.rooms[rk].guests.contains_key(k));
            assert(post.rooms[rk].guests[k] == pre.rooms[rk].guests[k]);
            if pre.rooms[rk].guests[k] == id {
                assert(lowercase(pre.sessions[id as int].name) == k);
                assert(lowercase(pre.sessions[id as int].name) == key);
            }
        }
        assert forall|rk: Seq<char>, k: Seq<char>| post.rooms.contains_key(rk) && #[trigger] post.rooms[rk].users.contains_key(k)
            implies post.rooms[rk].users[k] != id by {
            assert(pre.rooms.contains_key(rk));
            assert(pre.room_wf(rk));
            assert(pre.rooms[rk].users.contains_key(k));
            assert(post.rooms[rk].users[k] == pre.rooms[rk].users[k]);
            if pre.rooms[rk].users[k] == id {
                assert(lowercase(pre.sessions[id as int].name) == k);
                assert(lowercase(pre.sessions[id as int].name) == key);
            }
        }
    }
}

/// When a member invites connected users, each of them that is neither a
/// member nor a guest of the room becomes a guest, under its key.
pub proof fn law_invitation_makes_guests(
    pre: ServerView,
    post: ServerView,
    out: Seq<crate::dispatch::Outgoing>,
    roomname: Seq<char>,
    usernames: Seq<Seq<char>>,
    reply_to: u64,
    sender: Seq<char>,
    j: int,
)
    requires
        pre.wf(),
        invite_effect(pre, post, out, roomname, usernames, reply_to, sender),
        pre.rooms.contains_key(lowercase(roomname)),
        pre.rooms[lowercase(roomname)].users.contains_key(lowercase(sender)),
        forall|i: int| 0 <= i < usernames.len() ==> pre.users.contains_key(#[trigger] lowercase(usernames[i])),
        0 <= j < usernames.len(),
        !pre.rooms[lowercase(roomname)].users.contains_key(lowercase(usernames[j])),
        !pre.rooms[lowercase(roomname)].guests.contains_key(lowercase(usernames[j])),
    ensures
        post.rooms[lowercase(roomname)].guests.contains_key(lowercase(usernames[j])),
{
    let rk = lowercase(roomname);
    let room = pre.rooms[rk];
    let k = lowercase(usernames[j]);
    let ids = sessions_of(usernames, pre.users);
    assert(!exists|i: int| 0 <= i < usernames.len() && !pre.users.contains_key(#[trigger] lowercase(usernames[i])));
    assert(pre.room_wf(rk));
    let id = ids[j];
    assert(pre.users.contains_key(k));
    assert(lowercase(pre.sessions[id as int].name) == k);
    let pred = |x: usize|
        !room.guests.contains_key(lowercase(pre.sessions[x as int].name)) && !room.users.contains_key(
            lowercase(pre.sessions[x as int].name),
        );
    assert(pred(ids[j]));
    ids.lemma_filter_contains(pred, j);
    let invited = fresh_invitees(ids, room, pre.sessions);
    assert(invited.contains(id));
    lemma_with_guests_has(room.guests, invited, pre.sessions, id);
}

/// `with_guests` holds the key of each session it adds.
pub proof fn lemma_with_guests_has(
    guests: Map<Seq<char>, usize>,
    invited: Seq<usize>,
    sessions: Seq<UserView>,
    id: usize,
)
    requires
        invited.contains(id),
    ensures
        with_guests(guests, invited, sessions).contains_key(lowercase(sessions[id as int].name)),
    decreases invited.len(),
{
    if invited.last() != id {
        let p = choose|p: int| 0 <= p < invited.len() && invited[p] == id;
        assert(invited.drop_last()[p] == id);
        lemma_with_guests_has(guests, invited.drop_last(), sessions, id);
    }
}

/// An invited user that joins the room becomes a member and stops being a
/// guest, and is welcomed; a user not invited is told so and nothing
/// changes.
pub proof fn law_invited_user_joins(
    pre: ServerView,
    post: ServerView,
    out: Seq<crate::dispatch::Outgoing>,
    roomname: Seq<char>,
    sender: Seq<char>,
    reply_to: u64,
)
    requires
        pre.rooms.contains_key(lowercase(roomname)),
        join_room_effect(pre, post, out, roomname, sender, reply_to),
    ensures
        pre.rooms[lowercase(roomname)].guests.contains_key(lowercase(sender)) ==> {
            &&& post.rooms[lowercase(roomname)].users.contains_key(lowercase(sender))
            &&& !post.rooms[lowercase(roomname)].guests.contains_key(lowercase(sender))
            &&& out.last().to == reply_to
        },
        !pre.rooms[lowercase(roomname)].guests.contains_key(lowercase(sender)) ==> post == pre && single(
            out,
            reply_to,
            line(
                SendView::Response {
                    operation: Operations::JoinRoom,
                    result: Resultado::NotInvited,
                    extra: Some(pre.rooms[lowercase(roomname)].name),
                },
            ),
        ),
{
}

/// A member that left a room that still exists can no longer text it: it
/// is told that it is not a member.
pub proof fn law_left_member_cannot_text(
    pre: ServerView,
    mid: ServerView,
    post: ServerView,
    out1: Seq<crate::dispatch::Outgoing>,
    out2: Seq<crate::dispatch::Outgoing>,
    roomname: Seq<char>,
    sender: Seq<char>,
    text: Seq<char>,
    reply_to: u64,
)
    requires
        pre.rooms.contains_key(lowercase(roomname)),
        leave_room_effect(pre, mid, out1, roomname, sender, reply_to),
        mid.rooms.contains_key(lowercase(roomname)),
        room_text_effect(mid, post, out2, roomname, text, sender, reply_to),
    ensures
        post == mid,
        single(
            out2,
            reply_to,
            line(
                SendView::Response {
                    operation: Operations::RoomText,
                    result: Resultado::NotJoined,
                    extra: Some(mid.rooms[lowercase(roomname)].name),
                },
            ),
        ),
{
}

/// A connected user that creates a room is its only member, and the room
/// has no guests.
pub proof fn law_creator_is_only_member(
    pre: ServerView,
    post: ServerView,
    out: Seq<crate::dispatch::Outgoing>,
    roomname: Seq<char>,
    sender: Seq<char>,
    reply_to: u64,
)
    requires
        pre.users.contains_key(lowercase(sender)),
        new_room_effect(pre, post, out, roomname, sender, reply_to),
    ensures
        post.rooms.contains_key(lowercase(roomname)),
        post.rooms[lowercase(roomname)].users.dom() == Set::empty().insert(lowercase(sender)),
        post.rooms[lowercase(roomname)].guests.dom().is_empty(),
{
    assert(post.rooms[lowercase(roomname)].users.dom() =~= Set::empty().insert(lowercase(sender)));
}

/// The line of a server message of kind `kind` with the text members
/// `members` (name and text), written in that order.
pub open spec fn text_line(kind: Seq<char>, members: Seq<(Seq<char>, Seq<char>)>) -> Seq<u8> {
    json_object(seq![text_member("type"@, kind)] + text_members(members)).push(10u8)
}

/// Each pair of `members` as a text member.
pub open spec fn text_members(members: Seq<(Seq<char>, Seq<char>)>) -> Seq<Seq<u8>>
    decreases members.len(),
{
    if members.len() == 0 {
        Seq::empty()
    } else {
        seq![text_member(members[0].0, members[0].1)] + text_members(members.drop_first())
    }
}

/// A private text to a connected user reaches that user alone, as a
/// `TEXT_FROM` line that names the sender and carries the text as it was
/// sent; nothing changes on the server.
pub proof fn law_private_text_reaches_recipient(
    pre: ServerView,
    post: ServerView,
    out: Seq<crate::dispatch::Outgoing>,
    username: Seq<char>,
    text: Seq<char>,
    sender: Seq<char>,
    reply_to: u64,
)
    requires
        pre.users.contains_key(lowercase(username)),
        private_text_effect(pre, post, out, username, text, sender, reply_to),
    ensures
        post == pre,
        out.len() == 1,
        out[0].to == pre.sessions[pre.users[lowercase(username)] as int].tx,
        out[0].msg@ == text_line("TEXT_FROM"@, seq![("username"@, sender), ("text"@, text)]),
{
    reveal_with_fuel(text_members, 4);
    assert(seq![text_member("type"@, "TEXT_FROM"@)] + text_members(seq![("username"@, sender), ("text"@, text)]) =~= send_members(SendView::TextFrom { username: sender, text }));
}

/// A private text to a user that is not connected goes back to the sender
/// as a `TEXT` / `NO_SUCH_USER` answer that names that user.
pub proof fn law_private_text_to_nobody_is_refused(
    pre: ServerView,
    post: ServerView,
    out: Seq<crate::dispatch::Outgoing>,
    username: Seq<char>,
    text: Seq<char>,
    sender: Seq<char>,
    reply_to: u64,
)
    requires
        !pre.users.contains_key(lowercase(username)),
        private_text_effect(pre, post, out, username, text, sender, reply_to),
    ensures
        post == pre,
        out.len() == 1,
        out[0].to == reply_to,
        out[0].msg@ == text_line(
            "RESPONSE"@,
            seq![("operation"@, "TEXT"@), ("result"@, "NO_SUCH_USER"@), ("extra"@, username)],
        ),
{
    reveal_with_fuel(text_members, 4);
    assert(seq![text_member("type"@, "RESPONSE"@)] + text_members(seq![("operation"@, "TEXT"@), ("result"@, "NO_SUCH_USER"@), ("extra"@, username)]) =~= send_members(SendView::Response { operation: Operations::Text, result: Resultado::NoSuchUser, extra: Some(username) }));
}

/// `to` is the channel of a connected user other than `sender`.
pub open spec fn channel_of_other(pre: ServerView, sender: Seq<char>, to: u64) -> bool {
    exists|k: Seq<char>| #[trigger] pre.users.contains_key(k) && k != lowercase(sender) && to == pre.sessions[pre.users[k] as int].tx
}

/// A public text goes to the connected users other than the sender, each
/// as a `PUBLIC_TEXT_FROM` line that names the sender and carries the text
/// as it was sent; every other connected user gets it, and nothing changes
/// on the server.
pub proof fn law_public_text_reaches_the_others(
    pre: ServerView,
    post: ServerView,
    d: crate::dispatch::Delivery,
    sender: Seq<char>,
    text: Seq<char>,
    k: Seq<char>,
)
    requires
        public_text_effect(pre, post, d, sender, text),
    ensures
        post == pre,
        forall|i: int| 0 <= i < d.sends@.len() ==> (#[trigger] d.sends@[i]).msg@ == text_line(
            "PUBLIC_TEXT_FROM"@,
            seq![("username"@, sender), ("text"@, text)],
        ),
        pre.users.contains_key(k) && k != lowercase(sender) ==> exists|i: int| 0 <= i < d.sends@.len()
            && (#[trigger] d.sends@[i]).to == pre.sessions[pre.users[k] as int].tx,
        forall|i: int| 0 <= i < d.sends@.len() ==> channel_of_other(pre, sender, #[trigger] d.sends@[i].to),
{
    reveal_with_fuel(text_members, 4);
    assert(seq![text_member("type"@, "PUBLIC_TEXT_FROM"@)] + text_members(seq![("username"@, sender), ("text"@, text)]) =~= send_members(SendView::PublicTextFrom { username: sender, text }));
    let keys = choose|keys: Seq<Seq<char>>| #[trigger] lists_keys(keys, pre.users, except_set(Some(lowercase(sender))))
        && sends_to(d.sends@, keys, pre.users, pre.sessions, line(SendView::PublicTextFrom { username: sender, text }));
    let l = text_line("PUBLIC_TEXT_FROM"@, seq![("username"@, sender), ("text"@, text)]);
    assert(l == line(SendView::PublicTextFrom { username: sender, text }));
    assert forall|i: int| 0 <= i < d.sends@.len() implies (#[trigger] d.sends@[i]).msg@ == l by {
        assert(d.sends@[i].to == pre.sessions[pre.users[keys[i]] as int].tx);
        assert(d.sends@[i].msg@ == line(SendView::PublicTextFrom { username: sender, text }));
    }
    if pre.users.contains_key(k) && k != lowercase(sender) {
        assert(keys.contains(k));
        let i = choose|i: int| 0 <= i < keys.len() && keys[i] == k;
        assert(d.sends@[i].to == pre.sessions[pre.users[k] as int].tx);
    }
    assert forall|i: int| 0 <= i < d.sends@.len() implies channel_of_other(pre, sender, #[trigger] d.sends@[i].to) by {
        let k2 = keys[i];
        assert(keys.contains(k2));
        assert(!except_set(Some(lowercase(sender))).contains(k2));
        assert(pre.users.contains_key(k2) && k2 != lowercase(sender) && d.sends@[i].to == pre.sessions[pre.users[k2] as int].tx);
    }
}

/// Every message of a broadcast is the message broadcast.
pub proof fn lemma_broadcast_carries(
    out: Seq<crate::dispatch::Outgoing>,
    table: Map<Seq<char>, usize>,
    except: Set<Seq<char>>,
    sessions: Seq<UserView>,
    msg: Seq<u8>,
)
    requires
        broadcast(out, table, except, sessions, msg),
    ensures
        forall|i: int| 0 <= i < out.len() ==> (#[trigger] out[i]).msg@ == msg,
{
    let keys = choose|keys: Seq<Seq<char>>| #[trigger] lists_keys(keys, table, except) && sends_to(out, keys, table, sessions, msg);
    assert forall|i: int| 0 <= i < out.len() implies (#[trigger] out[i]).msg@ == msg by {
        assert(out[i].to == sessions[table[keys[i]] as int].tx);
    }
}

/// A connected user that takes a state has it recorded, and the others are
/// told with a `NEW_STATUS` line naming the user and the state taken.
pub proof fn law_status_is_announced(
    pre: ServerView,
    post: ServerView,
    out: Seq<crate::dispatch::Outgoing>,
    sender: Seq<char>,
    status: State,
)
    requires
        pre.wf(),
        pre.users.contains_key(lowercase(sender)),
        status_effect(pre, post, out, sender, status),
    ensures
        post.sessions[pre.users[lowercase(sender)] as int].state == status,
        forall|i: int| 0 <= i < out.len() ==> (#[trigger] out[i]).msg@ == text_line(
            "NEW_STATUS"@,
            seq![("username"@, sender), ("status"@, crate::protocol::state_name(status))],
        ),
{
    let m = SendView::NewStatus { username: sender, status };
    crate::wire_laws::law_server_line_carries_fields(m);
    lemma_broadcast_carries(out, pre.users, except_set(Some(lowercase(sender))), pre.sessions, line(m));
}

/// A member's room text reaches the other members as a `ROOM_TEXT_FROM`
/// line naming the room, the sender and carrying the text as it was sent.
pub proof fn law_room_text_reaches_members(
    pre: ServerView,
    post: ServerView,
    out: Seq<crate::dispatch::Outgoing>,
    roomname: Seq<char>,
    text: Seq<char>,
    sender: Seq<char>,
    reply_to: u64,
)
    requires
        pre.rooms.contains_key(lowercase(roomname)),
        pre.rooms[lowercase(roomname)].users.contains_key(lowercase(sender)),
        room_text_effect(pre, post, out, roomname, text, sender, reply_to),
    ensures
        post == pre,
        forall|i: int| 0 <= i < out.len() ==> (#[trigger] out[i]).msg@ == text_line(
            "ROOM_TEXT_FROM"@,
            seq![("roomname"@, pre.rooms[lowercase(roomname)].name), ("username"@, sender), ("text"@, text)],
        ),
{
    let room = pre.rooms[lowercase(roomname)];
    let m = SendView::RoomTextFrom { roomname: room.name, username: sender, text };
    crate::wire_laws::law_server_line_carries_fields(m);
    lemma_broadcast_carries(out, room.users, except_set(Some(lowercase(sender))), pre.sessions, line(m));
}

} // verus!
