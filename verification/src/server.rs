//! The server's table of users and rooms, and what it does with each
//! message that a client sends: the state it changes and the messages it
//! sends back. Users and rooms are keyed by the lower case of their names.
use dashmap::DashMap;
use vstd::prelude::*;

use crate::dispatch::{
    broadcast, broadcast_table, distinct_names, except_set, indexes_into, keyed_by_name,
    lemma_listing_names_distinct, lists_states, single, state_listing, Delivery, Outgoing,
};
use crate::protocol::{
    send_json, states_view, strings_view, Operations, ReciveView, Resultado, SendView, State, TypeReciveMessages,
};
use crate::room::{
    fresh_invitees, lemma_with_guests_from, lemma_with_invitations_keeps, with_guests, with_invitations, without_last, Room,
    RoomView,
};
use crate::server_messages::{
    generate_new_status_msg, generate_new_user_msg, generate_public_text_from,
    generate_text_from_msg, generate_text_user_not_exist, generate_users_msg, line,
};
use crate::table::{
    name_table, names_contains, names_get, names_insert, names_new, names_remove, room_table,
    rooms_contains,
    rooms_insert, rooms_new, rooms_remove,
};
use crate::text::{copy_bytes, copy_string, lowercase, to_lower};
use crate::user::{keys_view, sessions_view, User, UserView};

verus! {

/// A message from a client, with the name of the user that sent it and the
/// handle of that user's channel, where answers go.
pub struct Letter {
    pub usr_sender: String,
    pub msg: TypeReciveMessages,
    pub reply_to: u64,
}

impl Letter {
    pub fn new(usr_sender: String, msg: TypeReciveMessages, reply_to: u64) -> (l: Letter)
        ensures
            l.usr_sender == usr_sender,
            l.msg == msg,
            l.reply_to == reply_to,
    {
        Letter { usr_sender, msg, reply_to }
    }
}

/// The server: the users connected, by key; the rooms, by key; the port it
/// listens on; and every session ever identified, which the tables point
/// into.
pub struct Server {
    pub users: DashMap<String, usize>,
    pub port: u16,
    pub rooms: DashMap<String, Room>,
    pub sessions: Vec<User>,
}

pub ghost struct ServerView {
    pub users: Map<Seq<char>, usize>,
    pub rooms: Map<Seq<char>, RoomView>,
    pub sessions: Seq<UserView>,
}

pub open spec fn rooms_view(rooms: Map<Seq<char>, Room>) -> Map<Seq<char>, RoomView> {
    rooms.map_values(|r: Room| r@)
}

impl View for Server {
    type V = ServerView;

    open spec fn view(&self) -> ServerView {
        ServerView {
            users: name_table(self.users),
            rooms: rooms_view(room_table(self.rooms)),
            sessions: sessions_view(self.sessions@),
        }
    }
}

/// Each member of a room has the room's key among the room keys of its
/// session, so a session's room keys name every room it is a member of.
pub open spec fn members_recorded(rooms: Map<Seq<char>, RoomView>, sessions: Seq<UserView>) -> bool {
    forall|rk: Seq<char>, k: Seq<char>|
        rooms.contains_key(rk) && #[trigger] rooms[rk].users.contains_key(k) ==> sessions[rooms[rk].users[k] as int].rooms_keys.contains(rk)
}

/// Each guest of a room has the room's key among the invitations of its
/// session.
pub open spec fn guests_recorded(rooms: Map<Seq<char>, RoomView>, sessions: Seq<UserView>) -> bool {
    forall|rk: Seq<char>, k: Seq<char>|
        rooms.contains_key(rk) && #[trigger] rooms[rk].guests.contains_key(k) ==> sessions[rooms[rk].guests[k] as int].invitations_room_keys.contains(rk)
}

impl ServerView {
    pub open spec fn room_wf(self, rk: Seq<char>) -> bool {
        let room = self.rooms[rk];
        &&& room.wf(self.sessions.len())
        &&& keyed_by_name(room.users, self.sessions)
        &&& keyed_by_name(room.guests, self.sessions)
        &&& lowercase(room.name) == rk
    }

    /// The tables are finite, point at sessions, and are keyed by the lower
    /// case of names; every room a session is a member of is among its room
    /// keys, and every room it is a guest of among its invitations.
    pub open spec fn wf(self) -> bool {
        &&& self.users.dom().finite()
        &&& self.rooms.dom().finite()
        &&& indexes_into(self.users, self.sessions.len())
        &&& keyed_by_name(self.users, self.sessions)
        &&& forall|rk: Seq<char>| #[trigger] self.rooms.contains_key(rk) ==> self.room_wf(rk)
        &&& members_recorded(self.rooms, self.sessions)
        &&& guests_recorded(self.rooms, self.sessions)
    }
}

/// The messages to the other users for a public text of `sender`.
pub open spec fn public_text_effect(pre: ServerView, post: ServerView, d: Delivery, sender: Seq<char>, text: Seq<char>) -> bool {
    &&& post == pre
    &&& d.halt_on_failure
    &&& broadcast(
        d.sends@,
        pre.users,
        except_set(Some(lowercase(sender))),
        pre.sessions,
        line(SendView::PublicTextFrom { username: sender, text }),
    )
}

/// A connected `sender` takes `status`, and the other users are told.
pub open spec fn status_effect(pre: ServerView, post: ServerView, out: Seq<Outgoing>, sender: Seq<char>, status: State) -> bool {
    let key = lowercase(sender);
    if pre.users.contains_key(key) {
        let id = pre.users[key] as int;
        &&& post == ServerView {
            sessions: pre.sessions.update(id, UserView { state: status, ..pre.sessions[id] }),
            ..pre
        }
        &&& broadcast(
            out,
            pre.users,
            except_set(Some(key)),
            pre.sessions,
            line(SendView::NewStatus { username: sender, status }),
        )
    } else {
        post == pre && out.len() == 0
    }
}

/// `reply_to` gets the list of the connected users with their states.
pub open spec fn users_effect(pre: ServerView, post: ServerView, out: Seq<Outgoing>, reply_to: u64) -> bool {
    &&& post == pre
    &&& out.len() == 1
    &&& out[0].to == reply_to
    &&& exists|list: Seq<(Seq<char>, State)>| #[trigger] lists_states(list, pre.users, pre.sessions)
        && distinct_names(list) && out[0].msg@ == line(SendView::UserList { users: list })
}

/// The text goes to the user named `username`, or `reply_to` is told that
/// no such user is connected.
pub open spec fn private_text_effect(
    pre: ServerView,
    post: ServerView,
    out: Seq<Outgoing>,
    username: Seq<char>,
    text: Seq<char>,
    sender: Seq<char>,
    reply_to: u64,
) -> bool {
    let key = lowercase(username);
    &&& post == pre
    &&& if pre.users.contains_key(key) {
        single(out, pre.sessions[pre.users[key] as int].tx, line(SendView::TextFrom { username: sender, text }))
    } else {
        single(
            out,
            reply_to,
            line(SendView::Response { operation: Operations::Text, result: Resultado::NoSuchUser, extra: Some(username) }),
        )
    }
}

/// The other users are told that `username` arrived.
pub open spec fn identify_effect(pre: ServerView, post: ServerView, out: Seq<Outgoing>, username: Seq<char>) -> bool {
    &&& post == pre
    &&& broadcast(
        out,
        pre.users,
        except_set(Some(lowercase(username))),
        pre.sessions,
        line(SendView::NewUser { username }),
    )
}

/// A connected `sender` creates the room `roomname` with itself as its only
/// member, replacing any room of the same key; its session records the
/// room's key, and it is told so.
pub open spec fn new_room_effect(
    pre: ServerView,
    post: ServerView,
    out: Seq<Outgoing>,
    roomname: Seq<char>,
    sender: Seq<char>,
    reply_to: u64,
) -> bool {
    let key = lowercase(sender);
    if pre.users.contains_key(key) {
        let id = pre.users[key] as int;
        &&& post == ServerView {
            rooms: pre.rooms.insert(
                lowercase(roomname),
                RoomView { name: roomname, users: Map::empty().insert(key, pre.users[key]), guests: Map::empty() },
            ),
            sessions: pre.sessions.update(
                id,
                UserView { rooms_keys: pre.sessions[id].rooms_keys.push(lowercase(roomname)), ..pre.sessions[id] },
            ),
            ..pre
        }
        &&& single(
            out,
            reply_to,
            line(SendView::Response { operation: Operations::NewRoom, result: Resultado::Success, extra: Some(roomname) }),
        )
    } else {
        post == pre && out.len() == 0
    }
}

/// A member of the room `roomname` texts the other members; otherwise
/// `reply_to` is told that the room does not exist or that the sender is not
/// a member.
pub open spec fn room_text_effect(
    pre: ServerView,
    post: ServerView,
    out: Seq<Outgoing>,
    roomname: Seq<char>,
    text: Seq<char>,
    sender: Seq<char>,
    reply_to: u64,
) -> bool {
    let rk = lowercase(roomname);
    &&& post == pre
    &&& if !pre.rooms.contains_key(rk) {
        single(
            out,
            reply_to,
            line(SendView::Response { operation: Operations::RoomText, result: Resultado::NoSuchRoom, extra: Some(roomname) }),
        )
    } else {
        let room = pre.rooms[rk];
        let key = lowercase(sender);
        if room.users.contains_key(key) {
            broadcast(
                out,
                room.users,
                except_set(Some(key)),
                pre.sessions,
                line(SendView::RoomTextFrom { roomname: room.name, username: sender, text }),
            )
        } else {
            single(
                out,
                reply_to,
                line(SendView::Response { operation: Operations::RoomText, result: Resultado::NotJoined, extra: Some(room.name) }),
            )
        }
    }
}

/// `reply_to` gets the members of the room `roomname` with their states,
/// preceded by a refusal when the sender is not a member; or is told that
/// the room does not exist.
pub open spec fn room_users_effect(
    pre: ServerView,
    post: ServerView,
    out: Seq<Outgoing>,
    roomname: Seq<char>,
    sender: Seq<char>,
    reply_to: u64,
) -> bool {
    let rk = lowercase(roomname);
    &&& post == pre
    &&& if !pre.rooms.contains_key(rk) {
        single(
            out,
            reply_to,
            line(SendView::Response { operation: Operations::RoomUsers, result: Resultado::NoSuchRoom, extra: Some(roomname) }),
        )
    } else {
        let room = pre.rooms[rk];
        let member = room.users.contains_key(lowercase(sender));
        &&& out.len() == (if member { 1int } else { 2int })
        &&& forall|i: int| 0 <= i < out.len() ==> #[trigger] out[i].to == reply_to
        &&& !member ==> out[0].msg@ == send_json(
            SendView::Response { operation: Operations::RoomUsers, result: Resultado::NotJoined, extra: Some(room.name) },
        ).push(110u8)
        &&& exists|list: Seq<(Seq<char>, State)>| #[trigger] lists_states(list, room.users, pre.sessions)
            && distinct_names(list) && out.last().msg@ == line(SendView::RoomUserList { roomname: room.name, users: list })
    }
}

/// `sender` leaves the room `roomname` and the members left are told; a
/// room left without members is removed. Otherwise `reply_to` is told that
/// the room does not exist or that the sender is not a member (and a room
/// without members is removed all the same).
pub open spec fn leave_room_effect(
    pre: ServerView,
    post: ServerView,
    out: Seq<Outgoing>,
    roomname: Seq<char>,
    sender: Seq<char>,
    reply_to: u64,
) -> bool {
    let rk = lowercase(roomname);
    if !pre.rooms.contains_key(rk) {
        &&& post == pre
        &&& single(
            out,
            reply_to,
            line(SendView::Response { operation: Operations::LeaveRoom, result: Resultado::NoSuchRoom, extra: Some(roomname) }),
        )
    } else {
        let room = pre.rooms[rk];
        let key = lowercase(sender);
        let members = room.users.remove(key);
        &&& post == ServerView {
            rooms: if members.len() == 0 {
                pre.rooms.remove(rk)
            } else {
                pre.rooms.insert(rk, RoomView { users: members, ..room })
            },
            ..pre
        }
        &&& if room.users.contains_key(key) {
            broadcast(
                out,
                members,
                Set::empty(),
                pre.sessions,
                line(SendView::LeftRoom { roomname: room.name, username: sender }),
            )
        } else {
            single(
                out,
                reply_to,
                line(SendView::Response { operation: Operations::LeaveRoom, result: Resultado::NotJoined, extra: Some(room.name) }),
            )
        }
    }
}

/// An invited `sender` joins the room `roomname`: it stops being a guest
/// and becomes a member, its session records the room, the members are told
/// and the sender is welcomed. Otherwise `reply_to` is told that the room
/// does not exist or that the sender was not invited.
pub open spec fn join_room_effect(
    pre: ServerView,
    post: ServerView,
    out: Seq<Outgoing>,
    roomname: Seq<char>,
    sender: Seq<char>,
    reply_to: u64,
) -> bool {
    let rk = lowercase(roomname);
    if !pre.rooms.contains_key(rk) {
        &&& post == pre
        &&& single(
            out,
            reply_to,
            line(SendView::Response { operation: Operations::JoinRoom, result: Resultado::NoSuchRoom, extra: Some(roomname) }),
        )
    } else {
        let room = pre.rooms[rk];
        let key = lowercase(sender);
        if !room.guests.contains_key(key) {
            &&& post == pre
            &&& single(
                out,
                reply_to,
                line(SendView::Response { operation: Operations::JoinRoom, result: Resultado::NotInvited, extra: Some(room.name) }),
            )
        } else {
            let id = room.guests[key];
            let u = pre.sessions[id as int];
            &&& post == ServerView {
                users: pre.users,
                rooms: pre.rooms.insert(
                    rk,
                    RoomView { name: room.name, users: room.users.insert(key, id), guests: room.guests.remove(key) },
                ),
                sessions: pre.sessions.update(id as int, UserView {
                    invitations_room_keys: without_last(u.invitations_room_keys, rk),
                    rooms_keys: u.rooms_keys.push(rk),
                    ..u
                }),
            }
            &&& out.len() >= 1
            &&& broadcast(
                out.drop_last(),
                room.users,
                Set::empty(),
                pre.sessions,
                line(SendView::JoinedRoom { roomname: room.name, username: sender }),
            )
            &&& out.last().to == reply_to
            &&& out.last().msg@ == line(SendView::Response { operation: Operations::JoinRoom, result: Resultado::Success, extra: Some(room.name) })
        }
    }
}

/// `names[i]` is the first of `names` whose key is not connected.
pub open spec fn first_unknown_at(names: Seq<Seq<char>>, users: Map<Seq<char>, usize>, i: int) -> bool {
    &&& 0 <= i < names.len()
    &&& !users.contains_key(lowercase(names[i]))
    &&& forall|j: int| 0 <= j < i ==> users.contains_key(#[trigger] lowercase(names[j]))
}

/// The sessions of the connected users named in `names`.
pub open spec fn sessions_of(names: Seq<Seq<char>>, users: Map<Seq<char>, usize>) -> Seq<usize> {
    names.map_values(|n: Seq<char>| users[lowercase(n)])
}

/// A member `sender` invites the users `usernames` to the room `roomname`:
/// those not yet members nor invited become guests, their sessions record
/// the invitation and each is sent it. If the room does not exist, or one of
/// the names is not connected (the first such is named), `reply_to` is told
/// and nothing changes; a sender that is not a member changes nothing.
pub open spec fn invite_effect(
    pre: ServerView,
    post: ServerView,
    out: Seq<Outgoing>,
    roomname: Seq<char>,
    usernames: Seq<Seq<char>>,
    reply_to: u64,
    sender: Seq<char>,
) -> bool {
    let rk = lowercase(roomname);
    if !pre.rooms.contains_key(rk) {
        &&& post == pre
        &&& single(
            out,
            reply_to,
            line(SendView::Response { operation: Operations::JoinRoom, result: Resultado::NoSuchRoom, extra: Some(roomname) }),
        )
    } else if exists|i: int| 0 <= i < usernames.len() && !pre.users.contains_key(#[trigger] lowercase(usernames[i])) {
        &&& post == pre
        &&& exists|i: int| #[trigger] first_unknown_at(usernames, pre.users, i) && single(
            out,
            reply_to,
            line(SendView::Response { operation: Operations::Invite, result: Resultado::NoSuchUser, extra: Some(usernames[i]) }),
        )
    } else {
        let room = pre.rooms[rk];
        if !room.users.contains_key(lowercase(sender)) {
            post == pre && out.len() == 0
        } else {
            let invited = fresh_invitees(sessions_of(usernames, pre.users), room, pre.sessions);
            &&& post == ServerView {
                users: pre.users,
                rooms: pre.rooms.insert(rk, RoomView { guests: with_guests(room.guests, invited, pre.sessions), ..room }),
                sessions: with_invitations(pre.sessions, invited, rk),
            }
            &&& out.len() == invited.len()
            &&& forall|i: int| 0 <= i < out.len() ==> {
                &&& #[trigger] out[i].to == pre.sessions[invited[i] as int].tx
                &&& out[i].msg@ == line(SendView::Invitation { username: sender, roomname: room.name })
            }
        }
    }
}

/// Guests added under the lower case of their names keep a table keyed by
/// name and pointing at sessions.
pub proof fn lemma_with_guests_wf(guests: Map<Seq<char>, usize>, invited: Seq<usize>, sessions: Seq<UserView>)
    requires
        guests.dom().finite(),
        indexes_into(guests, sessions.len()),
        keyed_by_name(guests, sessions),
        forall|i: int| 0 <= i < invited.len() ==> #[trigger] invited[i] < sessions.len(),
    ensures
        with_guests(guests, invited, sessions).dom().finite(),
        indexes_into(with_guests(guests, invited, sessions), sessions.len()),
        keyed_by_name(with_guests(guests, invited, sessions), sessions),
    decreases invited.len(),
{
    if invited.len() > 0 {
        lemma_with_guests_wf(guests, invited.drop_last(), sessions);
    }
}

/// What a filter keeps comes from the sequence filtered.
pub proof fn lemma_filter_bounded(ids: Seq<usize>, pred: spec_fn(usize) -> bool, n: nat)
    requires
        forall|i: int| 0 <= i < ids.len() ==> #[trigger] ids[i] < n,
    ensures
        forall|i: int| 0 <= i < ids.filter(pred).len() ==> #[trigger] ids.filter(pred)[i] < n,
    decreases ids.len(),
{
    reveal_with_fuel(Seq::filter, 1);
    if ids.len() > 0 {
        lemma_filter_bounded(ids.drop_last(), pred, n);
        let sub = ids.drop_last().filter(pred);
        assert forall|i: int| 0 <= i < ids.filter(pred).len() implies #[trigger] ids.filter(pred)[i] < n by {
            if pred(ids.last()) {
                assert(ids.filter(pred) == sub.push(ids.last()));
                if i < sub.len() {
                    assert(sub[i] < n);
                }
            } else {
                assert(ids.filter(pred) == sub);
                assert(sub[i] < n);
            }
        }
    }
}

/// The rooms with the member `key` removed from those keyed in `joined`
/// and the guest `key` removed from those keyed in `invited`.
pub open spec fn rooms_without(
    rooms: Map<Seq<char>, RoomView>,
    key: Seq<char>,
    joined: Seq<Seq<char>>,
    invited: Seq<Seq<char>>,
) -> Map<Seq<char>, RoomView> {
    Map::new(
        |rk: Seq<char>| rooms.contains_key(rk),
        |rk: Seq<char>|
            RoomView {
                name: rooms[rk].name,
                users: if joined.contains(rk) {
                    rooms[rk].users.remove(key)
                } else {
                    rooms[rk].users
                },
                guests: if invited.contains(rk) {
                    rooms[rk].guests.remove(key)
                } else {
                    rooms[rk].guests
                },
            },
    )
}

/// The segments one after the other.
pub open spec fn concat(segs: Seq<Seq<Outgoing>>) -> Seq<Outgoing>
    decreases segs.len(),
{
    if segs.len() == 0 {
        Seq::empty()
    } else {
        concat(segs.drop_last()) + segs.last()
    }
}

/// What goes out for the `j`-th key of `joined` when the member `key` leaves
/// the rooms: the other members of that room are told that `name` left,
/// the first time the key occurs and only if `key` is a member there.
pub open spec fn leave_notice(
    seg: Seq<Outgoing>,
    rooms: Map<Seq<char>, RoomView>,
    key: Seq<char>,
    name: Seq<char>,
    joined: Seq<Seq<char>>,
    j: int,
    sessions: Seq<UserView>,
) -> bool {
    let rk = joined[j];
    if rooms.contains_key(rk) && rooms[rk].users.contains_key(key) && !joined.take(j).contains(rk) {
        broadcast(
            seg,
            rooms[rk].users.remove(key),
            Set::empty(),
            sessions,
            line(SendView::LeftRoom { roomname: rooms[rk].name, username: name }),
        )
    } else {
        seg.len() == 0
    }
}

/// `out` is the notices for each key of `joined`, in that order.
pub open spec fn leave_notices(
    out: Seq<Outgoing>,
    rooms: Map<Seq<char>, RoomView>,
    key: Seq<char>,
    name: Seq<char>,
    joined: Seq<Seq<char>>,
    sessions: Seq<UserView>,
) -> bool {
    exists|segs: Seq<Seq<Outgoing>>| #[trigger] concat(segs) == out && segs.len() == joined.len() && forall|j: int|
        0 <= j < joined.len() ==> #[trigger] leave_notice(segs[j], rooms, key, name, joined, j, sessions)
}

/// A connected `sender` leaves: it is no longer connected, it leaves the
/// rooms it joined (their other members are told) and its invitations are
/// withdrawn; then every user still connected is told. The rooms are
/// searched under the lower case of the user's key.
pub open spec fn disconnect_effect(pre: ServerView, post: ServerView, out: Seq<Outgoing>, sender: Seq<char>) -> bool {
    let key = lowercase(sender);
    if !pre.users.contains_key(key) {
        post == pre && out.len() == 0
    } else {
        let u = pre.sessions[pre.users[key] as int];
        let member_key = lowercase(key);
        &&& post == ServerView {
            users: pre.users.remove(key),
            rooms: rooms_without(pre.rooms, member_key, u.rooms_keys, u.invitations_room_keys),
            sessions: pre.sessions,
        }
        &&& exists|i: int| 0 <= i <= out.len() && #[trigger] leave_notices(out.take(i), pre.rooms, member_key, key, u.rooms_keys, pre.sessions)
            && broadcast(
            out.skip(i),
            pre.users.remove(key),
            Set::empty(),
            pre.sessions,
            line(SendView::Disconnected { username: sender }),
        )
    }
}

/// Leaving one more room: the member `key` is removed from the room `rk`.
pub proof fn lemma_rooms_without_leave(
    rooms: Map<Seq<char>, RoomView>,
    key: Seq<char>,
    joined: Seq<Seq<char>>,
    invited: Seq<Seq<char>>,
    rk: Seq<char>,
)
    ensures
        rooms.contains_key(rk) ==> rooms_without(rooms, key, joined.push(rk), invited) == rooms_without(
            rooms,
            key,
            joined,
            invited,
        ).insert(
            rk,
            RoomView {
                users: rooms_without(rooms, key, joined, invited)[rk].users.remove(key),
                ..rooms_without(rooms, key, joined, invited)[rk]
            },
        ),
        !rooms.contains_key(rk) ==> rooms_without(rooms, key, joined.push(rk), invited) == rooms_without(
            rooms,
            key,
            joined,
            invited,
        ),
{
    let a = rooms_without(rooms, key, joined.push(rk), invited);
    let b = rooms_without(rooms, key, joined, invited);
    assert forall|k: Seq<char>| #[trigger] joined.push(rk).contains(k) <==> (joined.contains(k) || k == rk) by {
        if joined.push(rk).contains(k) {
            let p = choose|p: int| 0 <= p < joined.push(rk).len() && joined.push(rk)[p] == k;
            if p < joined.len() {
                assert(joined[p] == k);
            }
        }
        if joined.contains(k) {
            let p = choose|p: int| 0 <= p < joined.len() && joined[p] == k;
            assert(joined.push(rk)[p] == k);
        }
        if k == rk {
            assert(joined.push(rk)[joined.len() as int] == k);
        }
    }
    if rooms.contains_key(rk) {
        if joined.contains(rk) {
            assert(b[rk].users.remove(key) =~= b[rk].users);
        }
        assert(a =~= b.insert(rk, RoomView { users: b[rk].users.remove(key), ..b[rk] }));
    } else {
        assert(a =~= b);
    }
}

/// Dropping one more invitation: the guest `key` is removed from the room
/// `rk`.
pub proof fn lemma_rooms_without_uninvite(
    rooms: Map<Seq<char>, RoomView>,
    key: Seq<char>,
    joined: Seq<Seq<char>>,
    invited: Seq<Seq<char>>,
    rk: Seq<char>,
)
    ensures
        rooms.contains_key(rk) ==> rooms_without(rooms, key, joined, invited.push(rk)) == rooms_without(
            rooms,
            key,
            joined,
            invited,
        ).insert(
            rk,
            RoomView {
                guests: rooms_without(rooms, key, joined, invited)[rk].guests.remove(key),
                ..rooms_without(rooms, key, joined, invited)[rk]
            },
        ),
        !rooms.contains_key(rk) ==> rooms_without(rooms, key, joined, invited.push(rk)) == rooms_without(
            rooms,
            key,
            joined,
            invited,
        ),
{
    let a = rooms_without(rooms, key, joined, invited.push(rk));
    let b = rooms_without(rooms, key, joined, invited);
    assert forall|k: Seq<char>| #[trigger] invited.push(rk).contains(k) <==> (invited.contains(k) || k == rk) by {
        if invited.push(rk).contains(k) {
            let p = choose|p: int| 0 <= p < invited.push(rk).len() && invited.push(rk)[p] == k;
            if p < invited.len() {
                assert(invited[p] == k);
            }
        }
        if invited.contains(k) {
            let p = choose|p: int| 0 <= p < invited.len() && invited[p] == k;
            assert(invited.push(rk)[p] == k);
        }
        if k == rk {
            assert(invited.push(rk)[invited.len() as int] == k);
        }
    }
    if rooms.contains_key(rk) {
        if invited.contains(rk) {
            assert(b[rk].guests.remove(key) =~= b[rk].guests);
        }
        assert(a =~= b.insert(rk, RoomView { guests: b[rk].guests.remove(key), ..b[rk] }));
    } else {
        assert(a =~= b);
    }
}

/// What the server does with the message `msg` that the user `sender` sent,
/// whose answers go to `reply_to`.
pub open spec fn letter_effect(
    pre: ServerView,
    post: ServerView,
    d: Delivery,
    sender: Seq<char>,
    msg: ReciveView,
    reply_to: u64,
) -> bool {
    let out = d.sends@;
    match msg {
        ReciveView::PublicText { text } => public_text_effect(pre, post, d, sender, text),
        ReciveView::Status { status } => !d.halt_on_failure && status_effect(pre, post, out, sender, status),
        ReciveView::Users => !d.halt_on_failure && users_effect(pre, post, out, reply_to),
        ReciveView::Text { username, text } => !d.halt_on_failure && private_text_effect(
            pre,
            post,
            out,
            username,
            text,
            sender,
            reply_to,
        ),
        ReciveView::Identify { username } => !d.halt_on_failure && identify_effect(pre, post, out, username),
        ReciveView::Disconect => !d.halt_on_failure && disconnect_effect(pre, post, out, sender),
        ReciveView::Invite { roomname, usernames } => !d.halt_on_failure && invite_effect(
            pre,
            post,
            out,
            roomname,
            usernames,
            reply_to,
            sender,
        ),
        ReciveView::JoinRoom { roomname } => !d.halt_on_failure && join_room_effect(pre, post, out, roomname, sender, reply_to),
        ReciveView::NewRoom { roomname } => !d.halt_on_failure && new_room_effect(pre, post, out, roomname, sender, reply_to),
        ReciveView::LeaveRoom { roomname } => !d.halt_on_failure && leave_room_effect(pre, post, out, roomname, sender, reply_to),
        ReciveView::RoomText { roomname, text } => !d.halt_on_failure && room_text_effect(
            pre,
            post,
            out,
            roomname,
            text,
            sender,
            reply_to,
        ),
        ReciveView::RoomUsers { roomname } => !d.halt_on_failure && room_users_effect(pre, post, out, roomname, sender, reply_to),
    }
}

/// The server after a new session for `username`, with channel `tx`, is
/// connected under the key of the name: active, in no room, invited nowhere.
pub open spec fn registered(pre: ServerView, username: Seq<char>, tx: u64) -> ServerView {
    ServerView {
        users: pre.users.insert(lowercase(username), pre.sessions.len() as usize),
        rooms: pre.rooms,
        sessions: pre.sessions.push(UserView {
            name: username,
            tx,
            state: State::Active,
            rooms_keys: Seq::empty(),
            invitations_room_keys: Seq::empty(),
        }),
    }
}

impl Server {
    pub open spec fn wf(&self) -> bool {
        &&& self@.wf()
        &&& room_table(self.rooms).dom().finite()
    }

    /// A server for `port` with no users and no rooms.
    pub fn new(port: u16) -> (s: Server)
        ensures
            s.wf(),
            s.port == port,
            s@.users.dom().is_empty(),
            s@.rooms.dom().is_empty(),
            s@.sessions.len() == 0,
    {
        let users = names_new();
        let rooms = rooms_new();
        let s = Server { users, port, rooms, sessions: Vec::new() };
        assert(s@.users.dom() =~= Set::<Seq<char>>::empty());
        assert(room_table(s.rooms).dom() =~= Set::<Seq<char>>::empty());
        assert(s@.rooms.dom() =~= Set::<Seq<char>>::empty());
        assert(s@.sessions =~= Seq::<UserView>::empty());
        s
    }

    /// Whether a user with the key of `username` is connected.
    pub fn name_taken(&self, username: &str) -> (r: bool)
        ensures
            r == self@.users.contains_key(lowercase(username@)),
    {
        let key = to_lower(username);
        names_contains(&self.users, key.as_str())
    }

    /// Records a new session for `username`, whose messages go to the
    /// channel `tx`, and connects it under the key of its name. Returns the
    /// letter that announces it to the others.
    pub fn register_user(&mut self, username: String, tx: u64) -> (l: Letter)
        requires
            old(self).wf(),
            old(self).sessions@.len() < usize::MAX,
        ensures
            final(self).wf(),
            final(self).port == old(self).port,
            final(self)@ == registered(old(self)@, username@, tx),
            l.usr_sender@ == username@,
            l.msg@ == (ReciveView::Identify { username: username@ }),
            l.reply_to == tx,
    {
        let ghost pre = self@;
        let id = self.sessions.len();
        let key = to_lower(username.as_str());
        let announced = copy_string(&username);
        let sender = copy_string(&username);
        let user = User::new(username, tx);
        self.sessions.push(user);
        names_insert(&mut self.users, key, id);
        proof {
            assert(sessions_view(self.sessions@) =~= pre.sessions.push(self.sessions@[id as int]@));
            assert forall|rk: Seq<char>| #[trigger] self@.rooms.contains_key(rk) implies self@.room_wf(rk) by {
                assert(pre.room_wf(rk));
                let room = self@.rooms[rk];
                assert forall|k: Seq<char>| #[trigger] room.users.contains_key(k) implies lowercase(self@.sessions[room.users[k] as int].name) == k by {
                    assert(pre.sessions[room.users[k] as int] == self@.sessions[room.users[k] as int]);
                }
                assert forall|k: Seq<char>| #[trigger] room.guests.contains_key(k) implies lowercase(self@.sessions[room.guests[k] as int].name) == k by {
                    assert(pre.sessions[room.guests[k] as int] == self@.sessions[room.guests[k] as int]);
                }
            }
            assert forall|k: Seq<char>| #[trigger] self@.users.contains_key(k) implies lowercase(self@.sessions[self@.users[k] as int].name) == k by {
                if k != key@ {
                    assert(pre.sessions[pre.users[k] as int] == self@.sessions[self@.users[k] as int]);
                }
            }
        }
        Letter::new(sender, TypeReciveMessages::Identify { username: announced }, tx)
    }

    /// The name and state of each connected user; no name occurs twice.
    pub fn generate_map_users(&self) -> (r: Vec<(String, State)>)
        requires
            self.wf(),
        ensures
            lists_states(states_view(r@), self@.users, self@.sessions),
            distinct_names(states_view(r@)),
    {
        let r = state_listing(&self.users, &self.sessions);
        proof {
            lemma_listing_names_distinct(states_view(r@), self@.users, self@.sessions);
        }
        r
    }

    /// Relays a public text of `user_sender` to every other user.
    pub fn procces_public_text_msg(&self, user_sender: &str, text: &str) -> (d: Delivery)
        requires
            self.wf(),
        ensures
            public_text_effect(self@, self@, d, user_sender@, text@),
    {
        let key = to_lower(user_sender);
        let msg = generate_public_text_from(user_sender, text);
        let sends = broadcast_table(&self.users, &self.sessions, Some(&key), &msg);
        Delivery { sends, halt_on_failure: true }
    }

    /// Sets the state of `user_sender` and tells the other users.
    pub fn process_status_msg(&mut self, user_sender: &str, status: State) -> (out: Vec<Outgoing>)
        requires
            old(self).wf(),
        ensures
            final(self).wf(),
            final(self).port == old(self).port,
            status_effect(old(self)@, final(self)@, out@, user_sender@, status),
    {
        let ghost pre = self@;
        let key = to_lower(user_sender);
        match names_get(&self.users, key.as_str()) {
            Some(id) => {
                let msg = generate_new_status_msg(user_sender, status);
                let out = broadcast_table(&self.users, &self.sessions, Some(&key), &msg);
                self.sessions[id].state = status;
                proof {
                    assert(sessions_view(self.sessions@) =~= pre.sessions.update(id as int, UserView { state: status, ..pre.sessions[id as int] }));
                    assert forall|rk: Seq<char>| #[trigger] self@.rooms.contains_key(rk) implies self@.room_wf(rk) by {
                        assert(pre.room_wf(rk));
                    }
                }
                out
            },
            None => Vec::new(),
        }
    }

    /// Sends `reply_to` the list of the connected users.
    pub fn process_users_msg(&self, reply_to: u64) -> (out: Vec<Outgoing>)
        requires
            self.wf(),
        ensures
            users_effect(self@, self@, out@, reply_to),
    {
        let map = self.generate_map_users();
        let ghost list = states_view(map@);
        let msg = generate_users_msg(map);
        let mut out: Vec<Outgoing> = Vec::new();
        out.push(Outgoing { to: reply_to, msg });
        assert(lists_states(list, self@.users, self@.sessions) && distinct_names(list));
        out
    }

    /// Relays a private text of `user_sender` to `username`.
    pub fn process_private_text_msg(&self, username: &str, text: &str, user_sender: &str, reply_to: u64) -> (out: Vec<Outgoing>)
        requires
            self.wf(),
        ensures
            private_text_effect(self@, self@, out@, username@, text@, user_sender@, reply_to),
    {
        let username_lower = to_lower(username);
        let msg = generate_text_from_msg(user_sender, text);
        let mut out: Vec<Outgoing> = Vec::new();
        match names_get(&self.users, username_lower.as_str()) {
            Some(id) => {
                out.push(Outgoing { to: self.sessions[id].tx, msg });
            },
            None => {
                let answer = generate_text_user_not_exist(username);
                out.push(Outgoing { to: reply_to, msg: answer });
            },
        }
        out
    }

    /// Tells every other user that `username` arrived.
    pub fn process_identify_msg(&self, username: &str) -> (out: Vec<Outgoing>)
        requires
            self.wf(),
        ensures
            identify_effect(self@, self@, out@, username@),
    {
        let msg = generate_new_user_msg(username);
        let key = to_lower(username);
        broadcast_table(&self.users, &self.sessions, Some(&key), &msg)
    }

    /// Creates the room `roomname` with `user_sender` as its only member.
    pub fn process_new_room_msg(&mut self, roomname: &str, user_sender: &str, reply_to: u64) -> (out: Vec<Outgoing>)
        requires
            old(self).wf(),
        ensures
            final(self).wf(),
            final(self).port == old(self).port,
            new_room_effect(old(self)@, final(self)@, out@, roomname@, user_sender@, reply_to),
    {
        let ghost pre = self@;
        let key = to_lower(user_sender);
        match names_get(&self.users, key.as_str()) {
            Some(id) => {
                let roomname_lower = to_lower(roomname);
                let room = Room::new(roomname.to_owned(), id, &self.sessions);
                let ghost rv = room@;
                let recorded = copy_string(&roomname_lower);
                rooms_insert(&mut self.rooms, roomname_lower, room);
                let ghost before = self.sessions@;
                self.sessions[id].rooms_keys.push(recorded);
                proof {
                    let rk0 = lowercase(roomname@);
                    assert(keys_view(self.sessions@[id as int].rooms_keys@) =~= keys_view(before[id as int].rooms_keys@).push(rk0));
                    assert(sessions_view(self.sessions@) =~= pre.sessions.update(
                        id as int,
                        UserView { rooms_keys: pre.sessions[id as int].rooms_keys.push(rk0), ..pre.sessions[id as int] },
                    ));
                    assert(rv.users =~= Map::empty().insert(key@, id));
                    assert(self@.rooms =~= pre.rooms.insert(rk0, rv));
                    assert forall|k: Seq<char>| #[trigger] self@.users.contains_key(k) implies lowercase(self@.sessions[self@.users[k] as int].name) == k by {
                        assert(self@.sessions[self@.users[k] as int].name == pre.sessions[pre.users[k] as int].name);
                    }
                    assert forall|rk: Seq<char>| #[trigger] self@.rooms.contains_key(rk) implies self@.room_wf(rk) by {
                        let r = self@.rooms[rk];
                        if rk != rk0 {
                            assert(pre.room_wf(rk));
                        }
                        assert forall|x: Seq<char>| #[trigger] r.users.contains_key(x) implies lowercase(self@.sessions[r.users[x] as int].name) == x by {
                            assert(self@.sessions[r.users[x] as int].name == pre.sessions[r.users[x] as int].name);
                        }
                        assert forall|x: Seq<char>| #[trigger] r.guests.contains_key(x) implies lowercase(self@.sessions[r.guests[x] as int].name) == x by {
                            assert(self@.sessions[r.guests[x] as int].name == pre.sessions[r.guests[x] as int].name);
                        }
                    }
                    assert forall|rk: Seq<char>, k: Seq<char>| self@.rooms.contains_key(rk) && #[trigger] self@.rooms[rk].users.contains_key(k)
                        implies self@.sessions[self@.rooms[rk].users[k] as int].rooms_keys.contains(rk) by {
                        let i = self@.rooms[rk].users[k] as int;
                        if rk == rk0 {
                            assert(i == id);
                            assert(self@.sessions[i].rooms_keys.last() == rk0);
                        } else {
                            assert(pre.sessions[i].rooms_keys.contains(rk));
                            if i == id {
                                let p = choose|p: int| 0 <= p < pre.sessions[i].rooms_keys.len() && pre.sessions[i].rooms_keys[p] == rk;
                                assert(self@.sessions[i].rooms_keys[p] == rk);
                            }
                        }
                    }
                }
                let msg = crate::server_messages::new_room_success(roomname);
                let mut out: Vec<Outgoing> = Vec::new();
                out.push(Outgoing { to: reply_to, msg });
                out
            },
            None => Vec::new(),
        }
    }

    /// Takes the room with key `rk` out of the table.
    fn take_room(&mut self, rk: &str) -> (r: Option<Room>)
        ensures
            final(self).port == old(self).port,
            final(self).users == old(self).users,
            final(self).sessions == old(self).sessions,
            room_table(final(self).rooms) == room_table(old(self).rooms).remove(rk@),
            final(self)@.rooms == old(self)@.rooms.remove(rk@),
            r == (if room_table(old(self).rooms).contains_key(rk@) {
                Some(room_table(old(self).rooms)[rk@])
            } else {
                None
            }),
    {
        let r = rooms_remove(&mut self.rooms, rk);
        assert(self@.rooms =~= old(self)@.rooms.remove(rk@));
        r
    }

    /// Puts `room` into the table under the key `rk`.
    fn put_room(&mut self, rk: String, room: Room)
        ensures
            final(self).port == old(self).port,
            final(self).users == old(self).users,
            final(self).sessions == old(self).sessions,
            room_table(final(self).rooms) == room_table(old(self).rooms).insert(rk@, room),
            final(self)@.rooms == old(self)@.rooms.insert(rk@, room@),
    {
        let ghost pre = self@;
        rooms_insert(&mut self.rooms, rk, room);
        assert(self@.rooms =~= pre.rooms.insert(rk@, room@));
    }

    /// Relays a room text of `user_sender` to the other members of the room.
    pub fn process_room_text_msg(&mut self, roomname: &str, text: &str, user_sender: &str, reply_to: u64) -> (out: Vec<Outgoing>)
        requires
            old(self).wf(),
        ensures
            final(self).wf(),
            final(self).port == old(self).port,
            room_text_effect(old(self)@, final(self)@, out@, roomname@, text@, user_sender@, reply_to),
    {
        let ghost pre = self@;
        let rk = to_lower(roomname);
        match self.take_room(rk.as_str()) {
            Some(room) => {
                assert(pre.rooms.contains_key(rk@));
                assert(room@ == pre.rooms[rk@]);
                assert(pre.room_wf(rk@));
                let out = room.send_msg(&self.sessions, user_sender, text, reply_to);
                self.put_room(rk, room);
                assert(self@.rooms =~= pre.rooms);
                out
            },
            None => {
                let msg = crate::server_messages::room_text_no_such_room(roomname);
                let mut out: Vec<Outgoing> = Vec::new();
                out.push(Outgoing { to: reply_to, msg });
                assert(self@.rooms =~= pre.rooms);
                out
            },
        }
    }

    /// Sends `reply_to` the members of the room `roomname`.
    pub fn process_room_users_msg(&mut self, roomname: &str, user_sender: &str, reply_to: u64) -> (out: Vec<Outgoing>)
        requires
            old(self).wf(),
        ensures
            final(self).wf(),
            final(self).port == old(self).port,
            room_users_effect(old(self)@, final(self)@, out@, roomname@, user_sender@, reply_to),
    {
        let ghost pre = self@;
        let rk = to_lower(roomname);
        match self.take_room(rk.as_str()) {
            Some(room) => {
                assert(pre.rooms.contains_key(rk@));
                assert(room@ == pre.rooms[rk@]);
                assert(pre.room_wf(rk@));
                let out = room.send_users(&self.sessions, reply_to, user_sender);
                proof {
                    let r = pre.rooms[rk@];
                    let list = choose|list: Seq<(Seq<char>, State)>| #[trigger] lists_states(list, r.users, pre.sessions)
                        && out@.last().msg@ == line(SendView::RoomUserList { roomname: r.name, users: list });
                    lemma_listing_names_distinct(list, r.users, pre.sessions);
                }
                self.put_room(rk, room);
                assert(self@.rooms =~= pre.rooms);
                out
            },
            None => {
                let msg = crate::server_messages::room_users_no_such_room(roomname);
                let mut out: Vec<Outgoing> = Vec::new();
                out.push(Outgoing { to: reply_to, msg });
                assert(self@.rooms =~= pre.rooms);
                out
            },
        }
    }

    /// Takes `user_sender` out of the room `roomname`; a room left without
    /// members is removed.
    pub fn process_leave_room_msg(&mut self, roomname: &str, user_sender: &str, reply_to: u64) -> (out: Vec<Outgoing>)
        requires
            old(self).wf(),
        ensures
            final(self).wf(),
            final(self).port == old(self).port,
            leave_room_effect(old(self)@, final(self)@, out@, roomname@, user_sender@, reply_to),
    {
        let ghost pre = self@;
        let rk = to_lower(roomname);
        match self.take_room(rk.as_str()) {
            Some(mut room) => {
                assert(pre.rooms.contains_key(rk@));
                assert(room@ == pre.rooms[rk@]);
                assert(pre.room_wf(rk@));
                let (num_users, out) = room.remove_user(&self.sessions, reply_to, user_sender);
                if num_users != 0 {
                    self.put_room(rk, room);
                }
                proof {
                    assert forall|k: Seq<char>| #[trigger] self@.rooms.contains_key(k) implies self@.room_wf(k) by {
                        assert(pre.room_wf(k));
                    }
                    if num_users == 0 {
                        assert(self@.rooms =~= pre.rooms.remove(rk@));
                    } else {
                        assert(self@.rooms =~= pre.rooms.insert(rk@, RoomView { users: pre.rooms[rk@].users.remove(lowercase(user_sender@)), ..pre.rooms[rk@] }));
                    }
                }
                out
            },
            None => {
                let msg = crate::server_messages::leave_room_not_such_room(roomname);
                let mut out: Vec<Outgoing> = Vec::new();
                out.push(Outgoing { to: reply_to, msg });
                assert(self@.rooms =~= pre.rooms);
                out
            },
        }
    }

    /// Lets `user_sender` join the room `roomname` if it was invited.
    pub fn process_join_room_msg(&mut self, roomname: &str, reply_to: u64, user_sender: &str) -> (out: Vec<Outgoing>)
        requires
            old(self).wf(),
        ensures
            final(self).wf(),
            final(self).port == old(self).port,
            join_room_effect(old(self)@, final(self)@, out@, roomname@, user_sender@, reply_to),
    {
        let ghost pre = self@;
        let rk = to_lower(roomname);
        match self.take_room(rk.as_str()) {
            Some(mut room) => {
                assert(pre.rooms.contains_key(rk@));
                assert(room@ == pre.rooms[rk@]);
                assert(pre.room_wf(rk@));
                let out = room.accept_invitation(&mut self.sessions, user_sender, reply_to);
                self.put_room(rk, room);
                proof {
                    let key = lowercase(user_sender@);
                    if pre.rooms[rk@].guests.contains_key(key) {
                        let id = pre.rooms[rk@].guests[key];
                        assert forall|i: int| 0 <= i < self@.sessions.len() implies #[trigger] self@.sessions[i].name == pre.sessions[i].name by {}
                        assert forall|k: Seq<char>| #[trigger] self@.rooms.contains_key(k) implies self@.room_wf(k) by {
                            if k != rk@ {
                                assert(pre.room_wf(k));
                                let r = self@.rooms[k];
                                assert(forall|x: Seq<char>| #[trigger] r.users.contains_key(x) ==> lowercase(self@.sessions[r.users[x] as int].name) == x);
                            }
                        }
                        assert(self@.rooms =~= pre.rooms.insert(rk@, RoomView {
                            name: pre.rooms[rk@].name,
                            users: pre.rooms[rk@].users.insert(key, id),
                            guests: pre.rooms[rk@].guests.remove(key),
                        }));
                        assert forall|r2: Seq<char>, k: Seq<char>| self@.rooms.contains_key(r2) && #[trigger] self@.rooms[r2].users.contains_key(k)
                            implies self@.sessions[self@.rooms[r2].users[k] as int].rooms_keys.contains(r2) by {
                            let i = self@.rooms[r2].users[k] as int;
                            if r2 == rk@ && k == key {
                                assert(i == id);
                                assert(self@.sessions[i].rooms_keys.last() == rk@);
                            } else {
                                assert(pre.rooms.contains_key(r2) && pre.rooms[r2].users.contains_key(k));
                                assert(pre.rooms[r2].users[k] as int == i);
                                assert(pre.sessions[i].rooms_keys.contains(r2));
                                if i == id {
                                    let p = choose|p: int| 0 <= p < pre.sessions[i].rooms_keys.len() && pre.sessions[i].rooms_keys[p] == r2;
                                    assert(self@.sessions[i].rooms_keys[p] == r2);
                                }
                            }
                        }
                        assert forall|r2: Seq<char>, k: Seq<char>| self@.rooms.contains_key(r2) && #[trigger] self@.rooms[r2].guests.contains_key(k)
                            implies self@.sessions[self@.rooms[r2].guests[k] as int].invitations_room_keys.contains(r2) by {
                            let i = self@.rooms[r2].guests[k] as int;
                            assert(pre.rooms.contains_key(r2) && pre.rooms[r2].guests.contains_key(k));
                            assert(pre.rooms[r2].guests[k] as int == i);
                            assert(pre.sessions[i].invitations_room_keys.contains(r2));
                            assert(pre.room_wf(r2));
                            if i == id {
                                if r2 == rk@ {
                                    assert(lowercase(pre.sessions[i].name) == k);
                                    assert(lowercase(pre.sessions[i].name) == key);
                                } else {
                                    crate::room::lemma_without_last_keeps(pre.sessions[i].invitations_room_keys, rk@, r2);
                                }
                            }
                        }
                    } else {
                        assert(self@.rooms =~= pre.rooms);
                    }
                }
                out
            },
            None => {
                let msg = crate::server_messages::no_such_room_join_room_msg(roomname);
                let mut out: Vec<Outgoing> = Vec::new();
                out.push(Outgoing { to: reply_to, msg });
                assert(self@.rooms =~= pre.rooms);
                out
            },
        }
    }

    /// Invites `usernames` to the room `roomname` on behalf of `user_sender`.
    #[verifier::spinoff_prover]
    #[verifier::rlimit(30)]
    pub fn process_invite_msg(&mut self, roomname: &str, usernames: Vec<String>, reply_to: u64, user_sender: &str) -> (out: Vec<Outgoing>)
        requires
            old(self).wf(),
        ensures
            final(self).wf(),
            final(self).port == old(self).port,
            invite_effect(old(self)@, final(self)@, out@, roomname@, strings_view(usernames@), reply_to, user_sender@),
    {
        let ghost pre = self@;
        let ghost names = strings_view(usernames@);
        let rk = to_lower(roomname);
        if !rooms_contains(&self.rooms, rk.as_str()) {
            let msg = crate::server_messages::no_such_room_invite_msg(roomname);
            let mut out: Vec<Outgoing> = Vec::new();
            out.push(Outgoing { to: reply_to, msg });
            return out;
        }
        assert(pre.rooms.contains_key(rk@));
        let mut i: usize = 0;
        let mut ids: Vec<usize> = Vec::new();
        while i < usernames.len()
            invariant
                i <= usernames@.len(),
                self@ == pre,
                self.wf(),
                pre.rooms.contains_key(rk@),
                rk@ == lowercase(roomname@),
                names == strings_view(usernames@),
                forall|j: int| 0 <= j < i ==> pre.users.contains_key(#[trigger] lowercase(names[j])),
                ids@ == sessions_of(names.take(i as int), pre.users),
            decreases usernames@.len() - i,
        {
            let key = to_lower(usernames[i].as_str());
            match names_get(&self.users, key.as_str()) {
                Some(id) => {
                    ids.push(id);
                    assert(ids@ =~= sessions_of(names.take(i + 1 as int), pre.users));
                },
                None => {
                    let msg = crate::server_messages::no_such_user_invite_msg(usernames[i].as_str());
                    let mut out: Vec<Outgoing> = Vec::new();
                    out.push(Outgoing { to: reply_to, msg });
                    assert(first_unknown_at(names, pre.users, i as int));
                    return out;
                },
            }
            i = i + 1;
        }
        assert(names.take(names.len() as int) == names);
        assert(!exists|j: int| 0 <= j < names.len() && !pre.users.contains_key(#[trigger] lowercase(names[j])));
        assert forall|j: int| 0 <= j < ids@.len() implies #[trigger] ids@[j] < self.sessions@.len() by {
            assert(pre.users.contains_key(lowercase(names[j])));
        }
        let mut room = match self.take_room(rk.as_str()) {
            Some(room) => room,
            None => { return Vec::new(); },
        };
        assert(pre.rooms.contains_key(rk@));
        assert(room@ == pre.rooms[rk@]);
        assert(pre.room_wf(rk@));
        let out = room.process_invitation(&mut self.sessions, ids, user_sender);
        self.put_room(rk, room);
        proof {
            let r0 = pre.rooms[rk@];
            if r0.users.contains_key(lowercase(user_sender@)) {
                let invited = fresh_invitees(sessions_of(names, pre.users), r0, pre.sessions);
                lemma_filter_bounded(
                    sessions_of(names, pre.users),
                    |id: usize|
                        !r0.guests.contains_key(lowercase(pre.sessions[id as int].name))
                            && !r0.users.contains_key(lowercase(pre.sessions[id as int].name)),
                    pre.sessions.len(),
                );
                lemma_with_invitations_keeps(pre.sessions, invited, rk@);
                lemma_with_guests_wf(r0.guests, invited, pre.sessions);
                assert(self@.rooms =~= pre.rooms.insert(rk@, RoomView { guests: with_guests(r0.guests, invited, pre.sessions), ..r0 }));
                assert forall|k: Seq<char>| #[trigger] self@.rooms.contains_key(k) implies self@.room_wf(k) by {
                    if k != rk@ {
                        assert(pre.room_wf(k));
                    }
                }
                assert forall|r2: Seq<char>, k: Seq<char>| self@.rooms.contains_key(r2) && #[trigger] self@.rooms[r2].guests.contains_key(k)
                    implies self@.sessions[self@.rooms[r2].guests[k] as int].invitations_room_keys.contains(r2) by {
                    let g = self@.rooms[r2].guests;
                    let i = g[k];
                    assert(self@.room_wf(r2));
                    assert(i < pre.sessions.len());
                    if r2 == rk@ {
                        lemma_with_guests_from(r0.guests, invited, pre.sessions, k);
                        if r0.guests.contains_key(k) && g[k] == r0.guests[k] {
                            assert(pre.sessions[i as int].invitations_room_keys.contains(rk@));
                        }
                        crate::room::lemma_with_invitations_adds(pre.sessions, invited, rk@, i, r2);
                    } else {
                        assert(pre.rooms[r2].guests.contains_key(k));
                        assert(pre.sessions[i as int].invitations_room_keys.contains(r2));
                        crate::room::lemma_with_invitations_adds(pre.sessions, invited, rk@, i, r2);
                    }
                }
            } else {
                assert(self@.rooms =~= pre.rooms);
            }
        }
        out
    }

    /// Disconnects `user_sender`: see `disconnect_effect`.
    pub fn process_disconect_msg(&mut self, user_sender: &str) -> (out: Vec<Outgoing>)
        requires
            old(self).wf(),
        ensures
            final(self).wf(),
            final(self).port == old(self).port,
            disconnect_effect(old(self)@, final(self)@, out@, user_sender@),
    {
        let ghost pre = self@;
        let key = to_lower(user_sender);
        let (name, id) = match names_remove(&mut self.users, key.as_str()) {
            Some(entry) => entry,
            None => {
                assert(self@.users =~= pre.users);
                return Vec::new();
            },
        };
        let ghost u = pre.sessions[id as int];
        let ghost member_key = lowercase(name@);
        let ghost joined = u.rooms_keys;
        let ghost invited = u.invitations_room_keys;
        assert(self@.sessions[id as int] == self.sessions@[id as int]@);
        let mut out: Vec<Outgoing> = Vec::new();
        let ghost mut segs: Seq<Seq<Outgoing>> = Seq::empty();
        let n_joined = self.sessions[id].rooms_keys.len();
        let mut i: usize = 0;
        assert(self@.rooms =~= rooms_without(pre.rooms, member_key, joined.take(0), Seq::empty()));
        while i < n_joined
            invariant
                i <= n_joined,
                n_joined == joined.len(),
                self.port == old(self).port,
                id < self.sessions@.len(),
                self@.users == pre.users.remove(key@),
                self@.sessions == pre.sessions,
                name@ == key@,
                member_key == lowercase(name@),
                joined == u.rooms_keys,
                u == pre.sessions[id as int],
                joined == crate::user::keys_view(self.sessions@[id as int].rooms_keys@),
                pre.wf(),
                room_table(self.rooms).dom().finite(),
                self@.rooms == rooms_without(pre.rooms, member_key, joined.take(i as int), Seq::empty()),
                forall|rk: Seq<char>| #[trigger] self@.rooms.contains_key(rk) ==> self@.room_wf(rk),
                segs.len() == i,
                out@ == concat(segs),
                forall|j: int| 0 <= j < i ==> #[trigger] leave_notice(segs[j], pre.rooms, member_key, key@, joined, j, pre.sessions),
            decreases n_joined - i,
        {
            let rk = copy_string(&self.sessions[id].rooms_keys[i]);
            assert(rk@ == joined[i as int]);
            let ghost before = self@.rooms;
            let ghost before_view = self@;
            let ghost prev_segs = segs;
            assert(joined.take(i + 1 as int) == joined.take(i as int).push(rk@));
            proof {
                lemma_rooms_without_leave(pre.rooms, member_key, joined.take(i as int), Seq::empty(), rk@);
                assert(before.contains_key(rk@) == pre.rooms.contains_key(rk@));
            }
            match self.take_room(rk.as_str()) {
                Some(mut room) => {
                    assert(before.contains_key(rk@));
                    assert(room@ == before[rk@]);
                    assert(before_view.room_wf(rk@));
                    let (_left, mut seg) = room.remove_disconected_user(&self.sessions, name.as_str());
                    let ghost seg_view = seg@;
                    self.put_room(copy_string(&rk), room);
                    out.append(&mut seg);
                    proof {
                        segs = prev_segs.push(seg_view);
                        assert(segs.drop_last() == prev_segs);
                        assert(pre.rooms.contains_key(rk@));
                        let was_member = before[rk@].users.contains_key(member_key);
                        assert(was_member == (pre.rooms[rk@].users.contains_key(member_key) && !joined.take(i as int).contains(rk@)));
                        if joined.take(i as int).contains(rk@) {
                            assert(before[rk@].users == pre.rooms[rk@].users.remove(member_key));
                            assert(before[rk@].users.remove(member_key) =~= before[rk@].users);
                        }
                        assert(leave_notice(segs[i as int], pre.rooms, member_key, key@, joined, i as int, pre.sessions));
                        assert(self@.rooms =~= rooms_without(pre.rooms, member_key, joined.take(i + 1 as int), Seq::empty()));
                    }
                },
                None => {
                    proof {
                        segs = prev_segs.push(Seq::empty());
                        assert(segs.drop_last() == prev_segs);
                        assert(concat(segs) =~= concat(prev_segs));
                        assert(!pre.rooms.contains_key(rk@));
                        assert(leave_notice(segs[i as int], pre.rooms, member_key, key@, joined, i as int, pre.sessions));
                        assert(self@.rooms =~= rooms_without(pre.rooms, member_key, joined.take(i + 1 as int), Seq::empty()));
                    }
                },
            }
            proof {
                assert forall|j: int| 0 <= j < i + 1 implies #[trigger] leave_notice(segs[j], pre.rooms, member_key, key@, joined, j, pre.sessions) by {
                    if j < i {
                        assert(segs[j] == prev_segs[j]);
                    }
                }
                assert forall|k: Seq<char>| #[trigger] self@.rooms.contains_key(k) implies self@.room_wf(k) by {
                    if k != rk@ {
                        assert(before.contains_key(k));
                    }
                }
            }
            i = i + 1;
        }
        assert(joined.take(joined.len() as int) == joined);
        let notices_len = out.len();
        assert(leave_notices(out@, pre.rooms, member_key, key@, joined, pre.sessions));
        let n_invited = self.sessions[id].invitations_room_keys.len();
        let mut i: usize = 0;
        assert(rooms_without(pre.rooms, member_key, joined, invited.take(0)) =~= rooms_without(pre.rooms, member_key, joined, Seq::empty()));
        while i < n_invited
            invariant
                i <= n_invited,
                n_invited == invited.len(),
                self.port == old(self).port,
                id < self.sessions@.len(),
                self@.users == pre.users.remove(key@),
                self@.sessions == pre.sessions,
                name@ == key@,
                member_key == lowercase(name@),
                invited == u.invitations_room_keys,
                invited == crate::user::keys_view(self.sessions@[id as int].invitations_room_keys@),
                pre.wf(),
                room_table(self.rooms).dom().finite(),
                self@.rooms == rooms_without(pre.rooms, member_key, joined, invited.take(i as int)),
                forall|rk: Seq<char>| #[trigger] self@.rooms.contains_key(rk) ==> self@.room_wf(rk),
            decreases n_invited - i,
        {
            let rk = copy_string(&self.sessions[id].invitations_room_keys[i]);
            assert(rk@ == invited[i as int]);
            let ghost before = self@.rooms;
            assert(invited.take(i + 1 as int) == invited.take(i as int).push(rk@));
            proof {
                lemma_rooms_without_uninvite(pre.rooms, member_key, joined, invited.take(i as int), rk@);
                assert(before.contains_key(rk@) == pre.rooms.contains_key(rk@));
            }
            match self.take_room(rk.as_str()) {
                Some(mut room) => {
                    assert(before.contains_key(rk@));
                    assert(room@ == before[rk@]);
                    room.remove_invitation(name.as_str());
                    self.put_room(copy_string(&rk), room);
                    proof {
                        assert(self@.rooms =~= rooms_without(pre.rooms, member_key, joined, invited.take(i + 1 as int)));
                        assert forall|k: Seq<char>| #[trigger] self@.rooms.contains_key(k) implies self@.room_wf(k) by {
                            assert(before.contains_key(k));
                        }
                    }
                },
                None => {
                    proof {
                        assert(self@.rooms =~= rooms_without(pre.rooms, member_key, joined, invited.take(i + 1 as int)));
                    }
                },
            }
            i = i + 1;
        }
        assert(invited.take(invited.len() as int) == invited);
        let msg = crate::server_messages::generate_disconected_msg(user_sender);
        let mut rest = broadcast_table(&self.users, &self.sessions, None, &msg);
        assert(except_set(None) =~= Set::<Seq<char>>::empty());
        let ghost notices = out@;
        let ghost last = rest@;
        out.append(&mut rest);
        proof {
            assert(out@.take(notices_len as int) =~= notices);
            assert(out@.skip(notices_len as int) =~= last);
            assert(leave_notices(out@.take(notices_len as int), pre.rooms, member_key, key@, joined, pre.sessions));
        }
        out
    }

    /// Carries out what `letter` asks: see `letter_effect`.
    pub fn procces_letter_aux(&mut self, letter: Letter) -> (d: Delivery)
        requires
            old(self).wf(),
        ensures
            final(self).wf(),
            final(self).port == old(self).port,
            letter_effect(old(self)@, final(self)@, d, letter.usr_sender@, letter.msg@, letter.reply_to),
    {
        let sender = letter.usr_sender;
        let reply_to = letter.reply_to;
        let sends = match letter.msg {
            TypeReciveMessages::PublicText { text } => {
                return self.procces_public_text_msg(sender.as_str(), text.as_str());
            },
            TypeReciveMessages::Status { status } => self.process_status_msg(sender.as_str(), status),
            TypeReciveMessages::Users => self.process_users_msg(reply_to),
            TypeReciveMessages::Text { username, text } => self.process_private_text_msg(
                username.as_str(),
                text.as_str(),
                sender.as_str(),
                reply_to,
            ),
            TypeReciveMessages::Identify { username } => self.process_identify_msg(username.as_str()),
            TypeReciveMessages::Disconect => self.process_disconect_msg(sender.as_str()),
            TypeReciveMessages::Invite { roomname, usernames } => self.process_invite_msg(
                roomname.as_str(),
                usernames,
                reply_to,
                sender.as_str(),
            ),
            TypeReciveMessages::JoinRoom { roomname } => self.process_join_room_msg(roomname.as_str(), reply_to, sender.as_str()),
            TypeReciveMessages::NewRoom { roomname } => self.process_new_room_msg(roomname.as_str(), sender.as_str(), reply_to),
            TypeReciveMessages::LeaveRoom { roomname } => self.process_leave_room_msg(roomname.as_str(), sender.as_str(), reply_to),
            TypeReciveMessages::RoomText { roomname, text } => self.process_room_text_msg(
                roomname.as_str(),
                text.as_str(),
                sender.as_str(),
                reply_to,
            ),
            TypeReciveMessages::RoomUsers { roomname } => self.process_room_users_msg(roomname.as_str(), sender.as_str(), reply_to),
        };
        Delivery { sends, halt_on_failure: false }
    }
}

} // verus!
