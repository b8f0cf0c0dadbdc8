//! A chat room: its members and the users invited to it, each keyed by the
//! lower case of the user's name and pointing at the user's session.
use dashmap::DashMap;
use vstd::prelude::*;

use crate::dispatch::{
    broadcast, broadcast_table, except_set, indexes_into, lists_states, single, state_listing,
    Outgoing,
};
use crate::protocol::{states_view, Operations, Resultado, SendView, State};
use crate::server_messages::{
    generate_invitation_msg, generate_new_room_user_msg, generate_not_invitated_msg,
    generate_not_joined_leave_room_response, generate_not_joined_response,
    generate_room_text_from, generate_room_users_msg, generate_user_leaved_room, line,
    room_users_not_joined, success_join_room_response,
};
use crate::protocol::send_json;
use crate::table::{
    name_table, names_contains, names_get, names_insert, names_len, names_new, names_remove,
};
use crate::text::{copy_bytes, copy_string, lowercase, to_lower};
use crate::user::{keys_view, sessions_view, User, UserView};

verus! {

pub struct Room {
    pub name: String,
    pub users: DashMap<String, usize>,
    pub guests: DashMap<String, usize>,
}

pub ghost struct RoomView {
    pub name: Seq<char>,
    pub users: Map<Seq<char>, usize>,
    pub guests: Map<Seq<char>, usize>,
}

impl View for Room {
    type V = RoomView;

    open spec fn view(&self) -> RoomView {
        RoomView { name: self.name@, users: name_table(self.users), guests: name_table(self.guests) }
    }
}

impl RoomView {
    /// Both tables are finite and point into a list of `n` sessions.
    pub open spec fn wf(self, n: nat) -> bool {
        &&& self.users.dom().finite()
        &&& self.guests.dom().finite()
        &&& indexes_into(self.users, n)
        &&& indexes_into(self.guests, n)
    }
}

/// The sessions among `ids` that are neither members of `room` nor invited
/// to it, in order; a session listed twice stays twice.
pub open spec fn fresh_invitees(ids: Seq<usize>, room: RoomView, sessions: Seq<UserView>) -> Seq<usize> {
    ids.filter(
        |id: usize|
            !room.guests.contains_key(lowercase(sessions[id as int].name)) && !room.users.contains_key(
                lowercase(sessions[id as int].name),
            ),
    )
}

/// `guests` with each of `invited` added under the lower case of its name.
pub open spec fn with_guests(guests: Map<Seq<char>, usize>, invited: Seq<usize>, sessions: Seq<UserView>) -> Map<
    Seq<char>,
    usize,
>
    decreases invited.len(),
{
    if invited.len() == 0 {
        guests
    } else {
        with_guests(guests, invited.drop_last(), sessions).insert(
            lowercase(sessions[invited.last() as int].name),
            invited.last(),
        )
    }
}

/// `sessions` where each of `invited` has `key` appended to its invitations,
/// once per time that it is listed.
pub open spec fn with_invitations(sessions: Seq<UserView>, invited: Seq<usize>, key: Seq<char>) -> Seq<UserView>
    decreases invited.len(),
{
    if invited.len() == 0 {
        sessions
    } else {
        let s = with_invitations(sessions, invited.drop_last(), key);
        let id = invited.last() as int;
        s.update(id, UserView { invitations_room_keys: s[id].invitations_room_keys.push(key), ..s[id] })
    }
}

/// Adding invitations changes nothing but the invitation lists.
pub proof fn lemma_with_invitations_keeps(sessions: Seq<UserView>, invited: Seq<usize>, key: Seq<char>)
    requires
        forall|i: int| 0 <= i < invited.len() ==> #[trigger] invited[i] < sessions.len(),
    ensures
        with_invitations(sessions, invited, key).len() == sessions.len(),
        forall|x: int| 0 <= x < sessions.len() ==> {
            let a = #[trigger] with_invitations(sessions, invited, key)[x];
            &&& a.name == sessions[x].name
            &&& a.tx == sessions[x].tx
            &&& a.state == sessions[x].state
            &&& a.rooms_keys == sessions[x].rooms_keys
        },
    decreases invited.len(),
{
    if invited.len() > 0 {
        lemma_with_invitations_keeps(sessions, invited.drop_last(), key);
    }
}

/// An entry of the grown guest table is an old entry, or one of the
/// sessions added.
pub proof fn lemma_with_guests_from(guests: Map<Seq<char>, usize>, invited: Seq<usize>, sessions: Seq<UserView>, k: Seq<char>)
    requires
        with_guests(guests, invited, sessions).contains_key(k),
    ensures
        (guests.contains_key(k) && with_guests(guests, invited, sessions)[k] == guests[k]) || invited.contains(
            with_guests(guests, invited, sessions)[k],
        ),
    decreases invited.len(),
{
    if invited.len() > 0 {
        let last = invited.last();
        if k == lowercase(sessions[last as int].name) {
            assert(invited[invited.len() - 1] == last);
        } else {
            lemma_with_guests_from(guests, invited.drop_last(), sessions, k);
            if !(guests.contains_key(k) && with_guests(guests, invited, sessions)[k] == guests[k]) {
                let v = with_guests(guests, invited, sessions)[k];
                let p = choose|p: int| 0 <= p < invited.drop_last().len() && invited.drop_last()[p] == v;
                assert(invited[p] == v);
            }
        }
    }
}

/// Adding invitations only adds to the invitation lists, and adds `key` to
/// that of each invited session.
pub proof fn lemma_with_invitations_adds(sessions: Seq<UserView>, invited: Seq<usize>, key: Seq<char>, x: usize, r: Seq<char>)
    requires
        forall|i: int| 0 <= i < invited.len() ==> #[trigger] invited[i] < sessions.len(),
        x < sessions.len(),
        sessions[x as int].invitations_room_keys.contains(r) || (invited.contains(x) && r == key),
    ensures
        with_invitations(sessions, invited, key)[x as int].invitations_room_keys.contains(r),
    decreases invited.len(),
{
    if invited.len() > 0 {
        let before = with_invitations(sessions, invited.drop_last(), key);
        lemma_with_invitations_keeps(sessions, invited.drop_last(), key);
        if invited.last() == x && r == key {
            assert(with_invitations(sessions, invited, key)[x as int].invitations_room_keys.last() == key);
        } else {
            if !sessions[x as int].invitations_room_keys.contains(r) {
                let p = choose|p: int| 0 <= p < invited.len() && invited[p] == x;
                assert(p < invited.len() - 1);
                assert(invited.drop_last()[p] == x);
            }
            lemma_with_invitations_adds(sessions, invited.drop_last(), key, x, r);
            if invited.last() == x {
                let q = choose|q: int| 0 <= q < before[x as int].invitations_room_keys.len() && before[x as int].invitations_room_keys[q] == r;
                assert(with_invitations(sessions, invited, key)[x as int].invitations_room_keys[q] == r);
            }
        }
    }
}

/// Taking out the last occurrence of `key` keeps every other key.
pub proof fn lemma_without_last_keeps(keys: Seq<Seq<char>>, key: Seq<char>, x: Seq<char>)
    requires
        keys.contains(x),
        x != key,
    ensures
        without_last(keys, key).contains(x),
    decreases keys.len(),
{
    if keys.last() == x {
        assert(without_last(keys, key) == without_last(keys.drop_last(), key).push(x));
        assert(without_last(keys, key).last() == x);
    } else {
        let p = choose|p: int| 0 <= p < keys.len() && keys[p] == x;
        assert(keys.drop_last()[p] == x);
        lemma_without_last_keeps(keys.drop_last(), key, x);
        if keys.last() != key {
            let w = without_last(keys.drop_last(), key);
            let q = choose|q: int| 0 <= q < w.len() && w[q] == x;
            assert(without_last(keys, key)[q] == x);
        }
    }
}

/// `keys` without its last occurrence of `key`, if any.
pub open spec fn without_last(keys: Seq<Seq<char>>, key: Seq<char>) -> Seq<Seq<char>>
    decreases keys.len(),
{
    if keys.len() == 0 {
        keys
    } else if keys.last() == key {
        keys.drop_last()
    } else {
        without_last(keys.drop_last(), key).push(keys.last())
    }
}

proof fn lemma_without_last_at(keys: Seq<Seq<char>>, key: Seq<char>, p: int)
    requires
        0 <= p < keys.len(),
        keys[p] == key,
        forall|j: int| p < j < keys.len() ==> keys[j] != key,
    ensures
        without_last(keys, key) == keys.remove(p),
    decreases keys.len(),
{
    if p < keys.len() - 1 {
        lemma_without_last_at(keys.drop_last(), key, p);
        assert(keys.drop_last().remove(p).push(keys.last()) =~= keys.remove(p));
    } else {
        assert(keys.drop_last() =~= keys.remove(p));
    }
}

proof fn lemma_without_last_absent(keys: Seq<Seq<char>>, key: Seq<char>)
    requires
        forall|j: int| 0 <= j < keys.len() ==> keys[j] != key,
    ensures
        without_last(keys, key) == keys,
    decreases keys.len(),
{
    if keys.len() > 0 {
        lemma_without_last_absent(keys.drop_last(), key);
        assert(keys.drop_last().push(keys.last()) =~= keys);
    }
}

/// Removes the last occurrence of `key` from `keys`, if any.
pub fn remove_last_occurrence(keys: &mut Vec<String>, key: &String)
    ensures
        keys_view(final(keys)@) == without_last(keys_view(old(keys)@), key@),
{
    let ghost kv = keys_view(keys@);
    let mut i: usize = keys.len();
    while i > 0
        invariant
            i <= keys@.len(),
            kv == keys_view(keys@),
            kv == keys_view(old(keys)@),
            forall|j: int| i <= j < kv.len() ==> kv[j] != key@,
        decreases i,
    {
        if keys[i - 1].eq(key) {
            let ghost p = i - 1;
            keys.remove(i - 1);
            proof {
                lemma_without_last_at(kv, key@, p as int);
                assert(keys_view(keys@) =~= kv.remove(p as int));
            }
            return;
        }
        i = i - 1;
    }
    proof {
        lemma_without_last_absent(kv, key@);
    }
}

impl Room {
    /// A room named `name` whose only member is the session `first_usr`.
    pub fn new(name: String, first_usr: usize, sessions: &Vec<User>) -> (r: Room)
        requires
            first_usr < sessions@.len(),
        ensures
            r@ == (RoomView {
                name: name@,
                users: Map::empty().insert(lowercase(sessions@[first_usr as int].name@), first_usr),
                guests: Map::empty(),
            }),
            r@.wf(sessions@.len()),
    {
        let mut users = names_new();
        let guests = names_new();
        let key = to_lower(sessions[first_usr].name.as_str());
        names_insert(&mut users, key, first_usr);
        let r = Room { name, users, guests };
        assert(r@.users =~= Map::empty().insert(lowercase(sessions@[first_usr as int].name@), first_usr));
        assert(r@.guests =~= Map::empty());
        r
    }

    /// Relays a room text from `username` to the other members, or tells the
    /// sender that it is not a member.
    pub fn send_msg(&self, sessions: &Vec<User>, username: &str, text: &str, tx_user_sender: u64) -> (out: Vec<Outgoing>)
        requires
            self@.wf(sessions@.len()),
        ensures
            !self@.users.contains_key(lowercase(username@)) ==> single(
                out@,
                tx_user_sender,
                line(SendView::Response { operation: Operations::RoomText, result: Resultado::NotJoined, extra: Some(self@.name) }),
            ),
            self@.users.contains_key(lowercase(username@)) ==> broadcast(
                out@,
                self@.users,
                except_set(Some(lowercase(username@))),
                sessions_view(sessions@),
                line(SendView::RoomTextFrom { roomname: self@.name, username: username@, text: text@ }),
            ),
    {
        let key = to_lower(username);
        if !names_contains(&self.users, key.as_str()) {
            let msg = generate_not_joined_response(self.name.as_str());
            let mut out: Vec<Outgoing> = Vec::new();
            out.push(Outgoing { to: tx_user_sender, msg });
            return out;
        }
        let message = generate_room_text_from(username, self.name.as_str(), text);
        broadcast_table(&self.users, sessions, Some(&key), &message)
    }

    /// Sends the members with their states to `tx_user_to_send`; a sender
    /// that is not a member is first told so, and still gets the list.
    pub fn send_users(&self, sessions: &Vec<User>, tx_user_to_send: u64, user_who_asks: &str) -> (out: Vec<Outgoing>)
        requires
            self@.wf(sessions@.len()),
        ensures
            out@.len() == (if self@.users.contains_key(lowercase(user_who_asks@)) { 1int } else { 2int }),
            forall|i: int| 0 <= i < out@.len() ==> #[trigger] out@[i].to == tx_user_to_send,
            !self@.users.contains_key(lowercase(user_who_asks@)) ==> out@[0].msg@ == send_json(
                SendView::Response { operation: Operations::RoomUsers, result: Resultado::NotJoined, extra: Some(self@.name) },
            ).push(110u8),
            exists|list: Seq<(Seq<char>, State)>| #[trigger] lists_states(list, self@.users, sessions_view(sessions@))
                && out@.last().msg@ == line(SendView::RoomUserList { roomname: self@.name, users: list }),
    {
        let mut out: Vec<Outgoing> = Vec::new();
        let key = to_lower(user_who_asks);
        if !names_contains(&self.users, key.as_str()) {
            let msg = room_users_not_joined(self.name.as_str());
            out.push(Outgoing { to: tx_user_to_send, msg });
        }
        let list = state_listing(&self.users, sessions);
        let ghost lv = states_view(list@);
        let msg = generate_room_users_msg(self.name.as_str(), list);
        out.push(Outgoing { to: tx_user_to_send, msg });
        assert(lists_states(lv, self@.users, sessions_view(sessions@)));
        out
    }

    /// Takes `user_to_remove` out of the members and tells the others; a
    /// sender that is not a member is told so. Returns the number of
    /// members left.
    pub fn remove_user(&mut self, sessions: &Vec<User>, tx_user_to_remove: u64, user_to_remove: &str) -> (r: (usize, Vec<Outgoing>))
        requires
            old(self)@.wf(sessions@.len()),
        ensures
            final(self)@.wf(sessions@.len()),
            final(self)@ == (RoomView { users: old(self)@.users.remove(lowercase(user_to_remove@)), ..old(self)@ }),
            r.0 == final(self)@.users.len(),
            old(self)@.users.contains_key(lowercase(user_to_remove@)) ==> broadcast(
                r.1@,
                final(self)@.users,
                Set::empty(),
                sessions_view(sessions@),
                line(SendView::LeftRoom { roomname: old(self)@.name, username: user_to_remove@ }),
            ),
            !old(self)@.users.contains_key(lowercase(user_to_remove@)) ==> single(
                r.1@,
                tx_user_to_remove,
                line(SendView::Response { operation: Operations::LeaveRoom, result: Resultado::NotJoined, extra: Some(old(self)@.name) }),
            ),
    {
        let key = to_lower(user_to_remove);
        if names_contains(&self.users, key.as_str()) {
            names_remove(&mut self.users, key.as_str());
            let msg = generate_user_leaved_room(user_to_remove, self.name.as_str());
            let out = broadcast_table(&self.users, sessions, None, &msg);
            assert(except_set(None) =~= Set::<Seq<char>>::empty());
            let n = names_len(&self.users);
            (n, out)
        } else {
            let msg = generate_not_joined_leave_room_response(self.name.as_str());
            let mut out: Vec<Outgoing> = Vec::new();
            out.push(Outgoing { to: tx_user_to_remove, msg });
            assert(self@.users =~= old(self)@.users.remove(key@));
            let n = names_len(&self.users);
            (n, out)
        }
    }

    /// Withdraws the invitation of `username`, if any.
    pub fn remove_invitation(&mut self, username: &str)
        ensures
            final(self)@ == (RoomView { guests: old(self)@.guests.remove(lowercase(username@)), ..old(self)@ }),
    {
        let key = to_lower(username);
        names_remove(&mut self.guests, key.as_str());
    }

    /// Takes a disconnected user out of the members and tells the others.
    /// Returns the number of members left.
    pub fn remove_disconected_user(&mut self, sessions: &Vec<User>, user_to_remove: &str) -> (r: (usize, Vec<Outgoing>))
        requires
            old(self)@.wf(sessions@.len()),
        ensures
            final(self)@.wf(sessions@.len()),
            final(self)@ == (RoomView { users: old(self)@.users.remove(lowercase(user_to_remove@)), ..old(self)@ }),
            r.0 == final(self)@.users.len(),
            old(self)@.users.contains_key(lowercase(user_to_remove@)) ==> broadcast(
                r.1@,
                final(self)@.users,
                Set::empty(),
                sessions_view(sessions@),
                line(SendView::LeftRoom { roomname: old(self)@.name, username: user_to_remove@ }),
            ),
            !old(self)@.users.contains_key(lowercase(user_to_remove@)) ==> r.1@.len() == 0,
    {
        let key = to_lower(user_to_remove);
        if names_contains(&self.users, key.as_str()) {
            names_remove(&mut self.users, key.as_str());
            let msg = generate_user_leaved_room(user_to_remove, self.name.as_str());
            let out = broadcast_table(&self.users, sessions, None, &msg);
            assert(except_set(None) =~= Set::<Seq<char>>::empty());
            let n = names_len(&self.users);
            (n, out)
        } else {
            assert(self@.users =~= old(self)@.users.remove(key@));
            let n = names_len(&self.users);
            (n, Vec::new())
        }
    }

    /// Invites the sessions `users` to the room on behalf of `usr_sender`.
    /// Sessions that are already members or already invited are left as
    /// they are; if the sender is not a member, nothing happens.
    #[verifier::spinoff_prover]
    #[verifier::rlimit(30)]
    pub fn process_invitation(&mut self, sessions: &mut Vec<User>, users: Vec<usize>, usr_sender: &str) -> (out: Vec<Outgoing>)
        requires
            old(self)@.wf(old(sessions)@.len()),
            forall|i: int| 0 <= i < users@.len() ==> #[trigger] users@[i] < old(sessions)@.len(),
        ensures
            final(sessions)@.len() == old(sessions)@.len(),
            final(self)@.wf(final(sessions)@.len()),
            !old(self)@.users.contains_key(lowercase(usr_sender@)) ==> {
                &&& final(self)@ == old(self)@
                &&& final(sessions)@ == old(sessions)@
                &&& out@.len() == 0
            },
            old(self)@.users.contains_key(lowercase(usr_sender@)) ==> {
                let sv = sessions_view(old(sessions)@);
                let invited = fresh_invitees(users@, old(self)@, sv);
                &&& final(self)@ == (RoomView { guests: with_guests(old(self)@.guests, invited, sv), ..old(self)@ })
                &&& sessions_view(final(sessions)@) == with_invitations(sv, invited, lowercase(old(self)@.name))
                &&& out@.len() == invited.len()
                &&& forall|i: int| 0 <= i < out@.len() ==> {
                    &&& #[trigger] out@[i].to == sv[invited[i] as int].tx
                    &&& out@[i].msg@ == line(SendView::Invitation { username: usr_sender@, roomname: old(self)@.name })
                }
            },
    {
        let ghost sv = sessions_view(sessions@);
        let ghost old_room = self@;
        let sender_key = to_lower(usr_sender);
        if !names_contains(&self.users, sender_key.as_str()) {
            return Vec::new();
        }
        let ghost pred = |id: usize|
            !old_room.guests.contains_key(lowercase(sv[id as int].name)) && !old_room.users.contains_key(
                lowercase(sv[id as int].name),
            );
        let mut invite_users: Vec<usize> = Vec::new();
        let mut i: usize = 0;
        while i < users.len()
            invariant
                i <= users@.len(),
                self@ == old_room,
                sv == sessions_view(sessions@),
                forall|j: int| 0 <= j < users@.len() ==> #[trigger] users@[j] < sessions@.len(),
                pred == (|id: usize|
                    !old_room.guests.contains_key(lowercase(sv[id as int].name)) && !old_room.users.contains_key(
                        lowercase(sv[id as int].name),
                    )),
                invite_users@ == users@.take(i as int).filter(pred),
                forall|x: int| 0 <= x < invite_users@.len() ==> #[trigger] invite_users@[x] < sessions@.len(),
            decreases users@.len() - i,
        {
            let id = users[i];
            let key = to_lower(sessions[id].name.as_str());
            assert(sv[id as int] == sessions@[id as int]@);
            let keep = !names_contains(&self.guests, key.as_str()) && !names_contains(&self.users, key.as_str());
            proof {
                reveal_with_fuel(Seq::filter, 1);
                assert(users@.take(i + 1 as int).drop_last() == users@.take(i as int));
            }
            if keep {
                invite_users.push(id);
            }
            i = i + 1;
        }
        assert(users@.take(users@.len() as int) == users@);
        let ghost invited = invite_users@;
        assert(invited == fresh_invitees(users@, old_room, sv));
        let room_key = to_lower(self.name.as_str());
        let msg = generate_invitation_msg(usr_sender, self.name.as_str());
        let mut out: Vec<Outgoing> = Vec::new();
        let mut j: usize = 0;
        while j < invite_users.len()
            invariant
                j <= invited.len(),
                invite_users@ == invited,
                forall|x: int| 0 <= x < invited.len() ==> #[trigger] invited[x] < sv.len(),
                sv.len() == sessions@.len(),
                room_key@ == lowercase(old_room.name),
                self@ == (RoomView { guests: with_guests(old_room.guests, invited.take(j as int), sv), ..old_room }),
                sessions_view(sessions@) == with_invitations(sv, invited.take(j as int), room_key@),
                self@.wf(sv.len()),
                out@.len() == j,
                forall|x: int| 0 <= x < j ==> {
                    &&& #[trigger] out@[x].to == sv[invited[x] as int].tx
                    &&& out@[x].msg@ == msg@
                },
            decreases invited.len() - j,
        {
            let id = invite_users[j];
            proof {
                lemma_with_invitations_keeps(sv, invited.take(j as int), room_key@);
                assert(invited.take(j + 1 as int).drop_last() == invited.take(j as int));
                assert(invited.take(j + 1 as int).last() == id);
            }
            assert(sessions@[id as int]@ == with_invitations(sv, invited.take(j as int), room_key@)[id as int]);
            let key = to_lower(sessions[id].name.as_str());
            let to = sessions[id].tx;
            let ghost before = sessions@;
            let pushed = copy_string(&room_key);
            sessions[id].invitations_room_keys.push(pushed);
            names_insert(&mut self.guests, key, id);
            out.push(Outgoing { to, msg: copy_bytes(&msg) });
            j = j + 1;
            proof {
                let prev = with_invitations(sv, invited.take(j - 1 as int), room_key@);
                assert(sessions_view(before) == prev);
                assert(with_invitations(sv, invited.take(j as int), room_key@) == prev.update(
                    id as int,
                    UserView { invitations_room_keys: prev[id as int].invitations_room_keys.push(room_key@), ..prev[id as int] },
                ));
                assert(sessions@[id as int].invitations_room_keys@ == before[id as int].invitations_room_keys@.push(pushed));
                assert(keys_view(sessions@[id as int].invitations_room_keys@) =~= keys_view(before[id as int].invitations_room_keys@).push(room_key@));
                assert(sessions_view(sessions@) =~= with_invitations(sv, invited.take(j as int), room_key@));
            }
        }
        assert(invited.take(invited.len() as int) == invited);
        assert(self@ == (RoomView { guests: with_guests(old_room.guests, invited, sv), ..old_room }));
        assert(sessions_view(sessions@) == with_invitations(sv, invited, lowercase(old_room.name)));
        assert(forall|x: int| 0 <= x < out@.len() ==> #[trigger] out@[x].to == sv[invited[x] as int].tx && out@[x].msg@ == msg@);
        out
    }

    /// Lets `usr_who_accepted` join the room if it was invited: it stops
    /// being a guest, becomes a member, the members are told, and so is the
    /// new member. Without an invitation the sender is told that it was not
    /// invited.
    pub fn accept_invitation(&mut self, sessions: &mut Vec<User>, usr_who_accepted: &str, tx_user_who_accepted: u64) -> (out: Vec<Outgoing>)
        requires
            old(self)@.wf(old(sessions)@.len()),
        ensures
            final(sessions)@.len() == old(sessions)@.len(),
            final(self)@.wf(final(sessions)@.len()),
            !old(self)@.guests.contains_key(lowercase(usr_who_accepted@)) ==> {
                &&& final(self)@ == old(self)@
                &&& final(sessions)@ == old(sessions)@
                &&& single(
                    out@,
                    tx_user_who_accepted,
                    line(SendView::Response { operation: Operations::JoinRoom, result: Resultado::NotInvited, extra: Some(old(self)@.name) }),
                )
            },
            old(self)@.guests.contains_key(lowercase(usr_who_accepted@)) ==> {
                let key = lowercase(usr_who_accepted@);
                let id = old(self)@.guests[key];
                let sv = sessions_view(old(sessions)@);
                let room_key = lowercase(old(self)@.name);
                &&& final(self)@ == (RoomView {
                    name: old(self)@.name,
                    users: old(self)@.users.insert(key, id),
                    guests: old(self)@.guests.remove(key),
                })
                &&& sessions_view(final(sessions)@) == sv.update(id as int, UserView {
                    invitations_room_keys: without_last(sv[id as int].invitations_room_keys, room_key),
                    rooms_keys: sv[id as int].rooms_keys.push(room_key),
                    ..sv[id as int]
                })
                &&& out@.len() >= 1
                &&& broadcast(
                    out@.drop_last(),
                    old(self)@.users,
                    Set::empty(),
                    sv,
                    line(SendView::JoinedRoom { roomname: old(self)@.name, username: usr_who_accepted@ }),
                )
                &&& out@.last().to == tx_user_who_accepted
                &&& out@.last().msg@ == line(SendView::Response { operation: Operations::JoinRoom, result: Resultado::Success, extra: Some(old(self)@.name) })
            },
    {
        let username_to_lower = to_lower(usr_who_accepted);
        match names_remove(&mut self.guests, username_to_lower.as_str()) {
            Some((name, id)) => {
                let ghost sv = sessions_view(sessions@);
                let msg = generate_new_room_user_msg(self.name.as_str(), usr_who_accepted);
                let mut out = broadcast_table(&self.users, sessions, None, &msg);
                assert(except_set(None) =~= Set::<Seq<char>>::empty());
                let room_key = to_lower(self.name.as_str());
                let ghost before = sessions@;
                assert(sv[id as int] == before[id as int]@);
                remove_last_occurrence(&mut sessions[id].invitations_room_keys, &room_key);
                let pushed = copy_string(&room_key);
                sessions[id].rooms_keys.push(pushed);
                names_insert(&mut self.users, name, id);
                let ghost broadcast_part = out@;
                let user_msg = success_join_room_response(self.name.as_str());
                out.push(Outgoing { to: tx_user_who_accepted, msg: user_msg });
                proof {
                    assert(out@.drop_last() == broadcast_part);
                    assert(keys_view(sessions@[id as int].rooms_keys@) =~= keys_view(before[id as int].rooms_keys@).push(room_key@));
                    assert(sessions_view(sessions@) =~= sv.update(id as int, UserView {
                        invitations_room_keys: without_last(sv[id as int].invitations_room_keys, room_key@),
                        rooms_keys: sv[id as int].rooms_keys.push(room_key@),
                        ..sv[id as int]
                    }));
                }
                out
            },
            None => {
                let msg = generate_not_invitated_msg(self.name.as_str());
                let mut out: Vec<Outgoing> = Vec::new();
                out.push(Outgoing { to: tx_user_who_accepted, msg });
                assert(self@.guests =~= old(self)@.guests);
                out
            },
        }
    }
}

} // verus!
