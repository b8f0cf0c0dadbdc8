//! A connected user as the server keeps it.
use vstd::prelude::*;

use crate::protocol::State;

verus! {

/// One session of a user: the name it identified with, the handle of the
/// channel that carries messages to its client, its state, the keys of the
/// rooms it joined by invitation and those of the rooms it is invited to.
pub struct User {
    pub name: String,
    pub tx: u64,
    pub state: State,
    pub rooms_keys: Vec<String>,
    pub invitations_room_keys: Vec<String>,
}

pub ghost struct UserView {
    pub name: Seq<char>,
    pub tx: u64,
    pub state: State,
    pub rooms_keys: Seq<Seq<char>>,
    pub invitations_room_keys: Seq<Seq<char>>,
}

pub open spec fn keys_view(v: Seq<String>) -> Seq<Seq<char>> {
    v.map_values(|s: String| s@)
}

impl View for User {
    type V = UserView;

    open spec fn view(&self) -> UserView {
        UserView {
            name: self.name@,
            tx: self.tx,
            state: self.state,
            rooms_keys: keys_view(self.rooms_keys@),
            invitations_room_keys: keys_view(self.invitations_room_keys@),
        }
    }
}

/// The views of a list of sessions.
pub open spec fn sessions_view(v: Seq<User>) -> Seq<UserView> {
    v.map_values(|u: User| u@)
}

impl User {
    /// A fresh session: active, in no room, invited nowhere.
    pub fn new(name: String, tx: u64) -> (u: User)
        ensures
            u@ == (UserView {
                name: name@,
                tx,
                state: State::Active,
                rooms_keys: Seq::empty(),
                invitations_room_keys: Seq::empty(),
            }),
    {
        let u = User {
            name,
            tx,
            state: State::Active,
            rooms_keys: Vec::new(),
            invitations_room_keys: Vec::new(),
        };
        assert(u@.rooms_keys =~= Seq::<Seq<char>>::empty());
        assert(u@.invitations_room_keys =~= Seq::<Seq<char>>::empty());
        u
    }
}

} // verus!
