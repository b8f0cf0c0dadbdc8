//! What the server's decisions hand to the transport: messages addressed to
//! client channels, and the fan-out of one message to the members of a table.
use dashmap::DashMap;
use vstd::prelude::*;

use crate::table::{name_table, names_entries};
use crate::protocol::{states_view, State};
use crate::text::{copy_bytes, copy_string, lowercase};
use crate::user::{sessions_view, User, UserView};

verus! {

/// A message to write to the client channel with handle `to`.
pub struct Outgoing {
    pub to: u64,
    pub msg: Vec<u8>,
}

/// The messages of one decision, in the order in which they go out. With
/// `halt_on_failure` the transport stops at the first send that fails.
pub struct Delivery {
    pub sends: Vec<Outgoing>,
    pub halt_on_failure: bool,
}

/// `keys` names every key of `table` outside `except`, each once.
pub open spec fn lists_keys(
    keys: Seq<Seq<char>>,
    table: Map<Seq<char>, usize>,
    except: Set<Seq<char>>,
) -> bool {
    &&& keys.no_duplicates()
    &&& forall|k: Seq<char>| #[trigger] keys.contains(k) <==> (table.contains_key(k) && !except.contains(k))
}

/// `out` carries `msg` to the session of each of `keys`, in that order.
pub open spec fn sends_to(
    out: Seq<Outgoing>,
    keys: Seq<Seq<char>>,
    table: Map<Seq<char>, usize>,
    sessions: Seq<UserView>,
    msg: Seq<u8>,
) -> bool {
    &&& out.len() == keys.len()
    &&& forall|i: int| 0 <= i < out.len() ==> {
        &&& #[trigger] out[i].to == sessions[table[keys[i]] as int].tx
        &&& out[i].msg@ == msg
    }
}

/// `out` carries `msg` once to each session of `table` outside `except`, in
/// some order.
pub open spec fn broadcast(
    out: Seq<Outgoing>,
    table: Map<Seq<char>, usize>,
    except: Set<Seq<char>>,
    sessions: Seq<UserView>,
    msg: Seq<u8>,
) -> bool {
    exists|keys: Seq<Seq<char>>| #[trigger] lists_keys(keys, table, except) && sends_to(out, keys, table, sessions, msg)
}

/// Every value of `table` indexes `sessions`.
pub open spec fn indexes_into(table: Map<Seq<char>, usize>, n: nat) -> bool {
    forall|k: Seq<char>| #[trigger] table.contains_key(k) ==> table[k] < n
}

/// The set holding the key of `except`, if any.
pub open spec fn except_set(except: Option<Seq<char>>) -> Set<Seq<char>> {
    match except {
        Some(k) => Set::empty().insert(k),
        None => Set::empty(),
    }
}

/// One message to `to`.
pub open spec fn single(out: Seq<Outgoing>, to: u64, msg: Seq<u8>) -> bool {
    out.len() == 1 && out[0].to == to && out[0].msg@ == msg
}

/// `msg` for each session of `table` but the one keyed `except`.
pub fn broadcast_table(
    table: &DashMap<String, usize>,
    sessions: &Vec<User>,
    except: Option<&String>,
    msg: &Vec<u8>,
) -> (out: Vec<Outgoing>)
    requires
        indexes_into(name_table(*table), sessions@.len()),
    ensures
        broadcast(
            out@,
            name_table(*table),
            except_set(
                match except {
                    Some(e) => Some(e@),
                    None => None,
                },
            ),
            sessions_view(sessions@),
            msg@,
        ),
{
    let ghost t = name_table(*table);
    let ghost ex = except_set(
        match except {
            Some(e) => Some(e@),
            None => None,
        },
    );
    let ghost sv = sessions_view(sessions@);
    let entries = names_entries(table);
    let mut out: Vec<Outgoing> = Vec::new();
    let ghost mut keys: Seq<Seq<char>> = Seq::empty();
    let mut i: usize = 0;
    while i < entries.len()
        invariant
            i <= entries@.len(),
            t == name_table(*table),
            indexes_into(t, sessions@.len()),
            sv == sessions_view(sessions@),
            ex == except_set(
                match except {
                    Some(e) => Some(e@),
                    None => None,
                },
            ),
            forall|j: int| 0 <= j < entries@.len() ==> t.contains_key(#[trigger] entries@[j].0@)
                && t[entries@[j].0@] == entries@[j].1,
            forall|j: int, l: int| 0 <= j < l < entries@.len() ==> entries@[j].0@ != entries@[l].0@,
            keys.no_duplicates(),
            forall|k: Seq<char>| #[trigger] keys.contains(k) <==> (exists|j: int| 0 <= j < i && #[trigger] entries@[j].0@ == k && !ex.contains(k)),
            sends_to(out@, keys, t, sv, msg@),
        decreases entries@.len() - i,
    {
        let skip = match except {
            Some(e) => entries[i].0.eq(e),
            None => false,
        };
        let ghost k = entries@[i as int].0@;
        let ghost prev = keys;
        proof {
            match except {
                Some(e) => {
                    assert(ex.contains(e@));
                    assert(ex.contains(k) ==> k == e@);
                },
                None => {},
            }
        }
        assert(skip == ex.contains(k));
        if !skip {
            let idx = entries[i].1;
            let to = sessions[idx].tx;
            out.push(Outgoing { to, msg: copy_bytes(msg) });
            proof {
                assert(!prev.contains(k)) by {
                    if prev.contains(k) {
                        let j = choose|j: int| 0 <= j < i && #[trigger] entries@[j].0@ == k && !ex.contains(k);
                        assert(entries@[j].0@ != entries@[i as int].0@);
                    }
                }
                keys = prev.push(k);
                assert(keys.no_duplicates()) by {
                    assert forall|a: int, b: int| 0 <= a < b < keys.len() implies keys[a] != keys[b] by {
                        if b == keys.len() - 1 {
                            assert(prev.contains(keys[a]));
                        }
                    }
                }
                assert(sv[idx as int].tx == sessions@[idx as int].tx);
            }
        }
        proof {
            assert forall|k2: Seq<char>| #[trigger] keys.contains(k2) <==> (exists|j: int| 0 <= j < i + 1 && #[trigger] entries@[j].0@ == k2 && !ex.contains(k2)) by {
                if keys.contains(k2) {
                    if !skip && k2 == k {
                        assert(entries@[i as int].0@ == k2);
                    } else {
                        assert(prev.contains(k2)) by {
                            if !skip {
                                let p = choose|p: int| 0 <= p < keys.len() && keys[p] == k2;
                                assert(p < keys.len() - 1);
                                assert(prev[p] == k2);
                            }
                        }
                        let j = choose|j: int| 0 <= j < i && #[trigger] entries@[j].0@ == k2 && !ex.contains(k2);
                        assert(0 <= j < i + 1 && entries@[j].0@ == k2 && !ex.contains(k2));
                    }
                }
                if exists|j: int| 0 <= j < i + 1 && #[trigger] entries@[j].0@ == k2 && !ex.contains(k2) {
                    let j = choose|j: int| 0 <= j < i + 1 && #[trigger] entries@[j].0@ == k2 && !ex.contains(k2);
                    if j == i {
                        assert(keys[keys.len() - 1] == k2);
                    } else {
                        assert(prev.contains(k2));
                        let p = choose|p: int| 0 <= p < prev.len() && prev[p] == k2;
                        assert(keys[p] == k2);
                    }
                }
            }
        }
        i = i + 1;
    }
    proof {
        assert(lists_keys(keys, t, ex)) by {
            assert forall|k: Seq<char>| #[trigger] keys.contains(k) <==> (t.contains_key(k) && !ex.contains(k)) by {
                if t.contains_key(k) && !ex.contains(k) {
                    let j = choose|j: int| 0 <= j < entries@.len() && #[trigger] entries@[j].0@ == k;
                }
            }
        }
    }
    out
}

/// `list` holds the name and state of each session of `table`, each once,
/// in some order.
pub open spec fn lists_states(
    list: Seq<(Seq<char>, State)>,
    table: Map<Seq<char>, usize>,
    sessions: Seq<UserView>,
) -> bool {
    exists|keys: Seq<Seq<char>>| #[trigger] lists_keys(keys, table, Set::empty()) && {
        &&& list.len() == keys.len()
        &&& forall|i: int| 0 <= i < list.len() ==> #[trigger] list[i] == (
            sessions[table[keys[i]] as int].name,
            sessions[table[keys[i]] as int].state,
        )
    }
}

/// The name and state of each session of `table`.
pub fn state_listing(table: &DashMap<String, usize>, sessions: &Vec<User>) -> (r: Vec<(String, State)>)
    requires
        indexes_into(name_table(*table), sessions@.len()),
    ensures
        lists_states(states_view(r@), name_table(*table), sessions_view(sessions@)),
{
    let ghost t = name_table(*table);
    let ghost sv = sessions_view(sessions@);
    let entries = names_entries(table);
    let mut list: Vec<(String, State)> = Vec::new();
    let mut i: usize = 0;
    while i < entries.len()
        invariant
            i <= entries@.len(),
            t == name_table(*table),
            indexes_into(t, sessions@.len()),
            sv == sessions_view(sessions@),
            forall|j: int| 0 <= j < entries@.len() ==> t.contains_key(#[trigger] entries@[j].0@)
                && t[entries@[j].0@] == entries@[j].1,
            list@.len() == i,
            forall|j: int| 0 <= j < i ==> (#[trigger] list@[j]).0@ == sv[t[entries@[j].0@] as int].name
                && list@[j].1 == sv[t[entries@[j].0@] as int].state,
        decreases entries@.len() - i,
    {
        let idx = entries[i].1;
        assert(t.contains_key(entries@[i as int].0@));
        let name = copy_string(&sessions[idx].name);
        let state = sessions[idx].state;
        list.push((name, state));
        i = i + 1;
        assert(sv[idx as int] == sessions@[idx as int]@);
    }
    proof {
        let keys = entries@.map_values(|e: (String, usize)| e.0@);
        assert(keys.no_duplicates());
        assert forall|k: Seq<char>| #[trigger] keys.contains(k) <==> (t.contains_key(k) && !Set::<Seq<char>>::empty().contains(k)) by {
            if keys.contains(k) {
                let p = choose|p: int| 0 <= p < keys.len() && keys[p] == k;
                assert(entries@[p].0@ == k);
            }
            if t.contains_key(k) {
                let j = choose|j: int| 0 <= j < entries@.len() && #[trigger] entries@[j].0@ == k;
                assert(keys[j] == k);
            }
        }
        assert(lists_keys(keys, t, Set::empty()));
        assert forall|j: int| 0 <= j < states_view(list@).len() implies #[trigger] states_view(list@)[j] == (
            sv[t[keys[j]] as int].name,
            sv[t[keys[j]] as int].state,
        ) by {
            assert(keys[j] == entries@[j].0@);
        }
    }
    list
}

/// Each key of `table` is the lower case of the name of the session that
/// it points at.
pub open spec fn keyed_by_name(table: Map<Seq<char>, usize>, sessions: Seq<UserView>) -> bool {
    forall|k: Seq<char>| #[trigger] table.contains_key(k) ==> lowercase(sessions[table[k] as int].name) == k
}

/// No name occurs twice in `list`.
pub open spec fn distinct_names(list: Seq<(Seq<char>, State)>) -> bool {
    forall|i: int, j: int| 0 <= i < j < list.len() ==> #[trigger] list[i].0 != #[trigger] list[j].0
}

/// A listing of a table keyed by the lower case of names holds each name
/// once: two names that are equal have the same key.
pub proof fn lemma_listing_names_distinct(
    list: Seq<(Seq<char>, State)>,
    table: Map<Seq<char>, usize>,
    sessions: Seq<UserView>,
)
    requires
        lists_states(list, table, sessions),
        keyed_by_name(table, sessions),
    ensures
        distinct_names(list),
{
    let keys = choose|keys: Seq<Seq<char>>| #[trigger] lists_keys(keys, table, Set::empty()) && {
        &&& list.len() == keys.len()
        &&& forall|i: int| 0 <= i < list.len() ==> #[trigger] list[i] == (
            sessions[table[keys[i]] as int].name,
            sessions[table[keys[i]] as int].state,
        )
    };
    assert forall|i: int, j: int| 0 <= i < j < list.len() implies #[trigger] list[i].0 != #[trigger] list[j].0 by {
        assert(keys.contains(keys[i]));
        assert(keys.contains(keys[j]));
        assert(table.contains_key(keys[i]));
        assert(table.contains_key(keys[j]));
        assert(keys[i] != keys[j]);
        assert(list[i].0 == sessions[table[keys[i]] as int].name);
        assert(list[j].0 == sessions[table[keys[j]] as int].name);
    }
}

} // verus!
