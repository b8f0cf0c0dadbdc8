//! The concurrent maps of the server (`dashmap::DashMap`) as seen by the
//! verified code: a map from normalized names to values, read and written
//! only through the wrappers below. Each wrapper takes `&mut` where the
//! outside method mutates through `&self`, so that the contents before and
//! after a call are those of one exclusive owner.
use dashmap::DashMap;
use vstd::prelude::*;

use crate::room::Room;

verus! {

#[verifier::external_type_specification]
#[verifier::external_body]
#[verifier::reject_recursive_types(K)]
#[verifier::reject_recursive_types(V)]
#[verifier::reject_recursive_types(S)]
pub struct ExDashMap<K, V, S>(DashMap<K, V, S>);

/// What a name table holds: each key's characters mapped to its value.
pub uninterp spec fn name_table(m: DashMap<String, usize>) -> Map<Seq<char>, usize>;

/// What a room table holds: each key's characters mapped to its room.
pub uninterp spec fn room_table(m: DashMap<String, Room>) -> Map<Seq<char>, Room>;

/// `DashMap::new`: an empty table.
#[verifier::external_body]
pub(crate) fn names_new() -> (table: DashMap<String, usize>)
    ensures
        name_table(table).dom().is_empty(),
{
    DashMap::new()
}

/// `DashMap::insert`: afterwards `key` maps to `value`, every other key
/// is unchanged; the value that `key` had before is returned.
#[verifier::external_body]
pub(crate) fn names_insert(m: &mut DashMap<String, usize>, key: String, value: usize) -> (r: Option<usize>)
    ensures
        name_table(*final(m)) == name_table(*old(m)).insert(key@, value),
        r == (if name_table(*old(m)).contains_key(key@) {
            Some(name_table(*old(m))[key@])
        } else {
            None
        }),
{
    m.insert(key, value)
}

/// `DashMap::remove`: afterwards `key` is absent, every other key is
/// unchanged; the removed entry is returned, with its stored key.
#[verifier::external_body]
pub(crate) fn names_remove(m: &mut DashMap<String, usize>, key: &str) -> (r: Option<(String, usize)>)
    ensures
        name_table(*final(m)) == name_table(*old(m)).remove(key@),
        match r {
            Some(kv) => name_table(*old(m)).contains_key(key@) && kv.0@ == key@
                && kv.1 == name_table(*old(m))[key@],
            None => !name_table(*old(m)).contains_key(key@),
        },
{
    m.remove(key)
}

/// `DashMap::contains_key`.
#[verifier::external_body]
pub(crate) fn names_contains(m: &DashMap<String, usize>, key: &str) -> (r: bool)
    ensures
        r == name_table(*m).contains_key(key@),
{
    m.contains_key(key)
}

/// `DashMap::get`, with the value copied out of the guard.
#[verifier::external_body]
pub(crate) fn names_get(m: &DashMap<String, usize>, key: &str) -> (r: Option<usize>)
    ensures
        r == (if name_table(*m).contains_key(key@) {
            Some(name_table(*m)[key@])
        } else {
            None
        }),
{
    m.get(key).map(|entry| *entry.value())
}

/// `DashMap::len`.
#[verifier::external_body]
pub(crate) fn names_len(m: &DashMap<String, usize>) -> (r: usize)
    ensures
        r == name_table(*m).len(),
{
    m.len()
}

/// `DashMap::iter`, each entry copied out: every entry exactly once, in an
/// order that the source leaves open.
#[verifier::external_body]
pub(crate) fn names_entries(m: &DashMap<String, usize>) -> (r: Vec<(String, usize)>)
    ensures
        forall|i: int| 0 <= i < r@.len() ==> name_table(*m).contains_key(#[trigger] r@[i].0@)
            && name_table(*m)[r@[i].0@] == r@[i].1,
        forall|i: int, j: int| 0 <= i < j < r@.len() ==> r@[i].0@ != r@[j].0@,
        forall|k: Seq<char>| name_table(*m).contains_key(k) ==> exists|i: int| 0 <= i < r@.len() && #[trigger] r@[i].0@ == k,
{
    m.iter().map(|entry| (entry.key().clone(), *entry.value())).collect()
}

/// `DashMap::new`: an empty table.
#[verifier::external_body]
pub(crate) fn rooms_new() -> (table: DashMap<String, Room>)
    ensures
        room_table(table).dom().is_empty(),
{
    DashMap::new()
}

/// `DashMap::insert`: afterwards `key` maps to `room`, every other key
/// is unchanged. The room it replaces, if any, is dropped.
#[verifier::external_body]
pub(crate) fn rooms_insert(m: &mut DashMap<String, Room>, key: String, room: Room)
    ensures
        room_table(*final(m)) == room_table(*old(m)).insert(key@, room),
{
    m.insert(key, room);
}

/// `DashMap::remove`: afterwards `key` is absent, every other key is
/// unchanged; the removed room is returned.
#[verifier::external_body]
pub(crate) fn rooms_remove(m: &mut DashMap<String, Room>, key: &str) -> (r: Option<Room>)
    ensures
        room_table(*final(m)) == room_table(*old(m)).remove(key@),
        r == (if room_table(*old(m)).contains_key(key@) {
            Some(room_table(*old(m))[key@])
        } else {
            None
        }),
{
    m.remove(key).map(|entry| entry.1)
}

/// `DashMap::contains_key`.
#[verifier::external_body]
pub(crate) fn rooms_contains(m: &DashMap<String, Room>, key: &str) -> (r: bool)
    ensures
        r == room_table(*m).contains_key(key@),
{
    m.contains_key(key)
}

} // verus!
