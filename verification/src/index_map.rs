//! What is taken on trust of `indexmap::IndexMap`, for maps from strings to strings:
//! the entries that a map holds, in its order, and what the methods in use do to them.

use indexmap::IndexMap;
use vstd::prelude::*;

verus! {

/// Keys with their values, in order.
pub type Entries = Seq<(Seq<char>, Seq<char>)>;

/// `indexmap::IndexMap`, of which nothing is seen but what the items below say.
#[verifier::external_type_specification]
#[verifier::external_body]
#[verifier::reject_recursive_types(K)]
#[verifier::reject_recursive_types(V)]
#[verifier::reject_recursive_types(S)]
pub struct ExIndexMap<K, V, S>(IndexMap<K, V, S>);

/// The key-value pairs that an `indexmap::IndexMap` of strings holds, in its order.
pub uninterp spec fn index_map_entries(map: IndexMap<String, String>) -> Entries;

/// `key` stands at place `at`.
pub open spec fn key_at(entries: Entries, key: Seq<char>, at: int) -> bool {
    0 <= at < entries.len() && entries[at].0 == key
}

/// Some entry has the key `key`.
pub open spec fn has_key(entries: Entries, key: Seq<char>) -> bool {
    exists|at: int| key_at(entries, key, at)
}

/// `indexmap::IndexMap::new`: a map without entries.
#[verifier::external_body]
pub(crate) fn map_new() -> (map: IndexMap<String, String>)
    ensures
        index_map_entries(map) == Entries::empty(),
{
    IndexMap::new()
}

/// `indexmap::IndexMap::len`: the number of entries.
#[verifier::external_body]
pub(crate) fn map_len(map: &IndexMap<String, String>) -> (len: usize)
    ensures
        len == index_map_entries(*map).len(),
{
    map.len()
}

/// `indexmap::IndexMap::insert`: where an entry has an equal key, it keeps its key and
/// its place, takes the new value, and the value it had comes back; otherwise the pair
/// becomes the last entry and nothing comes back.
#[verifier::external_body]
pub(crate) fn map_insert(
    map: &mut IndexMap<String, String>,
    key: String,
    value: String,
) -> (previous: Option<String>)
    ensures
        match previous {
            Some(replaced) => exists|at: int|
                {
                    &&& #[trigger] key_at(index_map_entries(*old(map)), key@, at)
                    &&& index_map_entries(*old(map))[at].1 == replaced@
                    &&& index_map_entries(*final(map)) == index_map_entries(*old(map)).update(
                        at,
                        (key@, value@),
                    )
                },
            None => {
                &&& !has_key(index_map_entries(*old(map)), key@)
                &&& index_map_entries(*final(map)) == index_map_entries(*old(map)).push(
                    (key@, value@),
                )
            },
        },
{
    map.insert(key, value)
}

/// `indexmap::IndexMap::get`: the value of the entry with an equal key, if there is one.
#[verifier::external_body]
pub(crate) fn map_get<'a>(map: &'a IndexMap<String, String>, key: &str) -> (found: Option<
    &'a String,
>)
    ensures
        match found {
            Some(value) => exists|at: int|
                #[trigger] key_at(index_map_entries(*map), key@, at) && index_map_entries(
                    *map,
                )[at].1 == value@,
            None => !has_key(index_map_entries(*map), key@),
        },
{
    map.get(key)
}

/// `indexmap::IndexMap::get_index`: the key and the value at a place in the order, for
/// every place below the length.
#[verifier::external_body]
pub(crate) fn map_get_index<'a>(
    map: &'a IndexMap<String, String>,
    index: usize,
) -> (entry: Option<(&'a String, &'a String)>)
    ensures
        match entry {
            Some((key, value)) => {
                &&& index < index_map_entries(*map).len()
                &&& key@ == index_map_entries(*map)[index as int].0
                &&& value@ == index_map_entries(*map)[index as int].1
            },
            None => index >= index_map_entries(*map).len(),
        },
{
    map.get_index(index)
}

} // verus!
