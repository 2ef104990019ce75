//! The text table of one file in one language: entry identifiers with their texts, in
//! the order in which the entries were first inserted.

use crate::index_map::{
    has_key, index_map_entries, key_at, map_get, map_get_index, map_insert, map_len, map_new,
    Entries,
};
use crate::text::text_eq;
use indexmap::IndexMap;
use vstd::prelude::*;

verus! {

/// The key of one localizable string, the same in every language.
#[derive(Debug, Clone, Hash, PartialEq, Eq)]
pub struct EntryId(pub String);

/// The text of one entry in one language: the last cell of its row.
#[derive(Debug, Clone, Hash, PartialEq, Eq)]
pub struct LastTextValue(pub String);

/// No key stands at two places.
pub open spec fn keys_distinct(entries: Entries) -> bool {
    forall|i: int, j: int|
        0 <= i < entries.len() && 0 <= j < entries.len() && i != j ==> entries[i].0 != entries[j].0
}

/// The text stored under `key`: that of the first entry with this key, if there is one.
pub open spec fn lookup(entries: Entries, key: Seq<char>) -> Option<Seq<char>>
    decreases entries.len(),
{
    if entries.len() == 0 {
        None
    } else if entries[0].0 == key {
        Some(entries[0].1)
    } else {
        lookup(entries.skip(1), key)
    }
}

/// The entries after `key` was given the text `value`: an existing entry keeps its place
/// and takes the new text, a new entry goes to the end.
pub open spec fn inserted(
    entries: Entries,
    key: Seq<char>,
    value: Seq<char>,
) -> Entries
    decreases entries.len(),
{
    if entries.len() == 0 {
        seq![(key, value)]
    } else if entries[0].0 == key {
        seq![(key, value)] + entries.skip(1)
    } else {
        seq![entries[0]] + inserted(entries.skip(1), key, value)
    }
}

/// The first cell of a header row.
pub const HEADER_MARKER: &'static str = "Entry id";

/// A row becomes an entry when it has at least three cells and is no header row.
pub open spec fn row_is_entry(cells: Seq<Seq<char>>) -> bool {
    cells.len() >= 3 && cells[0] != HEADER_MARKER@
}

/// The entries after a row was read: its first cell is the identifier, its third cell
/// the text. A header row and a row of fewer than three cells change nothing.
pub open spec fn with_row(
    entries: Entries,
    cells: Seq<Seq<char>>,
) -> Entries {
    if row_is_entry(cells) {
        inserted(entries, cells[0], cells[2])
    } else {
        entries
    }
}

/// Where no entry has the key, the lookup finds nothing.
pub proof fn lemma_lookup_absent(entries: Entries, key: Seq<char>)
    requires
        !has_key(entries, key),
    ensures
        lookup(entries, key) is None,
    decreases entries.len(),
{
    if entries.len() > 0 {
        assert(!key_at(entries, key, 0));
        assert forall|at: int| !key_at(entries.skip(1), key, at) by {
            if key_at(entries.skip(1), key, at) {
                assert(key_at(entries, key, at + 1));
            }
        }
        lemma_lookup_absent(entries.skip(1), key);
    }
}

/// Where the keys are distinct, the lookup finds the text of the one entry with the key.
pub proof fn lemma_lookup_present(entries: Entries, key: Seq<char>, at: int)
    requires
        keys_distinct(entries),
        key_at(entries, key, at),
    ensures
        lookup(entries, key) == Some(entries[at].1),
    decreases entries.len(),
{
    if at > 0 {
        assert(entries[0].0 != key);
        let rest = entries.skip(1);
        assert(key_at(rest, key, at - 1));
        assert(keys_distinct(rest)) by {
            assert forall|i: int, j: int|
                0 <= i < rest.len() && 0 <= j < rest.len() && i != j implies rest[i].0
                != rest[j].0 by {
                assert(rest[i] == entries[i + 1]);
                assert(rest[j] == entries[j + 1]);
            }
        }
        lemma_lookup_present(rest, key, at - 1);
    }
}

/// Giving a key that stands at `at` a new text changes that entry alone.
pub proof fn lemma_inserted_existing(
    entries: Entries,
    key: Seq<char>,
    value: Seq<char>,
    at: int,
)
    requires
        keys_distinct(entries),
        key_at(entries, key, at),
    ensures
        inserted(entries, key, value) == entries.update(at, (key, value)),
    decreases entries.len(),
{
    let rest = entries.skip(1);
    if at == 0 {
        assert(seq![(key, value)] + rest =~= entries.update(0, (key, value)));
    } else {
        assert(entries[0].0 != key);
        assert(key_at(rest, key, at - 1));
        assert(keys_distinct(rest)) by {
            assert forall|i: int, j: int|
                0 <= i < rest.len() && 0 <= j < rest.len() && i != j implies rest[i].0
                != rest[j].0 by {
                assert(rest[i] == entries[i + 1]);
                assert(rest[j] == entries[j + 1]);
            }
        }
        lemma_inserted_existing(rest, key, value, at - 1);
        assert(seq![entries[0]] + rest.update(at - 1, (key, value)) =~= entries.update(
            at,
            (key, value),
        ));
    }
}

/// Giving a text to a key that no entry has appends an entry.
pub proof fn lemma_inserted_new(entries: Entries, key: Seq<char>, value: Seq<char>)
    requires
        !has_key(entries, key),
    ensures
        inserted(entries, key, value) == entries.push((key, value)),
    decreases entries.len(),
{
    if entries.len() == 0 {
        assert(seq![(key, value)] =~= entries.push((key, value)));
    } else {
        let rest = entries.skip(1);
        assert(!key_at(entries, key, 0));
        assert forall|at: int| !key_at(rest, key, at) by {
            if key_at(rest, key, at) {
                assert(key_at(entries, key, at + 1));
            }
        }
        lemma_inserted_new(rest, key, value);
        assert(seq![entries[0]] + rest.push((key, value)) =~= entries.push((key, value)));
    }
}

/// Inserting keeps the keys distinct, and afterwards the key is found with its new text.
pub proof fn lemma_inserted_distinct(
    entries: Entries,
    key: Seq<char>,
    value: Seq<char>,
)
    requires
        keys_distinct(entries),
    ensures
        keys_distinct(inserted(entries, key, value)),
        lookup(inserted(entries, key, value), key) == Some(value),
{
    let after = inserted(entries, key, value);
    if has_key(entries, key) {
        let at = choose|at: int| key_at(entries, key, at);
        lemma_inserted_existing(entries, key, value, at);
        assert(key_at(after, key, at));
        lemma_lookup_present(after, key, at);
    } else {
        lemma_inserted_new(entries, key, value);
        assert forall|i: int, j: int|
            0 <= i < after.len() && 0 <= j < after.len() && i != j implies after[i].0
            != after[j].0 by {
            if i == entries.len() {
                assert(!key_at(entries, key, j));
            }
            if j == entries.len() {
                assert(!key_at(entries, key, i));
            }
        }
        assert(key_at(after, key, entries.len() as int));
        lemma_lookup_present(after, key, entries.len() as int);
    }
}

/// Inserting under one key gives no other key an entry.
pub proof fn lemma_inserted_other_key(
    entries: Entries,
    key: Seq<char>,
    value: Seq<char>,
    other: Seq<char>,
)
    requires
        keys_distinct(entries),
        other != key,
    ensures
        has_key(inserted(entries, key, value), other) == has_key(entries, other),
        lookup(inserted(entries, key, value), other) == lookup(entries, other),
{
    let after = inserted(entries, key, value);
    lemma_inserted_distinct(entries, key, value);
    if has_key(entries, key) {
        let at = choose|at: int| key_at(entries, key, at);
        lemma_inserted_existing(entries, key, value, at);
    } else {
        lemma_inserted_new(entries, key, value);
    }
    if has_key(entries, other) {
        let at = choose|at: int| key_at(entries, other, at);
        assert(key_at(after, other, at));
        lemma_lookup_present(entries, other, at);
        lemma_lookup_present(after, other, at);
    } else {
        assert forall|at: int| !key_at(after, other, at) by {
            if key_at(after, other, at) {
                assert(key_at(entries, other, at));
            }
        }
        lemma_lookup_absent(entries, other);
        lemma_lookup_absent(after, other);
    }
}

/// An ordered mapping from entry identifier to text, built row by row. Each identifier
/// occurs once, the order is that of first insertion, and no entry is a header row.
pub struct TextTable {
    entries: IndexMap<String, String>,
}

impl View for TextTable {
    type V = Entries;

    closed spec fn view(&self) -> Entries {
        index_map_entries(self.entries)
    }
}

/// What holds of the entries of every table.
pub open spec fn is_table(entries: Entries) -> bool {
    keys_distinct(entries) && !has_key(entries, HEADER_MARKER@)
}

impl TextTable {
    /// No identifier stands twice, and none is the header marker.
    #[verifier::type_invariant]
    spec fn well_formed(&self) -> bool {
        is_table(index_map_entries(self.entries))
    }

    /// A table without entries.
    pub fn new() -> (table: Self)
        ensures
            table@ == Entries::empty(),
    {
        let entries = map_new();
        assert(!has_key(index_map_entries(entries), HEADER_MARKER@)) by {
            assert forall|at: int| !key_at(index_map_entries(entries), HEADER_MARKER@, at) by {}
        }
        TextTable { entries }
    }

    /// The number of entries. Of every table it also holds that no identifier occurs
    /// twice and none is the header marker.
    pub fn len(&self) -> (len: usize)
        ensures
            len == self@.len(),
            is_table(self@),
    {
        proof {
            use_type_invariant(self);
        }
        map_len(&self.entries)
    }

    /// Whether the table has no entry.
    pub fn is_empty(&self) -> (empty: bool)
        ensures
            empty == (self@.len() == 0),
    {
        map_len(&self.entries) == 0
    }

    /// Takes in one row of cells. A row of at least three cells whose first cell is not
    /// the header marker stores its third cell under its first: an identifier that the
    /// table already holds keeps its place and takes the new text, a new identifier
    /// becomes the last entry. Any other row is dropped. Returns whether the row was
    /// stored.
    pub fn add_row(&mut self, cells: &Vec<String>) -> (stored: bool)
        ensures
            stored == row_is_entry(cells.deep_view()),
            final(self)@ == with_row(old(self)@, cells.deep_view()),
            is_table(final(self)@),
    {
        proof {
            use_type_invariant(&*self);
        }
        if cells.len() < 3 || text_eq(cells[0].as_str(), HEADER_MARKER) {
            return false;
        }
        let key = cells[0].clone();
        let value = cells[2].clone();
        let ghost before = self@;
        let mut entries = map_new();
        std::mem::swap(&mut self.entries, &mut entries);
        let previous = map_insert(&mut entries, key, value);
        proof {
            let after = index_map_entries(entries);
            lemma_inserted_distinct(before, key@, value@);
            lemma_inserted_other_key(before, key@, value@, HEADER_MARKER@);
            if previous is Some {
                let replaced = previous->0;
                let at = choose|at: int|
                    {
                        &&& #[trigger] key_at(before, key@, at)
                        &&& before[at].1 == replaced@
                        &&& after == before.update(at, (key@, value@))
                    };
                lemma_inserted_existing(before, key@, value@, at);
            } else {
                lemma_inserted_new(before, key@, value@);
            }
        }
        std::mem::swap(&mut self.entries, &mut entries);
        true
    }

    /// The text stored under `id`.
    pub fn get(&self, id: &EntryId) -> (found: Option<LastTextValue>)
        ensures
            match found {
                Some(text) => lookup(self@, id.0@) == Some(text.0@),
                None => lookup(self@, id.0@) is None,
            },
    {
        match self.text_of(id.0.as_str()) {
            Some(text) => Some(LastTextValue(text.clone())),
            None => None,
        }
    }

    /// The text stored under the identifier `id`.
    pub fn text_of(&self, id: &str) -> (found: Option<&String>)
        ensures
            match found {
                Some(text) => lookup(self@, id@) == Some(text@),
                None => lookup(self@, id@) is None,
            },
    {
        proof {
            use_type_invariant(self);
        }
        let found = map_get(&self.entries, id);
        proof {
            if found is Some {
                let text = found->0;
                let at = choose|at: int| #[trigger]
                    key_at(self@, id@, at) && self@[at].1 == text@;
                lemma_lookup_present(self@, id@, at);
            } else {
                lemma_lookup_absent(self@, id@);
            }
        }
        found
    }

    /// The identifier and the text at place `index` of the order.
    pub fn entry(&self, index: usize) -> (entry: Option<(&String, &String)>)
        ensures
            match entry {
                Some((id, text)) => index < self@.len() && id@ == self@[index as int].0 && text@
                    == self@[index as int].1,
                None => index >= self@.len(),
            },
    {
        map_get_index(&self.entries, index)
    }
}

} // verus!
