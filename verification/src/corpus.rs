//! The store of parsed tables: for every language the tables of its files.

use crate::index_map::Entries;
use crate::text::text_eq;
use crate::text_table::TextTable;
use vstd::prelude::*;

verus! {

/// The name of a language, as it stands in the name of its archive.
#[derive(Debug, Clone, Hash, PartialEq, Eq)]
pub struct Language(pub String);

/// The name of a table file inside a language archive.
#[derive(Debug, Clone, Hash, PartialEq, Eq)]
pub struct XmlFile(pub String);

/// Values kept under names. A name holds one value: storing under a name that is
/// taken replaces what it held.
pub struct NameMap<T> {
    names: Vec<String>,
    values: Vec<T>,
}

impl<T> NameMap<T> {
    /// Each name has its value at the same place, and no name stands twice.
    #[verifier::type_invariant]
    spec fn well_formed(&self) -> bool {
        &&& self.names.len() == self.values.len()
        &&& forall|i: int, j: int|
            0 <= i < self.names.len() && 0 <= j < self.names.len() && i != j
                ==> self.names[i]@ != self.names[j]@
    }

    /// `name` stands at place `at`.
    spec fn holds_at(&self, name: Seq<char>, at: int) -> bool {
        0 <= at < self.names.len() && self.names[at]@ == name
    }

    /// The values by their names.
    pub closed spec fn view(&self) -> Map<Seq<char>, T> {
        Map::new(
            |name: Seq<char>| exists|at: int| self.holds_at(name, at),
            |name: Seq<char>| self.values[choose|at: int| self.holds_at(name, at)],
        )
    }

    /// A store that holds nothing.
    pub fn new() -> (store: Self)
        ensures
            store@ == Map::<Seq<char>, T>::empty(),
    {
        let store = NameMap { names: Vec::new(), values: Vec::new() };
        assert(store@ =~= Map::<Seq<char>, T>::empty());
        store
    }

    /// The number of names.
    pub fn len(&self) -> (len: usize)
        ensures
            len == self@.dom().len(),
            self@.dom().finite(),
    {
        proof {
            use_type_invariant(self);
            self.lemma_domain();
        }
        self.names.len()
    }

    /// There are as many names in the view as the store lists.
    proof fn lemma_domain(&self)
        requires
            self.well_formed(),
        ensures
            self@.dom().finite(),
            self@.dom().len() == self.names.len(),
    {
        let names = self.names@;
        let dom = self@.dom();
        assert forall|name: Seq<char>| dom.contains(name) <==> exists|at: int|
            0 <= at < names.len() && names[at]@ == name by {
            if dom.contains(name) {
                let at = choose|at: int| self.holds_at(name, at);
                assert(0 <= at < names.len() && names[at]@ == name);
            }
            if exists|at: int| 0 <= at < names.len() && names[at]@ == name {
                let at = choose|at: int| 0 <= at < names.len() && names[at]@ == name;
                assert(self.holds_at(name, at));
            }
        }
        Self::lemma_domain_of(names, dom);
    }

    /// A set that holds the texts of a list without repetitions, and nothing else, has
    /// as many elements as the list.
    proof fn lemma_domain_of(names: Seq<String>, dom: Set<Seq<char>>)
        requires
            forall|i: int, j: int|
                0 <= i < names.len() && 0 <= j < names.len() && i != j ==> names[i]@ != names[j]@,
            forall|name: Seq<char>|
                dom.contains(name) <==> exists|at: int| 0 <= at < names.len() && names[at]@ == name,
        ensures
            dom.finite(),
            dom.len() == names.len(),
        decreases names.len(),
    {
        if names.len() == 0 {
            assert(dom =~= Set::<Seq<char>>::empty());
        } else {
            let last = names.last()@;
            let init = names.drop_last();
            let rest = dom.remove(last);
            assert(dom.contains(last)) by {
                assert(names[names.len() - 1]@ == last);
            }
            assert forall|name: Seq<char>| rest.contains(name) <==> exists|at: int|
                0 <= at < init.len() && init[at]@ == name by {
                if rest.contains(name) {
                    let at = choose|at: int| 0 <= at < names.len() && names[at]@ == name;
                    assert(at < init.len());
                    assert(init[at]@ == name);
                }
                if exists|at: int| 0 <= at < init.len() && init[at]@ == name {
                    let at = choose|at: int| 0 <= at < init.len() && init[at]@ == name;
                    assert(names[at]@ == name);
                }
            }
            Self::lemma_domain_of(init, rest);
            assert(dom =~= rest.insert(last));
        }
    }

    /// The value kept under `name`.
    pub fn get(&self, name: &str) -> (found: Option<&T>)
        ensures
            match found {
                Some(value) => self@.contains_key(name@) && self@[name@] == *value,
                None => !self@.contains_key(name@),
            },
    {
        proof {
            use_type_invariant(self);
        }
        let mut at: usize = 0;
        while at < self.names.len()
            invariant
                self.well_formed(),
                at <= self.names.len(),
                forall|k: int| 0 <= k < at ==> self.names[k]@ != name@,
            decreases self.names.len() - at,
        {
            if text_eq(self.names[at].as_str(), name) {
                assert(self.holds_at(name@, at as int));
                return Some(&self.values[at]);
            }
            at += 1;
        }
        None
    }

    /// Keeps `value` under `name`, in place of what the name held.
    pub fn insert(&mut self, name: String, value: T)
        ensures
            final(self)@ == old(self)@.insert(name@, value),
    {
        proof {
            use_type_invariant(&*self);
        }
        let mut taken = NameMap::new();
        std::mem::swap(self, &mut taken);
        let ghost before = taken;
        let NameMap { mut names, mut values } = taken;
        let mut at: usize = 0;
        let mut place: Option<usize> = None;
        while at < names.len()
            invariant_except_break
                place is None,
                forall|k: int| 0 <= k < at ==> names[k]@ != name@,
            invariant
                at <= names.len(),
            ensures
                match place {
                    Some(p) => p < names.len() && names[p as int]@ == name@,
                    None => forall|k: int| 0 <= k < names.len() ==> names[k]@ != name@,
                },
            decreases names.len() - at,
        {
            if text_eq(names[at].as_str(), name.as_str()) {
                place = Some(at);
                break;
            }
            at += 1;
        }
        match place {
            Some(p) => {
                values.set(p, value);
            },
            None => {
                names.push(name);
                values.push(value);
            },
        }
        let ghost after = NameMap { names, values };
        proof {
            assert(after.well_formed());
            assert forall|key: Seq<char>| after@.contains_key(key) <==> before@.insert(
                name@,
                value,
            ).contains_key(key) by {
                if after@.contains_key(key) {
                    let k = choose|k: int| after.holds_at(key, k);
                    if key != name@ {
                        assert(before.holds_at(key, k));
                    }
                }
                if before@.contains_key(key) {
                    let k = choose|k: int| before.holds_at(key, k);
                    assert(after.holds_at(key, k));
                }
                if key == name@ {
                    match place {
                        Some(p) => {
                            assert(after.holds_at(key, p as int));
                        },
                        None => {
                            assert(after.holds_at(key, before.names.len() as int));
                        },
                    }
                }
            }
            assert forall|key: Seq<char>| after@.contains_key(key) implies after@[key]
                == before@.insert(name@, value)[key] by {
                let k = choose|k: int| after.holds_at(key, k);
                if key != name@ {
                    assert(before.holds_at(key, k));
                    let b = choose|b: int| before.holds_at(key, b);
                    assert(b == k);
                } else {
                    match place {
                        Some(p) => {
                            assert(after.holds_at(key, p as int));
                        },
                        None => {
                            assert(after.holds_at(key, before.names.len() as int));
                        },
                    }
                }
            }
            assert(after@ =~= before@.insert(name@, value));
        }
        *self = NameMap { names, values };
    }
}

impl<T> NameMap<T> {
    /// Takes out what is kept under `name`.
    pub fn remove(&mut self, name: &str) -> (taken: Option<T>)
        ensures
            final(self)@ == old(self)@.remove(name@),
            match taken {
                Some(value) => old(self)@.contains_key(name@) && old(self)@[name@] == value,
                None => !old(self)@.contains_key(name@),
            },
    {
        proof {
            use_type_invariant(&*self);
        }
        let mut held = NameMap::new();
        std::mem::swap(self, &mut held);
        let ghost before = held;
        let NameMap { mut names, mut values } = held;
        let mut at: usize = 0;
        while at < names.len()
            invariant
                at <= names.len(),
                names == before.names,
                values == before.values,
                before.well_formed(),
                before@ == old(self)@,
                forall|k: int| 0 <= k < at ==> names[k]@ != name@,
            decreases names.len() - at,
        {
            if text_eq(names[at].as_str(), name) {
                let _ = names.remove(at);
                let value = values.remove(at);
                let ghost after = NameMap { names, values };
                proof {
                    assert(before.holds_at(name@, at as int));
                    let chosen = choose|k: int| before.holds_at(name@, k);
                    assert(chosen == at);
                    assert(before@[name@] == value);
                    assert(after.well_formed());
                    assert forall|key: Seq<char>| after@.contains_key(key) <==> before@.remove(
                        name@,
                    ).contains_key(key) by {
                        if after@.contains_key(key) {
                            let k = choose|k: int| after.holds_at(key, k);
                            if k < at {
                                assert(before.holds_at(key, k));
                            } else {
                                assert(before.holds_at(key, k + 1));
                            }
                        }
                        if before@.remove(name@).contains_key(key) {
                            let k = choose|k: int| before.holds_at(key, k);
                            if k < at {
                                assert(after.holds_at(key, k));
                            } else {
                                assert(after.holds_at(key, k - 1));
                            }
                        }
                    }
                    assert forall|key: Seq<char>| after@.contains_key(key) implies after@[key]
                        == before@.remove(name@)[key] by {
                        let k = choose|k: int| after.holds_at(key, k);
                        let b = choose|b: int| before.holds_at(key, b);
                        if k < at {
                            assert(before.holds_at(key, k));
                            assert(b == k);
                        } else {
                            assert(before.holds_at(key, k + 1));
                            assert(b == k + 1);
                        }
                    }
                    assert(after@ =~= before@.remove(name@));
                }
                *self = NameMap { names, values };
                return Some(value);
            }
            at += 1;
        }
        proof {
            assert(!before@.contains_key(name@)) by {
                if before@.contains_key(name@) {
                    let k = choose|k: int| before.holds_at(name@, k);
                    assert(names[k]@ != name@);
                }
            }
            assert(before@.remove(name@) =~= before@);
        }
        *self = NameMap { names, values };
        None
    }
}

/// The tables of one language, by file name.
pub struct LanguageData {
    tables: NameMap<TextTable>,
}

impl View for LanguageData {
    type V = Map<Seq<char>, Entries>;

    closed spec fn view(&self) -> Map<Seq<char>, Entries> {
        self.tables@.map_values(|table: TextTable| table@)
    }
}

impl LanguageData {
    /// A language without tables.
    pub fn new() -> (data: Self)
        ensures
            data@ == Map::<Seq<char>, Entries>::empty(),
    {
        let data = LanguageData { tables: NameMap::new() };
        assert(data@ =~= Map::<Seq<char>, Entries>::empty());
        data
    }

    /// Publishes the table of `file`, in place of an earlier table of that file.
    pub fn insert(&mut self, file: XmlFile, table: TextTable)
        ensures
            final(self)@ == old(self)@.insert(file.0@, table@),
    {
        let ghost before = self.tables@;
        self.tables.insert(file.0, table);
        assert(self@ =~= before.map_values(|table: TextTable| table@).insert(file.0@, table@));
    }

    /// Takes out the table of the file `file_name`.
    pub fn remove(&mut self, file_name: &str) -> (taken: Option<TextTable>)
        ensures
            final(self)@ == old(self)@.remove(file_name@),
            match taken {
                Some(table) => old(self)@.contains_key(file_name@) && old(self)@[file_name@]
                    == table@,
                None => !old(self)@.contains_key(file_name@),
            },
    {
        let ghost before = self.tables@;
        let taken = self.tables.remove(file_name);
        assert(self@ =~= before.map_values(|table: TextTable| table@).remove(file_name@));
        taken
    }

    /// The table of the file `file_name`.
    pub fn table(&self, file_name: &str) -> (found: Option<&TextTable>)
        ensures
            match found {
                Some(table) => self@.contains_key(file_name@) && self@[file_name@] == table@,
                None => !self@.contains_key(file_name@),
            },
    {
        self.tables.get(file_name)
    }
}

/// The tables of every language that was read, by language name and file name.
pub struct Corpus {
    languages: NameMap<LanguageData>,
}

impl View for Corpus {
    type V = Map<Seq<char>, Map<Seq<char>, Entries>>;

    closed spec fn view(&self) -> Map<Seq<char>, Map<Seq<char>, Entries>> {
        self.languages@.map_values(|data: LanguageData| data@)
    }
}

impl Corpus {
    /// A corpus without languages.
    pub fn new() -> (corpus: Self)
        ensures
            corpus@ == Map::<Seq<char>, Map<Seq<char>, Entries>>::empty(),
    {
        let corpus = Corpus { languages: NameMap::new() };
        assert(corpus@ =~= Map::<Seq<char>, Map<Seq<char>, Entries>>::empty());
        corpus
    }

    /// Publishes the tables of `language`, in place of what was published for it before.
    pub fn insert(&mut self, language: Language, data: LanguageData)
        ensures
            final(self)@ == old(self)@.insert(language.0@, data@),
    {
        let ghost before = self.languages@;
        self.languages.insert(language.0, data);
        assert(self@ =~= before.map_values(|data: LanguageData| data@).insert(
            language.0@,
            data@,
        ));
    }

    /// Takes out the tables of the language `name`.
    pub fn remove(&mut self, name: &str) -> (taken: Option<LanguageData>)
        ensures
            final(self)@ == old(self)@.remove(name@),
            match taken {
                Some(data) => old(self)@.contains_key(name@) && old(self)@[name@] == data@,
                None => !old(self)@.contains_key(name@),
            },
    {
        let ghost before = self.languages@;
        let taken = self.languages.remove(name);
        assert(self@ =~= before.map_values(|data: LanguageData| data@).remove(name@));
        taken
    }

    /// Publishes the table of `file` in `language`, in place of an earlier table of
    /// that file in that language. The other tables stay as they are.
    pub fn set_table(&mut self, language: Language, file: XmlFile, table: TextTable)
        ensures
            final(self)@ == old(self)@.insert(
                language.0@,
                (if old(self)@.contains_key(language.0@) {
                    old(self)@[language.0@]
                } else {
                    Map::<Seq<char>, Entries>::empty()
                }).insert(file.0@, table@),
            ),
    {
        let ghost before = self@;
        let mut data = match self.remove(language.0.as_str()) {
            Some(data) => data,
            None => LanguageData::new(),
        };
        data.insert(file, table);
        self.insert(language, data);
        assert(self@ =~= before.insert(
            language.0@,
            (if before.contains_key(language.0@) {
                before[language.0@]
            } else {
                Map::<Seq<char>, Entries>::empty()
            }).insert(file.0@, table@),
        ));
    }

    /// The tables of the language `name`.
    pub fn language(&self, name: &str) -> (found: Option<&LanguageData>)
        ensures
            match found {
                Some(data) => self@.contains_key(name@) && self@[name@] == data@,
                None => !self@.contains_key(name@),
            },
    {
        self.languages.get(name)
    }

    /// Whether the tables of the language `name` were published.
    pub fn has_language(&self, name: &str) -> (published: bool)
        ensures
            published == self@.contains_key(name@),
    {
        self.languages.get(name).is_some()
    }
}

} // verus!
