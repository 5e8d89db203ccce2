//! A map from names to values, kept as a list of entries. It is what the
//! evaluators use for variables: the globals of the virtual machine, the
//! scopes of the tree walker and of the resolver.
use vstd::prelude::*;
use crate::text::same_text;

verus! {

pub struct Entry<T> {
    pub name: String,
    pub value: T,
}

/// The map that a list of entries stands for: a later entry of a name
/// replaces an earlier one.
pub open spec fn map_of<T>(entries: Seq<Entry<T>>) -> Map<Seq<char>, T>
    decreases entries.len(),
{
    if entries.len() == 0 {
        Map::empty()
    } else {
        map_of(entries.drop_last()).insert(entries.last().name@, entries.last().value)
    }
}

/// No entry from `from` on has the name.
pub open spec fn absent_from<T>(entries: Seq<Entry<T>>, name: Seq<char>, from: int) -> bool {
    forall|k: int| from <= k < entries.len() ==> (#[trigger] entries[k]).name@ != name
}

/// A name that no entry has is no key of the map.
pub proof fn lemma_absent<T>(entries: Seq<Entry<T>>, name: Seq<char>)
    requires
        absent_from(entries, name, 0),
    ensures
        !map_of(entries).contains_key(name),
    decreases entries.len(),
{
    if entries.len() > 0 {
        assert(entries.last() == entries[entries.len() - 1]);
        assert forall|k: int| 0 <= k < entries.drop_last().len() implies (
        #[trigger] entries.drop_last()[k]).name@ != name by {
            assert(entries.drop_last()[k] == entries[k]);
        }
        lemma_absent(entries.drop_last(), name);
    }
}

/// The last entry of a name gives the name's value.
pub proof fn lemma_present<T>(entries: Seq<Entry<T>>, name: Seq<char>, at: int)
    requires
        0 <= at < entries.len(),
        entries[at].name@ == name,
        absent_from(entries, name, at + 1),
    ensures
        map_of(entries).contains_key(name),
        map_of(entries)[name] == entries[at].value,
    decreases entries.len(),
{
    assert(entries.last() == entries[entries.len() - 1]);
    if at < entries.len() - 1 {
        assert forall|k: int| at + 1 <= k < entries.drop_last().len() implies (
        #[trigger] entries.drop_last()[k]).name@ != name by {
            assert(entries.drop_last()[k] == entries[k]);
        }
        assert(entries.drop_last()[at] == entries[at]);
        lemma_present(entries.drop_last(), name, at);
    }
}

/// Replacing the value of the last entry of a name sets the name's value.
pub proof fn lemma_replace<T>(entries: Seq<Entry<T>>, at: int, entry: Entry<T>)
    requires
        0 <= at < entries.len(),
        entries[at].name@ == entry.name@,
        absent_from(entries, entry.name@, at + 1),
    ensures
        map_of(entries.update(at, entry)) == map_of(entries).insert(entry.name@, entry.value),
    decreases entries.len(),
{
    let after = entries.update(at, entry);
    assert(entries.last() == entries[entries.len() - 1]);
    assert(after.last() == after[after.len() - 1]);
    if at == entries.len() - 1 {
        assert(after.drop_last() =~= entries.drop_last());
        assert(map_of(after) =~= map_of(entries).insert(entry.name@, entry.value));
    } else {
        assert forall|k: int| at + 1 <= k < entries.drop_last().len() implies (
        #[trigger] entries.drop_last()[k]).name@ != entry.name@ by {
            assert(entries.drop_last()[k] == entries[k]);
        }
        assert(entries.drop_last()[at] == entries[at]);
        lemma_replace(entries.drop_last(), at, entry);
        assert(after.drop_last() =~= entries.drop_last().update(at, entry));
        assert(after.last() == entries.last());
        assert(entries.last().name@ != entry.name@);
        assert(map_of(after) =~= map_of(entries).insert(entry.name@, entry.value));
    }
}

/// A map from names to values.
pub struct Table<T> {
    pub entries: Vec<Entry<T>>,
}

impl<T> View for Table<T> {
    type V = Map<Seq<char>, T>;

    open spec fn view(&self) -> Map<Seq<char>, T> {
        map_of(self.entries@)
    }
}

impl<T> Table<T> {
    pub fn new() -> (table: Table<T>)
        ensures
            table@ == Map::<Seq<char>, T>::empty(),
    {
        Table { entries: Vec::new() }
    }

    /// Where the name's value is kept, if the name is a key.
    pub fn find(&self, name: &str) -> (at: Option<usize>)
        ensures
            match at {
                Some(i) => i < self.entries.len() && self.entries[i as int].name@ == name@
                    && absent_from(self.entries@, name@, i + 1) && self@.contains_key(name@)
                    && self@[name@] == self.entries[i as int].value,
                None => !self@.contains_key(name@),
            },
    {
        let mut i: usize = self.entries.len();
        while i > 0
            invariant
                i <= self.entries.len(),
                absent_from(self.entries@, name@, i as int),
            decreases i,
        {
            i -= 1;
            if same_text(self.entries[i].name.as_str(), name) {
                proof {
                    lemma_present(self.entries@, name@, i as int);
                }
                return Some(i);
            }
        }
        proof {
            lemma_absent(self.entries@, name@);
        }
        None
    }

    pub fn contains(&self, name: &str) -> (found: bool)
        ensures
            found == self@.contains_key(name@),
    {
        self.find(name).is_some()
    }

    /// The value of a name, if it has one.
    pub fn get(&self, name: &str) -> (value: Option<&T>)
        ensures
            match value {
                Some(v) => self@.contains_key(name@) && *v == self@[name@],
                None => !self@.contains_key(name@),
            },
    {
        match self.find(name) {
            Some(i) => Some(&self.entries[i].value),
            None => None,
        }
    }

    /// Gives the name the value, whether or not it had one.
    pub fn insert(&mut self, name: &str, value: T)
        ensures
            final(self)@ == old(self)@.insert(name@, value),
    {
        let entry = Entry { name: name.to_owned(), value };
        match self.find(name) {
            Some(i) => {
                proof {
                    lemma_replace(self.entries@, i as int, entry);
                }
                self.entries[i] = entry;
            },
            None => {
                self.entries.push(entry);
                assert(self.entries@.drop_last() =~= old(self).entries@);
            },
        }
    }
}

} // verus!
