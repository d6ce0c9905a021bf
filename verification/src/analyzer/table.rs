use crate::analyzer::Id;
use crate::text::same_text;
use vstd::prelude::*;

verus! {

/// The mathematical value of the key of a binding.
pub type Key = (Seq<char>, u32);

/// The value of a key.
pub open spec fn key_of(id: Id) -> Key {
    (id.0@, id.1)
}

/// Whether two keys are the same.
pub fn same_key(a: &Id, b: &Id) -> (r: bool)
    ensures
        r == (key_of(*a) == key_of(*b)),
{
    a.1 == b.1 && same_text(a.0.as_str(), b.0.as_str())
}

/// What a list of entries says of each key: what stands last for it.
pub open spec fn entries_map<V>(entries: Seq<(Id, V)>) -> Map<Key, V>
    decreases entries.len(),
{
    if entries.len() == 0 {
        Map::empty()
    } else {
        entries_map(entries.drop_last()).insert(key_of(entries.last().0), entries.last().1)
    }
}

/// A table from keys of bindings to values, as a list of entries.
pub struct Table<V> {
    pub entries: Vec<(Id, V)>,
}

/// The entry at `i` decides, where none behind it has the key.
pub proof fn lemma_last_entry<V>(entries: Seq<(Id, V)>, key: Key, i: int)
    requires
        0 <= i < entries.len(),
        key_of(entries[i].0) == key,
        forall|j: int| i < j < entries.len() ==> key_of(#[trigger] entries[j].0) != key,
    ensures
        entries_map(entries).dom().contains(key),
        entries_map(entries)[key] == entries[i].1,
    decreases entries.len(),
{
    if i < entries.len() - 1 {
        let front = entries.drop_last();
        lemma_last_entry(front, key, i);
    }
}

/// Nothing is known of a key that no entry has.
pub proof fn lemma_no_entry<V>(entries: Seq<(Id, V)>, key: Key)
    requires
        forall|j: int| 0 <= j < entries.len() ==> key_of(#[trigger] entries[j].0) != key,
    ensures
        !entries_map(entries).dom().contains(key),
    decreases entries.len(),
{
    if entries.len() > 0 {
        let front = entries.drop_last();
        lemma_no_entry(front, key);
    }
}

/// Something is known of the key of every entry.
pub proof fn lemma_entry_is_known<V>(entries: Seq<(Id, V)>, i: int)
    requires
        0 <= i < entries.len(),
    ensures
        entries_map(entries).dom().contains(key_of(entries[i].0)),
    decreases entries.len(),
{
    if i < entries.len() - 1 {
        lemma_entry_is_known(entries.drop_last(), i);
    }
}

/// Every key of which something is known stands in an entry.
pub proof fn lemma_known_key_has_entry<V>(entries: Seq<(Id, V)>, key: Key)
    requires
        entries_map(entries).dom().contains(key),
    ensures
        exists|j: int| 0 <= j < entries.len() && key_of(#[trigger] entries[j].0) == key,
{
    if forall|j: int| 0 <= j < entries.len() ==> key_of(#[trigger] entries[j].0) != key {
        lemma_no_entry(entries, key);
    }
}

/// A list of entries speaks of finitely many keys.
pub proof fn lemma_finitely_many_keys<V>(entries: Seq<(Id, V)>)
    ensures
        entries_map(entries).dom().finite(),
    decreases entries.len(),
{
    if entries.len() > 0 {
        lemma_finitely_many_keys(entries.drop_last());
    }
}

/// What the entries say when the entry at `i` gets another value, where `i` is the last
/// place of its key.
proof fn lemma_entry_replaced<V>(entries: Seq<(Id, V)>, i: int, id: Id, value: V)
    requires
        0 <= i < entries.len(),
        key_of(id) == key_of(entries[i].0),
        forall|j: int| i < j < entries.len() ==> key_of(#[trigger] entries[j].0) != key_of(id),
    ensures
        entries_map(entries.update(i, (id, value))) == entries_map(entries).insert(
            key_of(id),
            value,
        ),
    decreases entries.len(),
{
    let changed = entries.update(i, (id, value));
    if i == entries.len() - 1 {
        assert(changed.drop_last() =~= entries.drop_last());
    } else {
        let front = entries.drop_last();
        lemma_entry_replaced(front, i, id, value);
        assert(changed.drop_last() =~= front.update(i, (id, value)));
    }
}

impl<V> Table<V> {
    /// What the table says of each key.
    pub open spec fn map(&self) -> Map<Key, V> {
        entries_map(self.entries@)
    }

    /// The table that knows no key.
    pub fn new() -> (r: Table<V>)
        ensures
            r.map() == Map::<Key, V>::empty(),
            r.entries@.len() == 0,
    {
        Table { entries: Vec::new() }
    }

    /// The place of the entry that decides on `key`, if the table knows the key.
    pub fn position(&self, key: &Id) -> (r: Option<usize>)
        ensures
            r is Some <==> self.map().dom().contains(key_of(*key)),
            r is Some ==> r->0 < self.entries.len() && key_of(self.entries@[r->0 as int].0)
                == key_of(*key) && self.map()[key_of(*key)] == self.entries@[r->0 as int].1,
            r is Some ==> forall|j: int|
                r->0 < j < self.entries.len() ==> key_of(#[trigger] self.entries@[j].0) != key_of(
                    *key,
                ),
    {
        let mut i = self.entries.len();
        while i > 0
            invariant
                i <= self.entries.len(),
                forall|j: int|
                    i <= j < self.entries.len() ==> key_of(#[trigger] self.entries@[j].0)
                        != key_of(*key),
            decreases i,
        {
            i -= 1;
            if same_key(&self.entries[i].0, key) {
                proof {
                    lemma_last_entry(self.entries@, key_of(*key), i as int);
                }
                return Some(i);
            }
        }
        proof {
            lemma_no_entry(self.entries@, key_of(*key));
        }
        None
    }

    /// What the table says of `key`, if it knows the key.
    pub fn get(&self, key: &Id) -> (r: Option<&V>)
        ensures
            r is Some <==> self.map().dom().contains(key_of(*key)),
            r is Some ==> *r->0 == self.map()[key_of(*key)],
    {
        match self.position(key) {
            Some(i) => Some(&self.entries[i].1),
            None => None,
        }
    }

    /// Lets the table say `value` of `key`.
    pub fn set(&mut self, key: Id, value: V)
        ensures
            final(self).map() == old(self).map().insert(key_of(key), value),
    {
        let ghost before = self.entries@;
        match self.position(&key) {
            Some(i) => {
                proof {
                    lemma_entry_replaced(before, i as int, key, value);
                }
                self.entries[i] = (key, value);
            },
            None => {
                self.entries.push((key, value));
                assert(self.entries@.drop_last() =~= before);
            },
        }
    }
}

} // verus!
