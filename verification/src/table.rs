//! A small table keyed by text.

use vstd::prelude::*;

verus! {

/// One entry of a [`Table`].
#[derive(Debug)]
pub(crate) struct TableEntry<T> {
    pub(crate) key: String,
    pub(crate) value: T,
}

/// Values under texts, each text once.
#[derive(Debug)]
pub struct Table<T> {
    pub(crate) entries: Vec<TableEntry<T>>,
}

pub(crate) open(crate) spec fn keys_of<T>(entries: Seq<TableEntry<T>>) -> Seq<Seq<char>> {
    entries.map_values(|entry: TableEntry<T>| entry.key@)
}

pub(crate) open(crate) spec fn contents<T>(entries: Seq<TableEntry<T>>) -> Map<Seq<char>, T>
    decreases entries.len(),
{
    if entries.len() == 0 {
        Map::empty()
    } else {
        contents(entries.drop_last()).insert(entries.last().key@, entries.last().value)
    }
}

impl<T> View for Table<T> {
    type V = Map<Seq<char>, T>;

    open(crate) spec fn view(&self) -> Map<Seq<char>, T> {
        contents(self.entries@)
    }
}

proof fn lemma_contents<T>(entries: Seq<TableEntry<T>>)
    requires
        keys_of(entries).no_duplicates(),
    ensures
        contents(entries).dom().finite(),
        contents(entries).len() == entries.len(),
        forall|key: Seq<char>| #[trigger]
            contents(entries).contains_key(key) <==> keys_of(entries).contains(key),
        forall|i: int|
            0 <= i < entries.len() ==> contents(entries).contains_key((#[trigger] entries[i]).key@)
                && contents(entries)[entries[i].key@] == entries[i].value,
    decreases entries.len(),
{
    if entries.len() > 0 {
        let before = entries.drop_last();
        let last = entries.last();
        let keys = keys_of(entries);
        assert(keys_of(before) =~= keys.drop_last());
        assert(keys_of(before).no_duplicates());
        lemma_contents(before);
        assert(keys[entries.len() - 1] == last.key@);
        assert(!keys_of(before).contains(last.key@)) by {
            if keys_of(before).contains(last.key@) {
                let i = choose|i: int| 0 <= i < keys_of(before).len() && keys_of(before)[i]
                    == last.key@;
                assert(keys[i] == last.key@);
            }
        }
        assert forall|key: Seq<char>| #[trigger]
            contents(entries).contains_key(key) <==> keys.contains(key) by {
            if keys.contains(key) && key != last.key@ {
                let i = choose|i: int| 0 <= i < keys.len() && keys[i] == key;
                assert(keys_of(before)[i] == key);
            }
            if keys_of(before).contains(key) {
                let i = choose|i: int| 0 <= i < keys_of(before).len() && keys_of(before)[i] == key;
                assert(keys[i] == key);
            }
        }
        assert forall|i: int| 0 <= i < entries.len() implies contents(entries).contains_key(
            (#[trigger] entries[i]).key@,
        ) && contents(entries)[entries[i].key@] == entries[i].value by {
            if i < before.len() {
                assert(before[i] == entries[i]);
                assert(keys_of(before)[i] == entries[i].key@);
                assert(keys_of(before).contains(entries[i].key@));
            }
        }
    } else {
        assert(contents(entries) =~= Map::empty());
    }
}

proof fn lemma_remove<T>(entries: Seq<TableEntry<T>>, at: int)
    requires
        keys_of(entries).no_duplicates(),
        0 <= at < entries.len(),
    ensures
        keys_of(entries.remove(at)).no_duplicates(),
        contents(entries.remove(at)) == contents(entries).remove(entries[at].key@),
{
    let rest = entries.remove(at);
    let keys = keys_of(entries);
    let key = entries[at].key@;
    assert forall|i: int, j: int|
        0 <= i < rest.len() && 0 <= j < rest.len() && i != j implies keys_of(rest)[i] != keys_of(
        rest,
    )[j] by {
        let p = if i < at {
            i
        } else {
            i + 1
        };
        let q = if j < at {
            j
        } else {
            j + 1
        };
        assert(keys[p] != keys[q]);
    }
    lemma_contents(entries);
    lemma_contents(rest);
    let before = contents(entries);
    let after = contents(rest);
    assert forall|other: Seq<char>| #[trigger] after.contains_key(other) implies before.remove(
        key,
    ).contains_key(other) && after[other] == before[other] by {
        let i = choose|i: int| 0 <= i < keys_of(rest).len() && keys_of(rest)[i] == other;
        let p = if i < at {
            i
        } else {
            i + 1
        };
        assert(rest[i] == entries[p]);
        assert(keys[p] == other);
        assert(keys[at] == key);
        assert(before[entries[p].key@] == entries[p].value);
        assert(after[rest[i].key@] == rest[i].value);
    }
    assert forall|other: Seq<char>| #[trigger]
        before.remove(key).contains_key(other) implies after.contains_key(other) by {
        let p = choose|p: int| 0 <= p < keys.len() && keys[p] == other;
        let i = if p < at {
            p
        } else {
            p - 1
        };
        assert(keys_of(rest)[i] == other);
    }
    assert(after =~= before.remove(key));
}

impl<T> Table<T> {
    #[verifier::type_invariant]
    pub(crate) open(crate) spec fn inv(self) -> bool {
        keys_of(self.entries@).no_duplicates()
    }

    pub fn new() -> (table: Self)
        ensures
            table@ == Map::<Seq<char>, T>::empty(),
    {
        Self { entries: Vec::new() }
    }

    pub fn len(&self) -> (len: usize)
        ensures
            self@.dom().finite(),
            len == self@.len(),
    {
        proof {
            use_type_invariant(self);
            lemma_contents(self.entries@);
        }
        self.entries.len()
    }

    fn position(&self, key: &str) -> (position: Option<usize>)
        ensures
            match position {
                Some(at) => at < self.entries@.len() && self.entries@[at as int].key@ == key@
                    && self@.contains_key(key@) && self@[key@] == self.entries@[at as int].value,
                None => !self@.contains_key(key@),
            },
    {
        proof {
            use_type_invariant(self);
            lemma_contents(self.entries@);
        }
        let wanted: String = key.to_owned();
        let count: usize = self.entries.len();
        for i in 0..count
            invariant
                count == self.entries@.len(),
                wanted@ == key@,
                keys_of(self.entries@).no_duplicates(),
                forall|j: int| 0 <= j < i ==> #[trigger] keys_of(self.entries@)[j] != key@,
        {
            assert(keys_of(self.entries@)[i as int] == self.entries@[i as int].key@);
            if self.entries[i].key == wanted {
                proof {
                    lemma_contents(self.entries@);
                }
                return Some(i);
            }
        }
        assert(!keys_of(self.entries@).contains(key@));
        None
    }

    pub fn contains(&self, key: &str) -> (found: bool)
        ensures
            found == self@.contains_key(key@),
    {
        self.position(key).is_some()
    }

    pub fn get(&self, key: &str) -> (value: Option<&T>)
        ensures
            match value {
                Some(value) => self@.contains_key(key@) && self@[key@] == *value,
                None => !self@.contains_key(key@),
            },
    {
        match self.position(key) {
            Some(at) => Some(&self.entries[at].value),
            None => None,
        }
    }

    /// Takes a value out.
    pub fn remove(&mut self, key: &str) -> (value: Option<T>)
        ensures
            final(self)@ == old(self)@.remove(key@),
            match value {
                Some(value) => old(self)@.contains_key(key@) && old(self)@[key@] == value,
                None => !old(self)@.contains_key(key@),
            },
    {
        let at = match self.position(key) {
            Some(at) => at,
            None => {
                assert(self@.remove(key@) =~= self@);
                return None;
            },
        };
        proof {
            use_type_invariant(&*self);
            lemma_remove(self.entries@, at as int);
        }
        let mut entries: Vec<TableEntry<T>> = Vec::new();
        std::mem::swap(&mut entries, &mut self.entries);
        let entry = entries.remove(at);
        self.entries = entries;
        Some(entry.value)
    }

    /// Puts a value in, in place of one under the same text.
    pub fn insert(&mut self, key: &str, value: T)
        ensures
            final(self)@ == old(self)@.insert(key@, value),
    {
        let ghost before = self@;
        let dropped = self.remove(key);
        proof {
            use_type_invariant(&*self);
            lemma_contents(self.entries@);
        }
        let mut entries: Vec<TableEntry<T>> = Vec::new();
        std::mem::swap(&mut entries, &mut self.entries);
        let ghost kept = entries@;
        let entry = TableEntry { key: key.to_owned(), value };
        let ghost added = entry;
        entries.push(entry);
        proof {
            let keys = keys_of(entries@);
            assert(entries@.drop_last() =~= kept);
            assert forall|i: int| 0 <= i < kept.len() implies keys[i] == keys_of(kept)[i]
                && keys[i] != key@ by {
                assert(keys_of(kept).contains(keys_of(kept)[i]));
            }
            assert(keys[kept.len() as int] == key@);
            assert(keys.no_duplicates());
            assert(contents(entries@) =~= contents(kept).insert(key@, added.value));
            assert(before.remove(key@).insert(key@, added.value) =~= before.insert(
                key@,
                added.value,
            ));
        }
        self.entries = entries;
    }

    pub fn clear(&mut self)
        ensures
            final(self)@ == Map::<Seq<char>, T>::empty(),
    {
        self.entries = Vec::new();
    }

    /// Keeps only what stands under a key of another table.
    pub fn retain_keys<U>(&mut self, keys: &Table<U>)
        ensures
            final(self)@ == old(self)@.restrict(keys@.dom()),
    {
        let ghost before = self@;
        let mut entries: Vec<TableEntry<T>> = Vec::new();
        std::mem::swap(&mut entries, &mut self.entries);
        let ghost all = entries@;
        let mut kept: Table<T> = Table::new();
        assert(all.take(0) =~= Seq::empty());
        assert(contents(all.take(0)).restrict(keys@.dom()) =~= Map::empty());
        for entry in iter: entries
            invariant
                iter.seq() == all,
                kept@ == contents(all.take(iter.index() as int)).restrict(keys@.dom()),
        {
            let ghost at = iter.index() as int;
            let ghost so_far = contents(all.take(at));
            let ghost added = entry;
            proof {
                assert(all.take(at + 1).drop_last() =~= all.take(at));
                assert(all.take(at + 1).last() == entry);
            }
            if keys.contains(entry.key.as_str()) {
                kept.insert(entry.key.as_str(), entry.value);
                assert(so_far.insert(added.key@, added.value).restrict(keys@.dom())
                    =~= so_far.restrict(keys@.dom()).insert(added.key@, added.value));
            } else {
                assert(so_far.insert(added.key@, added.value).restrict(keys@.dom())
                    =~= so_far.restrict(keys@.dom()));
            }
        }
        assert(all.take(all.len() as int) =~= all);
        *self = kept;
    }

    /// Takes in everything of another table.
    pub fn merge(&mut self, other: Table<T>)
        ensures
            final(self)@ == old(self)@.union_prefer_right(other@),
    {
        let ghost before = self@;
        let entries = other.entries;
        let ghost all = entries@;
        assert(all.take(0) =~= Seq::empty());
        assert(before.union_prefer_right(contents(all.take(0))) =~= before);
        for entry in iter: entries
            invariant
                iter.seq() == all,
                self@ == before.union_prefer_right(contents(all.take(iter.index() as int))),
        {
            let ghost at = iter.index() as int;
            let ghost so_far = contents(all.take(at));
            let ghost added = entry;
            proof {
                assert(all.take(at + 1).drop_last() =~= all.take(at));
                assert(all.take(at + 1).last() == entry);
            }
            self.insert(entry.key.as_str(), entry.value);
            assert(before.union_prefer_right(so_far).insert(added.key@, added.value)
                =~= before.union_prefer_right(so_far.insert(added.key@, added.value)));
        }
        assert(all.take(all.len() as int) =~= all);
    }
}

} // verus!
