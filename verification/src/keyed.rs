//! A finite map keyed by text, stored as a list of entries whose keys are
//! pairwise distinct. Lookups compare keys character by character, so the
//! map behaves the same in every process; its view is a `Map` from the
//! key's characters to the stored value.

use vstd::prelude::*;
use crate::text::same_text;

verus! {

struct Entry<T> {
    key: String,
    value: T,
}

/// A map from text keys to values of type `T`.
///
/// The view is the mathematical map it stands for. The order in which the
/// entries are enumerated (`keys`) is an enumeration of the view's domain
/// without repetition; nothing else is promised of it.
pub struct KeyedList<T> {
    entries: Vec<Entry<T>>,
}

spec fn key_seq<T>(entries: Seq<Entry<T>>) -> Seq<Seq<char>> {
    Seq::new(entries.len(), |i: int| entries[i].key@)
}

spec fn distinct_keys<T>(entries: Seq<Entry<T>>) -> bool {
    forall|i: int, j: int|
        0 <= i < j < entries.len() ==> (#[trigger] entries[i]).key@ != (#[trigger] entries[j]).key@
}

spec fn has_key<T>(entries: Seq<Entry<T>>, key: Seq<char>) -> bool {
    exists|i: int| 0 <= i < entries.len() && (#[trigger] entries[i]).key@ == key
}

spec fn index_of_key<T>(entries: Seq<Entry<T>>, key: Seq<char>) -> int {
    choose|i: int| 0 <= i < entries.len() && (#[trigger] entries[i]).key@ == key
}

spec fn entries_map<T>(entries: Seq<Entry<T>>) -> Map<Seq<char>, T> {
    Map::new(
        |key: Seq<char>| has_key(entries, key),
        |key: Seq<char>| entries[index_of_key(entries, key)].value,
    )
}

proof fn lemma_lookup<T>(entries: Seq<Entry<T>>, i: int)
    requires
        distinct_keys(entries),
        0 <= i < entries.len(),
    ensures
        entries_map(entries).contains_key(entries[i].key@),
        entries_map(entries)[entries[i].key@] == entries[i].value,
{
    let key = entries[i].key@;
    assert(has_key(entries, key));
    let j = index_of_key(entries, key);
    assert(0 <= j < entries.len() && entries[j].key@ == key);
    if j < i {
        assert(entries[j].key@ != entries[i].key@);
    } else if i < j {
        assert(entries[i].key@ != entries[j].key@);
    }
}

proof fn lemma_remove<T>(entries: Seq<Entry<T>>, i: int)
    requires
        distinct_keys(entries),
        0 <= i < entries.len(),
    ensures
        distinct_keys(entries.remove(i)),
        entries_map(entries.remove(i)) == entries_map(entries).remove(entries[i].key@),
{
    let rest = entries.remove(i);
    assert forall|a: int, b: int| 0 <= a < b < rest.len() implies (#[trigger] rest[a]).key@ != (
    #[trigger] rest[b]).key@ by {
        let a0 = if a < i { a } else { a + 1 };
        let b0 = if b < i { b } else { b + 1 };
        assert(rest[a] == entries[a0] && rest[b] == entries[b0]);
    }
    assert forall|key: Seq<char>|
        entries_map(rest).contains_key(key) == entries_map(entries).remove(
            entries[i].key@,
        ).contains_key(key) by {
        if has_key(rest, key) {
            let a = index_of_key(rest, key);
            let a0 = if a < i { a } else { a + 1 };
            assert(rest[a] == entries[a0]);
            assert(has_key(entries, key));
            if a0 < i {
                assert(entries[a0].key@ != entries[i].key@);
            } else {
                assert(entries[i].key@ != entries[a0].key@);
            }
        }
        if has_key(entries, key) && key != entries[i].key@ {
            let a0 = index_of_key(entries, key);
            let a = if a0 < i { a0 } else { a0 - 1 };
            assert(rest[a] == entries[a0]);
            assert(has_key(rest, key));
        }
    }
    assert forall|key: Seq<char>| entries_map(rest).contains_key(key) implies entries_map(
        rest,
    )[key] == entries_map(entries)[key] by {
        let a = index_of_key(rest, key);
        let a0 = if a < i { a } else { a + 1 };
        assert(rest[a] == entries[a0]);
        lemma_lookup(rest, a);
        lemma_lookup(entries, a0);
    }
    assert(entries_map(rest) =~= entries_map(entries).remove(entries[i].key@));
}

proof fn lemma_push<T>(entries: Seq<Entry<T>>, entry: Entry<T>)
    requires
        distinct_keys(entries),
        !has_key(entries, entry.key@),
    ensures
        distinct_keys(entries.push(entry)),
        entries_map(entries.push(entry)) == entries_map(entries).insert(entry.key@, entry.value),
{
    let more = entries.push(entry);
    assert forall|a: int, b: int| 0 <= a < b < more.len() implies (#[trigger] more[a]).key@ != (
    #[trigger] more[b]).key@ by {
        assert(more[a] == entries[a]);
        if b < entries.len() {
            assert(more[b] == entries[b]);
        }
    }
    assert forall|key: Seq<char>|
        entries_map(more).contains_key(key) == entries_map(entries).insert(
            entry.key@,
            entry.value,
        ).contains_key(key) by {
        if has_key(more, key) {
            let a = index_of_key(more, key);
            if a < entries.len() {
                assert(more[a] == entries[a]);
                assert(has_key(entries, key));
            }
        }
        if has_key(entries, key) {
            let a = index_of_key(entries, key);
            assert(more[a] == entries[a]);
            assert(has_key(more, key));
        }
        if key == entry.key@ {
            assert(more[entries.len() as int] == entry);
            assert(has_key(more, key));
        }
    }
    assert forall|key: Seq<char>| entries_map(more).contains_key(key) implies entries_map(
        more,
    )[key] == entries_map(entries).insert(entry.key@, entry.value)[key] by {
        let a = index_of_key(more, key);
        lemma_lookup(more, a);
        if a < entries.len() {
            assert(more[a] == entries[a]);
            lemma_lookup(entries, a);
        }
    }
    assert(entries_map(more) =~= entries_map(entries).insert(entry.key@, entry.value));
}

proof fn lemma_size<T>(entries: Seq<Entry<T>>)
    requires
        distinct_keys(entries),
    ensures
        entries_map(entries).dom().finite(),
        entries_map(entries).dom().len() == entries.len(),
    decreases entries.len(),
{
    if entries.len() == 0 {
        assert(entries_map(entries).dom() =~= Set::<Seq<char>>::empty());
    } else {
        let front = entries.drop_last();
        let last = entries.last();
        assert forall|a: int, b: int| 0 <= a < b < front.len() implies (#[trigger] front[a]).key@
            != (#[trigger] front[b]).key@ by {
            assert(front[a] == entries[a] && front[b] == entries[b]);
        }
        if has_key(front, last.key@) {
            let a = index_of_key(front, last.key@);
            assert(front[a] == entries[a]);
            assert(entries[a].key@ != entries[entries.len() - 1].key@);
        }
        lemma_size(front);
        lemma_push(front, last);
        assert(front.push(last) =~= entries);
        assert(!entries_map(front).dom().contains(last.key@));
    }
}

proof fn lemma_keys<T>(entries: Seq<Entry<T>>)
    requires
        distinct_keys(entries),
    ensures
        key_seq(entries).no_duplicates(),
        key_seq(entries).to_set() == entries_map(entries).dom(),
        key_seq(entries).len() == entries.len(),
{
    let keys = key_seq(entries);
    assert forall|i: int, j: int| 0 <= i < keys.len() && 0 <= j < keys.len() && i != j implies keys[i]
        != keys[j] by {
        if i < j {
            assert(entries[i].key@ != entries[j].key@);
        } else {
            assert(entries[j].key@ != entries[i].key@);
        }
    }
    assert forall|key: Seq<char>| keys.to_set().contains(key) == entries_map(
        entries,
    ).dom().contains(key) by {
        if keys.contains(key) {
            let i = choose|i: int| 0 <= i < keys.len() && keys[i] == key;
            assert(entries[i].key@ == key);
            assert(has_key(entries, key));
        }
        if has_key(entries, key) {
            let i = index_of_key(entries, key);
            assert(keys[i] == key);
        }
    }
    assert(keys.to_set() =~= entries_map(entries).dom());
}

impl<T> View for KeyedList<T> {
    type V = Map<Seq<char>, T>;

    closed spec fn view(&self) -> Map<Seq<char>, T> {
        entries_map(self.entries@)
    }
}

impl<T> KeyedList<T> {
    /// The invariant of the representation: no key occurs twice. Every
    /// constructor establishes it and every method preserves it.
    pub closed spec fn wf(&self) -> bool {
        distinct_keys(self.entries@)
    }

    /// The keys in the order in which `key_at` and `value_at` enumerate them.
    pub closed spec fn keys(&self) -> Seq<Seq<char>> {
        key_seq(self.entries@)
    }

    /// The empty map.
    pub fn new() -> (list: Self)
        ensures
            list.wf(),
            list@ == Map::<Seq<char>, T>::empty(),
            list.keys() == Seq::<Seq<char>>::empty(),
    {
        let list = KeyedList { entries: Vec::new() };
        assert(list@ =~= Map::<Seq<char>, T>::empty());
        assert(list.keys() =~= Seq::<Seq<char>>::empty());
        list
    }

    /// What the enumeration `keys` is: the domain of the view, which is
    /// finite, each key once.
    pub proof fn lemma_enumeration(&self)
        requires
            self.wf(),
        ensures
            self@.dom().finite(),
            self.keys().len() == self@.dom().len(),
            self.keys().no_duplicates(),
            self.keys().to_set() == self@.dom(),
    {
        lemma_size(self.entries@);
        lemma_keys(self.entries@);
    }

    /// The number of entries.
    pub fn len(&self) -> (n: usize)
        requires
            self.wf(),
        ensures
            self@.dom().finite(),
            n == self@.dom().len(),
            n == self.keys().len(),
    {
        proof {
            self.lemma_enumeration();
        }
        self.entries.len()
    }

    fn position(&self, key: &str) -> (at: Option<usize>)
        ensures
            match at {
                Some(i) => i < self.entries@.len() && self.entries@[i as int].key@ == key@,
                None => !has_key(self.entries@, key@),
            },
    {
        let mut i: usize = 0;
        while i < self.entries.len()
            invariant
                i <= self.entries@.len(),
                forall|k: int| 0 <= k < i ==> (#[trigger] self.entries@[k]).key@ != key@,
            decreases self.entries@.len() - i,
        {
            if same_text(self.entries[i].key.as_str(), key) {
                return Some(i);
            }
            i += 1;
        }
        None
    }

    /// Whether the map has an entry for `key`.
    pub fn contains_key(&self, key: &str) -> (found: bool)
        requires
            self.wf(),
        ensures
            found == self@.contains_key(key@),
    {
        match self.position(key) {
            Some(i) => {
                proof {
                            lemma_lookup(self.entries@, i as int);
                }
                true
            },
            None => false,
        }
    }

    /// The value stored for `key`, if there is one.
    pub fn get(&self, key: &str) -> (found: Option<&T>)
        requires
            self.wf(),
        ensures
            match found {
                Some(value) => self@.contains_key(key@) && *value == self@[key@],
                None => !self@.contains_key(key@),
            },
    {
        match self.position(key) {
            Some(i) => {
                proof {
                            lemma_lookup(self.entries@, i as int);
                }
                Some(&self.entries[i].value)
            },
            None => None,
        }
    }

    /// Removes the entry for `key` and hands its value out; without such an
    /// entry the map is left as it is.
    pub fn remove(&mut self, key: &str) -> (removed: Option<T>)
        requires
            old(self).wf(),
        ensures
            final(self).wf(),
            final(self)@ == old(self)@.remove(key@),
            match removed {
                Some(value) => old(self)@.contains_key(key@) && value == old(self)@[key@],
                None => !old(self)@.contains_key(key@),
            },
    {
        match self.position(key) {
            Some(i) => {
                proof {
                            lemma_lookup(self.entries@, i as int);
                    lemma_remove(self.entries@, i as int);
                }
                let entry = self.entries.remove(i);
                Some(entry.value)
            },
            None => {
                assert(self@.remove(key@) =~= self@);
                None
            },
        }
    }

    /// Stores `value` under `key`, replacing and handing out the value that
    /// was stored there before, if any.
    pub fn insert(&mut self, key: String, value: T) -> (previous: Option<T>)
        requires
            old(self).wf(),
        ensures
            final(self).wf(),
            final(self)@ == old(self)@.insert(key@, value),
            match previous {
                Some(before) => old(self)@.contains_key(key@) && before == old(self)@[key@],
                None => !old(self)@.contains_key(key@),
            },
    {
        let previous = self.remove(key.as_str());
        let entry = Entry { key, value };
        proof {
            assert(!self@.contains_key(entry.key@));
            lemma_push(self.entries@, entry);
            assert(old(self)@.remove(entry.key@).insert(entry.key@, entry.value) =~= old(self)@.insert(
                entry.key@,
                entry.value,
            ));
        }
        self.entries.push(entry);
        previous
    }

    /// The key at place `i` of the enumeration.
    pub fn key_at(&self, i: usize) -> (key: &String)
        requires
            i < self.keys().len(),
        ensures
            key@ == self.keys()[i as int],
    {
        &self.entries[i].key
    }

    /// The value stored under the key at place `i` of the enumeration.
    pub fn value_at(&self, i: usize) -> (value: &T)
        requires
            self.wf(),
            i < self.keys().len(),
        ensures
            self@.contains_key(self.keys()[i as int]),
            *value == self@[self.keys()[i as int]],
    {
        proof {
            lemma_lookup(self.entries@, i as int);
        }
        &self.entries[i].value
    }

    /// Takes some entry out of the map, or reports that the map is empty.
    pub fn pop(&mut self) -> (taken: Option<(String, T)>)
        requires
            old(self).wf(),
        ensures
            final(self).wf(),
            match taken {
                Some((key, value)) => old(self)@.contains_key(key@) && value == old(self)@[key@]
                    && final(self)@ == old(self)@.remove(key@),
                None => old(self)@ == Map::<Seq<char>, T>::empty() && final(self)@ == old(self)@,
            },
    {
        if self.entries.len() == 0 {
            assert(self@ =~= Map::<Seq<char>, T>::empty());
            return None;
        }
        proof {
            let last = self.entries@.len() - 1;
            lemma_lookup(self.entries@, last);
            lemma_remove(self.entries@, last);
            assert(self.entries@.remove(last) =~= self.entries@.drop_last());
        }
        match self.entries.pop() {
            Some(entry) => Some((entry.key, entry.value)),
            None => None,
        }
    }
}

} // verus!
