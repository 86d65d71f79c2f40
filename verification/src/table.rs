//! A mapping from ids to values with unique keys, kept in insertion order.

use crate::id::Id;
use vstd::prelude::*;

verus! {

/// One id with its value.
pub struct Entry<V> {
    pub id: Id,
    pub value: V,
}

/// Whether no text occurs twice among the ids of `entries`.
pub open spec fn distinct_ids<V>(entries: Seq<Entry<V>>) -> bool {
    forall|i: int, j: int|
        0 <= i < entries.len() && 0 <= j < entries.len() && i != j ==> #[trigger] entries[i].id@
            != #[trigger] entries[j].id@
}

/// Whether some entry of `entries` has the id text `key`.
pub open spec fn has_id<V>(entries: Seq<Entry<V>>, key: Seq<char>) -> bool {
    exists|i: int| 0 <= i < entries.len() && #[trigger] entries[i].id@ == key
}

/// The position of an entry with the id text `key`.
pub open spec fn position_of<V>(entries: Seq<Entry<V>>, key: Seq<char>) -> int {
    choose|i: int| 0 <= i < entries.len() && #[trigger] entries[i].id@ == key
}

/// The mapping that `entries` write down: each id text to the value beside it.
pub open spec fn map_of<V>(entries: Seq<Entry<V>>) -> Map<Seq<char>, V> {
    Map::new(
        |key: Seq<char>| has_id(entries, key),
        |key: Seq<char>| entries[position_of(entries, key)].value,
    )
}

/// With distinct ids, every entry's id maps to that entry's value.
pub proof fn lemma_map_of_entry<V>(entries: Seq<Entry<V>>, i: int)
    requires
        distinct_ids(entries),
        0 <= i < entries.len(),
    ensures
        map_of(entries).contains_key(entries[i].id@),
        map_of(entries)[entries[i].id@] == entries[i].value,
{
    let key = entries[i].id@;
    assert(has_id(entries, key));
    let p = position_of(entries, key);
    assert(0 <= p < entries.len() && entries[p].id@ == key);
    assert(p == i);
}

/// Appending an entry under a new id inserts it into the mapping.
pub proof fn lemma_map_of_push<V>(entries: Seq<Entry<V>>, entry: Entry<V>)
    requires
        distinct_ids(entries),
        !has_id(entries, entry.id@),
    ensures
        distinct_ids(entries.push(entry)),
        map_of(entries.push(entry)) == map_of(entries).insert(entry.id@, entry.value),
{
    let after = entries.push(entry);
    assert forall|i: int, j: int|
        0 <= i < after.len() && 0 <= j < after.len() && i != j implies #[trigger] after[i].id@
        != #[trigger] after[j].id@ by {
        if i < entries.len() && j < entries.len() {
            assert(entries[i].id@ != entries[j].id@);
        } else if i < entries.len() {
            assert(entries[i].id@ != entry.id@);
        } else {
            assert(entries[j].id@ != entry.id@);
        }
    }
    let want = map_of(entries).insert(entry.id@, entry.value);
    assert forall|key: Seq<char>| map_of(after).contains_key(key) <==> want.contains_key(
        key,
    ) by {
        if has_id(after, key) {
            let p = position_of(after, key);
            if p < entries.len() {
                assert(entries[p].id@ == key);
            }
        }
        if has_id(entries, key) {
            let p = position_of(entries, key);
            assert(after[p].id@ == key);
        }
        if key == entry.id@ {
            assert(after[entries.len() as int].id@ == key);
        }
    }
    assert forall|key: Seq<char>| map_of(after).contains_key(key) implies map_of(after)[key]
        == want[key] by {
        let p = position_of(after, key);
        lemma_map_of_entry(after, p);
        if p < entries.len() {
            lemma_map_of_entry(entries, p);
        }
    }
    assert(map_of(after) =~= want);
}

/// Taking out the entry at `i` removes its id from the mapping.
pub proof fn lemma_map_of_remove<V>(entries: Seq<Entry<V>>, i: int)
    requires
        distinct_ids(entries),
        0 <= i < entries.len(),
    ensures
        distinct_ids(entries.remove(i)),
        !has_id(entries.remove(i), entries[i].id@),
        map_of(entries.remove(i)) == map_of(entries).remove(entries[i].id@),
{
    let after = entries.remove(i);
    let gone = entries[i].id@;
    assert forall|a: int| 0 <= a < after.len() implies #[trigger] after[a] == entries[if a
        < i {
        a
    } else {
        a + 1
    }] by {}
    assert forall|a: int, b: int|
        0 <= a < after.len() && 0 <= b < after.len() && a != b implies #[trigger] after[a].id@
        != #[trigger] after[b].id@ by {
        let a0 = if a < i { a } else { a + 1 };
        let b0 = if b < i { b } else { b + 1 };
        assert(entries[a0].id@ != entries[b0].id@);
    }
    if has_id(after, gone) {
        let p = position_of(after, gone);
        let p0 = if p < i { p } else { p + 1 };
        assert(entries[p0].id@ == entries[i].id@);
        assert(false);
    }
    let want = map_of(entries).remove(gone);
    assert forall|key: Seq<char>| map_of(after).contains_key(key) <==> want.contains_key(
        key,
    ) by {
        if has_id(after, key) {
            let p = position_of(after, key);
            let p0 = if p < i { p } else { p + 1 };
            assert(entries[p0].id@ == key);
        }
        if has_id(entries, key) && key != gone {
            let p = position_of(entries, key);
            let p1 = if p < i { p } else { p - 1 };
            assert(after[p1].id@ == key);
        }
    }
    assert forall|key: Seq<char>| map_of(after).contains_key(key) implies map_of(after)[key]
        == want[key] by {
        let p = position_of(after, key);
        let p0 = if p < i { p } else { p + 1 };
        lemma_map_of_entry(after, p);
        lemma_map_of_entry(entries, p0);
    }
    assert(map_of(after) =~= want);
}

/// Putting a new value at position `i` under the same id overwrites that id
/// in the mapping.
pub proof fn lemma_map_of_update<V>(entries: Seq<Entry<V>>, i: int, entry: Entry<V>)
    requires
        distinct_ids(entries),
        0 <= i < entries.len(),
        entry.id@ == entries[i].id@,
    ensures
        distinct_ids(entries.update(i, entry)),
        map_of(entries.update(i, entry)) == map_of(entries).insert(entry.id@, entry.value),
{
    let after = entries.update(i, entry);
    assert forall|a: int, b: int|
        0 <= a < after.len() && 0 <= b < after.len() && a != b implies #[trigger] after[a].id@
        != #[trigger] after[b].id@ by {
        assert(entries[a].id@ != entries[b].id@);
    }
    let want = map_of(entries).insert(entry.id@, entry.value);
    assert forall|key: Seq<char>| map_of(after).contains_key(key) <==> want.contains_key(
        key,
    ) by {
        if has_id(after, key) {
            let p = position_of(after, key);
            assert(entries[p].id@ == key);
        }
        if has_id(entries, key) {
            let p = position_of(entries, key);
            assert(after[p].id@ == key);
        }
    }
    assert forall|key: Seq<char>| map_of(after).contains_key(key) implies map_of(after)[key]
        == want[key] by {
        let p = position_of(after, key);
        lemma_map_of_entry(after, p);
        lemma_map_of_entry(entries, p);
    }
    assert(map_of(after) =~= want);
}

/// The first `i + 1` entries write down what the first `i` do, and the entry
/// at `i` besides, whose id is not among them.
pub proof fn lemma_take_next<V>(entries: Seq<Entry<V>>, i: int)
    requires
        distinct_ids(entries),
        0 <= i < entries.len(),
    ensures
        distinct_ids(entries.take(i)),
        !map_of(entries.take(i)).contains_key(entries[i].id@),
        entries.take(i + 1) == entries.take(i).push(entries[i]),
        map_of(entries.take(i + 1)) == map_of(entries.take(i)).insert(
            entries[i].id@,
            entries[i].value,
        ),
{
    let sooner = entries.take(i);
    assert(distinct_ids(sooner)) by {
        assert forall|a: int, b: int|
            0 <= a < sooner.len() && 0 <= b < sooner.len() && a != b implies #[trigger] sooner[a].id@
            != #[trigger] sooner[b].id@ by {
            assert(entries[a].id@ != entries[b].id@);
        }
    }
    if has_id(sooner, entries[i].id@) {
        let p = position_of(sooner, entries[i].id@);
        assert(entries[p].id@ == entries[i].id@);
        assert(false);
    }
    assert(entries.take(i + 1) =~= sooner.push(entries[i]));
    lemma_map_of_push(sooner, entries[i]);
}

/// Distinct ids write down a finite mapping with one key for each entry.
pub proof fn lemma_map_of_len<V>(entries: Seq<Entry<V>>)
    requires
        distinct_ids(entries),
    ensures
        map_of(entries).dom().finite(),
        map_of(entries).len() == entries.len(),
    decreases entries.len(),
{
    if entries.len() == 0 {
        assert(map_of(entries) =~= Map::<Seq<char>, V>::empty());
    } else {
        let i = entries.len() - 1;
        lemma_take_next(entries, i);
        assert(entries.take(i + 1) =~= entries);
        lemma_map_of_len(entries.take(i));
    }
}

/// The value that `key` has in `map`, if it has one.
pub open spec fn lookup<V>(map: Map<Seq<char>, V>, key: Seq<char>) -> Option<V> {
    if map.contains_key(key) {
        Some(map[key])
    } else {
        None
    }
}

/// The mapping after `key` is given back what it had before: its prior value,
/// or nothing.
pub open spec fn restored<V>(map: Map<Seq<char>, V>, key: Seq<char>, prior: Option<V>) -> Map<
    Seq<char>,
    V,
> {
    match prior {
        Some(value) => map.insert(key, value),
        None => map.remove(key),
    }
}

/// Undoing an insertion or a removal at `key` with what `key` held before
/// gives the mapping as it was: after a failed write the map equals the map
/// before the call.
pub proof fn lemma_restore_undoes<V>(map: Map<Seq<char>, V>, key: Seq<char>)
    ensures
        forall|value: V| #[trigger]
            restored(map.insert(key, value), key, lookup(map, key)) == map,
        restored(map.remove(key), key, lookup(map, key)) == map,
{
    assert forall|value: V| #[trigger]
        restored(map.insert(key, value), key, lookup(map, key)) == map by {
        assert(restored(map.insert(key, value), key, lookup(map, key)) =~= map);
    }
    assert(restored(map.remove(key), key, lookup(map, key)) =~= map);
}

/// A mapping from ids to values. No id occurs twice; entries keep the order
/// in which their ids first came.
pub struct Table<V> {
    entries: Vec<Entry<V>>,
}

impl<V> View for Table<V> {
    type V = Map<Seq<char>, V>;

    closed spec fn view(&self) -> Map<Seq<char>, V> {
        map_of(self.entries@)
    }
}

impl<V> Table<V> {
    /// Whether no id occurs twice. Every table that this module hands out is
    /// well formed, and every function here keeps it so.
    pub closed spec fn wf(&self) -> bool {
        distinct_ids(self.entries@)
    }

    /// The entries in their order.
    pub closed spec fn entries(&self) -> Seq<Entry<V>> {
        self.entries@
    }

    /// The table's mapping is the one its entries write down, and a well
    /// formed table holds no id twice.
    pub proof fn lemma_view(&self)
        ensures
            self@ == map_of(self.entries()),
            self.wf() == distinct_ids(self.entries()),
    {
    }

    /// A well formed table's mapping is finite and has as many keys as the
    /// table has entries.
    pub proof fn lemma_len(&self)
        requires
            self.wf(),
        ensures
            self@.dom().finite(),
            self@.len() == self.entries().len(),
    {
        lemma_map_of_len(self.entries@);
    }

    /// The empty table.
    pub fn new() -> (r: Table<V>)
        ensures
            r.wf(),
            r@ == Map::<Seq<char>, V>::empty(),
            r.entries().len() == 0,
    {
        let r = Table { entries: Vec::new() };
        assert(r@ =~= Map::<Seq<char>, V>::empty());
        r
    }

    /// The number of entries.
    pub fn len(&self) -> (r: usize)
        ensures
            r == self.entries().len(),
    {
        self.entries.len()
    }

    /// Whether the table holds nothing.
    pub fn is_empty(&self) -> (r: bool)
        requires
            self.wf(),
        ensures
            r == (self.entries().len() == 0),
            r == (self@ == Map::<Seq<char>, V>::empty()),
    {
        proof {
            if self.entries@.len() > 0 {
                lemma_map_of_entry(self.entries@, 0);
            } else {
                assert(self@ =~= Map::<Seq<char>, V>::empty());
            }
        }
        self.entries.len() == 0
    }

    /// The entry at position `i`.
    pub fn entry_at(&self, i: usize) -> (r: &Entry<V>)
        requires
            self.wf(),
            i < self.entries().len(),
        ensures
            *r == self.entries()[i as int],
            self@.contains_key(r.id@),
            self@[r.id@] == r.value,
    {
        proof {
            lemma_map_of_entry(self.entries@, i as int);
        }
        &self.entries[i]
    }

    /// Where `id` stands among the entries, if it does.
    fn find(&self, id: &Id) -> (r: Option<usize>)
        ensures
            match r {
                Some(i) => i < self.entries@.len() && self.entries@[i as int].id@ == id@,
                None => !has_id(self.entries@, id@),
            },
    {
        let mut i: usize = 0;
        while i < self.entries.len()
            invariant
                i <= self.entries@.len(),
                forall|k: int| 0 <= k < i ==> (#[trigger] self.entries@[k]).id@ != id@,
            decreases self.entries@.len() - i,
        {
            if self.entries[i].id == *id {
                return Some(i);
            }
            i += 1;
        }
        None
    }

    /// Whether `id` has a value.
    pub fn contains_key(&self, id: &Id) -> (r: bool)
        ensures
            r == self@.contains_key(id@),
    {
        self.find(id).is_some()
    }

    /// The value of `id`, if it has one.
    pub fn get(&self, id: &Id) -> (r: Option<&V>)
        requires
            self.wf(),
        ensures
            r.is_some() == self@.contains_key(id@),
            r.is_some() ==> *r.unwrap() == self@[id@],
    {
        match self.find(id) {
            Some(i) => {
                proof {
                    lemma_map_of_entry(self.entries@, i as int);
                }
                Some(&self.entries[i].value)
            },
            None => None,
        }
    }

    /// Gives `id` the value `value` and returns the value it had.
    pub fn insert(&mut self, id: Id, value: V) -> (r: Option<V>)
        requires
            old(self).wf(),
        ensures
            final(self).wf(),
            final(self)@ == old(self)@.insert(id@, value),
            r.is_some() == old(self)@.contains_key(id@),
            r.is_some() ==> r.unwrap() == old(self)@[id@],
    {
        match self.find(&id) {
            Some(i) => {
                let ghost before = self.entries@;
                let gone = self.entries.remove(i);
                let entry = Entry { id, value };
                proof {
                    lemma_map_of_entry(before, i as int);
                    lemma_map_of_remove(before, i as int);
                    lemma_map_of_update(before, i as int, entry);
                    assert(before.remove(i as int).insert(i as int, entry) =~= before.update(
                        i as int,
                        entry,
                    ));
                }
                self.entries.insert(i, entry);
                Some(gone.value)
            },
            None => {
                let entry = Entry { id, value };
                proof {
                    lemma_map_of_push(self.entries@, entry);
                }
                self.entries.push(entry);
                None
            },
        }
    }

    /// Adds an entry at the end under an id that the table does not hold.
    pub fn push_new(&mut self, id: Id, value: V)
        requires
            old(self).wf(),
            !old(self)@.contains_key(id@),
        ensures
            final(self).wf(),
            final(self)@ == old(self)@.insert(id@, value),
            final(self).entries() == old(self).entries().push(Entry { id, value }),
    {
        let entry = Entry { id, value };
        proof {
            lemma_map_of_push(self.entries@, entry);
        }
        self.entries.push(entry);
    }

    /// Takes `id` out and returns the value it had.
    pub fn remove(&mut self, id: &Id) -> (r: Option<V>)
        requires
            old(self).wf(),
        ensures
            final(self).wf(),
            final(self)@ == old(self)@.remove(id@),
            r.is_some() == old(self)@.contains_key(id@),
            r.is_some() ==> r.unwrap() == old(self)@[id@],
    {
        match self.find(id) {
            Some(i) => {
                proof {
                    lemma_map_of_entry(self.entries@, i as int);
                    lemma_map_of_remove(self.entries@, i as int);
                }
                let gone = self.entries.remove(i);
                Some(gone.value)
            },
            None => {
                assert(old(self)@.remove(id@) =~= old(self)@);
                None
            },
        }
    }
}

/// Whether `persist`, given a table that holds `map`, may have returned
/// `outcome`.
pub open spec fn wrote<V, E, F: FnOnce(&Table<V>) -> Result<(), E>>(
    persist: F,
    map: Map<Seq<char>, V>,
    outcome: Result<(), E>,
) -> bool {
    exists|table: &Table<V>| table@ == map && #[trigger] persist.ensures((table,), outcome)
}

} // verus!
