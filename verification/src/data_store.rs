//! The record of what was last seen of each target, held in memory, with the
//! discipline that puts it back as it was when writing it out fails.

use crate::id::Id;
use crate::models::Data;
use crate::table::{
    distinct_ids, has_id, lemma_map_of_entry, lemma_restore_undoes, lemma_take_next, lookup, map_of,
    position_of, restored, wrote, Entry, Table,
};
use crate::timestamp::Timestamp;
use vstd::prelude::*;

verus! {

/// Whether a look that found `hash` is a change against what was held.
pub open spec fn is_change(prior: Option<Data>, hash: crate::hash::Hash) -> bool {
    match prior {
        Some(data) => match data.hash {
            Some(held) => held@ != hash@,
            None => true,
        },
        None => true,
    }
}

/// What is held of a target after a look at `now` that found `hash`: the look
/// is recorded always, the change only where the fingerprint differs from
/// the one held.
pub open spec fn updated_data(prior: Option<Data>, hash: crate::hash::Hash, now: Timestamp) -> Data {
    Data {
        hash: Some(hash),
        last_updated: if is_change(prior, hash) {
            Some(now)
        } else {
            prior.unwrap().last_updated
        },
        last_checked: now,
    }
}

/// What an update reports: the time of the look where it was a change.
pub open spec fn change_time(prior: Option<Data>, hash: crate::hash::Hash, now: Timestamp) -> Option<
    Timestamp,
> {
    if is_change(prior, hash) {
        Some(now)
    } else {
        None
    }
}

/// The mapping after one look at `now` at every id of `batch`, each with the
/// fingerprint that `batch` gives it.
pub open spec fn updated_all(
    map: Map<Seq<char>, Data>,
    batch: Map<Seq<char>, crate::hash::Hash>,
    now: Timestamp,
) -> Map<Seq<char>, Data> {
    Map::new(
        |key: Seq<char>| map.contains_key(key) || batch.contains_key(key),
        |key: Seq<char>|
            if batch.contains_key(key) {
                updated_data(lookup(map, key), batch[key], now)
            } else {
                map[key]
            },
    )
}

/// Whether `key` is the text of one of `ids`.
pub open spec fn asked(ids: Seq<Id>, key: Seq<char>) -> bool {
    exists|j: int| 0 <= j < ids.len() && #[trigger] ids[j]@ == key
}

/// Whether one of the entries from `lo` up to `hi` has the id text `key`.
spec fn touched(entries: Seq<Entry<crate::hash::Hash>>, lo: int, hi: int, key: Seq<char>) -> bool {
    exists|j: int| lo <= j < hi && 0 <= j < entries.len() && #[trigger] entries[j].id@ == key
}

/// The position, from `lo` up to `hi`, of an entry with the id text `key`.
spec fn touch_at(entries: Seq<Entry<crate::hash::Hash>>, lo: int, hi: int, key: Seq<char>) -> int {
    choose|j: int| lo <= j < hi && 0 <= j < entries.len() && #[trigger] entries[j].id@ == key
}

/// The mapping in which the ids of the entries from `lo` up to `hi` hold
/// what a look at `now` gives them, and every other id what `map` holds.
spec fn partly_updated(
    map: Map<Seq<char>, Data>,
    entries: Seq<Entry<crate::hash::Hash>>,
    lo: int,
    hi: int,
    now: Timestamp,
) -> Map<Seq<char>, Data> {
    Map::new(
        |key: Seq<char>| map.contains_key(key) || touched(entries, lo, hi, key),
        |key: Seq<char>|
            if touched(entries, lo, hi, key) {
                updated_data(lookup(map, key), entries[touch_at(entries, lo, hi, key)].value, now)
            } else {
                map[key]
            },
    )
}

/// Where no entry is touched, the mapping is as it was.
proof fn lemma_touched_none(
    map: Map<Seq<char>, Data>,
    entries: Seq<Entry<crate::hash::Hash>>,
    at: int,
    now: Timestamp,
)
    ensures
        partly_updated(map, entries, at, at, now) == map,
{
    assert(partly_updated(map, entries, at, at, now) =~= map);
}

/// Where every entry is touched, the mapping is the one after the whole
/// batch.
proof fn lemma_touched_all(
    map: Map<Seq<char>, Data>,
    entries: Seq<Entry<crate::hash::Hash>>,
    now: Timestamp,
)
    requires
        distinct_ids(entries),
    ensures
        partly_updated(map, entries, 0, entries.len() as int, now) == updated_all(
            map,
            map_of(entries),
            now,
        ),
{
    let n = entries.len() as int;
    let part = partly_updated(map, entries, 0, n, now);
    let all = updated_all(map, map_of(entries), now);
    assert forall|key: Seq<char>| touched(entries, 0, n, key) <==> has_id(entries, key) by {
        if touched(entries, 0, n, key) {
            let j = touch_at(entries, 0, n, key);
            assert(entries[j].id@ == key);
        }
        if has_id(entries, key) {
            let j = position_of(entries, key);
            assert(entries[j].id@ == key);
        }
    }
    assert forall|key: Seq<char>| part.contains_key(key) implies #[trigger] part[key]
        == all[key] by {
        if touched(entries, 0, n, key) {
            let j = touch_at(entries, 0, n, key);
            lemma_map_of_entry(entries, j);
        }
    }
    assert(part =~= all);
}

/// Touching the entry at `i` after those before it is one update of its id,
/// which until then holds what it held at first.
proof fn lemma_touched_forward(
    map: Map<Seq<char>, Data>,
    entries: Seq<Entry<crate::hash::Hash>>,
    i: int,
    now: Timestamp,
)
    requires
        distinct_ids(entries),
        0 <= i < entries.len(),
    ensures
        lookup(partly_updated(map, entries, 0, i, now), entries[i].id@) == lookup(
            map,
            entries[i].id@,
        ),
        partly_updated(map, entries, 0, i + 1, now) == partly_updated(
            map,
            entries,
            0,
            i,
            now,
        ).insert(entries[i].id@, updated_data(lookup(map, entries[i].id@), entries[i].value, now)),
{
    let key_i = entries[i].id@;
    let sooner = partly_updated(map, entries, 0, i, now);
    let later = partly_updated(map, entries, 0, i + 1, now);
    let want = sooner.insert(key_i, updated_data(lookup(map, key_i), entries[i].value, now));
    if touched(entries, 0, i, key_i) {
        let j = touch_at(entries, 0, i, key_i);
        assert(entries[j].id@ == entries[i].id@);
        assert(false);
    }
    assert forall|key: Seq<char>| touched(entries, 0, i + 1, key) <==> (touched(
        entries,
        0,
        i,
        key,
    ) || key == key_i) by {
        if touched(entries, 0, i, key) {
            let j = touch_at(entries, 0, i, key);
            assert(entries[j].id@ == key);
        }
        if key == key_i {
            assert(entries[i].id@ == key);
        }
    }
    assert forall|key: Seq<char>| later.contains_key(key) implies #[trigger] later[key]
        == want[key] by {
        if touched(entries, 0, i + 1, key) {
            let a = touch_at(entries, 0, i + 1, key);
            if key == key_i {
                assert(a == i);
            } else {
                let b = touch_at(entries, 0, i, key);
                assert(a == b);
            }
        }
    }
    assert(later =~= want);
}

/// Giving the id of the entry at `j` back what it held at first leaves the
/// entries after it touched, and no others.
proof fn lemma_touched_backward(
    map: Map<Seq<char>, Data>,
    entries: Seq<Entry<crate::hash::Hash>>,
    j: int,
    now: Timestamp,
)
    requires
        distinct_ids(entries),
        0 <= j < entries.len(),
    ensures
        restored(
            partly_updated(map, entries, j, entries.len() as int, now),
            entries[j].id@,
            lookup(map, entries[j].id@),
        ) == partly_updated(map, entries, j + 1, entries.len() as int, now),
{
    let n = entries.len() as int;
    let key_j = entries[j].id@;
    let sooner = partly_updated(map, entries, j, n, now);
    let later = partly_updated(map, entries, j + 1, n, now);
    let got = restored(sooner, key_j, lookup(map, key_j));
    if touched(entries, j + 1, n, key_j) {
        let a = touch_at(entries, j + 1, n, key_j);
        assert(entries[a].id@ == entries[j].id@);
        assert(false);
    }
    assert forall|key: Seq<char>| touched(entries, j, n, key) <==> (touched(
        entries,
        j + 1,
        n,
        key,
    ) || key == key_j) by {
        if touched(entries, j + 1, n, key) {
            let a = touch_at(entries, j + 1, n, key);
            assert(entries[a].id@ == key);
        }
        if key == key_j {
            assert(entries[j].id@ == key);
        }
    }
    assert forall|key: Seq<char>| later.contains_key(key) implies #[trigger] later[key]
        == got[key] by {
        if touched(entries, j + 1, n, key) {
            let a = touch_at(entries, j + 1, n, key);
            let b = touch_at(entries, j, n, key);
            assert(a == b);
        }
    }
    assert(got =~= later);
}

/// What one id held before a change, kept to undo the change.
pub struct RestoreInfo {
    pub id: Id,
    pub data: Option<Data>,
}

/// The data of all targets, by id.
pub struct DataStore {
    map: Table<Data>,
}

impl View for DataStore {
    type V = Map<Seq<char>, Data>;

    closed spec fn view(&self) -> Map<Seq<char>, Data> {
        self.map@
    }
}

impl DataStore {
    /// Whether no id is held twice. Every store that this module hands out is
    /// well formed, and every function here keeps it so.
    pub closed spec fn wf(&self) -> bool {
        self.map.wf()
    }

    /// The store without any data.
    pub fn new() -> (r: DataStore)
        ensures
            r.wf(),
            r@ == Map::<Seq<char>, Data>::empty(),
    {
        DataStore { map: Table::new() }
    }

    /// The store that holds what `table` holds.
    pub fn from_table(table: Table<Data>) -> (r: DataStore)
        requires
            table.wf(),
        ensures
            r.wf(),
            r@ == table@,
    {
        DataStore { map: table }
    }

    /// What is held of `id`.
    pub fn get(&self, id: &Id) -> (r: Option<Data>)
        requires
            self.wf(),
        ensures
            r == lookup(self@, id@),
    {
        match self.map.get(id) {
            Some(data) => Some(*data),
            None => None,
        }
    }

    /// Records a look at `now` that found `hash` for `id`, and returns what
    /// `id` held before.
    pub fn update_map(&mut self, id: Id, hash: crate::hash::Hash, now: Timestamp) -> (r:
        RestoreInfo)
        requires
            old(self).wf(),
        ensures
            final(self).wf(),
            final(self)@ == old(self)@.insert(
                id@,
                updated_data(lookup(old(self)@, id@), hash, now),
            ),
            r.id == id,
            r.data == lookup(old(self)@, id@),
    {
        let prior: Option<Data> = self.get(&id);
        let last_updated = match prior {
            Some(data) => match data.hash {
                Some(held) => if held == hash {
                    data.last_updated
                } else {
                    Some(now)
                },
                None => Some(now),
            },
            None => Some(now),
        };
        let data = Data { hash: Some(hash), last_updated, last_checked: now };
        let old_data = self.map.insert(id.clone(), data);
        RestoreInfo { id, data: old_data }
    }

    /// Records a look at `now` that found `hash` for `id`, then has `persist`
    /// write the store out. Where the write fails the store is put back as it
    /// was and the failure is handed on; else the time of the look is
    /// returned where the look was a change.
    pub fn update_at<E, F: FnOnce(&Table<Data>) -> Result<(), E>>(
        &mut self,
        id: Id,
        hash: crate::hash::Hash,
        now: Timestamp,
        persist: F,
    ) -> (r: Result<Option<Timestamp>, E>)
        requires
            old(self).wf(),
            forall|table: &Table<Data>| table.wf() ==> #[trigger] persist.requires((table,)),
        ensures
            final(self).wf(),
            r.is_ok() ==> final(self)@ == old(self)@.insert(
                id@,
                updated_data(lookup(old(self)@, id@), hash, now),
            ),
            r.is_ok() ==> r->Ok_0 == change_time(lookup(old(self)@, id@), hash, now),
            r.is_ok() ==> exists|written: Result<(), E>|
                written.is_ok() && #[trigger] wrote(persist, final(self)@, written),
            r.is_err() ==> final(self)@ == old(self)@,
            r.is_err() ==> wrote(
                persist,
                old(self)@.insert(id@, updated_data(lookup(old(self)@, id@), hash, now)),
                Err(r->Err_0),
            ),
    {
        let restore_info = self.update_map(id, hash, now);
        let time = match restore_info.data {
            Some(data) => match data.hash {
                Some(held) => if held == hash {
                    None
                } else {
                    Some(now)
                },
                None => Some(now),
            },
            None => Some(now),
        };
        let ghost staged = self.map;
        let outcome = persist(&self.map);
        match outcome {
            Ok(_) => {
                assert(staged@ == self@ && persist.ensures((&staged,), outcome));
                assert(wrote(persist, self@, outcome));
                Ok(time)
            },
            Err(e) => {
                proof {
                    lemma_restore_undoes(old(self)@, id@);
                }
                self.restore(restore_info);
                let r: Result<Option<Timestamp>, E> = Err(e);
                assert(persist.ensures((&staged,), Err(r->Err_0)));
                r
            },
        }
    }

    /// Records a look at the present instant that found `hash` for `id`, as
    /// [`DataStore::update_at`] does. The clock decides the instant: it is
    /// the time of the last look that `id` holds afterwards. The call fails
    /// only with the failure that `persist` returned for the store as the
    /// look at some instant leaves it.
    pub fn update<E, F: FnOnce(&Table<Data>) -> Result<(), E>>(
        &mut self,
        id: Id,
        hash: crate::hash::Hash,
        persist: F,
    ) -> (r: Result<Option<Timestamp>, E>)
        requires
            old(self).wf(),
            forall|table: &Table<Data>| table.wf() ==> #[trigger] persist.requires((table,)),
        ensures
            final(self).wf(),
            r.is_ok() ==> final(self)@.contains_key(id@),
            r.is_ok() ==> final(self)@ == old(self)@.insert(
                id@,
                updated_data(lookup(old(self)@, id@), hash, final(self)@[id@].last_checked),
            ),
            r.is_ok() ==> r->Ok_0 == change_time(
                lookup(old(self)@, id@),
                hash,
                final(self)@[id@].last_checked,
            ),
            r.is_ok() ==> exists|written: Result<(), E>|
                written.is_ok() && #[trigger] wrote(persist, final(self)@, written),
            r.is_err() ==> final(self)@ == old(self)@,
            r.is_err() ==> exists|now: Timestamp| #[trigger]
                wrote(
                    persist,
                    old(self)@.insert(id@, updated_data(lookup(old(self)@, id@), hash, now)),
                    Err(r->Err_0),
                ),
    {
        let now = Timestamp::now();
        let r = self.update_at(id, hash, now, persist);
        assert(r.is_err() ==> wrote(
            persist,
            old(self)@.insert(id@, updated_data(lookup(old(self)@, id@), hash, now)),
            Err(r->Err_0),
        ));
        r
    }

    /// Records one look at `now` for every id of `batch`, each with the
    /// fingerprint that `batch` gives it, then has `persist` write the store
    /// out once. Where the write fails every entry is put back as it was,
    /// and the failure is handed on.
    pub fn update_multiple_at<E, F: FnOnce(&Table<Data>) -> Result<(), E>>(
        &mut self,
        batch: &Table<crate::hash::Hash>,
        now: Timestamp,
        persist: F,
    ) -> (r: Result<(), E>)
        requires
            old(self).wf(),
            batch.wf(),
            forall|table: &Table<Data>| table.wf() ==> #[trigger] persist.requires((table,)),
        ensures
            final(self).wf(),
            r.is_ok() ==> final(self)@ == updated_all(old(self)@, batch@, now),
            r.is_ok() ==> exists|written: Result<(), E>|
                written.is_ok() && #[trigger] wrote(persist, final(self)@, written),
            r.is_err() ==> final(self)@ == old(self)@,
            r.is_err() ==> wrote(persist, updated_all(old(self)@, batch@, now), Err(r->Err_0)),
    {
        let ghost entries = batch.entries();
        let n = batch.len();
        let mut restore_infos: Vec<RestoreInfo> = Vec::new();
        let mut i: usize = 0;
        proof {
            batch.lemma_view();
            lemma_touched_none(old(self)@, entries, 0, now);
        }
        while i < n
            invariant
                batch.wf(),
                entries == batch.entries(),
                distinct_ids(entries),
                n == entries.len(),
                i <= n,
                self.wf(),
                self@ == partly_updated(old(self)@, entries, 0, i as int, now),
                restore_infos@.len() == i,
                forall|k: int|
                    0 <= k < i ==> (#[trigger] restore_infos@[k]).id@ == entries[k].id@
                        && restore_infos@[k].data == lookup(old(self)@, entries[k].id@),
            decreases n - i,
        {
            let entry = batch.entry_at(i);
            proof {
                lemma_touched_forward(old(self)@, entries, i as int, now);
            }
            let restore_info = self.update_map(entry.id.clone(), entry.value, now);
            restore_infos.push(restore_info);
            i += 1;
        }
        proof {
            lemma_touched_all(old(self)@, entries, now);
        }
        let ghost staged = self.map;
        let outcome = persist(&self.map);
        match outcome {
            Ok(_) => {
                assert(staged@ == self@ && persist.ensures((&staged,), outcome));
                assert(wrote(persist, self@, outcome));
                Ok(())
            },
            Err(e) => {
                let mut j: usize = 0;
                while j < n
                    invariant
                        distinct_ids(entries),
                        n == entries.len(),
                        j <= n,
                        self.wf(),
                        self@ == partly_updated(old(self)@, entries, j as int, n as int, now),
                        restore_infos@.len() == n - j,
                        forall|k: int|
                            0 <= k < n - j ==> (#[trigger] restore_infos@[k]).id@ == entries[j
                                + k].id@ && restore_infos@[k].data == lookup(
                                old(self)@,
                                entries[j + k].id@,
                            ),
                    decreases n - j,
                {
                    proof {
                        lemma_touched_backward(old(self)@, entries, j as int, now);
                    }
                    let restore_info = restore_infos.remove(0);
                    self.restore(restore_info);
                    j += 1;
                }
                proof {
                    lemma_touched_none(old(self)@, entries, n as int, now);
                }
                let r: Result<(), E> = Err(e);
                assert(persist.ensures((&staged,), Err(r->Err_0)));
                r
            },
        }
    }

    /// Records one look at the present instant for every id of `batch`, as
    /// [`DataStore::update_multiple_at`] does. The clock decides the instant.
    /// The call fails only with the failure that `persist` returned for the
    /// store as the looks at some instant leave it.
    pub fn update_multiple<E, F: FnOnce(&Table<Data>) -> Result<(), E>>(
        &mut self,
        batch: &Table<crate::hash::Hash>,
        persist: F,
    ) -> (r: Result<(), E>)
        requires
            old(self).wf(),
            batch.wf(),
            forall|table: &Table<Data>| table.wf() ==> #[trigger] persist.requires((table,)),
        ensures
            final(self).wf(),
            r.is_ok() ==> exists|now: Timestamp| #[trigger]
                updated_all(old(self)@, batch@, now) == final(self)@,
            r.is_ok() ==> exists|written: Result<(), E>|
                written.is_ok() && #[trigger] wrote(persist, final(self)@, written),
            r.is_err() ==> final(self)@ == old(self)@,
            r.is_err() ==> exists|now: Timestamp| #[trigger]
                wrote(persist, updated_all(old(self)@, batch@, now), Err(r->Err_0)),
    {
        let now = Timestamp::now();
        let r = self.update_multiple_at(batch, now, persist);
        assert(r.is_ok() ==> updated_all(old(self)@, batch@, now) == self@);
        assert(r.is_err() ==> wrote(
            persist,
            updated_all(old(self)@, batch@, now),
            Err(r->Err_0),
        ));
        r
    }

    /// Forgets `id`, then has `persist` write the store out. Where the write
    /// fails the store is put back as it was and the failure is handed on;
    /// else what `id` held is returned.
    pub fn delete<E, F: FnOnce(&Table<Data>) -> Result<(), E>>(&mut self, id: Id, persist: F) -> (r:
        Result<Option<Data>, E>)
        requires
            old(self).wf(),
            forall|table: &Table<Data>| table.wf() ==> #[trigger] persist.requires((table,)),
        ensures
            final(self).wf(),
            r.is_ok() ==> final(self)@ == old(self)@.remove(id@),
            r.is_ok() ==> r->Ok_0 == lookup(old(self)@, id@),
            r.is_ok() ==> exists|written: Result<(), E>|
                written.is_ok() && #[trigger] wrote(persist, final(self)@, written),
            r.is_err() ==> final(self)@ == old(self)@,
            r.is_err() ==> wrote(persist, old(self)@.remove(id@), Err(r->Err_0)),
    {
        let ghost key = id@;
        let restore_info = self.delete_map(id);
        let ghost staged = self.map;
        let outcome = persist(&self.map);
        match outcome {
            Ok(_) => {
                assert(staged@ == self@ && persist.ensures((&staged,), outcome));
                assert(wrote(persist, self@, outcome));
                Ok(restore_info.data)
            },
            Err(e) => {
                proof {
                    lemma_restore_undoes(old(self)@, key);
                }
                self.restore(restore_info);
                let r: Result<Option<Data>, E> = Err(e);
                assert(persist.ensures((&staged,), Err(r->Err_0)));
                r
            },
        }
    }

    /// A copy of everything held.
    pub fn get_all(&self) -> (r: Table<Data>)
        requires
            self.wf(),
        ensures
            r.wf(),
            r@ == self@,
    {
        let mut out: Table<Data> = Table::new();
        let mut i: usize = 0;
        proof {
            self.map.lemma_view();
        }
        while i < self.map.len()
            invariant
                self.map.wf(),
                distinct_ids(self.map.entries()),
                i <= self.map.entries().len(),
                out.wf(),
                out@ == map_of(self.map.entries().take(i as int)),
            decreases self.map.entries().len() - i,
        {
            let entry = self.map.entry_at(i);
            proof {
                lemma_take_next(self.map.entries(), i as int);
            }
            out.push_new(entry.id.clone(), entry.value);
            i += 1;
        }
        proof {
            assert(self.map.entries().take(i as int) =~= self.map.entries());
        }
        out
    }

    /// A copy of what is held of those of `ids` that hold anything.
    pub fn get_multiple(&self, ids: &Vec<Id>) -> (r: Table<Data>)
        requires
            self.wf(),
        ensures
            r.wf(),
            r@ == self@.restrict(Set::new(|key: Seq<char>| asked(ids@, key))),
    {
        let mut out: Table<Data> = Table::new();
        let mut i: usize = 0;
        while i < ids.len()
            invariant
                self.wf(),
                i <= ids@.len(),
                out.wf(),
                out@ == self@.restrict(
                    Set::new(|key: Seq<char>| asked(ids@.take(i as int), key)),
                ),
            decreases ids@.len() - i,
        {
            let id = &ids[i];
            let ghost before = out@;
            match self.map.get(id) {
                Some(data) => {
                    let _ = out.insert(id.clone(), *data);
                },
                None => {},
            }
            proof {
                let sooner = ids@.take(i as int);
                let later = ids@.take(i + 1);
                assert forall|key: Seq<char>| asked(later, key) <==> (asked(sooner, key) || key
                    == id@) by {
                    if asked(sooner, key) {
                        let j = choose|j: int| 0 <= j < sooner.len() && sooner[j]@ == key;
                        assert(later[j]@ == key);
                    }
                    if key == id@ {
                        assert(later[i as int]@ == key);
                    }
                    if asked(later, key) {
                        let j = choose|j: int| 0 <= j < later.len() && later[j]@ == key;
                        if j < i {
                            assert(sooner[j]@ == key);
                        }
                    }
                }
                assert(out@ =~= self@.restrict(Set::new(|key: Seq<char>| asked(later, key))));
            }
            i += 1;
        }
        proof {
            assert(ids@.take(i as int) =~= ids@);
        }
        out
    }

    /// Forgets `id`, and returns what it held before.
    pub fn delete_map(&mut self, id: Id) -> (r: RestoreInfo)
        requires
            old(self).wf(),
        ensures
            final(self).wf(),
            final(self)@ == old(self)@.remove(id@),
            r.id == id,
            r.data == lookup(old(self)@, id@),
    {
        let old_data = self.map.remove(&id);
        RestoreInfo { id, data: old_data }
    }

    /// Gives one id back what it held before a change.
    pub fn restore(&mut self, restore_info: RestoreInfo)
        requires
            old(self).wf(),
        ensures
            final(self).wf(),
            final(self)@ == restored(old(self)@, restore_info.id@, restore_info.data),
    {
        let RestoreInfo { id, data } = restore_info;
        match data {
            Some(data) => {
                let _ = self.map.insert(id, data);
            },
            None => {
                let _ = self.map.remove(&id);
            },
        }
    }
}

/// After an update the last change never lies after the last look, provided
/// that held before and the clock did not run backwards.
pub proof fn lemma_update_keeps_order(prior: Option<Data>, hash: crate::hash::Hash, now: Timestamp)
    requires
        prior.is_some() ==> prior.unwrap().consistent() && prior.unwrap().last_checked@ <= now@,
    ensures
        updated_data(prior, hash, now).consistent(),
{
}

/// The time of the last change never moves back across an update, provided
/// the clock did not run backwards.
pub proof fn lemma_last_updated_monotone(
    prior: Data,
    hash: crate::hash::Hash,
    now: Timestamp,
)
    requires
        prior.consistent(),
        prior.last_checked@ <= now@,
        prior.last_updated.is_some(),
    ensures
        updated_data(Some(prior), hash, now).last_updated.is_some(),
        prior.last_updated.unwrap()@ <= updated_data(
            Some(prior),
            hash,
            now,
        ).last_updated.unwrap()@,
{
}

/// An update reports a time exactly when no fingerprint was held or the one
/// held differs, and the time it reports is the time of the last look
/// afterwards.
pub proof fn lemma_change_time(prior: Option<Data>, hash: crate::hash::Hash, now: Timestamp)
    ensures
        change_time(prior, hash, now).is_some() <==> (prior.is_none()
            || prior.unwrap().hash.is_none() || prior.unwrap().hash.unwrap()@ != hash@),
        change_time(prior, hash, now).is_some() ==> change_time(prior, hash, now).unwrap()
            == updated_data(prior, hash, now).last_checked,
        change_time(prior, hash, now).is_some() ==> updated_data(prior, hash, now).last_updated
            == Some(now),
        change_time(prior, hash, now).is_none() ==> updated_data(prior, hash, now).last_updated
            == prior.unwrap().last_updated,
{
}

/// A second look that finds the same fingerprint is no change: it reports
/// no time, leaves the time of the last change as the first look set it,
/// and moves only the time of the last look.
pub proof fn lemma_repeat_is_no_change(
    prior: Option<Data>,
    hash: crate::hash::Hash,
    first: Timestamp,
    second: Timestamp,
)
    ensures
        change_time(Some(updated_data(prior, hash, first)), hash, second).is_none(),
        updated_data(Some(updated_data(prior, hash, first)), hash, second).last_updated
            == updated_data(prior, hash, first).last_updated,
        updated_data(Some(updated_data(prior, hash, first)), hash, second).last_checked == second,
        updated_data(Some(updated_data(prior, hash, first)), hash, second).hash == Some(hash),
{
}

} // verus!
