//! The configuration of each target, held in memory, with the discipline
//! that puts it back as it was when writing it out fails.

use crate::id::Id;
use crate::models::Config;
use crate::table::{
    distinct_ids, lemma_restore_undoes, lemma_take_next, lookup, map_of, restored, wrote, Table,
};
use vstd::prelude::*;

verus! {

/// What one id held before a change, kept to undo the change.
pub struct RestoreInfo {
    pub id: Id,
    pub data: Option<Config>,
}

/// The configuration of all targets, by id.
pub struct ConfigStore {
    map: Table<Config>,
}

impl View for ConfigStore {
    type V = Map<Seq<char>, Config>;

    closed spec fn view(&self) -> Map<Seq<char>, Config> {
        self.map@
    }
}

/// A copy of `table`.
pub fn copy_of(table: &Table<Config>) -> (r: Table<Config>)
    requires
        table.wf(),
    ensures
        r.wf(),
        r@ == table@,
        r.entries().len() == table.entries().len(),
{
    let mut out: Table<Config> = Table::new();
    let mut i: usize = 0;
    proof {
        table.lemma_view();
    }
    while i < table.len()
        invariant
            table.wf(),
            distinct_ids(table.entries()),
            i <= table.entries().len(),
            out.wf(),
            out@ == map_of(table.entries().take(i as int)),
            out.entries().len() == i,
        decreases table.entries().len() - i,
    {
        let entry = table.entry_at(i);
        proof {
            lemma_take_next(table.entries(), i as int);
        }
        out.push_new(entry.id.clone(), entry.value.clone());
        i += 1;
    }
    proof {
        assert(table.entries().take(i as int) =~= table.entries());
    }
    out
}

impl ConfigStore {
    /// Whether no id is held twice. Every store that this module hands out is
    /// well formed, and every function here keeps it so.
    pub closed spec fn wf(&self) -> bool {
        self.map.wf()
    }

    /// The store without any configuration.
    pub fn new() -> (r: ConfigStore)
        ensures
            r.wf(),
            r@ == Map::<Seq<char>, Config>::empty(),
    {
        ConfigStore { map: Table::new() }
    }

    /// The store that holds what `table` holds.
    pub fn from_table(table: Table<Config>) -> (r: ConfigStore)
        requires
            table.wf(),
        ensures
            r.wf(),
            r@ == table@,
    {
        ConfigStore { map: table }
    }

    /// A copy of everything held.
    pub fn get_all(&self) -> (r: Table<Config>)
        requires
            self.wf(),
        ensures
            r.wf(),
            r@ == self@,
    {
        copy_of(&self.map)
    }

    /// Gives `id` the configuration `config`, and returns what `id` held
    /// before.
    pub fn update_map(&mut self, id: Id, config: Config) -> (r: RestoreInfo)
        requires
            old(self).wf(),
        ensures
            final(self).wf(),
            final(self)@ == old(self)@.insert(id@, config),
            r.id == id,
            r.data == lookup(old(self)@, id@),
    {
        let old_data = self.map.insert(id.clone(), config);
        RestoreInfo { id, data: old_data }
    }

    /// Forgets `id`, and returns what it held before.
    pub fn delete_map(&mut self, id: Id) -> (r: RestoreInfo)
        requires
            old(self).wf(),
        ensures
            final(self).wf(),
            final(self)@ == old(self)@.remove(id@),
            r.id == id,
            r.data == lookup(old(self)@, id@),
    {
        let old_data = self.map.remove(&id);
        RestoreInfo { id, data: old_data }
    }

    /// Gives one id back what it held before a change.
    pub fn restore(&mut self, restore_info: RestoreInfo)
        requires
            old(self).wf(),
        ensures
            final(self).wf(),
            final(self)@ == restored(old(self)@, restore_info.id@, restore_info.data),
    {
        let RestoreInfo { id, data } = restore_info;
        match data {
            Some(data) => {
                let _ = self.map.insert(id, data);
            },
            None => {
                let _ = self.map.remove(&id);
            },
        }
    }

    /// Gives `id` the configuration `config`, then has `persist` write the
    /// store out. Where the write fails the store is put back as it was and
    /// the failure is handed on.
    pub fn update<E, F: FnOnce(&Table<Config>) -> Result<(), E>>(
        &mut self,
        id: Id,
        config: Config,
        persist: F,
    ) -> (r: Result<(), E>)
        requires
            old(self).wf(),
            forall|table: &Table<Config>| table.wf() ==> #[trigger] persist.requires((table,)),
        ensures
            final(self).wf(),
            r.is_ok() ==> final(self)@ == old(self)@.insert(id@, config),
            r.is_ok() ==> exists|written: Result<(), E>|
                written.is_ok() && #[trigger] wrote(persist, final(self)@, written),
            r.is_err() ==> final(self)@ == old(self)@,
            r.is_err() ==> wrote(persist, old(self)@.insert(id@, config), Err(r->Err_0)),
    {
        let ghost key = id@;
        let restore_info = self.update_map(id, config);
        let ghost staged = self.map;
        let outcome = persist(&self.map);
        match outcome {
            Ok(_) => {
                assert(staged@ == self@ && persist.ensures((&staged,), outcome));
                assert(wrote(persist, self@, outcome));
                Ok(())
            },
            Err(e) => {
                proof {
                    lemma_restore_undoes(old(self)@, key);
                }
                self.restore(restore_info);
                let r: Result<(), E> = Err(e);
                assert(persist.ensures((&staged,), Err(r->Err_0)));
                r
            },
        }
    }

    /// Forgets `id`, then has `persist` write the store out. Where the write
    /// fails the store is put back as it was and the failure is handed on;
    /// else what `id` held is returned.
    pub fn delete<E, F: FnOnce(&Table<Config>) -> Result<(), E>>(
        &mut self,
        id: Id,
        persist: F,
    ) -> (r: Result<Option<Config>, E>)
        requires
            old(self).wf(),
            forall|table: &Table<Config>| table.wf() ==> #[trigger] persist.requires((table,)),
        ensures
            final(self).wf(),
            r.is_ok() ==> final(self)@ == old(self)@.remove(id@),
            r.is_ok() ==> r->Ok_0 == lookup(old(self)@, id@),
            r.is_ok() ==> exists|written: Result<(), E>|
                written.is_ok() && #[trigger] wrote(persist, final(self)@, written),
            r.is_err() ==> final(self)@ == old(self)@,
            r.is_err() ==> wrote(persist, old(self)@.remove(id@), Err(r->Err_0)),
    {
        let ghost key = id@;
        let restore_info = self.delete_map(id);
        let ghost staged = self.map;
        let outcome = persist(&self.map);
        match outcome {
            Ok(_) => {
                assert(staged@ == self@ && persist.ensures((&staged,), outcome));
                assert(wrote(persist, self@, outcome));
                Ok(restore_info.data)
            },
            Err(e) => {
                proof {
                    lemma_restore_undoes(old(self)@, key);
                }
                self.restore(restore_info);
                let r: Result<Option<Config>, E> = Err(e);
                assert(persist.ensures((&staged,), Err(r->Err_0)));
                r
            },
        }
    }
}

} // verus!
