//! The report at the end of a tick: the targets that have changed at some
//! time, oldest change first, each with how recent its change is.

use crate::id::Id;
use crate::models::{Config, Data};
use crate::table::{Entry, Table};
use crate::timestamp::{Timestamp, NANOS_PER_DAY, NANOS_PER_HOUR};
use crate::url::Url;
use vstd::prelude::*;

verus! {

/// How recent a change is.
#[derive(Debug, Clone, Copy, PartialEq, Eq, Structural)]
pub enum Recency {
    /// At most an hour old.
    Fresh,
    /// At most a day old.
    Recent,
    /// Older than a day.
    Stale,
}

/// How recent a change at `last_updated` is at `now`, both in nanoseconds.
pub open spec fn recency_of(now: int, last_updated: int) -> Recency {
    if now - last_updated <= NANOS_PER_HOUR {
        Recency::Fresh
    } else if now - last_updated <= NANOS_PER_DAY {
        Recency::Recent
    } else {
        Recency::Stale
    }
}

/// How recent a change at `last_updated` is at `now`.
pub fn recency(now: Timestamp, last_updated: Timestamp) -> (r: Recency)
    ensures
        r == recency_of(now@, last_updated@),
{
    let age: i128 = now.unix_nanos() as i128 - last_updated.unix_nanos() as i128;
    if age <= 3_600_000_000_000 {
        Recency::Fresh
    } else if age <= 86_400_000_000_000 {
        Recency::Recent
    } else {
        Recency::Stale
    }
}

/// One line of the report.
#[derive(Debug)]
pub struct ReportRow {
    /// The target.
    pub id: Id,
    /// When its fingerprint last changed.
    pub last_updated: Timestamp,
    /// Its address, where it is still configured.
    pub url: Option<Url>,
    /// How recent the change is.
    pub recency: Recency,
}

/// One line of the report as plain values.
pub struct RowView {
    pub id: Seq<char>,
    pub last_updated: int,
    pub url: Option<Seq<char>>,
    pub recency: Recency,
}

impl View for ReportRow {
    type V = RowView;

    open spec fn view(&self) -> RowView {
        RowView {
            id: self.id@,
            last_updated: self.last_updated@,
            url: match self.url {
                Some(url) => Some(url@),
                None => None,
            },
            recency: self.recency,
        }
    }
}

/// The line for the target `key`, whose fingerprint last changed at `time`.
pub open spec fn row_of(
    key: Seq<char>,
    time: Timestamp,
    configs: Map<Seq<char>, Config>,
    now: Timestamp,
) -> RowView {
    RowView {
        id: key,
        last_updated: time@,
        url: if configs.contains_key(key) {
            Some(configs[key].url@)
        } else {
            None
        },
        recency: recency_of(now@, time@),
    }
}

/// The lines for `entries` in their order: one for each entry that has
/// changed at some time.
pub open spec fn listed(
    entries: Seq<Entry<Data>>,
    configs: Map<Seq<char>, Config>,
    now: Timestamp,
) -> Seq<RowView>
    decreases entries.len(),
{
    if entries.len() == 0 {
        Seq::empty()
    } else {
        let rest = listed(entries.drop_last(), configs, now);
        match entries.last().value.last_updated {
            Some(time) => rest.push(row_of(entries.last().id@, time, configs, now)),
            None => rest,
        }
    }
}

/// The lines of `rows` as plain values.
pub open spec fn views(rows: Seq<ReportRow>) -> Seq<RowView> {
    Seq::new(rows.len(), |i: int| rows[i]@)
}

/// Whether `rows` stand oldest change first.
pub open spec fn oldest_first(rows: Seq<RowView>) -> bool {
    forall|i: int, j: int|
        0 <= i < j < rows.len() ==> (#[trigger] rows[i]).last_updated <= (
        #[trigger] rows[j]).last_updated
}

/// Putting `x` into `s` at `p` adds `x` to what `s` holds and nothing else.
proof fn lemma_insert_holds<A>(s: Seq<A>, p: int, x: A)
    requires
        0 <= p <= s.len(),
    ensures
        s.insert(p, x).to_multiset() == s.to_multiset().insert(x),
{
    let t = s.insert(p, x);
    vstd::seq_lib::to_multiset_remove(t, p);
    assert(t.remove(p) =~= s);
    t.to_multiset_ensures();
    assert(t.contains(x)) by {
        assert(t[p] == x);
    }
    assert(t.to_multiset() =~= s.to_multiset().insert(x));
}

/// The report over `data` at `now`: one line for each target that has
/// changed at some time, oldest change first.
pub fn report(data: &Table<Data>, configs: &Table<Config>, now: Timestamp) -> (r: Vec<ReportRow>)
    requires
        data.wf(),
        configs.wf(),
    ensures
        oldest_first(views(r@)),
        views(r@).to_multiset() == listed(data.entries(), configs@, now).to_multiset(),
{
    let mut rows: Vec<ReportRow> = Vec::new();
    let mut i: usize = 0;
    proof {
        assert(views(rows@) =~= Seq::<RowView>::empty());
        assert(listed(data.entries().take(0), configs@, now) =~= Seq::<RowView>::empty());
    }
    while i < data.len()
        invariant
            data.wf(),
            configs.wf(),
            i <= data.entries().len(),
            oldest_first(views(rows@)),
            views(rows@).to_multiset() == listed(
                data.entries().take(i as int),
                configs@,
                now,
            ).to_multiset(),
        decreases data.entries().len() - i,
    {
        let entry = data.entry_at(i);
        proof {
            assert(data.entries().take(i + 1).drop_last() =~= data.entries().take(i as int));
            assert(data.entries().take(i + 1).last() == data.entries()[i as int]);
        }
        match entry.value.last_updated {
            Some(time) => {
                let url = match configs.get(&entry.id) {
                    Some(config) => Some(config.url.clone()),
                    None => None,
                };
                let row = ReportRow {
                    id: entry.id.clone(),
                    last_updated: time,
                    url,
                    recency: recency(now, time),
                };
                assert(row@ == row_of(entry.id@, time, configs@, now));
                let mut p: usize = 0;
                while p < rows.len() && rows[p].last_updated.unix_nanos() <= time.unix_nanos()
                    invariant
                        p <= rows@.len(),
                        forall|k: int| 0 <= k < p ==> (#[trigger] rows@[k]).last_updated@ <= time@,
                    decreases rows@.len() - p,
                {
                    p += 1;
                }
                let ghost before = rows@;
                rows.insert(p, row);
                proof {
                    assert(views(rows@) =~= views(before).insert(p as int, row@));
                    lemma_insert_holds(views(before), p as int, row@);
                    vstd::seq_lib::to_multiset_build(
                        listed(data.entries().take(i as int), configs@, now),
                        row@,
                    );
                    assert forall|a: int, b: int| 0 <= a < b < rows@.len() implies (
                    #[trigger] views(rows@)[a]).last_updated <= (#[trigger] views(
                        rows@,
                    )[b]).last_updated by {
                        let a0 = if a < p { a } else { a - 1 };
                        let b0 = if b < p { b } else { b - 1 };
                        if a != p && b != p {
                            assert(views(before)[a0].last_updated <= views(
                                before,
                            )[b0].last_updated);
                        } else if a == p {
                            assert(views(before)[p as int].last_updated <= views(
                                before,
                            )[b0].last_updated || b0 == p);
                            assert(before[p as int].last_updated@ > time@);
                        } else {
                            assert(before[a0].last_updated@ <= time@);
                        }
                    }
                }
            },
            None => {},
        }
        i += 1;
    }
    proof {
        assert(data.entries().take(i as int) =~= data.entries());
    }
    rows
}

} // verus!
