//! Routing targets to one of two pollers by their mode.

use crate::models::{Config, Mode};
use crate::table::{distinct_ids, lemma_take_next, map_of, Table};
use vstd::prelude::*;
use vstd::string::StringExecFns;

verus! {

/// A pair of pollers: one for targets in full mode, one for targets in
/// simple mode.
#[derive(Debug)]
pub struct SelectivePoller<FullModePoller, SimpleModePoller> {
    pub full_mode_poller: FullModePoller,
    pub simple_mode_poller: SimpleModePoller,
}

/// The failure of a poll, tagged with the poller it came from.
#[derive(Debug)]
pub enum Error<FullModePollerError, SimpleModePollerError> {
    FullModePollerError(FullModePollerError),
    SimpleModePollerError(SimpleModePollerError),
}

impl<FullModePollerError, SimpleModePollerError> Error<
    FullModePollerError,
    SimpleModePollerError,
> {
    /// The failure in words, given the words of the poller's own failure.
    pub fn describe(&self, inner: &str) -> (r: String)
        ensures
            r@ == "failed to poll the content: "@ + inner@,
    {
        "failed to poll the content: ".to_owned().concat(inner)
    }
}

/// The targets of `map` that are in mode `mode`.
pub open spec fn of_mode(map: Map<Seq<char>, Config>, mode: Mode) -> Map<Seq<char>, Config> {
    Map::new(|key: Seq<char>| map.contains_key(key) && map[key].mode == mode, |key: Seq<char>| map[key])
}

/// Targets split by mode.
pub struct Partition {
    /// The targets in full mode.
    pub full: Table<Config>,
    /// The targets in simple mode.
    pub simple: Table<Config>,
}

/// Splits `configs` by mode: each target goes to the side of its mode, with
/// its configuration unchanged.
pub fn partition(configs: &Table<Config>) -> (r: Partition)
    requires
        configs.wf(),
    ensures
        r.full.wf(),
        r.simple.wf(),
        r.full@ == of_mode(configs@, Mode::Full),
        r.simple@ == of_mode(configs@, Mode::Simple),
{
    let mut full: Table<Config> = Table::new();
    let mut simple: Table<Config> = Table::new();
    let mut i: usize = 0;
    proof {
        configs.lemma_view();
        assert(full@ =~= of_mode(map_of(configs.entries().take(0)), Mode::Full));
        assert(simple@ =~= of_mode(map_of(configs.entries().take(0)), Mode::Simple));
    }
    while i < configs.len()
        invariant
            configs.wf(),
            distinct_ids(configs.entries()),
            i <= configs.entries().len(),
            full.wf(),
            simple.wf(),
            full@ == of_mode(map_of(configs.entries().take(i as int)), Mode::Full),
            simple@ == of_mode(map_of(configs.entries().take(i as int)), Mode::Simple),
        decreases configs.entries().len() - i,
    {
        let entry = configs.entry_at(i);
        let ghost sooner = map_of(configs.entries().take(i as int));
        let ghost later = map_of(configs.entries().take(i + 1));
        proof {
            lemma_take_next(configs.entries(), i as int);
        }
        match entry.value.mode {
            Mode::Full => {
                full.push_new(entry.id.clone(), entry.value.clone());
            },
            Mode::Simple => {
                simple.push_new(entry.id.clone(), entry.value.clone());
            },
        }
        proof {
            assert(full@ =~= of_mode(later, Mode::Full));
            assert(simple@ =~= of_mode(later, Mode::Simple));
        }
        i += 1;
    }
    proof {
        assert(configs.entries().take(i as int) =~= configs.entries());
    }
    Partition { full, simple }
}

impl<FullModePoller, SimpleModePoller> SelectivePoller<FullModePoller, SimpleModePoller> {
    /// Pairs the two pollers.
    pub fn new(full_mode_poller: FullModePoller, simple_mode_poller: SimpleModePoller) -> (r: Self)
        ensures
            r.full_mode_poller == full_mode_poller,
            r.simple_mode_poller == simple_mode_poller,
    {
        SelectivePoller { full_mode_poller, simple_mode_poller }
    }
}

/// The result of the full-mode poller, its failure tagged.
pub fn from_full_mode<T, F, S>(result: Result<T, F>) -> (r: Result<T, Error<F, S>>)
    ensures
        match result {
            Ok(value) => r == Ok::<T, Error<F, S>>(value),
            Err(e) => r == Err::<T, Error<F, S>>(Error::FullModePollerError(e)),
        },
{
    match result {
        Ok(value) => Ok(value),
        Err(e) => Err(Error::FullModePollerError(e)),
    }
}

/// The result of the simple-mode poller, its failure tagged.
pub fn from_simple_mode<T, F, S>(result: Result<T, S>) -> (r: Result<T, Error<F, S>>)
    ensures
        match result {
            Ok(value) => r == Ok::<T, Error<F, S>>(value),
            Err(e) => r == Err::<T, Error<F, S>>(Error::SimpleModePollerError(e)),
        },
{
    match result {
        Ok(value) => Ok(value),
        Err(e) => Err(Error::SimpleModePollerError(e)),
    }
}

} // verus!
