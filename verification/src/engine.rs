//! The decisions of the tick loop: admission, the deadline, the bounded
//! retry, and what each poll result and each store outcome means for the
//! targets that are still pending.

use crate::config_store::copy_of;
use crate::id::Id;
use crate::models::Config;
use crate::table::Table;
use crate::timestamp::{Timestamp, NANOS_PER_SEC};
use vstd::prelude::*;
use vstd::string::StringExecFns;

verus! {

/// How many poll attempts one tick makes for a target at most.
pub const RETRY_LIMIT: u8 = 3;

/// The report of one change: which target, where it lives, and when.
#[derive(Debug)]
pub struct DocUpdateInfo {
    pub id: String,
    pub url: String,
    pub timestamp: String,
}

/// The JSON string literal that writes `text`, quotes and escapes included.
pub uninterp spec fn json_string(text: Seq<char>) -> Seq<char>;

/// Calls `serde_json::to_string` on a `str`. The literal is written into a
/// byte vector in memory, which cannot fail, so there is always a result; it
/// depends on the text alone, so the contract gives it its name.
#[verifier::external_body]
fn to_json_string(text: &str) -> (r: Option<String>)
    ensures
        r.is_some(),
        r.unwrap()@ == json_string(text@),
{
    serde_json::to_string(text).ok()
}

/// The JSON object with the members `id`, `url` and `timestamp`, in this
/// order and without white space, given the JSON text of each value.
pub open spec fn framed(id: Seq<char>, url: Seq<char>, timestamp: Seq<char>) -> Seq<char> {
    "{\"id\":"@ + id + ",\"url\":"@ + url + ",\"timestamp\":"@ + timestamp + "}"@
}

/// Frames three JSON values as the object that reports a change.
pub fn frame(id: &str, url: &str, timestamp: &str) -> (r: String)
    ensures
        r@ == framed(id@, url@, timestamp@),
{
    let mut out = "{\"id\":".to_owned();
    out.append(id);
    out.append(",\"url\":");
    out.append(url);
    out.append(",\"timestamp\":");
    out.append(timestamp);
    out.append("}");
    out
}

/// The JSON object that reports a change: its three texts, each written as
/// a JSON string, in one frame.
pub open spec fn json_of(id: Seq<char>, url: Seq<char>, timestamp: Seq<char>) -> Seq<char> {
    framed(json_string(id), json_string(url), json_string(timestamp))
}

impl DocUpdateInfo {
    /// The report as a JSON object: `{"id":…,"url":…,"timestamp":…}`, each
    /// value a JSON string.
    pub fn to_json(&self) -> (r: String)
        ensures
            r@ == json_of(self.id@, self.url@, self.timestamp@),
    {
        let id = to_json_string(self.id.as_str()).unwrap();
        let url = to_json_string(self.url.as_str()).unwrap();
        let timestamp = to_json_string(self.timestamp.as_str()).unwrap();
        frame(id.as_str(), url.as_str(), timestamp.as_str())
    }
}

/// Why the engine stopped: the failure of one of its three collaborators.
#[derive(Debug, Clone, PartialEq)]
pub enum Error<ConfigRepositoryError, DataRepositoryError, PollerError> {
    ConfigRepositoryError(ConfigRepositoryError),
    DataRepositoryError(DataRepositoryError),
    PollerError(PollerError),
}

/// The patrol: the store of configurations, the store of data, the poller,
/// and the settings of the tick loop.
pub struct App<ConfigRepository, DataRepository, Poller> {
    pub config_repo: ConfigRepository,
    pub data_repo: DataRepository,
    pub poller: Poller,
    pub engine: Engine,
}

impl<ConfigRepository, DataRepository, Poller> App<ConfigRepository, DataRepository, Poller> {
    /// A patrol over the three collaborators that ticks every
    /// `interval_period_secs` seconds, `interval_limit` times where that is
    /// given, else without end.
    pub fn new(
        config_repo: ConfigRepository,
        data_repo: DataRepository,
        poller: Poller,
        interval_period_secs: u64,
        interval_limit: Option<u8>,
    ) -> (r: Self)
        ensures
            r.config_repo == config_repo,
            r.data_repo == data_repo,
            r.poller == poller,
            r.engine == (Engine { period_secs: interval_period_secs, limit: interval_limit }),
    {
        App {
            config_repo,
            data_repo,
            poller,
            engine: Engine::new(interval_period_secs, interval_limit),
        }
    }
}

/// What admission does to the number of ticks still allowed: the number
/// afterwards, and whether a tick may run.
pub open spec fn admission(limit: Option<u8>) -> (Option<u8>, bool) {
    match limit {
        Some(n) => if n == 0 {
            (limit, false)
        } else {
            (Some((n - 1) as u8), true)
        },
        None => (None, true),
    }
}

/// The tick loop's settings: its period, and how many ticks it may still
/// run.
#[derive(Debug, Clone, Copy, PartialEq, Eq, Structural)]
pub struct Engine {
    pub period_secs: u64,
    pub limit: Option<u8>,
}

impl Engine {
    /// An engine that ticks every `interval_period_secs` seconds,
    /// `interval_limit` times where that is given, else without end.
    pub fn new(interval_period_secs: u64, interval_limit: Option<u8>) -> (r: Engine)
        ensures
            r == (Engine { period_secs: interval_period_secs, limit: interval_limit }),
    {
        Engine { period_secs: interval_period_secs, limit: interval_limit }
    }

    /// Decides whether another tick may run, and counts it.
    pub fn allow_tick(&mut self) -> (r: bool)
        ensures
            final(self).period_secs == old(self).period_secs,
            (final(self).limit, r) == admission(old(self).limit),
    {
        match self.limit {
            Some(n) => {
                if n == 0 {
                    false
                } else {
                    self.limit = Some(n - 1);
                    true
                }
            },
            None => true,
        }
    }
}

/// An engine that may run once runs one tick and no second one.
pub proof fn lemma_once_runs_one_tick()
    ensures
        admission(Some(1u8)).1,
        !admission(admission(Some(1u8)).0).1,
{
}

/// An engine with `n` ticks left admits exactly `n` ticks: each admission
/// counts one, and none is admission at zero.
pub proof fn lemma_limit_counts_down(n: u8)
    ensures
        admission(Some(n)).1 == (n > 0),
        n > 0 ==> admission(Some(n)).0 == Some((n - 1) as u8),
        admission(None).1,
        admission(None).0 == None::<u8>,
{
}

/// The instant at which a tick that began at `started_at` is over, on the
/// same clock, in nanoseconds; held at the clock's last instant where the sum
/// passes it.
pub open spec fn deadline_of(started_at: u64, period_secs: u64) -> u64 {
    if started_at + period_secs * NANOS_PER_SEC <= u64::MAX {
        (started_at + period_secs * NANOS_PER_SEC) as u64
    } else {
        u64::MAX
    }
}

/// The state of one tick as plain values.
pub struct TickView {
    /// The targets as they stood when the tick began.
    pub configs: Map<Seq<char>, Config>,
    /// The targets that are still pending.
    pub rem: Map<Seq<char>, Config>,
    /// How many attempts are left.
    pub retry: u8,
    /// When the tick is over.
    pub deadline: u64,
}

/// What a poll result means.
#[derive(Debug)]
pub enum Polled<E> {
    /// It came at or after the deadline and is dropped; the target stays
    /// pending.
    Late,
    /// It names no pending target and is dropped.
    Ignored,
    /// The poll failed; the target stays pending.
    Failed(E),
    /// Nothing is left of the text after trimming; the target is done.
    Empty,
    /// The text has this fingerprint, which goes to the data store; the
    /// target stays pending until the store has answered.
    Found(crate::hash::Hash),
}

/// What the data store's answer to an update means.
#[derive(Debug)]
pub enum Stored<E> {
    /// It names no pending target and is dropped.
    Ignored,
    /// The store failed; the target stays pending.
    Failed(E),
    /// The fingerprint is the one held; the target is done.
    Unchanged,
    /// The fingerprint changed; the target is done and the change is
    /// reported.
    Updated(DocUpdateInfo),
}

/// Whether a tick in state `tick` starts another attempt.
pub open spec fn wants(tick: TickView) -> bool {
    tick.rem.len() > 0 && tick.retry > 0
}

/// The state after an attempt has ended.
pub open spec fn attempt_ended(tick: TickView) -> TickView {
    TickView {
        retry: if tick.retry > 0 {
            (tick.retry - 1) as u8
        } else {
            0
        },
        ..tick
    }
}

/// The state in which `key` is no longer pending.
pub open spec fn settled(tick: TickView, key: Seq<char>) -> TickView {
    TickView { rem: tick.rem.remove(key), ..tick }
}

/// Whether a poll result that arrives at `at` for `key` is taken up.
pub open spec fn taken_up(tick: TickView, key: Seq<char>, at: u64) -> bool {
    at < tick.deadline && tick.rem.contains_key(key)
}

/// One tick: the targets it began with, those still pending, the attempts
/// left, and its deadline.
pub struct Tick {
    configs: Table<Config>,
    rem: Table<Config>,
    retry: u8,
    deadline: u64,
}

impl View for Tick {
    type V = TickView;

    closed spec fn view(&self) -> TickView {
        TickView {
            configs: self.configs@,
            rem: self.rem@,
            retry: self.retry,
            deadline: self.deadline,
        }
    }
}

impl Tick {
    /// Whether the tick is well formed: no id twice, every pending target
    /// among those the tick began with, and no more attempts left than a
    /// tick has. Every tick that this module hands out is well formed, and
    /// every function here keeps it so.
    pub closed spec fn wf(&self) -> bool {
        &&& self.configs.wf()
        &&& self.rem.wf()
        &&& self.rem@.submap_of(self.configs@)
        &&& self.rem@.dom().finite()
        &&& self.rem@.len() == self.rem.entries().len()
        &&& self.retry <= RETRY_LIMIT
    }

    /// Begins a tick at `started_at`, an instant in nanoseconds on a clock
    /// that does not run backwards: every target is pending, and all
    /// attempts are left.
    pub fn begin(configs: Table<Config>, started_at: u64, period_secs: u64) -> (r: Tick)
        requires
            configs.wf(),
        ensures
            r.wf(),
            r@ == (TickView {
                configs: configs@,
                rem: configs@,
                retry: RETRY_LIMIT,
                deadline: deadline_of(started_at, period_secs),
            }),
    {
        let rem = copy_of(&configs);
        let deadline = match period_secs.checked_mul(1_000_000_000) {
            Some(period) => match started_at.checked_add(period) {
                Some(deadline) => deadline,
                None => u64::MAX,
            },
            None => u64::MAX,
        };
        proof {
            rem.lemma_len();
        }
        Tick { configs, rem, retry: RETRY_LIMIT, deadline }
    }

    /// Whether another attempt is due: targets are pending and attempts are
    /// left.
    pub fn wants_attempt(&self) -> (r: bool)
        requires
            self.wf(),
        ensures
            r == wants(self@),
    {
        !self.rem.is_empty() && self.retry > 0
    }

    /// The targets to poll in the next attempt: a copy of those pending.
    pub fn start_attempt(&self) -> (r: Table<Config>)
        requires
            self.wf(),
        ensures
            r.wf(),
            r@ == self@.rem,
    {
        copy_of(&self.rem)
    }

    /// Counts an attempt as made.
    pub fn end_attempt(&mut self)
        requires
            old(self).wf(),
        ensures
            final(self).wf(),
            final(self)@ == attempt_ended(old(self)@),
    {
        if self.retry > 0 {
            self.retry = self.retry - 1;
        }
    }

    /// How long the tick still has at the instant `at`, in nanoseconds; none
    /// once the deadline is reached.
    pub fn time_left(&self, at: u64) -> (r: Option<u64>)
        ensures
            r.is_some() == (at < self@.deadline),
            r.is_some() ==> r.unwrap() == self@.deadline - at,
    {
        if at < self.deadline {
            Some(self.deadline - at)
        } else {
            None
        }
    }

    /// Whether `id` is still pending.
    pub fn is_pending(&self, id: &Id) -> (r: bool)
        ensures
            r == self@.rem.contains_key(id@),
    {
        self.rem.contains_key(id)
    }

    /// Takes up a poll result that arrived at `at`.
    ///
    /// A result at or after the deadline, or for a target that is not
    /// pending, changes nothing. A failure leaves the target pending. Text
    /// that is empty after trimming settles the target without touching the
    /// data store. Any other text yields its fingerprint, and the target
    /// stays pending until [`Tick::on_stored`] hears from the store.
    pub fn on_polled<E>(&mut self, id: &Id, result: Result<String, E>, at: u64) -> (r: Polled<E>)
        requires
            old(self).wf(),
        ensures
            final(self).wf(),
            !taken_up(old(self)@, id@, at) ==> final(self)@ == old(self)@,
            at >= old(self)@.deadline ==> r is Late,
            at < old(self)@.deadline && !old(self)@.rem.contains_key(id@) ==> r is Ignored,
            taken_up(old(self)@, id@, at) && result.is_ok() && result->Ok_0@.len() == 0 ==> r is Empty,
            taken_up(old(self)@, id@, at) ==> match result {
                Err(e) => r == Polled::Failed(e) && final(self)@ == old(self)@,
                Ok(content) => match crate::content::fingerprint_of(content@) {
                    None => r is Empty && final(self)@ == settled(old(self)@, id@),
                    Some(digest) => {
                        &&& r is Found
                        &&& r->Found_0@ == digest
                        &&& final(self)@ == old(self)@
                    },
                },
            },
    {
        if at >= self.deadline {
            return Polled::Late;
        }
        if !self.rem.contains_key(id) {
            return Polled::Ignored;
        }
        match result {
            Err(e) => Polled::Failed(e),
            Ok(content) => match crate::content::fingerprint(content.as_str()) {
                None => {
                    self.settle(id);
                    Polled::Empty
                },
                Some(hash) => Polled::Found(hash),
            },
        }
    }

    /// Takes up the data store's answer to the update for `id`.
    ///
    /// An answer for a target that is not pending changes nothing. A failure
    /// leaves the target pending. Any other answer settles the target, and
    /// where the store reports a change, the change is reported with the
    /// address the target had when the tick began.
    pub fn on_stored<E>(&mut self, id: &Id, outcome: Result<Option<Timestamp>, E>) -> (r: Stored<
        E,
    >)
        requires
            old(self).wf(),
        ensures
            final(self).wf(),
            !old(self)@.rem.contains_key(id@) ==> r is Ignored && final(self)@ == old(self)@,
            old(self)@.rem.contains_key(id@) ==> match outcome {
                Err(e) => r == Stored::Failed(e) && final(self)@ == old(self)@,
                Ok(None) => r is Unchanged && final(self)@ == settled(old(self)@, id@),
                Ok(Some(time)) => {
                    &&& r is Updated
                    &&& r->Updated_0.id@ == id@
                    &&& r->Updated_0.url@ == old(self)@.configs[id@].url@
                    &&& r->Updated_0.timestamp@ == crate::timestamp::utc_text(time@)
                    &&& final(self)@ == settled(old(self)@, id@)
                },
            },
    {
        if !self.rem.contains_key(id) {
            return Stored::Ignored;
        }
        match outcome {
            Err(e) => Stored::Failed(e),
            Ok(None) => {
                self.settle(id);
                Stored::Unchanged
            },
            Ok(Some(time)) => {
                let url = match self.configs.get(id) {
                    Some(config) => config.url.as_str().to_owned(),
                    None => String::new(),
                };
                self.settle(id);
                Stored::Updated(
                    DocUpdateInfo { id: id.to_string(), url, timestamp: time.to_string() },
                )
            },
        }
    }

    /// Takes `id` from the pending targets.
    fn settle(&mut self, id: &Id)
        requires
            old(self).wf(),
        ensures
            final(self).wf(),
            final(self)@ == settled(old(self)@, id@),
    {
        let _ = self.rem.remove(id);
        proof {
            self.rem.lemma_len();
        }
    }
}

/// While targets stay pending, as they do where every poll fails, a tick
/// makes exactly as many attempts as [`RETRY_LIMIT`] says, and then no
/// further one.
pub proof fn lemma_three_attempts(tick: TickView)
    requires
        tick.retry == RETRY_LIMIT,
        tick.rem.len() > 0,
    ensures
        wants(tick),
        wants(attempt_ended(tick)),
        wants(attempt_ended(attempt_ended(tick))),
        !wants(attempt_ended(attempt_ended(attempt_ended(tick)))),
{
}

/// Once the deadline is reached no poll result is taken up, whatever it
/// holds: the targets that were pending stay pending.
pub proof fn lemma_deadline_stops_results(tick: TickView, key: Seq<char>, at: u64, later: u64)
    requires
        tick.deadline <= at <= later,
    ensures
        !taken_up(tick, key, at),
        !taken_up(tick, key, later),
{
}

/// Within a tick a target only ever leaves the pending ones: settling a
/// target takes it out and leaves the others, and the end of an attempt
/// leaves them all.
pub proof fn lemma_pending_only_shrinks(tick: TickView, key: Seq<char>)
    ensures
        !settled(tick, key).rem.contains_key(key),
        settled(tick, key).rem.submap_of(tick.rem),
        forall|other: Seq<char>|
            other != key && tick.rem.contains_key(other) ==> settled(
                tick,
                key,
            ).rem.contains_key(other),
        attempt_ended(tick).rem == tick.rem,
{
}

} // verus!
