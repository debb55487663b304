//! The machines that run, and the clients that come for them.

use lru_time_cache::LruCache;
use std::sync::Arc;
use vstd::multiset::Multiset;
use vstd::prelude::*;
use vstd::string::*;

use crate::cache::{cache_entries, cache_notify_get, cache_notify_insert, cache_remove, cache_times,
    cache_ttl_secs, cache_with_expiry, distinct_keys, drops_at, forgotten, lemma_drop_timed,
    lemma_drops_what_has_outlived, lemma_forgotten, lemma_lookup_none, lemma_store, lemma_store_timed,
    lemma_without_distinct, lemma_without_timed, listed, lookup, outlived, timed, touched,
    touched_times, values, without, Times, MAX_TTL_SECS};
use crate::config::{Config, Profile};
use crate::qemu::{plan_qemu, plans, QemuLaunch};
use crate::relay::ConnEndAction;
use crate::text::concat2;

verus! {

/// The time, in seconds, between two sweeps of the parked instances.
pub const SWEEP_INTERVAL_SECS: u64 = 3;

/// The channel on which a worker learns that an instance has ended. It has room for one
/// signal of each instance that may run.
#[derive(Debug)]
pub struct InstanceSignalChannel {
    pub capacity: usize,
}

impl InstanceSignalChannel {
    /// The channel for `total_concurrency` instances. There is no channel without room.
    pub fn new(total_concurrency: usize) -> (channel: InstanceSignalChannel)
        requires
            total_concurrency > 0,
        ensures
            channel.capacity == total_concurrency,
    {
        InstanceSignalChannel { capacity: total_concurrency }
    }
}

/// The instances of one runner. An instance is known by a number that it is given when its
/// machine is started; it is parked here while no client is connected to it.
pub struct Vmm {
    config: Arc<Config>,
    instances: LruCache<String, u64>,
    signal_channel: Option<InstanceSignalChannel>,
}

/// An instance that was taken out for a client, and the id under which it was parked.
#[derive(Debug)]
pub struct Session {
    pub id: String,
    pub instance: u64,
}

/// The answer to a client that asks for an instance.
#[derive(Debug)]
pub enum Admission {
    /// The client gets the instance.
    Accepted { session: Session },
    /// The client is turned away with an HTTP status and a message.
    Refused { status: u16, message: String },
}

/// How a connection went. The error is given as it is printed for debugging.
#[derive(Debug)]
pub enum ConnOutcome {
    /// The client was turned away, or did not complete the handshake.
    HandshakeFailed { error: String },
    /// The client was served until one side was lost.
    Served { action: ConnEndAction },
}

/// The instances that have ended: their machines are to be stopped, and one signal is due
/// for each of them.
#[derive(Debug)]
pub struct Ended {
    /// Those that were parked for too long.
    pub expired: Vec<u64>,
    /// The one in whose place another was parked.
    pub replaced: Option<u64>,
    /// The one that is not to be parked again.
    pub killed: Option<u64>,
}

impl Ended {
    /// How often each instance is among those that have ended.
    pub open spec fn instances(&self) -> Multiset<u64> {
        self.expired@.to_multiset().add(one_or_none(self.replaced)).add(one_or_none(self.killed))
    }

    /// The instances that have ended, each as often as it is among them: first those that
    /// have expired, then the one that was replaced, then the one that was killed.
    pub fn list(self) -> (list: Vec<u64>)
        ensures
            list@ == self.expired@ + sequence(self.replaced) + sequence(self.killed),
            list@.to_multiset() == self.instances(),
    {
        let mut list = self.expired;
        if let Some(instance) = self.replaced {
            list.push(instance);
        }
        if let Some(instance) = self.killed {
            list.push(instance);
        }
        proof {
            broadcast use vstd::seq_lib::group_to_multiset_ensures;

            let with_replaced = self.expired@ + sequence(self.replaced);
            match self.replaced {
                Some(instance) => {
                    assert(with_replaced =~= self.expired@.push(instance));
                },
                None => {
                    assert(with_replaced =~= self.expired@);
                },
            }
            match self.killed {
                Some(instance) => {
                    assert(list@ =~= with_replaced.push(instance));
                },
                None => {
                    assert(list@ =~= with_replaced);
                },
            }
            assert(list@ =~= with_replaced + sequence(self.killed));
            assert(list@.to_multiset() =~= self.instances());
        }
        list
    }

    /// No instance has ended.
    pub open spec fn nothing(&self) -> bool {
        self.expired@.len() == 0 && self.replaced is None && self.killed is None
    }
}

/// The multiset of what an option holds.
pub open spec fn one_or_none(value: Option<u64>) -> Multiset<u64> {
    match value {
        Some(value) => Multiset::singleton(value),
        None => Multiset::empty(),
    }
}

/// The sequence of what an option holds.
pub open spec fn sequence(value: Option<u64>) -> Seq<u64> {
    match value {
        Some(value) => seq![value],
        None => Seq::empty(),
    }
}

/// The instances of a session, where there is one.
pub open spec fn in_session(session: Option<Session>) -> Multiset<u64> {
    match session {
        Some(session) => Multiset::singleton(session.instance),
        None => Multiset::empty(),
    }
}

/// The id of the instance that a request for `path` asks for: all but the first character.
pub open spec fn requested_id(path: Seq<char>) -> Seq<char> {
    path.skip(1)
}

/// Whether `before` becomes `after` when the instances in `ended` have expired and then
/// `instance` is parked under `id`.
pub open spec fn parked(
    before: Seq<(Seq<char>, u64)>,
    after: Seq<(Seq<char>, u64)>,
    id: Seq<char>,
    instance: u64,
    ended: Ended,
) -> bool {
    let expired = ended.expired@.len() as int;
    &&& expired <= before.len()
    &&& ended.expired@ == values(before.take(expired))
    &&& ended.replaced == lookup(before.skip(expired), id)
    &&& after == without(before.skip(expired), id).push((id, instance))
}

/// Whether `before` becomes `after` when the instances in `ended` have expired and nothing
/// else has ended. An instance that is parked under the empty id counts as parked last.
pub open spec fn swept(
    before: Seq<(Seq<char>, u64)>,
    after: Seq<(Seq<char>, u64)>,
    ended: Ended,
) -> bool {
    let expired = ended.expired@.len() as int;
    &&& expired <= before.len()
    &&& ended.expired@ == values(before.take(expired))
    &&& ended.replaced is None
    &&& ended.killed is None
    &&& after == touched(before.skip(expired), Seq::empty())
}

/// Whether `ended` names as expired exactly those of the parked instances `before` that have
/// outlived a time of `max_secs` seconds at `now`, where `since` says since when each is
/// parked. None was parked later than `now`.
pub open spec fn expired_at(
    before: Seq<(Seq<char>, u64)>,
    since: Times,
    max_secs: u64,
    ended: Ended,
    now: int,
) -> bool {
    &&& forall|id: Seq<char>| since.dom().contains(id) ==> #[trigger] since[id] <= now
    &&& forall|i: int|
        0 <= i < before.len() ==> (outlived(since[(#[trigger] before[i]).0], max_secs, now)
            <==> i < ended.expired@.len())
}

/// Whether at `now` the instances in `ended` have expired, and an instance is parked under
/// `id` since then: `since` becomes `after` with it.
pub open spec fn parked_at(
    before: Seq<(Seq<char>, u64)>,
    since: Times,
    after: Times,
    max_secs: u64,
    id: Seq<char>,
    ended: Ended,
    now: int,
) -> bool {
    &&& expired_at(before, since, max_secs, ended, now)
    &&& after == forgotten(since, before.take(ended.expired@.len() as int)).insert(id, now)
}

/// Whether at `now` the instances in `ended` have expired: `since` becomes `after` with it.
/// An instance under the empty id counts as parked since `now`.
pub open spec fn swept_at(
    before: Seq<(Seq<char>, u64)>,
    since: Times,
    after: Times,
    max_secs: u64,
    ended: Ended,
    now: int,
) -> bool {
    &&& expired_at(before, since, max_secs, ended, now)
    &&& after == touched_times(
        forgotten(since, before.take(ended.expired@.len() as int)),
        before.skip(ended.expired@.len() as int),
        Seq::empty(),
        now,
    )
}

/// The values of a vector of entries.
fn entry_values(entries: &Vec<(String, u64)>) -> (result: Vec<u64>)
    ensures
        result@ == values(listed(entries@)),
{
    let mut result: Vec<u64> = Vec::new();
    let mut i: usize = 0;
    while i < entries.len()
        invariant
            i <= entries@.len(),
            result@ == values(listed(entries@)).take(i as int),
        decreases entries@.len() - i,
    {
        result.push(entries[i].1);
        proof {
            assert(result@ =~= values(listed(entries@)).take(i + 1));
        }
        i = i + 1;
    }
    assert(values(listed(entries@)).take(i as int) =~= values(listed(entries@)));
    result
}

/// What is left of times that are not after `now` is not after `now`.
proof fn lemma_left_until(before: Seq<(Seq<char>, u64)>, since: Times, count: int, now: int)
    requires
        forall|id: Seq<char>| since.dom().contains(id) ==> #[trigger] since[id] <= now,
    ensures
        forall|id: Seq<char>|
            forgotten(since, before.take(count)).dom().contains(id) ==> #[trigger] forgotten(
                since,
                before.take(count),
            )[id] <= now,
{
    lemma_forgotten(since, before.take(count));
}

impl Vmm {
    /// The configuration.
    pub closed spec fn spec_config(&self) -> Config {
        *self.config
    }

    /// The parked instances with their ids, from the one parked longest ago to the one
    /// parked last.
    pub closed spec fn parked_instances(&self) -> Seq<(Seq<char>, u64)> {
        cache_entries(self.instances)
    }

    /// Since when each instance is parked, by its id, in nanoseconds on the clock of
    /// `std::time::Instant`.
    pub closed spec fn parked_since(&self) -> Times {
        cache_times(self.instances)
    }

    /// The channel for the end of instances, until a worker has taken it.
    pub closed spec fn spec_signal_channel(&self) -> Option<InstanceSignalChannel> {
        self.signal_channel
    }

    /// No two instances are parked under one id, the instances are in the order in which they
    /// were parked, and an instance is parked for as long as the configuration says.
    pub closed spec fn wf(&self) -> bool {
        &&& distinct_keys(self.parked_instances())
        &&& timed(self.parked_instances(), self.parked_since())
        &&& cache_ttl_secs(self.instances) == self.config.vm_max_inactive_secs
        &&& self.config.vm_max_inactive_secs <= MAX_TTL_SECS
    }

    /// A runner without instances.
    pub fn new(config: Arc<Config>) -> (vmm: Vmm)
        requires
            config.spec_total_concurrency() > 0,
            config.vm_max_inactive_secs <= MAX_TTL_SECS,
        ensures
            vmm.wf(),
            vmm.spec_config() == *config,
            vmm.parked_instances().len() == 0,
            vmm.parked_since() == Times::empty(),
            vmm.spec_signal_channel() == Some(
                (InstanceSignalChannel { capacity: config.spec_total_concurrency() as usize }),
            ),
    {
        let total_concurrency: usize = config.total_concurrency() as usize;
        let channel = InstanceSignalChannel::new(total_concurrency);
        let ttl_secs: u64 = config.vm_max_inactive_secs;
        Vmm { config, instances: cache_with_expiry(ttl_secs), signal_channel: Some(channel) }
    }

    /// No two instances are parked under one id, and it is known of each, and of nothing
    /// else, since when it is parked: no later than those behind it.
    pub proof fn law_parked_instances_are_distinct_and_in_order(&self)
        requires
            self.wf(),
        ensures
            distinct_keys(self.parked_instances()),
            timed(self.parked_instances(), self.parked_since()),
    {
    }

    /// The address and the port on which clients are awaited.
    pub fn listen_address(&self) -> (address: (String, u16))
        ensures
            address.0@ == "0.0.0.0"@,
            address.1 == self.spec_config().port,
    {
        ("0.0.0.0".to_owned(), self.config.port)
    }

    /// Starts to serve when the address was bound: the time, in seconds, between two sweeps
    /// of the parked instances. An error, given as it is printed for debugging, where it
    /// was not.
    pub fn start(&self, bound: Result<(), String>) -> (started: Result<u64, String>)
        ensures
            match bound {
                Ok(_) => started == Ok::<u64, String>(SWEEP_INTERVAL_SECS),
                Err(error) => started matches Err(text) && text@
                    == "Vmm::start failed on bind(): "@ + error@,
            },
    {
        match bound {
            Ok(_) => Ok(SWEEP_INTERVAL_SECS),
            Err(error) => Err(concat2("Vmm::start failed on bind(): ", &error)),
        }
    }

    /// Whether the signal channel is still there to be taken.
    pub fn has_signal_channel(&self) -> (has: bool)
        ensures
            has == self.spec_signal_channel() is Some,
    {
        self.signal_channel.is_some()
    }

    /// Hands out the signal channel. It is handed out once.
    pub fn take_signal_channel(&mut self) -> (channel: InstanceSignalChannel)
        requires
            old(self).spec_signal_channel() is Some,
        ensures
            old(self).spec_signal_channel() == Some(channel),
            final(self).spec_signal_channel() is None,
            final(self).parked_instances() == old(self).parked_instances(),
            final(self).parked_since() == old(self).parked_since(),
            final(self).spec_config() == old(self).spec_config(),
            old(self).wf() ==> final(self).wf(),
    {
        self.signal_channel.take().unwrap()
    }

    /// Answers a client that asks for `path`, and takes the instance out for it. The first
    /// character of the path, where there is one, is one byte long.
    pub fn answer_client(&mut self, path: &str) -> (admission: Admission)
        requires
            old(self).wf(),
            path@.len() > 0 ==> path@[0] as u32 <= 0x7f,
        ensures
            final(self).wf(),
            final(self).spec_config() == old(self).spec_config(),
            final(self).spec_signal_channel() == old(self).spec_signal_channel(),
            admitted(
                old(self).parked_instances(),
                final(self).parked_instances(),
                path@,
                admission,
            ),
            final(self).parked_since() == (if admission is Accepted {
                old(self).parked_since().remove(requested_id(path@))
            } else {
                old(self).parked_since()
            }),
    {
        if path.is_empty() {
            return Admission::Refused { status: 400, message: "bad request".to_owned() };
        }
        let id = path.substring_char(1, path.unicode_len());
        assert(id@ =~= requested_id(path@));
        proof {
            lemma_without_distinct(self.parked_instances(), id@);
            lemma_without_timed(self.parked_instances(), self.parked_since(), id@);
        }
        match cache_remove(&mut self.instances, id) {
            Some(instance) => Admission::Accepted {
                session: Session { id: id.to_owned(), instance },
            },
            None => {
                proof {
                    lemma_lookup_none(old(self).parked_instances(), id@);
                    assert(!old(self).parked_since().dom().contains(id@));
                    assert(self.parked_since() =~= old(self).parked_since());
                }
                Admission::Refused { status: 404, message: "session not found".to_owned() }
            },
        }
    }

    /// Parks `instance` under `id`, and ends the instances that at this moment were parked for
    /// too long. The moment is the clock's.
    pub fn insert_instance(&mut self, id: String, instance: u64) -> (ended: Ended)
        requires
            old(self).wf(),
        ensures
            final(self).wf(),
            final(self).spec_config() == old(self).spec_config(),
            final(self).spec_signal_channel() == old(self).spec_signal_channel(),
            parked(
                old(self).parked_instances(),
                final(self).parked_instances(),
                id@,
                instance,
                ended,
            ),
            ended.killed is None,
            exists|now: int| #[trigger]
                parked_at(
                    old(self).parked_instances(),
                    old(self).parked_since(),
                    final(self).parked_since(),
                    old(self).spec_config().vm_max_inactive_secs,
                    id@,
                    ended,
                    now,
                ),
    {
        let ghost before = self.parked_instances();
        let ghost since = self.parked_since();
        let ghost secs = self.config.vm_max_inactive_secs;
        let (replaced, expired) = cache_notify_insert(&mut self.instances, id, instance);
        let ended = Ended { expired: entry_values(&expired), replaced, killed: None };
        proof {
            let count = expired@.len() as int;
            let left = forgotten(since, before.take(count));
            let now = choose|now: int| #[trigger]
                drops_at(before, since, secs, count, now) && self.parked_since() == left.insert(
                    id@,
                    now,
                );
            lemma_store(before, count, id@, instance);
            lemma_drops_what_has_outlived(before, since, secs, count, now);
            lemma_drop_timed(before, since, count);
            lemma_left_until(before, since, count, now);
            lemma_store_timed(before.skip(count), left, id@, instance, now);
            assert(parked_at(before, since, self.parked_since(), secs, id@, ended, now));
        }
        ended
    }

    /// Ends the instances that at this moment were parked for too long. The moment is the
    /// clock's.
    pub fn sweep(&mut self) -> (ended: Ended)
        requires
            old(self).wf(),
        ensures
            final(self).wf(),
            final(self).spec_config() == old(self).spec_config(),
            final(self).spec_signal_channel() == old(self).spec_signal_channel(),
            swept(old(self).parked_instances(), final(self).parked_instances(), ended),
            exists|now: int| #[trigger]
                swept_at(
                    old(self).parked_instances(),
                    old(self).parked_since(),
                    final(self).parked_since(),
                    old(self).spec_config().vm_max_inactive_secs,
                    ended,
                    now,
                ),
    {
        let ghost before = self.parked_instances();
        let ghost since = self.parked_since();
        let ghost secs = self.config.vm_max_inactive_secs;
        let (found, expired) = cache_notify_get(&mut self.instances, "");
        let ended = Ended { expired: entry_values(&expired), replaced: None, killed: None };
        proof {
            reveal_strlit("");
            assert(""@ =~= Seq::<char>::empty());
            let value = match found {
                Some(value) => value,
                None => 0,
            };
            let count = expired@.len() as int;
            let kept = before.skip(count);
            let left = forgotten(since, before.take(count));
            let now = choose|now: int| #[trigger]
                drops_at(before, since, secs, count, now) && self.parked_since()
                    == touched_times(left, kept, Seq::empty(), now);
            lemma_store(before, count, Seq::empty(), value);
            lemma_drops_what_has_outlived(before, since, secs, count, now);
            lemma_drop_timed(before, since, count);
            lemma_left_until(before, since, count, now);
            lemma_store_timed(kept, left, Seq::empty(), value, now);
            assert(swept_at(before, since, self.parked_since(), secs, ended, now));
        }
        ended
    }

    /// Settles a connection: the instance that was taken out for it is parked again where
    /// it is to be preserved, and ends otherwise. A client that was turned away had none.
    pub fn handle_incoming(&mut self, session: Option<Session>, outcome: ConnOutcome) -> (settled: (
        Result<(), String>,
        Ended,
    ))
        requires
            old(self).wf(),
            outcome is Served ==> session is Some,
        ensures
            final(self).wf(),
            final(self).spec_config() == old(self).spec_config(),
            final(self).spec_signal_channel() == old(self).spec_signal_channel(),
            connection_settled(
                old(self).parked_instances(),
                final(self).parked_instances(),
                session,
                outcome,
                settled.0,
                settled.1,
            ),
            match outcome {
                ConnOutcome::Served { action: ConnEndAction::PreserveInstance } => exists|
                    now: int,
                | #[trigger]
                    parked_at(
                        old(self).parked_instances(),
                        old(self).parked_since(),
                        final(self).parked_since(),
                        old(self).spec_config().vm_max_inactive_secs,
                        session->0.id@,
                        settled.1,
                        now,
                    ),
                _ => final(self).parked_since() == old(self).parked_since(),
            },
    {
        match outcome {
            ConnOutcome::HandshakeFailed { error } => {
                let killed: Option<u64> = match session {
                    Some(session) => Some(session.instance),
                    None => None,
                };
                (
                    Err(concat2("accept_hdr_async: ", &error)),
                    Ended { expired: Vec::new(), replaced: None, killed },
                )
            },
            ConnOutcome::Served { action } => {
                let session = session.unwrap();
                match action {
                    ConnEndAction::KillInstance => (
                        Ok(()),
                        Ended {
                            expired: Vec::new(),
                            replaced: None,
                            killed: Some(session.instance),
                        },
                    ),
                    ConnEndAction::PreserveInstance => {
                        (Ok(()), self.insert_instance(session.id, session.instance))
                    },
                }
            },
        }
    }

    /// The launch of the machine of the task whose UUID `id` writes, with `profile`; an
    /// error where `id` writes none.
    pub fn start_qemu(&self, id: &str, profile: &Profile) -> (plan: Result<QemuLaunch, String>)
        ensures
            plans(self.spec_config(), id@, *profile, plan),
    {
        plan_qemu(&self.config, id, profile)
    }

    /// Takes up a machine that was started for the task `id`: parks it where it has started,
    /// and hands the error on where it has not.
    pub fn start_instance(&mut self, id: String, qemu: Result<u64, String>) -> (started: (
        Result<(), String>,
        Ended,
    ))
        requires
            old(self).wf(),
        ensures
            final(self).wf(),
            final(self).spec_config() == old(self).spec_config(),
            final(self).spec_signal_channel() == old(self).spec_signal_channel(),
            match qemu {
                Ok(instance) => {
                    &&& started.0 == Ok::<(), String>(())
                    &&& started.1.killed is None
                    &&& parked(
                        old(self).parked_instances(),
                        final(self).parked_instances(),
                        id@,
                        instance,
                        started.1,
                    )
                    &&& exists|now: int| #[trigger]
                        parked_at(
                            old(self).parked_instances(),
                            old(self).parked_since(),
                            final(self).parked_since(),
                            old(self).spec_config().vm_max_inactive_secs,
                            id@,
                            started.1,
                            now,
                        )
                },
                Err(error) => {
                    &&& started.0 == Err::<(), String>(error)
                    &&& started.1.nothing()
                    &&& final(self).parked_instances() == old(self).parked_instances()
                    &&& final(self).parked_since() == old(self).parked_since()
                },
            },
    {
        match qemu {
            Ok(instance) => (Ok(()), self.insert_instance(id, instance)),
            Err(error) => (
                Err(error),
                Ended { expired: Vec::new(), replaced: None, killed: None },
            ),
        }
    }
}

/// Whether `admission` is the answer to a request for `path`, and `before` becomes `after`
/// with it.
pub open spec fn admitted(
    before: Seq<(Seq<char>, u64)>,
    after: Seq<(Seq<char>, u64)>,
    path: Seq<char>,
    admission: Admission,
) -> bool {
    if path.len() == 0 {
        &&& admission matches Admission::Refused { status, message }
        &&& status == 400
        &&& message@ == "bad request"@
        &&& after == before
    } else {
        match lookup(before, requested_id(path)) {
            Some(instance) => {
                &&& admission matches Admission::Accepted { session }
                &&& session.id@ == requested_id(path)
                &&& session.instance == instance
                &&& after == without(before, requested_id(path))
            },
            None => {
                &&& admission matches Admission::Refused { status, message }
                &&& status == 404
                &&& message@ == "session not found"@
                &&& after == before
            },
        }
    }
}

/// Whether a connection with `session` that went as `outcome` is settled by `result` and
/// `ended`, and `before` becomes `after` with it.
pub open spec fn connection_settled(
    before: Seq<(Seq<char>, u64)>,
    after: Seq<(Seq<char>, u64)>,
    session: Option<Session>,
    outcome: ConnOutcome,
    result: Result<(), String>,
    ended: Ended,
) -> bool {
    match (outcome, session) {
        (ConnOutcome::HandshakeFailed { error }, _) => {
            &&& result matches Err(text) && text@ == "accept_hdr_async: "@ + error@
            &&& ended.expired@.len() == 0
            &&& ended.replaced is None
            &&& ended.killed == (match session {
                Some(session) => Some(session.instance),
                None => None,
            })
            &&& after == before
        },
        (ConnOutcome::Served { action: ConnEndAction::KillInstance }, Some(session)) => {
            &&& result is Ok
            &&& ended.expired@.len() == 0
            &&& ended.replaced is None
            &&& ended.killed == Some(session.instance)
            &&& after == before
        },
        (ConnOutcome::Served { action: ConnEndAction::PreserveInstance }, Some(session)) => {
            &&& result is Ok
            &&& ended.killed is None
            &&& parked(before, after, session.id@, session.instance, ended)
        },
        _ => false,
    }
}

} // verus!
