//! What holds of the instances as a whole.

use vstd::multiset::Multiset;
use vstd::prelude::*;

use crate::cache::{distinct_keys, forgotten, holdings, lemma_absent, lemma_drop_timed,
    lemma_entry_is_found, lemma_forgotten, lemma_found_at, lemma_split_holdings,
    lemma_split_lookup, lemma_store, lemma_store_timed, lemma_values_holdings, lemma_without,
    lemma_without_distinct, lemma_without_holdings, lemma_without_timed, lookup, outlived, timed,
    values, without, Times};
use crate::config::Config;
use crate::relay::ConnEndAction;
use crate::vmm::{admitted, connection_settled, expired_at, in_session, parked, parked_at,
    requested_id, sequence, swept, swept_at, Admission, ConnOutcome, Ended, Session};
use crate::worker::client_url;

verus! {

/// An instance that was taken out for a client is not handed to the next: who asks for the
/// same id is told that there is no such session.
pub proof fn law_admission_takes_the_instance_out(
    before: Seq<(Seq<char>, u64)>,
    after: Seq<(Seq<char>, u64)>,
    path: Seq<char>,
    admission: Admission,
    later: Seq<(Seq<char>, u64)>,
    answer: Admission,
)
    requires
        admitted(before, after, path, admission),
        admission is Accepted,
        admitted(after, later, path, answer),
    ensures
        answer matches Admission::Refused { status, .. } && status == 404,
        later == after,
{
    lemma_without(before, requested_id(path));
}

/// An instance that was just parked is handed to the next client that asks for its id.
pub proof fn law_parked_instance_is_found(
    before: Seq<(Seq<char>, u64)>,
    after: Seq<(Seq<char>, u64)>,
    id: Seq<char>,
    instance: u64,
    ended: Ended,
    path: Seq<char>,
    later: Seq<(Seq<char>, u64)>,
    answer: Admission,
)
    requires
        distinct_keys(before),
        parked(before, after, id, instance, ended),
        path.len() > 0,
        requested_id(path) == id,
        admitted(after, later, path, answer),
    ensures
        answer matches Admission::Accepted { session } && session.instance == instance
            && session.id@ == id,
{
    lemma_store(before, ended.expired@.len() as int, id, instance);
}

/// Parking an instance leaves every other instance where it was, unless it expires.
pub proof fn law_parking_keeps_the_others(
    before: Seq<(Seq<char>, u64)>,
    after: Seq<(Seq<char>, u64)>,
    id: Seq<char>,
    instance: u64,
    ended: Ended,
    other: Seq<char>,
)
    requires
        parked(before, after, id, instance, ended),
        other != id,
    ensures
        lookup(after, other) == lookup(before.skip(ended.expired@.len() as int), other),
{
    let kept = before.skip(ended.expired@.len() as int);
    lemma_without(kept, id);
    assert(after.drop_last() =~= without(kept, id));
    assert(after.last() == (id, instance));
}

/// No instance is lost and none is made up when a client is answered: what was parked is
/// afterwards parked or in the client's session.
pub proof fn law_admission_conserves_instances(
    before: Seq<(Seq<char>, u64)>,
    after: Seq<(Seq<char>, u64)>,
    path: Seq<char>,
    admission: Admission,
)
    requires
        distinct_keys(before),
        admitted(before, after, path, admission),
    ensures
        holdings(before) == holdings(after).add(
            match admission {
                Admission::Accepted { session } => Multiset::singleton(session.instance),
                Admission::Refused { .. } => Multiset::empty(),
            },
        ),
{
    if path.len() > 0 {
        lemma_without_holdings(before, requested_id(path));
    }
    match admission {
        Admission::Accepted { session } => {
            assert(holdings(after).insert(session.instance) =~= holdings(after).add(
                Multiset::singleton(session.instance),
            ));
        },
        Admission::Refused { .. } => {
            assert(holdings(after) =~= holdings(after).add(Multiset::empty()));
        },
    }
}

/// No instance is lost and none is made up when one is parked: what was parked, and the
/// one that is, are afterwards parked or among those that have ended.
pub proof fn law_parking_conserves_instances(
    before: Seq<(Seq<char>, u64)>,
    after: Seq<(Seq<char>, u64)>,
    id: Seq<char>,
    instance: u64,
    ended: Ended,
)
    requires
        distinct_keys(before),
        parked(before, after, id, instance, ended),
        ended.killed is None,
    ensures
        holdings(before).insert(instance) == holdings(after).add(ended.instances()),
{
    let expired = ended.expired@.len() as int;
    let kept = before.skip(expired);
    lemma_store(before, expired, id, instance);
    lemma_split_holdings(before, expired);
    lemma_values_holdings(before.take(expired));
    lemma_without_holdings(kept, id);
    assert(after.drop_last() =~= without(kept, id));
    assert(holdings(after) == holdings(without(kept, id)).insert(instance));
    assert(holdings(before).insert(instance) =~= holdings(after).add(ended.instances()));
}

/// No instance is lost and none is made up when a connection is settled: what was parked,
/// and what was in the session, is afterwards parked or among those that have ended.
pub proof fn law_settling_conserves_instances(
    before: Seq<(Seq<char>, u64)>,
    after: Seq<(Seq<char>, u64)>,
    session: Option<Session>,
    outcome: ConnOutcome,
    result: Result<(), String>,
    ended: Ended,
)
    requires
        distinct_keys(before),
        connection_settled(before, after, session, outcome, result, ended),
    ensures
        holdings(before).add(in_session(session)) == holdings(after).add(ended.instances()),
{
    match (outcome, session) {
        (ConnOutcome::Served { action: ConnEndAction::PreserveInstance }, Some(session)) => {
            law_parking_conserves_instances(
                before,
                after,
                session.id@,
                session.instance,
                ended,
            );
            assert(holdings(before).insert(session.instance) =~= holdings(before).add(
                Multiset::singleton(session.instance),
            ));
        },
        _ => {
            broadcast use vstd::seq_lib::group_to_multiset_ensures;

            assert(ended.expired@ =~= Seq::<u64>::empty());
            assert(ended.expired@.to_multiset() =~= Multiset::empty());
            assert(ended.instances() =~= in_session(session));
        },
    }
}

/// A sweep leaves the instances that have not expired as they were parked.
pub proof fn law_sweep_keeps_the_others(
    before: Seq<(Seq<char>, u64)>,
    after: Seq<(Seq<char>, u64)>,
    ended: Ended,
    id: Seq<char>,
)
    requires
        swept(before, after, ended),
    ensures
        lookup(after, id) == lookup(before.skip(ended.expired@.len() as int), id),
{
    let kept = before.skip(ended.expired@.len() as int);
    lemma_without(kept, Seq::empty());
    match lookup(kept, Seq::empty()) {
        Some(value) => {
            assert(after.drop_last() =~= without(kept, Seq::empty()));
            assert(after.last() == (Seq::<char>::empty(), value));
        },
        None => {},
    }
}

/// No instance is lost and none is made up in a sweep: what was parked is afterwards parked
/// or among those that have ended.
pub proof fn law_sweep_conserves_instances(
    before: Seq<(Seq<char>, u64)>,
    after: Seq<(Seq<char>, u64)>,
    ended: Ended,
)
    requires
        distinct_keys(before),
        swept(before, after, ended),
    ensures
        distinct_keys(after),
        holdings(before) == holdings(after).add(ended.instances()),
{
    let expired = ended.expired@.len() as int;
    let kept = before.skip(expired);
    lemma_split_holdings(before, expired);
    lemma_values_holdings(before.take(expired));
    match lookup(kept, Seq::empty()) {
        Some(value) => {
            lemma_store(before, expired, Seq::empty(), value);
            lemma_without_holdings(kept, Seq::empty());
            assert(after.drop_last() =~= without(kept, Seq::empty()));
        },
        None => {
            lemma_store(before, expired, Seq::empty(), 0);
        },
    }
    assert(holdings(after) =~= holdings(kept));
    assert(holdings(before) =~= holdings(after).add(ended.instances()));
}

/// Where the instances of a runner are: parked, and since when; in the sessions of clients;
/// or ended; and all that were started.
pub struct Ledger {
    pub parked: Seq<(Seq<char>, u64)>,
    pub since: Times,
    pub in_sessions: Multiset<u64>,
    pub ended: Multiset<u64>,
    pub started: Multiset<u64>,
}

/// Something that is done with the instances.
pub enum Deed {
    /// A client is answered.
    Answer { path: Seq<char>, admission: Admission },
    /// A connection is settled.
    Settle {
        session: Option<Session>,
        outcome: ConnOutcome,
        result: Result<(), String>,
        ended: Ended,
    },
    /// An instance is started.
    Start { id: Seq<char>, instance: u64, ended: Ended },
    /// The parked instances are swept.
    Sweep { ended: Ended },
}

impl Ledger {
    /// Nothing was started yet.
    pub open spec fn blank(self) -> bool {
        &&& self.parked.len() == 0
        &&& self.since == Times::empty()
        &&& self.in_sessions == Multiset::<u64>::empty()
        &&& self.ended == Multiset::<u64>::empty()
        &&& self.started == Multiset::<u64>::empty()
    }

    /// Every instance that was started is in one place, and in one only.
    pub open spec fn balanced(self) -> bool {
        &&& distinct_keys(self.parked)
        &&& self.started == holdings(self.parked).add(self.in_sessions).add(self.ended)
    }

    /// Whether this becomes `after` with `deed`.
    pub open spec fn becomes(self, deed: Deed, after: Ledger) -> bool {
        match deed {
            Deed::Answer { path, admission } => {
                &&& admitted(self.parked, after.parked, path, admission)
                &&& after.in_sessions == self.in_sessions.add(
                    match admission {
                        Admission::Accepted { session } => in_session(Some(session)),
                        Admission::Refused { .. } => Multiset::empty(),
                    },
                )
                &&& after.ended == self.ended
                &&& after.started == self.started
            },
            Deed::Settle { session, outcome, result, ended } => {
                &&& in_session(session).subset_of(self.in_sessions)
                &&& connection_settled(self.parked, after.parked, session, outcome, result, ended)
                &&& after.in_sessions == self.in_sessions.sub(in_session(session))
                &&& after.ended == self.ended.add(ended.instances())
                &&& after.started == self.started
            },
            Deed::Start { id, instance, ended } => {
                &&& parked(self.parked, after.parked, id, instance, ended)
                &&& ended.killed is None
                &&& after.in_sessions == self.in_sessions
                &&& after.ended == self.ended.add(ended.instances())
                &&& after.started == self.started.insert(instance)
            },
            Deed::Sweep { ended } => {
                &&& swept(self.parked, after.parked, ended)
                &&& after.in_sessions == self.in_sessions
                &&& after.ended == self.ended.add(ended.instances())
                &&& after.started == self.started
            },
        }
    }
}

impl Deed {
    /// Whether an instance is parked under `id`.
    pub open spec fn parks(self, id: Seq<char>) -> bool {
        match self {
            Deed::Start { id: parked, .. } => parked == id,
            Deed::Settle {
                session: Some(session),
                outcome: ConnOutcome::Served { action: ConnEndAction::PreserveInstance },
                ..
            } => session.id@ == id,
            _ => false,
        }
    }

    /// Whether the parked instances are looked through for those that have expired: they are
    /// swept, or one is parked.
    pub open spec fn looks_through(self) -> bool {
        match self {
            Deed::Start { .. } | Deed::Sweep { .. } => true,
            Deed::Settle {
                session: Some(_),
                outcome: ConnOutcome::Served { action: ConnEndAction::PreserveInstance },
                ..
            } => true,
            _ => false,
        }
    }

    /// Whether `instance` is among those that have expired.
    pub open spec fn ends(self, instance: u64) -> bool {
        match self {
            Deed::Start { ended, .. } => ended.expired@.contains(instance),
            Deed::Settle { ended, .. } => ended.expired@.contains(instance),
            Deed::Sweep { ended } => ended.expired@.contains(instance),
            Deed::Answer { .. } => false,
        }
    }

    /// The instance that is parked.
    pub open spec fn instance_parked(self) -> u64
        recommends
            exists|id: Seq<char>| self.parks(id),
    {
        match self {
            Deed::Start { instance, .. } => instance,
            Deed::Settle { session: Some(session), .. } => session.instance,
            _ => 0,
        }
    }

    /// Whether a client is answered that asks for the instance under `id`.
    pub open spec fn asks_for(self, id: Seq<char>) -> bool {
        self matches Deed::Answer { path, .. } && path.len() > 0 && requested_id(path) == id
    }
}

impl Ledger {
    /// Whether this becomes `after` with `deed` at the moment `now`, where instances are
    /// parked for `max_secs` seconds.
    pub open spec fn becomes_at(
        self,
        deed: Deed,
        max_secs: u64,
        now: int,
        after: Ledger,
    ) -> bool {
        &&& self.becomes(deed, after)
        &&& match deed {
            Deed::Answer { path, admission: Admission::Accepted { .. } } => {
                after.since == self.since.remove(requested_id(path))
            },
            Deed::Settle {
                session: Some(session),
                outcome: ConnOutcome::Served { action: ConnEndAction::PreserveInstance },
                ended,
                ..
            } => parked_at(
                self.parked,
                self.since,
                after.since,
                max_secs,
                session.id@,
                ended,
                now,
            ),
            Deed::Start { id, ended, .. } => {
                parked_at(self.parked, self.since, after.since, max_secs, id, ended, now)
            },
            Deed::Sweep { ended } => {
                swept_at(self.parked, self.since, after.since, max_secs, ended, now)
            },
            _ => after.since == self.since,
        }
    }
}

/// Whatever is done with the instances, each of them stays in one place.
pub proof fn law_every_deed_keeps_the_balance(before: Ledger, deed: Deed, after: Ledger)
    requires
        before.balanced(),
        before.becomes(deed, after),
    ensures
        after.balanced(),
{
    match deed {
        Deed::Answer { path, admission } => {
            law_admission_conserves_instances(before.parked, after.parked, path, admission);
            lemma_without_distinct(before.parked, requested_id(path));
        },
        Deed::Settle { session, outcome, result, ended } => {
            law_settling_conserves_instances(
                before.parked,
                after.parked,
                session,
                outcome,
                result,
                ended,
            );
            if let Some(session) = session {
                lemma_store(
                    before.parked,
                    ended.expired@.len() as int,
                    session.id@,
                    session.instance,
                );
            }
        },
        Deed::Start { id, instance, ended } => {
            law_parking_conserves_instances(before.parked, after.parked, id, instance, ended);
            lemma_store(before.parked, ended.expired@.len() as int, id, instance);
        },
        Deed::Sweep { ended } => {
            law_sweep_conserves_instances(before.parked, after.parked, ended);
        },
    }
    assert forall|instance: u64| after.started.count(instance) == holdings(after.parked).add(
        after.in_sessions,
    ).add(after.ended).count(instance) by {
        let total = holdings(before.parked).add(before.in_sessions).add(before.ended);
        assert(before.started.count(instance) == total.count(instance));
        match deed {
            Deed::Answer { admission, .. } => {},
            Deed::Settle { session, ended, .. } => {
                assert(holdings(before.parked).add(in_session(session)).count(instance)
                    == holdings(after.parked).add(ended.instances()).count(instance));
                assert(in_session(session).count(instance) <= before.in_sessions.count(instance));
            },
            Deed::Start { instance: new, ended, .. } => {
                assert(holdings(before.parked).insert(new).count(instance) == holdings(
                    after.parked,
                ).add(ended.instances()).count(instance));
                assert(before.started.insert(new).count(instance) == before.started.count(instance)
                    + (if instance == new {
                    1nat
                } else {
                    0nat
                }));
                assert(holdings(before.parked).insert(new).count(instance) == holdings(
                    before.parked,
                ).count(instance) + (if instance == new {
                    1nat
                } else {
                    0nat
                }));
            },
            Deed::Sweep { ended } => {
                assert(holdings(before.parked).count(instance) == holdings(after.parked).add(
                    ended.instances(),
                ).count(instance));
            },
        }
    }
    assert(after.started =~= holdings(after.parked).add(after.in_sessions).add(after.ended));
}

/// From the start of a runner on, every instance that was started is at any time in one
/// place, and in one only: it is parked, or in the session of one client, or has ended. So
/// for each that was started, at most one signal is ever due.
pub proof fn law_every_instance_is_accounted_for(
    ledgers: Seq<Ledger>,
    deeds: Seq<Deed>,
    at: int,
)
    requires
        ledgers.len() == deeds.len() + 1,
        ledgers[0].blank(),
        forall|i: int|
            0 <= i < deeds.len() ==> (#[trigger] ledgers[i]).becomes(deeds[i], ledgers[i + 1]),
        0 <= at <= deeds.len(),
    ensures
        ledgers[at].balanced(),
    decreases at,
{
    if at == 0 {
        assert(ledgers[0].started =~= holdings(ledgers[0].parked).add(
            ledgers[0].in_sessions,
        ).add(ledgers[0].ended));
    } else {
        law_every_instance_is_accounted_for(ledgers, deeds, at - 1);
        law_every_deed_keeps_the_balance(ledgers[at - 1], deeds[at - 1], ledgers[at]);
    }
}

/// The client that was told where its machine is finds it there: what follows the public
/// address in what it was told asks for the instance that was parked for it.
pub proof fn law_confirmed_client_finds_its_machine(
    config: Config,
    before: Seq<(Seq<char>, u64)>,
    after: Seq<(Seq<char>, u64)>,
    id: Seq<char>,
    instance: u64,
    ended: Ended,
    later: Seq<(Seq<char>, u64)>,
    answer: Admission,
)
    requires
        distinct_keys(before),
        parked(before, after, id, instance, ended),
        admitted(
            after,
            later,
            client_url(config, id).skip(config.public_url@.len() as int),
            answer,
        ),
    ensures
        answer matches Admission::Accepted { session } && session.instance == instance
            && session.id@ == id,
{
    reveal_strlit("/");
    let path = client_url(config, id).skip(config.public_url@.len() as int);
    assert(path =~= "/"@ + id);
    assert(requested_id(path) =~= id);
    law_parked_instance_is_found(before, after, id, instance, ended, path, later, answer);
}

/// A sweep ends parked instances alone: one that is in the session of a client is left to
/// it.
pub proof fn law_sweep_spares_sessions(before: Ledger, ended: Ended, after: Ledger)
    requires
        before.balanced(),
        before.becomes(Deed::Sweep { ended }, after),
    ensures
        after.in_sessions == before.in_sessions,
        ended.instances().subset_of(holdings(before.parked)),
        after.ended == before.ended.add(ended.instances()),
{
    law_sweep_conserves_instances(before.parked, after.parked, ended);
}

/// A sweep ends no instance while it spares one that was parked before it: where an instance
/// stays, all that were parked later stay, and are found as before.
pub proof fn law_sweep_ends_the_longest_parked(
    before: Seq<(Seq<char>, u64)>,
    after: Seq<(Seq<char>, u64)>,
    ended: Ended,
    at: int,
)
    requires
        distinct_keys(before),
        swept(before, after, ended),
        0 <= at < before.len(),
    ensures
        at < ended.expired@.len() ==> ended.expired@[at] == before[at].1 && lookup(
            after,
            before[at].0,
        ) is None,
        at >= ended.expired@.len() ==> lookup(after, before[at].0) == Some(before[at].1),
{
    let expired = ended.expired@.len() as int;
    let kept = before.skip(expired);
    law_sweep_keeps_the_others(before, after, ended, before[at].0);
    if at >= expired {
        assert(kept[at - expired] == before[at]);
        lemma_entry_is_found(kept, at - expired);
    } else {
        lemma_absent(kept, before[at].0);
    }
}

/// Where nothing is parked under an id, nothing is until an instance is parked under it.
pub proof fn law_nothing_is_parked_by_itself(
    before: Ledger,
    deed: Deed,
    after: Ledger,
    id: Seq<char>,
)
    requires
        before.becomes(deed, after),
        lookup(before.parked, id) is None,
        !deed.parks(id),
    ensures
        lookup(after.parked, id) is None,
{
    match deed {
        Deed::Answer { path, .. } => {
            lemma_without(before.parked, requested_id(path));
        },
        Deed::Settle {
            session: Some(session),
            outcome: ConnOutcome::Served { action: ConnEndAction::PreserveInstance },
            ended,
            ..
        } => {
            lemma_rest_lookup(before.parked, ended.expired@.len() as int, id);
            law_parking_keeps_the_others(
                before.parked,
                after.parked,
                session.id@,
                session.instance,
                ended,
                id,
            );
        },
        Deed::Start { id: other, instance, ended } => {
            lemma_rest_lookup(before.parked, ended.expired@.len() as int, id);
            law_parking_keeps_the_others(before.parked, after.parked, other, instance, ended, id);
        },
        Deed::Sweep { ended } => {
            lemma_rest_lookup(before.parked, ended.expired@.len() as int, id);
            law_sweep_keeps_the_others(before.parked, after.parked, ended, id);
        },
        _ => {},
    }
}

/// What is not found in all entries is not found in the rest of them.
proof fn lemma_rest_lookup(entries: Seq<(Seq<char>, u64)>, count: int, id: Seq<char>)
    requires
        0 <= count <= entries.len(),
        lookup(entries, id) is None,
    ensures
        lookup(entries.skip(count), id) is None,
    decreases entries.len(),
{
    if count < entries.len() {
        assert(entries.skip(count).drop_last() =~= entries.drop_last().skip(count));
        assert(entries.skip(count).last() == entries.last());
        lemma_rest_lookup(entries.drop_last(), count, id);
    }
}

/// An instance that was taken out for a client is not handed to another: as long as none is
/// parked under the id again, whatever else is done, whoever asks for the id is told that
/// there is no such session.
pub proof fn law_taken_instance_is_not_handed_out_again(
    ledgers: Seq<Ledger>,
    deeds: Seq<Deed>,
    id: Seq<char>,
    at: int,
)
    requires
        ledgers.len() == deeds.len() + 1,
        forall|i: int|
            0 <= i < deeds.len() ==> (#[trigger] ledgers[i]).becomes(deeds[i], ledgers[i + 1]),
        deeds.len() > 0,
        deeds[0].asks_for(id),
        forall|i: int| 0 < i < deeds.len() ==> !(#[trigger] deeds[i]).parks(id),
        0 < at <= deeds.len(),
    ensures
        lookup(ledgers[at].parked, id) is None,
        at < deeds.len() && deeds[at].asks_for(id) ==> (
        deeds[at] matches Deed::Answer { admission: Admission::Refused { status, .. }, .. }
            && status == 404),
    decreases at,
{
    if at == 1 {
        assert(ledgers[0].becomes(deeds[0], ledgers[1]));
        lemma_without(ledgers[0].parked, id);
    } else {
        law_taken_instance_is_not_handed_out_again(ledgers, deeds, id, at - 1);
        assert(ledgers[at - 1].becomes(deeds[at - 1], ledgers[at]));
        law_nothing_is_parked_by_itself(ledgers[at - 1], deeds[at - 1], ledgers[at], id);
    }
    if at < deeds.len() {
        assert(ledgers[at].becomes(deeds[at], ledgers[at + 1]));
    }
}

/// Whatever is done with the instances, it stays known of each that is parked, and of nothing
/// else, since when it is; and they stay in the order in which they were parked.
pub proof fn law_every_deed_keeps_the_times(
    before: Ledger,
    deed: Deed,
    max_secs: u64,
    now: int,
    after: Ledger,
)
    requires
        distinct_keys(before.parked),
        timed(before.parked, before.since),
        before.becomes_at(deed, max_secs, now, after),
    ensures
        timed(after.parked, after.since),
{
    match deed {
        Deed::Answer { path, .. } => {
            lemma_without_timed(before.parked, before.since, requested_id(path));
        },
        Deed::Settle {
            session: Some(session),
            outcome: ConnOutcome::Served { action: ConnEndAction::PreserveInstance },
            ended,
            ..
        } => {
            lemma_parking_keeps_the_times(
                before,
                max_secs,
                session.id@,
                session.instance,
                ended,
                now,
            );
        },
        Deed::Start { id, instance, ended } => {
            lemma_parking_keeps_the_times(before, max_secs, id, instance, ended, now);
        },
        Deed::Sweep { ended } => {
            let kept = before.parked.skip(ended.expired@.len() as int);
            match lookup(kept, Seq::empty()) {
                Some(value) => {
                    lemma_parking_keeps_the_times(
                        before,
                        max_secs,
                        Seq::empty(),
                        value,
                        ended,
                        now,
                    );
                },
                None => {
                    lemma_drop_timed(before.parked, before.since, ended.expired@.len() as int);
                },
            }
        },
        _ => {},
    }
}

/// Dropping what has expired, and parking an instance at the same moment, keeps the times.
proof fn lemma_parking_keeps_the_times(
    before: Ledger,
    max_secs: u64,
    id: Seq<char>,
    instance: u64,
    ended: Ended,
    now: int,
)
    requires
        distinct_keys(before.parked),
        timed(before.parked, before.since),
        ended.expired@.len() <= before.parked.len(),
        expired_at(before.parked, before.since, max_secs, ended, now),
    ensures
        timed(
            without(before.parked.skip(ended.expired@.len() as int), id).push((id, instance)),
            forgotten(before.since, before.parked.take(ended.expired@.len() as int)).insert(
                id,
                now,
            ),
        ),
{
    let count = ended.expired@.len() as int;
    lemma_drop_timed(before.parked, before.since, count);
    lemma_forgotten(before.since, before.parked.take(count));
    lemma_store_timed(
        before.parked.skip(count),
        forgotten(before.since, before.parked.take(count)),
        id,
        instance,
        now,
    );
}

/// A deed that neither parks an instance under an id nor hands it out ends the instance there
/// exactly if the parked instances are looked through and it has outlived its time; otherwise
/// it stays, parked since then.
proof fn lemma_instance_stays_or_expires(
    before: Ledger,
    deed: Deed,
    max_secs: u64,
    now: int,
    after: Ledger,
    id: Seq<char>,
)
    requires
        distinct_keys(before.parked),
        timed(before.parked, before.since),
        before.becomes_at(deed, max_secs, now, after),
        lookup(before.parked, id) is Some,
        id.len() > 0,
        !deed.parks(id),
        !deed.asks_for(id),
    ensures
        if deed.looks_through() && outlived(before.since[id], max_secs, now) {
            lookup(after.parked, id) is None && deed.ends(lookup(before.parked, id)->0)
        } else {
            lookup(after.parked, id) == lookup(before.parked, id) && after.since[id]
                == before.since[id]
        },
{
    let at = lemma_found_at(before.parked, id);
    match deed {
        Deed::Answer { path, .. } => {
            if path.len() > 0 {
                lemma_without(before.parked, requested_id(path));
            }
        },
        Deed::Settle {
            session: Some(session),
            outcome: ConnOutcome::Served { action: ConnEndAction::PreserveInstance },
            ended,
            ..
        } => {
            lemma_expiry(before, max_secs, now, ended, at);
            law_parking_keeps_the_others(
                before.parked,
                after.parked,
                session.id@,
                session.instance,
                ended,
                id,
            );
        },
        Deed::Start { id: other, instance, ended } => {
            lemma_expiry(before, max_secs, now, ended, at);
            law_parking_keeps_the_others(before.parked, after.parked, other, instance, ended, id);
        },
        Deed::Sweep { ended } => {
            lemma_expiry(before, max_secs, now, ended, at);
            law_sweep_keeps_the_others(before.parked, after.parked, ended, id);
        },
        _ => {},
    }
}

/// Which of the parked instances expires, and what is left of the others.
proof fn lemma_expiry(before: Ledger, max_secs: u64, now: int, ended: Ended, at: int)
    requires
        distinct_keys(before.parked),
        timed(before.parked, before.since),
        ended.expired@.len() <= before.parked.len(),
        ended.expired@ == values(before.parked.take(ended.expired@.len() as int)),
        expired_at(before.parked, before.since, max_secs, ended, now),
        0 <= at < before.parked.len(),
    ensures
        ({
            let (id, instance) = before.parked[at];
            let count = ended.expired@.len() as int;
            if outlived(before.since[id], max_secs, now) {
                lookup(before.parked.skip(count), id) is None && ended.expired@.contains(instance)
            } else {
                lookup(before.parked.skip(count), id) == Some(instance) && forgotten(
                    before.since,
                    before.parked.take(count),
                )[id] == before.since[id]
            }
        }),
{
    let (id, instance) = before.parked[at];
    let count = ended.expired@.len() as int;
    let kept = before.parked.skip(count);
    lemma_store(before.parked, count, id, instance);
    lemma_drop_timed(before.parked, before.since, count);
    if at < count {
        assert(before.parked.take(count)[at] == before.parked[at]);
        assert(ended.expired@[at] == instance);
        assert forall|i: int| 0 <= i < kept.len() implies (#[trigger] kept[i]).0 != id by {
            assert(kept[i] == before.parked[count + i]);
        }
        lemma_absent(kept, id);
    } else {
        assert(kept[at - count] == before.parked[at]);
        lemma_entry_is_found(kept, at - count);
    }
}

/// An instance that was parked at `moments[0]` stays parked while no client asks for it and
/// none is parked in its place, until the first sweep, or the first time that another is
/// parked, at which it was parked for longer than `max_secs` seconds; then it ends, even if
/// no client ever came. It ends no earlier. (Under the empty id, which no task has, a sweep
/// counts an instance as parked anew.)
pub proof fn law_instance_ends_when_it_has_outlived_its_time(
    ledgers: Seq<Ledger>,
    deeds: Seq<Deed>,
    moments: Seq<int>,
    max_secs: u64,
    id: Seq<char>,
    at: int,
)
    requires
        ledgers.len() == deeds.len() + 1,
        moments.len() == deeds.len(),
        ledgers[0].balanced(),
        timed(ledgers[0].parked, ledgers[0].since),
        forall|i: int|
            0 <= i < deeds.len() ==> (#[trigger] ledgers[i]).becomes_at(
                deeds[i],
                max_secs,
                moments[i],
                ledgers[i + 1],
            ),
        deeds.len() > 0,
        id.len() > 0,
        deeds[0].parks(id),
        forall|i: int|
            0 < i < deeds.len() ==> !(#[trigger] deeds[i]).parks(id) && !deeds[i].asks_for(id),
        0 < at <= deeds.len(),
    ensures
        ({
            let due = exists|k: int|
                0 < k < at && (#[trigger] deeds[k]).looks_through() && outlived(
                    moments[0],
                    max_secs,
                    moments[k],
                );
            if due {
                lookup(ledgers[at].parked, id) is None
            } else {
                lookup(ledgers[at].parked, id) == Some(deeds[0].instance_parked())
                    && ledgers[at].since[id] == moments[0]
            }
        }),
        at < deeds.len() && lookup(ledgers[at].parked, id) is Some && deeds[at].looks_through()
            && outlived(moments[0], max_secs, moments[at]) ==> deeds[at].ends(
            deeds[0].instance_parked(),
        ),
        ledgers[at].balanced(),
        timed(ledgers[at].parked, ledgers[at].since),
    decreases at,
{
    let last = at - 1;
    assert(ledgers[last].becomes_at(deeds[last], max_secs, moments[last], ledgers[last + 1]));
    if at == 1 {
        let (before, after) = (ledgers[0], ledgers[1]);
        match deeds[0] {
            Deed::Start { instance, ended, .. } => {
                lemma_store(before.parked, ended.expired@.len() as int, id, instance);
            },
            Deed::Settle { session: Some(session), ended, .. } => {
                lemma_store(
                    before.parked,
                    ended.expired@.len() as int,
                    id,
                    session.instance,
                );
            },
            _ => {},
        }
    } else {
        law_instance_ends_when_it_has_outlived_its_time(
            ledgers,
            deeds,
            moments,
            max_secs,
            id,
            last,
        );
        let (before, after) = (ledgers[last], ledgers[at]);
        assert(!deeds[last].parks(id) && !deeds[last].asks_for(id));
        if lookup(before.parked, id) is Some {
            lemma_instance_stays_or_expires(before, deeds[last], max_secs, moments[last], after, id);
            if deeds[last].looks_through() && outlived(moments[0], max_secs, moments[last]) {
                assert(deeds[last].looks_through());
            }
        } else {
            law_nothing_is_parked_by_itself(before, deeds[last], after, id);
            let k = choose|k: int|
                0 < k < last && (#[trigger] deeds[k]).looks_through() && outlived(
                    moments[0],
                    max_secs,
                    moments[k],
                );
            assert(deeds[k].looks_through());
        }
    }
    law_every_deed_keeps_the_balance(ledgers[last], deeds[last], ledgers[at]);
    law_every_deed_keeps_the_times(
        ledgers[last],
        deeds[last],
        max_secs,
        moments[last],
        ledgers[at],
    );
    if at < deeds.len() && lookup(ledgers[at].parked, id) is Some {
        assert(ledgers[at].becomes_at(deeds[at], max_secs, moments[at], ledgers[at + 1]));
        assert(!deeds[at].parks(id) && !deeds[at].asks_for(id));
        lemma_instance_stays_or_expires(
            ledgers[at],
            deeds[at],
            max_secs,
            moments[at],
            ledgers[at + 1],
            id,
        );
    }
}

/// Where ids are distinct, taking out what is under an id takes out one entry, and leaves the
/// others in their order.
proof fn lemma_without_is_remove(entries: Seq<(Seq<char>, u64)>, at: int)
    requires
        distinct_keys(entries),
        0 <= at < entries.len(),
    ensures
        without(entries, entries[at].0) == entries.remove(at),
    decreases entries.len(),
{
    let id = entries[at].0;
    let rest = entries.drop_last();
    if at == entries.len() - 1 {
        assert forall|i: int| 0 <= i < rest.len() implies (#[trigger] rest[i]).0 != id by {
            assert(entries[i].0 != entries[at].0);
        }
        lemma_absent(rest, id);
        assert(entries.remove(at) =~= rest);
    } else {
        assert(rest[at] == entries[at]);
        lemma_without_is_remove(rest, at);
        assert(entries[at].0 != entries[entries.len() - 1].0);
        assert(entries.remove(at) =~= rest.remove(at).push(entries.last()));
    }
}

/// A client that asks for the path `/` with an id behind it is handed the instance that is
/// parked under that id, and that one alone is taken out; it is refused only if there is
/// none, and then nothing changes. A request without a path is a bad one.
pub proof fn law_client_is_handed_the_instance_it_asks_for(
    before: Seq<(Seq<char>, u64)>,
    after: Seq<(Seq<char>, u64)>,
    path: Seq<char>,
    admission: Admission,
)
    requires
        distinct_keys(before),
        admitted(before, after, path, admission),
    ensures
        path.len() == 0 ==> after == before && (
        admission matches Admission::Refused { status, message } && status == 400 && message@
            == "bad request"@),
        path.len() > 0 ==> match admission {
            Admission::Accepted { session } => {
                &&& session.id@ == path.skip(1)
                &&& exists|i: int|
                    0 <= i < before.len() && #[trigger] before[i] == (
                        path.skip(1),
                        session.instance,
                    ) && after == before.remove(i)
            },
            Admission::Refused { status, message } => {
                &&& status == 404
                &&& message@ == "session not found"@
                &&& after == before
                &&& forall|i: int| 0 <= i < before.len() ==> (#[trigger] before[i]).0 != path.skip(1)
            },
        },
{
    if path.len() > 0 {
        match admission {
            Admission::Accepted { session } => {
                let at = lemma_found_at(before, path.skip(1));
                lemma_without_is_remove(before, at);
                assert(before[at] == (path.skip(1), session.instance));
            },
            Admission::Refused { .. } => {
                assert forall|i: int| 0 <= i < before.len() implies (#[trigger] before[i]).0
                    != path.skip(1) by {
                    lemma_entry_is_found(before, i);
                }
            },
        }
    }
}

/// What expires are the instances parked first, and they are the ones that have ended for it;
/// what is parked comes last; and where there was an instance under its id, that one, and no
/// other, is replaced.
pub proof fn law_parked_instance_comes_last(
    before: Seq<(Seq<char>, u64)>,
    after: Seq<(Seq<char>, u64)>,
    id: Seq<char>,
    instance: u64,
    ended: Ended,
)
    requires
        distinct_keys(before),
        parked(before, after, id, instance, ended),
    ensures
        ({
            let expired = ended.expired@.len() as int;
            &&& expired <= before.len()
            &&& forall|i: int|
                0 <= i < expired ==> #[trigger] ended.expired@[i] == before[i].1
            &&& after.len() > 0
            &&& after.last() == (id, instance)
            &&& match ended.replaced {
                Some(replaced) => exists|at: int|
                    expired <= at < before.len() && #[trigger] before[at] == (id, replaced)
                        && after.drop_last() == before.skip(expired).remove(at - expired),
                None => {
                    &&& after.drop_last() == before.skip(expired)
                    &&& forall|at: int|
                        expired <= at < before.len() ==> (#[trigger] before[at]).0 != id
                },
            }
        }),
{
    let expired = ended.expired@.len() as int;
    let kept = before.skip(expired);
    lemma_store(before, expired, id, instance);
    assert forall|i: int| 0 <= i < expired implies #[trigger] ended.expired@[i] == before[i].1 by {
        assert(values(before.take(expired))[i] == before.take(expired)[i].1);
    }
    match ended.replaced {
        Some(replaced) => {
            let at = lemma_found_at(kept, id);
            lemma_without_is_remove(kept, at);
            assert(before[expired + at] == (id, replaced));
            assert(after.drop_last() =~= kept.remove(at));
        },
        None => {
            assert forall|at: int| expired <= at < before.len() implies (#[trigger] before[at]).0
                != id by {
                assert(kept[at - expired] == before[at]);
                lemma_entry_is_found(kept, at - expired);
            }
            assert forall|i: int| 0 <= i < kept.len() implies (#[trigger] kept[i]).0 != id by {
                assert(kept[i] == before[expired + i]);
            }
            lemma_absent(kept, id);
            assert(after.drop_last() =~= kept);
        },
    }
}

/// In a sweep the instances parked first expire, and those are all that have ended; the
/// others stay as they are. (One under the empty id counts as parked last.)
pub proof fn law_sweep_drops_from_the_front(
    before: Seq<(Seq<char>, u64)>,
    after: Seq<(Seq<char>, u64)>,
    ended: Ended,
)
    requires
        distinct_keys(before),
        swept(before, after, ended),
    ensures
        ({
            let expired = ended.expired@.len() as int;
            &&& expired <= before.len()
            &&& forall|i: int|
                0 <= i < expired ==> #[trigger] ended.expired@[i] == before[i].1
            &&& ended.replaced is None
            &&& ended.killed is None
            &&& (forall|at: int|
                expired <= at < before.len() ==> (#[trigger] before[at]).0.len() > 0) ==> after
                == before.skip(expired)
            &&& forall|at: int|
                expired <= at < before.len() && (#[trigger] before[at]).0.len() == 0 ==> after
                    == before.skip(expired).remove(at - expired).push(before[at])
        }),
{
    let expired = ended.expired@.len() as int;
    let kept = before.skip(expired);
    lemma_store(before, expired, Seq::empty(), 0);
    assert forall|i: int| 0 <= i < expired implies #[trigger] ended.expired@[i] == before[i].1 by {
        assert(values(before.take(expired))[i] == before.take(expired)[i].1);
    }
    if forall|at: int| expired <= at < before.len() ==> (#[trigger] before[at]).0.len() > 0 {
        assert forall|i: int| 0 <= i < kept.len() implies (#[trigger] kept[i]).0 != Seq::<
            char,
        >::empty() by {
            assert(kept[i] == before[expired + i]);
        }
        lemma_absent(kept, Seq::empty());
    }
    assert forall|at: int|
        expired <= at < before.len() && (#[trigger] before[at]).0.len() == 0 implies after
        == before.skip(expired).remove(at - expired).push(before[at]) by {
        assert(kept[at - expired] == before[at]);
        assert(before[at].0 =~= Seq::<char>::empty());
        lemma_entry_is_found(kept, at - expired);
        lemma_without_is_remove(kept, at - expired);
    }
}

/// When a connection is over, its instance is parked again exactly if it is to be preserved;
/// otherwise it has ended, and nothing else changes. A handshake that has failed is an error.
pub proof fn law_instance_is_parked_or_has_ended(
    before: Seq<(Seq<char>, u64)>,
    after: Seq<(Seq<char>, u64)>,
    session: Option<Session>,
    outcome: ConnOutcome,
    result: Result<(), String>,
    ended: Ended,
)
    requires
        connection_settled(before, after, session, outcome, result, ended),
    ensures
        outcome matches ConnOutcome::HandshakeFailed { error } ==> {
            &&& result matches Err(text) && text@ == "accept_hdr_async: "@ + error@
            &&& after == before
            &&& ended.expired@.len() == 0
            &&& ended.replaced is None
            &&& session matches Some(session) ==> ended.killed == Some(session.instance)
            &&& session is None ==> ended.killed is None
        },
        outcome matches ConnOutcome::Served { action } ==> {
            &&& result is Ok
            &&& session matches Some(session) && match action {
                ConnEndAction::KillInstance => {
                    &&& after == before
                    &&& ended.expired@.len() == 0
                    &&& ended.replaced is None
                    &&& ended.killed == Some(session.instance)
                },
                ConnEndAction::PreserveInstance => {
                    &&& ended.killed is None
                    &&& after.len() > 0
                    &&& after.last() == (session.id@, session.instance)
                    &&& parked(before, after, session.id@, session.instance, ended)
                },
            }
        },
{
}

/// An instance expires exactly if more than `max_secs` seconds have passed since it was
/// parked; then it is not known any more since when it was. What is parked is so since now,
/// and every other instance since it was parked before.
pub proof fn law_instance_expires_after_its_time(
    before: Seq<(Seq<char>, u64)>,
    since: Times,
    after: Times,
    max_secs: u64,
    id: Seq<char>,
    ended: Ended,
    now: int,
    at: int,
)
    requires
        distinct_keys(before),
        timed(before, since),
        ended.expired@.len() <= before.len(),
        parked_at(before, since, after, max_secs, id, ended, now) || swept_at(
            before,
            since,
            after,
            max_secs,
            ended,
            now,
        ),
        0 <= at < before.len(),
    ensures
        at < ended.expired@.len() <==> now - since[before[at].0] > max_secs * 1_000_000_000,
        since[before[at].0] <= now,
        parked_at(before, since, after, max_secs, id, ended, now) ==> after.dom().contains(id)
            && after[id] == now,
        at >= ended.expired@.len() && before[at].0 != id && before[at].0.len() > 0
            ==> after.dom().contains(before[at].0) && after[before[at].0] == since[before[at].0],
        at < ended.expired@.len() && before[at].0 != id && before[at].0.len() > 0
            ==> !after.dom().contains(before[at].0),
{
    let count = ended.expired@.len() as int;
    let key = before[at].0;
    lemma_entry_is_found(before, at);
    assert(since.dom().contains(key));
    lemma_drop_timed(before, since, count);
    lemma_forgotten(since, before.take(count));
    lemma_split_lookup(before, count, key);
    lemma_store(before, count, key, 0);
    if at >= count {
        assert(before.skip(count)[at - count] == before[at]);
        lemma_entry_is_found(before.skip(count), at - count);
    } else {
        assert(before.take(count)[at] == before[at]);
        assert forall|i: int| 0 <= i < before.skip(count).len() implies (#[trigger] before.skip(
            count,
        )[i]).0 != key by {
            assert(before.skip(count)[i] == before[count + i]);
        }
        lemma_absent(before.skip(count), key);
    }
}

/// Each instance that has ended is counted as often as it is named: those that have expired,
/// the one that was replaced, and the one that was killed.
pub proof fn law_every_ended_instance_counts(ended: Ended, instance: u64)
    ensures
        ended.instances().count(instance) == ended.expired@.to_multiset().count(instance) + (
        if ended.replaced == Some(instance) {
            1nat
        } else {
            0nat
        }) + (if ended.killed == Some(instance) {
            1nat
        } else {
            0nat
        }),
        sequence(ended.replaced).len() == (if ended.replaced is Some {
            1nat
        } else {
            0nat
        }),
        ended.replaced matches Some(replaced) ==> sequence(ended.replaced)[0] == replaced,
        sequence(ended.killed).len() == (if ended.killed is Some {
            1nat
        } else {
            0nat
        }),
        ended.killed matches Some(killed) ==> sequence(ended.killed)[0] == killed,
        ended.nothing() <==> ended.expired@.len() == 0 && ended.replaced is None && ended.killed
            is None,
{
}

/// An id is under an entry exactly if something is found there, and that is the value of the
/// entry.
pub proof fn law_entry_is_found_under_its_id(entries: Seq<(Seq<char>, u64)>, at: int)
    requires
        distinct_keys(entries),
        0 <= at < entries.len(),
    ensures
        lookup(entries, entries[at].0) == Some(entries[at].1),
        without(entries, entries[at].0) == entries.remove(at),
{
    lemma_entry_is_found(entries, at);
    lemma_without_is_remove(entries, at);
}

} // verus!
