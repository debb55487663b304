//! The cache in which parked instances wait for their client.
//!
//! An instance is known here by a number. The cache drops an entry
//! that nobody has touched for too long, and says which entries it dropped.

use lru_time_cache::LruCache;
use std::time::Duration;
use vstd::multiset::Multiset;
use vstd::prelude::*;

verus! {

/// The longest time, in seconds, that an entry can be told to live. The clock counts
/// seconds as a signed 64-bit number, and the sum of an instant and a longer time could
/// leave its range.
pub const MAX_TTL_SECS: u64 = 0x3fff_ffff_ffff_ffff;

/// `lru_time_cache::LruCache`, seen only through the functions below.
#[verifier::external_type_specification]
#[verifier::external_body]
#[verifier::reject_recursive_types(Key)]
#[verifier::reject_recursive_types(Value)]
pub struct ExLruCache<Key, Value>(lru_time_cache::LruCache<Key, Value>);

/// The entries that a cache holds, from the one that was touched longest ago to the one
/// that was touched last.
pub uninterp spec fn cache_entries(cache: LruCache<String, u64>) -> Seq<(Seq<char>, u64)>;

/// The time to live, in seconds, that a cache was made with.
pub uninterp spec fn cache_ttl_secs(cache: LruCache<String, u64>) -> u64;

/// The times at which things happened, by key, in nanoseconds on the clock of
/// `std::time::Instant`.
pub type Times = Map<Seq<char>, int>;

/// The times at which the entries of a cache were last touched.
pub uninterp spec fn cache_times(cache: LruCache<String, u64>) -> Map<Seq<char>, int>;

/// Whether at `now` something that was last touched at `since` has outlived a time of `secs`
/// seconds.
pub open spec fn outlived(since: int, secs: u64, now: int) -> bool {
    since + secs * 1_000_000_000 < now
}

/// Whether at `now` the first `count` of `entries` have outlived their time and the next one,
/// where there is one, has not. Nothing was touched later than `now`.
pub open spec fn drops_at(
    entries: Seq<(Seq<char>, u64)>,
    times: Times,
    secs: u64,
    count: int,
    now: int,
) -> bool {
    &&& forall|key: Seq<char>| times.dom().contains(key) ==> #[trigger] times[key] <= now
    &&& forall|i: int|
        0 <= i < count ==> outlived(times[(#[trigger] entries[i]).0], secs, now)
    &&& count < entries.len() ==> !outlived(times[entries[count].0], secs, now)
}

/// `times` without those of `entries`.
pub open spec fn forgotten(times: Times, entries: Seq<(Seq<char>, u64)>) -> Times
    decreases entries.len(),
{
    if entries.len() == 0 {
        times
    } else {
        forgotten(times, entries.drop_last()).remove(entries.last().0)
    }
}

/// `times` when `key` is touched at `now`, if `entries` have an entry under it.
pub open spec fn touched_times(
    times: Times,
    entries: Seq<(Seq<char>, u64)>,
    key: Seq<char>,
    now: int,
) -> Times {
    if lookup(entries, key) is Some {
        times.insert(key, now)
    } else {
        times
    }
}

/// Whether `times` are those of `entries`: of each, and of nothing else; and an entry was
/// touched no later than those behind it.
pub open spec fn timed(entries: Seq<(Seq<char>, u64)>, times: Times) -> bool {
    &&& forall|key: Seq<char>| #[trigger]
        times.dom().contains(key) <==> lookup(entries, key) is Some
    &&& in_order(entries, times)
}

/// Whether none of `entries` was touched later than one behind it.
pub open spec fn in_order(entries: Seq<(Seq<char>, u64)>, times: Times) -> bool {
    forall|i: int, j: int|
        0 <= i <= j < entries.len() ==> times[(#[trigger] entries[i]).0] <= times[(
        #[trigger] entries[j]).0]
}

/// The value that `entries` hold under `key`.
pub open spec fn lookup(entries: Seq<(Seq<char>, u64)>, key: Seq<char>) -> Option<u64>
    decreases entries.len(),
{
    if entries.len() == 0 {
        None
    } else if entries.last().0 == key {
        Some(entries.last().1)
    } else {
        lookup(entries.drop_last(), key)
    }
}

/// `entries` without those under `key`.
pub open spec fn without(entries: Seq<(Seq<char>, u64)>, key: Seq<char>) -> Seq<(Seq<char>, u64)>
    decreases entries.len(),
{
    if entries.len() == 0 {
        entries
    } else if entries.last().0 == key {
        without(entries.drop_last(), key)
    } else {
        without(entries.drop_last(), key).push(entries.last())
    }
}

/// No two of `entries` have the same key.
pub open spec fn distinct_keys(entries: Seq<(Seq<char>, u64)>) -> bool {
    forall|i: int, j: int|
        0 <= i < j < entries.len() ==> (#[trigger] entries[i]).0 != (#[trigger] entries[j]).0
}

/// The entries that a vector of keys and values stands for.
pub open spec fn listed(entries: Seq<(String, u64)>) -> Seq<(Seq<char>, u64)> {
    entries.map_values(|entry: (String, u64)| (entry.0@, entry.1))
}

/// The values of `entries`, in their order.
pub open spec fn values(entries: Seq<(Seq<char>, u64)>) -> Seq<u64> {
    entries.map_values(|entry: (Seq<char>, u64)| entry.1)
}

/// How often each value occurs in `entries`.
pub open spec fn holdings(entries: Seq<(Seq<char>, u64)>) -> Multiset<u64>
    decreases entries.len(),
{
    if entries.len() == 0 {
        Multiset::empty()
    } else {
        holdings(entries.drop_last()).insert(entries.last().1)
    }
}

/// `LruCache::with_expiry_duration`: a new cache, with nothing in it, that lets an entry
/// live for `secs` seconds after it was last touched.
#[verifier::external_body]
pub(crate) fn cache_with_expiry(secs: u64) -> (cache: LruCache<String, u64>)
    ensures
        cache_entries(cache) == Seq::<(Seq<char>, u64)>::empty(),
        cache_times(cache) == Times::empty(),
        cache_ttl_secs(cache) == secs,
{
    LruCache::with_expiry_duration(Duration::from_secs(secs))
}

/// `LruCache::remove`: takes the entry under `key` out of the cache and returns its
/// value. How long ago the entry was touched makes no difference.
#[verifier::external_body]
pub(crate) fn cache_remove(cache: &mut LruCache<String, u64>, key: &str) -> (value: Option<u64>)
    requires
        distinct_keys(cache_entries(*old(cache))),
    ensures
        value == lookup(cache_entries(*old(cache)), key@),
        cache_entries(*final(cache)) == without(cache_entries(*old(cache)), key@),
        cache_times(*final(cache)) == cache_times(*old(cache)).remove(key@),
        cache_ttl_secs(*final(cache)) == cache_ttl_secs(*old(cache)),
{
    cache.remove(key)
}

/// `LruCache::notify_insert`: first drops the entries that have outlived their time,
/// which are the ones touched longest ago, and returns them in that order; then stores
/// `value` under `key` as the entry touched last, and returns the value that was there.
/// The clock is read once, and goes by what `std::time::Instant` promises: it shows a moment
/// that is not before any at which an entry was touched. From the front of the list, entries
/// are dropped up to the first that has not outlived its time at that moment, and it is the
/// moment at which the new entry counts as touched. Which moment it is depends on the clock.
#[verifier::external_body]
pub(crate) fn cache_notify_insert(
    cache: &mut LruCache<String, u64>,
    key: String,
    value: u64,
) -> (outcome: (Option<u64>, Vec<(String, u64)>))
    requires
        distinct_keys(cache_entries(*old(cache))),
        cache_ttl_secs(*old(cache)) <= MAX_TTL_SECS,
    ensures
        outcome.1@.len() <= cache_entries(*old(cache)).len(),
        listed(outcome.1@) == cache_entries(*old(cache)).take(outcome.1@.len() as int),
        outcome.0 == lookup(cache_entries(*old(cache)).skip(outcome.1@.len() as int), key@),
        cache_entries(*final(cache)) == without(
            cache_entries(*old(cache)).skip(outcome.1@.len() as int),
            key@,
        ).push((key@, value)),
        exists|now: int| #[trigger]
            drops_at(
                cache_entries(*old(cache)),
                cache_times(*old(cache)),
                cache_ttl_secs(*old(cache)),
                outcome.1@.len() as int,
                now,
            ) && cache_times(*final(cache)) == forgotten(
                cache_times(*old(cache)),
                cache_entries(*old(cache)).take(outcome.1@.len() as int),
            ).insert(key@, now),
        cache_ttl_secs(*final(cache)) == cache_ttl_secs(*old(cache)),
{
    cache.notify_insert(key, value)
}

/// `LruCache::notify_get`: first drops the entries that have outlived their time, which
/// are the ones touched longest ago, and returns them in that order; then looks `key` up
/// and makes its entry, where there is one, the entry touched last. The clock is read once,
/// as in `cache_notify_insert`: entries are dropped up to the first that has not outlived its
/// time at that moment, and it is the moment at which the entry under `key` counts as
/// touched. Which moment it is depends on the clock.
#[verifier::external_body]
pub(crate) fn cache_notify_get(cache: &mut LruCache<String, u64>, key: &str) -> (outcome: (
    Option<u64>,
    Vec<(String, u64)>,
))
    requires
        distinct_keys(cache_entries(*old(cache))),
        cache_ttl_secs(*old(cache)) <= MAX_TTL_SECS,
    ensures
        outcome.1@.len() <= cache_entries(*old(cache)).len(),
        listed(outcome.1@) == cache_entries(*old(cache)).take(outcome.1@.len() as int),
        outcome.0 == lookup(cache_entries(*old(cache)).skip(outcome.1@.len() as int), key@),
        cache_entries(*final(cache)) == touched(
            cache_entries(*old(cache)).skip(outcome.1@.len() as int),
            key@,
        ),
        exists|now: int| #[trigger]
            drops_at(
                cache_entries(*old(cache)),
                cache_times(*old(cache)),
                cache_ttl_secs(*old(cache)),
                outcome.1@.len() as int,
                now,
            ) && cache_times(*final(cache)) == touched_times(
                forgotten(
                    cache_times(*old(cache)),
                    cache_entries(*old(cache)).take(outcome.1@.len() as int),
                ),
                cache_entries(*old(cache)).skip(outcome.1@.len() as int),
                key@,
                now,
            ),
        cache_ttl_secs(*final(cache)) == cache_ttl_secs(*old(cache)),
{
    let (value, expired) = cache.notify_get(key);
    (value.copied(), expired)
}

/// `entries` with the entry under `key`, where there is one, moved to the end.
pub open spec fn touched(entries: Seq<(Seq<char>, u64)>, key: Seq<char>) -> Seq<(Seq<char>, u64)> {
    match lookup(entries, key) {
        Some(value) => without(entries, key).push((key, value)),
        None => entries,
    }
}

/// What is taken out under a key is no longer there, and every other entry stays.
pub proof fn lemma_without(entries: Seq<(Seq<char>, u64)>, key: Seq<char>)
    ensures
        lookup(without(entries, key), key) is None,
        forall|other: Seq<char>|
            other != key ==> lookup(without(entries, key), other) == lookup(entries, other),
        without(entries, key).len() <= entries.len(),
        forall|i: int|
            0 <= i < without(entries, key).len() ==> (#[trigger] without(entries, key)[i]).0 != key,
        forall|i: int|
            0 <= i < without(entries, key).len() ==> entries.contains(
                #[trigger] without(entries, key)[i],
            ),
    decreases entries.len(),
{
    if entries.len() > 0 {
        let rest = entries.drop_last();
        lemma_without(rest, key);
        let kept = without(rest, key);
        assert forall|i: int| 0 <= i < without(entries, key).len() implies entries.contains(
            #[trigger] without(entries, key)[i],
        ) by {
            if i < kept.len() {
                assert(without(entries, key)[i] == kept[i]);
                assert(rest.contains(kept[i]));
                let j = choose|j: int| 0 <= j < rest.len() && rest[j] == kept[i];
                assert(entries[j] == kept[i]);
            } else {
                assert(entries[entries.len() - 1] == without(entries, key)[i]);
            }
        }
        if entries.last().0 != key {
            assert(without(entries, key).drop_last() =~= kept);
            assert(without(entries, key).last() == entries.last());
        }
        assert forall|other: Seq<char>| other != key implies lookup(without(entries, key), other)
            == lookup(entries, other) by {
            assert(lookup(kept, other) == lookup(rest, other));
        }
    }
}

/// Taking an entry out leaves the keys distinct.
pub proof fn lemma_without_distinct(entries: Seq<(Seq<char>, u64)>, key: Seq<char>)
    requires
        distinct_keys(entries),
    ensures
        distinct_keys(without(entries, key)),
    decreases entries.len(),
{
    if entries.len() > 0 {
        let rest = entries.drop_last();
        assert(distinct_keys(rest)) by {
            assert forall|i: int, j: int| 0 <= i < j < rest.len() implies (#[trigger] rest[i]).0 != (
            #[trigger] rest[j]).0 by {
                assert(entries[i].0 != entries[j].0);
            }
        }
        lemma_without_distinct(rest, key);
        lemma_without(rest, key);
        let kept = without(rest, key);
        if entries.last().0 != key {
            let all = kept.push(entries.last());
            assert forall|i: int, j: int| 0 <= i < j < all.len() implies (#[trigger] all[i]).0 != (
            #[trigger] all[j]).0 by {
                if j == kept.len() {
                    assert(rest.contains(kept[i]));
                    let k = choose|k: int| 0 <= k < rest.len() && rest[k] == kept[i];
                    assert(entries[k].0 != entries[entries.len() - 1].0);
                } else {
                    assert(kept[i].0 != kept[j].0);
                }
            }
        }
    }
}

/// Dropping entries from the front, and storing one under a key, leaves the keys
/// distinct; what was stored is found.
pub proof fn lemma_store(entries: Seq<(Seq<char>, u64)>, dropped: int, key: Seq<char>, value: u64)
    requires
        distinct_keys(entries),
        0 <= dropped <= entries.len(),
    ensures
        distinct_keys(entries.skip(dropped)),
        distinct_keys(without(entries.skip(dropped), key).push((key, value))),
        lookup(without(entries.skip(dropped), key).push((key, value)), key) == Some(value),
{
    let kept = entries.skip(dropped);
    assert forall|i: int, j: int| 0 <= i < j < kept.len() implies (#[trigger] kept[i]).0 != (
    #[trigger] kept[j]).0 by {
        assert(entries[dropped + i].0 != entries[dropped + j].0);
    }
    lemma_without_distinct(kept, key);
    lemma_without(kept, key);
    let rest = without(kept, key);
    let all = rest.push((key, value));
    assert forall|i: int, j: int| 0 <= i < j < all.len() implies (#[trigger] all[i]).0 != (
    #[trigger] all[j]).0 by {
        if j < rest.len() {
            assert(rest[i].0 != rest[j].0);
        } else {
            assert(rest[i].0 != key);
        }
    }
    assert(all.last() == (key, value));
}

/// Of distinct keys, taking one out takes out exactly the value that it has.
pub proof fn lemma_without_holdings(entries: Seq<(Seq<char>, u64)>, key: Seq<char>)
    requires
        distinct_keys(entries),
    ensures
        holdings(entries) == (match lookup(entries, key) {
            Some(value) => holdings(without(entries, key)).insert(value),
            None => holdings(without(entries, key)),
        }),
    decreases entries.len(),
{
    if entries.len() > 0 {
        let rest = entries.drop_last();
        assert(distinct_keys(rest)) by {
            assert forall|i: int, j: int| 0 <= i < j < rest.len() implies (#[trigger] rest[i]).0 != (
            #[trigger] rest[j]).0 by {
                assert(entries[i].0 != entries[j].0);
            }
        }
        lemma_without_holdings(rest, key);
        if entries.last().0 == key {
            lemma_absent(rest, key);
        } else {
            let all = without(rest, key).push(entries.last());
            assert(all.drop_last() =~= without(rest, key));
            match lookup(rest, key) {
                Some(value) => {
                    assert(holdings(without(rest, key)).insert(value).insert(entries.last().1)
                        =~= holdings(without(rest, key)).insert(entries.last().1).insert(value));
                },
                None => {},
            }
        }
    }
}

/// A key that no entry has is not found, and taking it out changes nothing.
pub proof fn lemma_absent(entries: Seq<(Seq<char>, u64)>, key: Seq<char>)
    requires
        forall|i: int| 0 <= i < entries.len() ==> (#[trigger] entries[i]).0 != key,
    ensures
        lookup(entries, key) is None,
        without(entries, key) == entries,
    decreases entries.len(),
{
    if entries.len() > 0 {
        let rest = entries.drop_last();
        assert forall|i: int| 0 <= i < rest.len() implies (#[trigger] rest[i]).0 != key by {
            assert(entries[i].0 != key);
        }
        lemma_absent(rest, key);
        assert(entries[entries.len() - 1].0 != key);
        assert(rest.push(entries.last()) =~= entries);
    }
}

/// What the two parts of a sequence of entries hold is what the whole holds.
pub proof fn lemma_split_holdings(entries: Seq<(Seq<char>, u64)>, at: int)
    requires
        0 <= at <= entries.len(),
    ensures
        holdings(entries) == holdings(entries.take(at)).add(holdings(entries.skip(at))),
    decreases entries.len(),
{
    if at == entries.len() {
        assert(entries.take(at) =~= entries);
        assert(entries.skip(at).len() == 0);
        assert(holdings(entries) =~= holdings(entries).add(Multiset::empty()));
    } else {
        let rest = entries.drop_last();
        lemma_split_holdings(rest, at);
        assert(rest.take(at) =~= entries.take(at));
        assert(entries.skip(at).drop_last() =~= rest.skip(at));
        assert(entries.skip(at).last() == entries.last());
        assert(holdings(entries.take(at)).add(holdings(rest.skip(at)).insert(entries.last().1))
            =~= holdings(entries.take(at)).add(holdings(rest.skip(at))).insert(entries.last().1));
    }
}

/// Taking out a key that is not found changes nothing.
pub proof fn lemma_lookup_none(entries: Seq<(Seq<char>, u64)>, key: Seq<char>)
    requires
        lookup(entries, key) is None,
    ensures
        without(entries, key) == entries,
    decreases entries.len(),
{
    if entries.len() > 0 {
        lemma_lookup_none(entries.drop_last(), key);
        assert(entries.drop_last().push(entries.last()) =~= entries);
    }
}

/// The values of entries are what the entries hold.
pub proof fn lemma_values_holdings(entries: Seq<(Seq<char>, u64)>)
    ensures
        values(entries).to_multiset() == holdings(entries),
    decreases entries.len(),
{
    broadcast use vstd::seq_lib::group_to_multiset_ensures;

    if entries.len() == 0 {
        assert(values(entries) =~= Seq::<u64>::empty());
        assert(values(entries).to_multiset() =~= Multiset::empty());
    } else {
        lemma_values_holdings(entries.drop_last());
        assert(values(entries) =~= values(entries.drop_last()).push(entries.last().1));
    }
}

/// Where keys are distinct, each entry is found under its own.
pub proof fn lemma_entry_is_found(entries: Seq<(Seq<char>, u64)>, at: int)
    requires
        distinct_keys(entries),
        0 <= at < entries.len(),
    ensures
        lookup(entries, entries[at].0) == Some(entries[at].1),
    decreases entries.len(),
{
    if at < entries.len() - 1 {
        assert(entries.drop_last()[at] == entries[at]);
        lemma_entry_is_found(entries.drop_last(), at);
    }
}

/// What is found is one of the entries.
pub proof fn lemma_found_at(entries: Seq<(Seq<char>, u64)>, key: Seq<char>) -> (at: int)
    requires
        lookup(entries, key) is Some,
    ensures
        0 <= at < entries.len(),
        entries[at].0 == key,
        lookup(entries, key) == Some(entries[at].1),
    decreases entries.len(),
{
    if entries.last().0 == key {
        entries.len() - 1
    } else {
        lemma_found_at(entries.drop_last(), key)
    }
}

/// An entry is in the front or in the rest of the entries, and not in both.
pub proof fn lemma_split_lookup(entries: Seq<(Seq<char>, u64)>, count: int, key: Seq<char>)
    requires
        distinct_keys(entries),
        0 <= count <= entries.len(),
    ensures
        lookup(entries, key) is Some <==> (lookup(entries.take(count), key) is Some || lookup(
            entries.skip(count),
            key,
        ) is Some),
        lookup(entries.take(count), key) is Some ==> lookup(entries.skip(count), key) is None
            && lookup(entries, key) == lookup(entries.take(count), key),
        lookup(entries.skip(count), key) is Some ==> lookup(entries, key) == lookup(
            entries.skip(count),
            key,
        ),
{
    let (front, rest) = (entries.take(count), entries.skip(count));
    if lookup(front, key) is Some {
        let at = lemma_found_at(front, key);
        assert(entries[at] == front[at]);
        lemma_entry_is_found(entries, at);
        if lookup(rest, key) is Some {
            let other = lemma_found_at(rest, key);
            assert(entries[count + other] == rest[other]);
            assert(entries[at].0 != entries[count + other].0);
        }
    } else if lookup(rest, key) is Some {
        let at = lemma_found_at(rest, key);
        assert(entries[count + at] == rest[at]);
        lemma_entry_is_found(entries, count + at);
    } else if lookup(entries, key) is Some {
        let at = lemma_found_at(entries, key);
        lemma_store(entries, count, key, 0);
        if at < count {
            assert(front[at] == entries[at]);
            assert(distinct_keys(front)) by {
                assert forall|i: int, j: int| 0 <= i < j < front.len() implies (
                #[trigger] front[i]).0 != (#[trigger] front[j]).0 by {
                    assert(entries[i].0 != entries[j].0);
                }
            }
            lemma_entry_is_found(front, at);
        } else {
            assert(rest[at - count] == entries[at]);
            lemma_entry_is_found(rest, at - count);
        }
    }
}

/// The times that are left are those of the keys that none of the entries has.
pub proof fn lemma_forgotten(times: Times, entries: Seq<(Seq<char>, u64)>)
    ensures
        forall|key: Seq<char>| #[trigger]
            forgotten(times, entries).dom().contains(key) <==> times.dom().contains(key) && lookup(
                entries,
                key,
            ) is None,
        forall|key: Seq<char>|
            lookup(entries, key) is None ==> #[trigger] forgotten(times, entries)[key]
                == times[key],
    decreases entries.len(),
{
    if entries.len() > 0 {
        lemma_forgotten(times, entries.drop_last());
        let earlier = forgotten(times, entries.drop_last());
        assert forall|key: Seq<char>| lookup(entries, key) is None implies #[trigger] forgotten(
            times,
            entries,
        )[key] == times[key] by {
            assert(key != entries.last().0);
            assert(earlier[key] == times[key]);
            assert(earlier.remove(entries.last().0)[key] == earlier[key]);
        }
    }
}

/// Dropping entries from the front, and their times, leaves the times of the others.
pub proof fn lemma_drop_timed(entries: Seq<(Seq<char>, u64)>, times: Times, count: int)
    requires
        distinct_keys(entries),
        timed(entries, times),
        0 <= count <= entries.len(),
    ensures
        timed(entries.skip(count), forgotten(times, entries.take(count))),
        forall|key: Seq<char>|
            lookup(entries.skip(count), key) is Some ==> #[trigger] forgotten(
                times,
                entries.take(count),
            )[key] == times[key],
{
    let (front, rest) = (entries.take(count), entries.skip(count));
    let left = forgotten(times, front);
    lemma_forgotten(times, front);
    lemma_store(entries, count, Seq::empty(), 0);
    assert forall|key: Seq<char>| #[trigger] left.dom().contains(key) <==> lookup(rest, key)
        is Some by {
        lemma_split_lookup(entries, count, key);
        assert(times.dom().contains(key) <==> lookup(entries, key) is Some);
    }
    assert forall|key: Seq<char>| lookup(rest, key) is Some implies #[trigger] left[key]
        == times[key] by {
        lemma_split_lookup(entries, count, key);
    }
    assert forall|i: int, j: int| 0 <= i <= j < rest.len() implies left[(
    #[trigger] rest[i]).0] <= left[(#[trigger] rest[j]).0] by {
        lemma_entry_is_found(rest, i);
        lemma_entry_is_found(rest, j);
        assert(times[entries[count + i].0] <= times[entries[count + j].0]);
    }
}

/// Taking an entry out keeps the order of the others.
proof fn lemma_without_in_order(entries: Seq<(Seq<char>, u64)>, times: Times, key: Seq<char>)
    requires
        in_order(entries, times),
    ensures
        in_order(without(entries, key), times),
    decreases entries.len(),
{
    if entries.len() > 0 {
        let rest = entries.drop_last();
        assert forall|i: int, j: int| 0 <= i <= j < rest.len() implies times[(
        #[trigger] rest[i]).0] <= times[(#[trigger] rest[j]).0] by {
            assert(times[entries[i].0] <= times[entries[j].0]);
        }
        lemma_without_in_order(rest, times, key);
        lemma_without(rest, key);
        let kept = without(rest, key);
        if entries.last().0 != key {
            let all = kept.push(entries.last());
            assert forall|i: int, j: int| 0 <= i <= j < all.len() implies times[(
            #[trigger] all[i]).0] <= times[(#[trigger] all[j]).0] by {
                if j < kept.len() {
                    assert(times[kept[i].0] <= times[kept[j].0]);
                } else if i < kept.len() {
                    assert(rest.contains(kept[i]));
                    let k = choose|k: int| 0 <= k < rest.len() && rest[k] == kept[i];
                    assert(times[entries[k].0] <= times[entries[entries.len() - 1].0]);
                }
            }
        }
    }
}

/// Taking an entry out, and its time, leaves the times of the others.
pub proof fn lemma_without_timed(entries: Seq<(Seq<char>, u64)>, times: Times, key: Seq<char>)
    requires
        timed(entries, times),
    ensures
        timed(without(entries, key), times.remove(key)),
{
    let (kept, left) = (without(entries, key), times.remove(key));
    lemma_without(entries, key);
    lemma_without_in_order(entries, times, key);
    assert forall|other: Seq<char>| #[trigger] left.dom().contains(other) <==> lookup(kept, other)
        is Some by {
        assert(times.dom().contains(other) <==> lookup(entries, other) is Some);
    }
    assert forall|i: int, j: int| 0 <= i <= j < kept.len() implies left[(
    #[trigger] kept[i]).0] <= left[(#[trigger] kept[j]).0] by {
        assert(times[kept[i].0] <= times[kept[j].0]);
    }
}

/// Storing an entry at a moment that is not before any other time keeps the times in order.
pub proof fn lemma_store_timed(
    entries: Seq<(Seq<char>, u64)>,
    times: Times,
    key: Seq<char>,
    value: u64,
    now: int,
)
    requires
        timed(entries, times),
        forall|other: Seq<char>|
            times.dom().contains(other) ==> #[trigger] times[other] <= now,
    ensures
        timed(without(entries, key).push((key, value)), times.insert(key, now)),
{
    let kept = without(entries, key);
    let (all, later) = (kept.push((key, value)), times.insert(key, now));
    lemma_without(entries, key);
    lemma_without_in_order(entries, times, key);
    assert(all.drop_last() =~= kept);
    assert(all.last() == (key, value));
    assert forall|other: Seq<char>| #[trigger] later.dom().contains(other) <==> lookup(all, other)
        is Some by {
        assert(times.dom().contains(other) <==> lookup(entries, other) is Some);
    }
    assert forall|i: int, j: int| 0 <= i <= j < all.len() implies later[(
    #[trigger] all[i]).0] <= later[(#[trigger] all[j]).0] by {
        if j < kept.len() {
            assert(times[kept[i].0] <= times[kept[j].0]);
        } else if i < kept.len() {
            assert(entries.contains(kept[i]));
            let k = choose|k: int| 0 <= k < entries.len() && entries[k] == kept[i];
            if lookup(entries, entries[k].0) is None {
                lemma_entry_is_present(entries, k);
            }
            assert(times.dom().contains(kept[i].0));
        }
    }
}

/// The key of an entry is found.
proof fn lemma_entry_is_present(entries: Seq<(Seq<char>, u64)>, at: int)
    requires
        0 <= at < entries.len(),
    ensures
        lookup(entries, entries[at].0) is Some,
    decreases entries.len(),
{
    if at < entries.len() - 1 {
        assert(entries.drop_last()[at] == entries[at]);
        lemma_entry_is_present(entries.drop_last(), at);
    }
}

/// Where times are in order, what is dropped is exactly what has outlived its time.
pub proof fn lemma_drops_what_has_outlived(
    entries: Seq<(Seq<char>, u64)>,
    times: Times,
    secs: u64,
    count: int,
    now: int,
)
    requires
        in_order(entries, times),
        drops_at(entries, times, secs, count, now),
        0 <= count <= entries.len(),
    ensures
        forall|i: int|
            0 <= i < entries.len() ==> (outlived(times[(#[trigger] entries[i]).0], secs, now)
                <==> i < count),
{
    assert forall|i: int| 0 <= i < entries.len() implies (outlived(
        times[(#[trigger] entries[i]).0],
        secs,
        now,
    ) <==> i < count) by {
        if i >= count {
            assert(times[entries[count].0] <= times[entries[i].0]);
        }
    }
}

} // verus!
