//! Laws of denial aggregation.
use vstd::prelude::*;

use super::{
    denial_facts_of, distinct_keys, key_position, lemma_position_found, saturating_increment,
    AggregatedDenialView, AggregatorView, DenialKeyView,
};
use crate::event::EventView;

verus! {

/// The entry for `key`, found by scanning `entries` for it.
proof fn lemma_entry_is_unique(entries: Seq<AggregatedDenialView>, key: DenialKeyView)
    requires
        distinct_keys(entries),
    ensures
        match key_position(entries, key) {
            Some(i) => 0 <= i < entries.len() && entries[i].key == key,
            None => forall|i: int| 0 <= i < entries.len() ==> #[trigger] entries[i].key != key,
        },
{
    if exists|i: int| 0 <= i < entries.len() && #[trigger] entries[i].key == key {
        let i = choose|i: int| 0 <= i < entries.len() && #[trigger] entries[i].key == key;
        lemma_position_found(entries, key, i);
    }
}

/// Observing any event keeps an aggregator well formed: it never retains
/// more entries than its capacity, never two entries for one key, and every
/// entry stays consistent with its latest denial event.
pub proof fn lemma_observe_keeps_well_formed(aggregator: AggregatorView, event: EventView)
    requires
        aggregator.well_formed(),
    ensures
        aggregator.observed(event).well_formed(),
{
    let entries = aggregator.entries;
    match denial_facts_of(event) {
        None => {},
        Some(facts) => {
            let (key, same_exec, logged) = facts;
            lemma_entry_is_unique(entries, key);
            let next = aggregator.observed(event).entries;
            let last = next.len() - 1;
            match key_position(entries, key) {
                Some(index) => {
                    assert forall|i: int, j: int|
                        0 <= i < next.len() && 0 <= j < next.len() && i != j
                        implies #[trigger] next[i].key != #[trigger] next[j].key by {
                        let oi = if i < index { i } else { i + 1 };
                        let oj = if j < index { j } else { j + 1 };
                        if i == last {
                            assert(entries[oj].key != entries[index].key);
                        } else if j == last {
                            assert(entries[oi].key != entries[index].key);
                        } else {
                            assert(entries[oi].key != entries[oj].key);
                        }
                    }
                    assert forall|i: int| 0 <= i < next.len() implies (#[trigger] next[i]).consistent() by {
                        if i < index {
                            assert(entries[i].consistent());
                        } else if i < last {
                            assert(entries[i + 1].consistent());
                        } else {
                            assert(entries[index].consistent());
                        }
                    }
                },
                None => {
                    let shift: int = if entries.len() == aggregator.capacity { 1 } else { 0 };
                    assert forall|i: int, j: int|
                        0 <= i < next.len() && 0 <= j < next.len() && i != j
                        implies #[trigger] next[i].key != #[trigger] next[j].key by {
                        if i == last {
                            assert(entries[j + shift].key != key);
                        } else if j == last {
                            assert(entries[i + shift].key != key);
                        } else {
                            assert(entries[i + shift].key != entries[j + shift].key);
                        }
                    }
                    assert forall|i: int| 0 <= i < next.len() implies (#[trigger] next[i]).consistent() by {
                        if i < last {
                            assert(entries[i + shift].consistent());
                        }
                    }
                },
            }
        },
    }
}

/// A non-denial event, [`crate::event::Event::Unknown`] included, leaves the
/// aggregator unchanged.
pub proof fn lemma_non_denial_is_ignored(aggregator: AggregatorView, event: EventView)
    requires
        denial_facts_of(event) is None,
    ensures
        aggregator.observed(event) == aggregator,
{
}

/// An observed denial becomes the most recently observed entry: it is
/// retained under its key, carries the event as its latest event with the
/// event's timestamp and flags, counts one more occurrence than before
/// (saturating), and keeps the first timestamp of an entry already retained.
pub proof fn lemma_observed_denial_is_most_recent(aggregator: AggregatorView, event: EventView)
    requires
        aggregator.well_formed(),
        denial_facts_of(event) is Some,
    ensures
        ({
            let (key, same_exec, logged) = denial_facts_of(event)->0;
            let next = aggregator.observed(event);
            let latest = next.entries.last();
            &&& next.entries.len() >= 1
            &&& next.entry(key) == Some(latest)
            &&& latest.key == key
            &&& latest.latest_event == event
            &&& latest.latest_timestamp == event.timestamp()
            &&& latest.same_exec == same_exec
            &&& latest.logged == logged
            &&& match aggregator.entry(key) {
                Some(previous) => {
                    &&& latest.occurrence_count == saturating_increment(previous.occurrence_count)
                    &&& latest.first_timestamp == previous.first_timestamp
                },
                None => {
                    &&& latest.occurrence_count == 1
                    &&& latest.first_timestamp == event.timestamp()
                },
            }
        }),
{
    let (key, same_exec, logged) = denial_facts_of(event)->0;
    lemma_entry_is_unique(aggregator.entries, key);
    lemma_observe_keeps_well_formed(aggregator, event);
    let next = aggregator.observed(event);
    lemma_position_found(next.entries, key, next.entries.len() - 1);
}

/// Observing a denial whose key is retained keeps the number of entries and
/// every other entry, in the same relative order; the hit entry moves to the
/// most recent position whatever the event's timestamp.
pub proof fn lemma_hit_refreshes_recency(aggregator: AggregatorView, event: EventView)
    requires
        aggregator.well_formed(),
        denial_facts_of(event) is Some,
        aggregator.entry((denial_facts_of(event)->0).0) is Some,
    ensures
        ({
            let key = (denial_facts_of(event)->0).0;
            let next = aggregator.observed(event);
            let index = key_position(aggregator.entries, key)->0;
            &&& next.entries.len() == aggregator.entries.len()
            &&& next.entries.drop_last() == aggregator.entries.remove(index)
            &&& forall|other: DenialKeyView| other != key ==> #[trigger] next.entry(other) == aggregator.entry(other)
        }),
{
    let key = (denial_facts_of(event)->0).0;
    let entries = aggregator.entries;
    lemma_entry_is_unique(entries, key);
    lemma_observe_keeps_well_formed(aggregator, event);
    let next = aggregator.observed(event);
    let index = key_position(entries, key)->0;
    assert(next.entries.drop_last() =~= entries.remove(index));
    assert forall|other: DenialKeyView| other != key implies #[trigger] next.entry(other) == aggregator.entry(other) by {
        lemma_entry_is_unique(entries, other);
        lemma_entry_is_unique(next.entries, other);
        match key_position(entries, other) {
            Some(i) => {
                let ni = if i < index { i } else { i - 1 };
                lemma_position_found(next.entries, other, ni);
            },
            None => {
                if let Some(ni) = key_position(next.entries, other) {
                    let oi = if ni < index { ni } else { ni + 1 };
                    assert(entries[oi].key == other);
                }
            },
        }
    }
}

/// Observing a denial with a new key evicts exactly the least recently
/// observed entry when the aggregator is full, and nothing otherwise; every
/// other retained entry stays, in the same relative order.
pub proof fn lemma_eviction_removes_least_recent(aggregator: AggregatorView, event: EventView)
    requires
        aggregator.well_formed(),
        denial_facts_of(event) is Some,
        aggregator.entry((denial_facts_of(event)->0).0) is None,
    ensures
        ({
            let key = (denial_facts_of(event)->0).0;
            let next = aggregator.observed(event);
            let full = aggregator.entries.len() == aggregator.capacity;
            &&& full ==> next.entries.len() == aggregator.capacity
            &&& full ==> next.entries.drop_last() == aggregator.entries.drop_first()
            &&& full ==> next.entry(aggregator.entries[0].key) is None
            &&& !full ==> next.entries.len() == aggregator.entries.len() + 1
            &&& !full ==> next.entries.drop_last() == aggregator.entries
            &&& forall|other: DenialKeyView|
                other != key && (!full || other != aggregator.entries[0].key)
                    ==> #[trigger] next.entry(other) == aggregator.entry(other)
        }),
{
    let key = (denial_facts_of(event)->0).0;
    let entries = aggregator.entries;
    let full = entries.len() == aggregator.capacity;
    lemma_entry_is_unique(entries, key);
    lemma_observe_keeps_well_formed(aggregator, event);
    let next = aggregator.observed(event);
    let shift: int = if full { 1 } else { 0 };
    if full {
        assert(next.entries.drop_last() =~= entries.drop_first());
        lemma_entry_is_unique(next.entries, entries[0].key);
        if let Some(ni) = key_position(next.entries, entries[0].key) {
            if ni < next.entries.len() - 1 {
                assert(entries[ni + 1].key == entries[0].key);
            }
        }
    } else {
        assert(next.entries.drop_last() =~= entries);
    }
    assert forall|other: DenialKeyView|
        other != key && (!full || other != entries[0].key) implies #[trigger] next.entry(other)
        == aggregator.entry(other) by {
        lemma_entry_is_unique(entries, other);
        lemma_entry_is_unique(next.entries, other);
        match key_position(entries, other) {
            Some(i) => {
                lemma_position_found(next.entries, other, i - shift);
            },
            None => {
                if let Some(ni) = key_position(next.entries, other) {
                    assert(entries[ni + shift].key == other);
                }
            },
        }
    }
}

/// Observing any event keeps the capacity and never shrinks the retained
/// entries: a hit or an eviction keeps their number, a new key below
/// capacity adds one, and the number never exceeds the capacity.
pub proof fn lemma_observe_keeps_capacity_and_grows(aggregator: AggregatorView, event: EventView)
    requires
        aggregator.well_formed(),
    ensures
        aggregator.observed(event).capacity == aggregator.capacity,
        aggregator.entries.len() <= aggregator.observed(event).entries.len() <= aggregator.capacity,
{
    lemma_observe_keeps_well_formed(aggregator, event);
    if let Some((key, same_exec, logged)) = denial_facts_of(event) {
        lemma_entry_is_unique(aggregator.entries, key);
    }
}

/// The aggregator after observing `event` `times` times in a row.
pub open spec fn observed_repeatedly(aggregator: AggregatorView, event: EventView, times: nat) -> AggregatorView
    decreases times,
{
    if times == 0 {
        aggregator
    } else {
        observed_repeatedly(aggregator, event, (times - 1) as nat).observed(event)
    }
}

/// A hit counts exactly one occurrence more: a retained entry whose count is
/// below [`u64::MAX`] counts one more after a matching denial, and one whose
/// count is [`u64::MAX`] keeps it.
pub proof fn lemma_hit_counts_one_more(aggregator: AggregatorView, event: EventView)
    requires
        aggregator.well_formed(),
        denial_facts_of(event) is Some,
        aggregator.entry((denial_facts_of(event)->0).0) is Some,
    ensures
        ({
            let key = (denial_facts_of(event)->0).0;
            let previous = aggregator.entry(key)->0;
            let latest = aggregator.observed(event).entry(key)->0;
            &&& aggregator.observed(event).entry(key) is Some
            &&& previous.occurrence_count < u64::MAX ==> latest.occurrence_count
                == previous.occurrence_count + 1
            &&& previous.occurrence_count == u64::MAX ==> latest.occurrence_count == u64::MAX
        }),
{
    lemma_observed_denial_is_most_recent(aggregator, event);
}

/// Observing one denial `times` times, from an aggregator that does not
/// retain its key, leaves one entry for the key that counts exactly `times`
/// occurrences (up to [`u64::MAX`]) and was first seen at the event's
/// timestamp.
pub proof fn lemma_repeated_denial_counts_each_occurrence(
    aggregator: AggregatorView,
    event: EventView,
    times: nat,
)
    requires
        aggregator.well_formed(),
        denial_facts_of(event) is Some,
        aggregator.entry((denial_facts_of(event)->0).0) is None,
        1 <= times <= u64::MAX,
    ensures
        ({
            let key = (denial_facts_of(event)->0).0;
            let after = observed_repeatedly(aggregator, event, times);
            &&& after.well_formed()
            &&& after.entry(key) is Some
            &&& (after.entry(key)->0).occurrence_count == times
            &&& (after.entry(key)->0).first_timestamp == event.timestamp()
        }),
    decreases times,
{
    if times == 1 {
        lemma_observe_keeps_well_formed(aggregator, event);
        lemma_observed_denial_is_most_recent(aggregator, event);
        assert(observed_repeatedly(aggregator, event, 0) == aggregator);
    } else {
        lemma_repeated_denial_counts_each_occurrence(aggregator, event, (times - 1) as nat);
        let before = observed_repeatedly(aggregator, event, (times - 1) as nat);
        lemma_observe_keeps_well_formed(before, event);
        lemma_observed_denial_is_most_recent(before, event);
    }
}

} // verus!
