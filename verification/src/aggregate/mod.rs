//! Optional bounded aggregation of Landlock denial events.
use vstd::prelude::*;

mod keys;
mod laws;

pub use keys::{
    denial_facts_of, AbstractUnixSocketDenialKey, AbstractUnixSocketDenialKeyView, DenialKey,
    DenialKeyView, FilesystemDenialKey, FilesystemDenialKeyView, NetworkDenialKey,
    NetworkDenialKeyView, PtraceDenialKey, SignalDenialKey, TaskDenialKeyView,
};
pub use laws::{
    lemma_eviction_removes_least_recent, lemma_hit_counts_one_more, lemma_hit_refreshes_recency,
    lemma_non_denial_is_ignored, lemma_repeated_denial_counts_each_occurrence, observed_repeatedly,
    lemma_observe_keeps_capacity_and_grows,
    lemma_observe_keeps_well_formed, lemma_observed_denial_is_most_recent,
};
use keys::denial_facts;

use crate::event::{Event, EventView, KernelTimestamp};

verus! {

/// The number of denial keys retained by [`DenialAggregator::new()`].
pub const DEFAULT_CAPACITY: usize = 1000;

/// The error returned when an aggregation capacity is zero.
#[derive(Clone, Copy, Debug, PartialEq, Eq, Structural)]
pub struct InvalidCapacityError;

impl InvalidCapacityError {
    /// Returns the message that describes this error.
    pub fn to_string(&self) -> (message: String)
        ensures
            message@ == "denial aggregation capacity must be nonzero"@,
    {
        String::from_str("denial aggregation capacity must be nonzero")
    }
}

/// The facts of an [`AggregatedDenial`].
pub struct AggregatedDenialView {
    pub key: DenialKeyView,
    pub occurrence_count: u64,
    pub first_timestamp: KernelTimestamp,
    pub latest_timestamp: KernelTimestamp,
    pub same_exec: bool,
    pub logged: bool,
    pub latest_event: EventView,
}

/// `count + 1`, saturating at [`u64::MAX`].
pub open spec fn saturating_increment(count: u64) -> u64 {
    if count == u64::MAX {
        count
    } else {
        (count + 1) as u64
    }
}

impl AggregatedDenialView {
    /// The entry that a first matching denial `event` creates.
    pub open spec fn first_observation(
        key: DenialKeyView,
        same_exec: bool,
        logged: bool,
        event: EventView,
    ) -> AggregatedDenialView {
        AggregatedDenialView {
            key,
            occurrence_count: 1,
            first_timestamp: event.timestamp(),
            latest_timestamp: event.timestamp(),
            same_exec,
            logged,
            latest_event: event,
        }
    }

    /// This entry after one more matching denial `event`.
    pub open spec fn observed_again(self, same_exec: bool, logged: bool, event: EventView) -> AggregatedDenialView {
        AggregatedDenialView {
            key: self.key,
            occurrence_count: saturating_increment(self.occurrence_count),
            first_timestamp: self.first_timestamp,
            latest_timestamp: event.timestamp(),
            same_exec,
            logged,
            latest_event: event,
        }
    }

    /// The entry's key and latest flags are those of its latest event, which
    /// is a denial, and it counts at least one occurrence.
    pub open spec fn consistent(self) -> bool {
        &&& denial_facts_of(self.latest_event) == Some((self.key, self.same_exec, self.logged))
        &&& self.latest_timestamp == self.latest_event.timestamp()
        &&& self.occurrence_count >= 1
    }
}

/// The position of the entry for `key`, if one is retained.
pub open spec fn key_position(entries: Seq<AggregatedDenialView>, key: DenialKeyView) -> Option<int> {
    if exists|i: int| 0 <= i < entries.len() && #[trigger] entries[i].key == key {
        Some(choose|i: int| 0 <= i < entries.len() && #[trigger] entries[i].key == key)
    } else {
        None
    }
}

/// No two of `entries` share a key.
pub open spec fn distinct_keys(entries: Seq<AggregatedDenialView>) -> bool {
    forall|i: int, j: int|
        0 <= i < entries.len() && 0 <= j < entries.len() && i != j ==> #[trigger] entries[i].key
            != #[trigger] entries[j].key
}

/// The retained entries of a [`DenialAggregator`], least recently observed
/// first, and its capacity.
pub struct AggregatorView {
    pub capacity: nat,
    pub entries: Seq<AggregatedDenialView>,
}

impl AggregatorView {
    /// An aggregator that retains nothing yet.
    pub open spec fn empty(capacity: nat) -> AggregatorView {
        AggregatorView { capacity, entries: Seq::empty() }
    }

    /// The capacity is nonzero and bounds the entries, which have distinct
    /// keys and are each consistent with their latest event.
    pub open spec fn well_formed(self) -> bool {
        &&& self.capacity >= 1
        &&& self.entries.len() <= self.capacity
        &&& distinct_keys(self.entries)
        &&& forall|i: int| 0 <= i < self.entries.len() ==> (#[trigger] self.entries[i]).consistent()
    }

    /// The retained entry for `key`, if any.
    pub open spec fn entry(self, key: DenialKeyView) -> Option<AggregatedDenialView> {
        match key_position(self.entries, key) {
            Some(i) => Some(self.entries[i]),
            None => None,
        }
    }

    /// The aggregator with the occurrence count of the entry for `key` set to
    /// `count`.
    pub open spec fn with_occurrence_count(self, key: DenialKeyView, count: u64) -> AggregatorView {
        match key_position(self.entries, key) {
            Some(i) => AggregatorView {
                capacity: self.capacity,
                entries: self.entries.update(
                    i,
                    AggregatedDenialView { occurrence_count: count, ..self.entries[i] },
                ),
            },
            None => self,
        }
    }

    /// The aggregator after `event` is observed.
    ///
    /// A non-denial event changes nothing. A denial whose key is retained
    /// updates that entry and makes it the most recent one. A denial with a new
    /// key first evicts the least recently observed entry when the aggregator
    /// is full, then becomes the most recent entry.
    pub open spec fn observed(self, event: EventView) -> AggregatorView {
        match denial_facts_of(event) {
            None => self,
            Some(facts) => {
                let (key, same_exec, logged) = facts;
                match key_position(self.entries, key) {
                    Some(i) => AggregatorView {
                        capacity: self.capacity,
                        entries: self.entries.remove(i).push(
                            self.entries[i].observed_again(same_exec, logged, event),
                        ),
                    },
                    None => {
                        let kept = if self.entries.len() == self.capacity {
                            self.entries.drop_first()
                        } else {
                            self.entries
                        };
                        AggregatorView {
                            capacity: self.capacity,
                            entries: kept.push(
                                AggregatedDenialView::first_observation(key, same_exec, logged, event),
                            ),
                        }
                    },
                }
            },
        }
    }
}

/// A locally aggregated denial and its latest observed event.
#[derive(Debug)]
#[non_exhaustive]
pub struct AggregatedDenial {
    key: DenialKey,
    occurrence_count: u64,
    first_timestamp: KernelTimestamp,
    latest_timestamp: KernelTimestamp,
    same_exec: bool,
    logged: bool,
    latest_event: Event,
    last_observed_sequence: u128,
}

impl View for AggregatedDenial {
    type V = AggregatedDenialView;

    closed spec fn view(&self) -> AggregatedDenialView {
        AggregatedDenialView {
            key: self.key@,
            occurrence_count: self.occurrence_count,
            first_timestamp: self.first_timestamp,
            latest_timestamp: self.latest_timestamp,
            same_exec: self.same_exec,
            logged: self.logged,
            latest_event: self.latest_event@,
        }
    }
}

impl AggregatedDenial {
    /// Returns the semantic aggregation key.
    pub fn key(&self) -> (key: &DenialKey)
        ensures
            key@ == self@.key,
    {
        &self.key
    }

    /// Returns the number of matching events observed by this aggregator.
    ///
    /// This local count is independent of the kernel's cumulative denial count
    /// and saturates at [`u64::MAX`].
    pub fn occurrence_count(&self) -> (count: u64)
        ensures
            count == self@.occurrence_count,
    {
        self.occurrence_count
    }

    /// Returns the timestamp carried by the first matching event ingested.
    pub fn first_timestamp(&self) -> (timestamp: KernelTimestamp)
        ensures
            timestamp == self@.first_timestamp,
    {
        self.first_timestamp
    }

    /// Returns the timestamp carried by the latest matching event ingested.
    ///
    /// Ingestion order is used even when kernel timestamps are equal or decrease.
    pub fn latest_timestamp(&self) -> (timestamp: KernelTimestamp)
        ensures
            timestamp == self@.latest_timestamp,
    {
        self.latest_timestamp
    }

    /// Returns `same_exec` from the latest matching denial event ingested.
    pub fn same_exec(&self) -> (same_exec: bool)
        ensures
            same_exec == self@.same_exec,
    {
        self.same_exec
    }

    /// Returns `logged` from the latest matching denial event ingested.
    pub fn logged(&self) -> (logged: bool)
        ensures
            logged == self@.logged,
    {
        self.logged
    }

    /// Returns the latest matching event ingested.
    ///
    /// For an entry of a [`DenialAggregator`] this is one of the denial
    /// variants of [`Event`].
    pub fn latest_event(&self) -> (event: &Event)
        ensures
            event@ == self@.latest_event,
    {
        &self.latest_event
    }
}

/// The views of `entries`, in order.
pub open spec fn entry_views(entries: Seq<AggregatedDenial>) -> Seq<AggregatedDenialView> {
    entries.map_values(|entry: AggregatedDenial| entry@)
}

/// An optional bounded least-recently-observed denial aggregator.
///
/// Raw [`Event`] values remain independently usable; aggregation occurs only
/// when callers explicitly pass events to [`DenialAggregator::observe()`].
#[derive(Debug)]
#[non_exhaustive]
pub struct DenialAggregator {
    capacity: usize,
    entries: Vec<AggregatedDenial>,
    ingestion_sequence: u128,
}

impl View for DenialAggregator {
    type V = AggregatorView;

    closed spec fn view(&self) -> AggregatorView {
        AggregatorView { capacity: self.capacity as nat, entries: entry_views(self.entries@) }
    }
}

/// Sequence numbers strictly increase along `entries` and lie in
/// `1..=ingestion_sequence`.
spec fn sequences_ordered(entries: Seq<AggregatedDenial>, ingestion_sequence: u128) -> bool {
    &&& forall|i: int, j: int|
        0 <= i < j < entries.len() ==> #[trigger] entries[i].last_observed_sequence
            < #[trigger] entries[j].last_observed_sequence
    &&& forall|i: int|
        0 <= i < entries.len() ==> 1 <= #[trigger] entries[i].last_observed_sequence
            <= ingestion_sequence
}

/// With distinct keys, the entry at `i` is the one found for its key.
proof fn lemma_position_found(entries: Seq<AggregatedDenialView>, key: DenialKeyView, i: int)
    requires
        distinct_keys(entries),
        0 <= i < entries.len(),
        entries[i].key == key,
    ensures
        key_position(entries, key) == Some(i),
{
    let j = choose|j: int| 0 <= j < entries.len() && #[trigger] entries[j].key == key;
    assert(entries[j].key == entries[i].key);
}

/// The position of the entry for `key` in `entries`.
fn position_of_key(entries: &Vec<AggregatedDenial>, key: &DenialKey) -> (position: Option<usize>)
    ensures
        match position {
            Some(i) => i < entries@.len() && entries@[i as int]@.key == key@,
            None => forall|i: int| 0 <= i < entries@.len() ==> (#[trigger] entries@[i])@.key != key@,
        },
{
    let mut index: usize = 0;
    while index < entries.len()
        invariant
            index <= entries@.len(),
            forall|i: int| 0 <= i < index ==> (#[trigger] entries@[i])@.key != key@,
        decreases entries@.len() - index,
    {
        if entries[index].key.same_as(key) {
            return Some(index);
        }
        index = index + 1;
    }
    None
}

/// The position of the entry observed least recently, by sequence number.
fn least_recent_position(entries: &Vec<AggregatedDenial>) -> (position: usize)
    requires
        entries@.len() > 0,
    ensures
        position < entries@.len(),
        forall|i: int|
            0 <= i < entries@.len() ==> entries@[position as int].last_observed_sequence
                <= (#[trigger] entries@[i]).last_observed_sequence,
{
    let mut best: usize = 0;
    let mut index: usize = 1;
    while index < entries.len()
        invariant
            1 <= index <= entries@.len(),
            best < index,
            forall|i: int|
                0 <= i < index ==> entries@[best as int].last_observed_sequence
                    <= (#[trigger] entries@[i]).last_observed_sequence,
        decreases entries@.len() - index,
    {
        if entries[index].last_observed_sequence < entries[best].last_observed_sequence {
            best = index;
        }
        index = index + 1;
    }
    best
}

impl DenialAggregator {
    #[verifier::type_invariant]
    spec fn retains_consistently(self) -> bool {
        &&& self@.well_formed()
        &&& sequences_ordered(self.entries@, self.ingestion_sequence)
    }

    /// Creates an empty aggregator with capacity 1000.
    pub fn new() -> (aggregator: Self)
        ensures
            aggregator@ == AggregatorView::empty(DEFAULT_CAPACITY as nat),
    {
        let aggregator = DenialAggregator {
            capacity: DEFAULT_CAPACITY,
            entries: Vec::new(),
            ingestion_sequence: 0,
        };
        assert(entry_views(aggregator.entries@) =~= Seq::empty());
        aggregator
    }

    /// Creates an empty aggregator with the exact nonzero `capacity`.
    pub fn with_capacity(capacity: usize) -> (result: Result<Self, InvalidCapacityError>)
        ensures
            result is Err <==> capacity == 0,
            result matches Ok(aggregator) ==> aggregator@ == AggregatorView::empty(capacity as nat),
    {
        if capacity == 0 {
            return Err(InvalidCapacityError);
        }
        let aggregator = DenialAggregator { capacity, entries: Vec::new(), ingestion_sequence: 0 };
        assert(entry_views(aggregator.entries@) =~= Seq::empty());
        Ok(aggregator)
    }

    /// Returns the sequence number of a new observation, greater than that of
    /// every retained entry.
    ///
    /// When the counter is exhausted, the retained sequence numbers are first
    /// compacted to `1..=len` in their existing recency order.
    fn next_ingestion_sequence(&mut self) -> (sequence: u128)
        ensures
            final(self)@ == old(self)@,
            sequence == final(self).ingestion_sequence,
            sequence >= 1,
            forall|i: int|
                0 <= i < final(self).entries@.len() ==> (#[trigger] final(self).entries@[i]).last_observed_sequence < sequence,
            final(self).capacity == old(self).capacity,
            old(self).ingestion_sequence == u128::MAX ==> {
                &&& sequence == old(self).entries@.len() + 1
                &&& forall|i: int|
                    0 <= i < final(self).entries@.len() ==> (#[trigger] final(self).entries@[i]).last_observed_sequence
                        == i + 1
            },
            old(self).ingestion_sequence < u128::MAX ==> {
                &&& sequence == old(self).ingestion_sequence + 1
                &&& final(self).entries@ == old(self).entries@
            },
    {
        proof {
            use_type_invariant(&*self);
        }
        if self.ingestion_sequence == u128::MAX {
            let mut entries: Vec<AggregatedDenial> = Vec::new();
            std::mem::swap(&mut entries, &mut self.entries);
            let ghost views = entry_views(entries@);
            let len = entries.len();
            let mut index: usize = 0;
            while index < len
                invariant
                    len == entries@.len(),
                    index <= len,
                    entry_views(entries@) == views,
                    forall|i: int|
                        0 <= i < index ==> (#[trigger] entries@[i]).last_observed_sequence == i + 1,
                decreases len - index,
            {
                let ghost before = entries@;
                entries[index].last_observed_sequence = index as u128 + 1;
                proof {
                    assert(entries@[index as int]@ == before[index as int]@);
                    assert(entry_views(entries@) =~= entry_views(before));
                }
                index = index + 1;
            }
            let capacity = self.capacity;
            *self = DenialAggregator { capacity, entries, ingestion_sequence: len as u128 };
        }
        self.ingestion_sequence = self.ingestion_sequence + 1;
        self.ingestion_sequence
    }

    /// Observes an event, aggregating it when it is a concrete denial.
    ///
    /// Non-denial events and [`Event::Unknown`] are ignored. Every matching hit
    /// refreshes least-recently-observed recency. Inserting a new key while full
    /// evicts the key whose matching event was ingested least recently.
    pub fn observe(&mut self, event: &Event)
        ensures
            final(self)@ == old(self)@.observed(event@),
            old(self)@.well_formed(),
            final(self)@.well_formed(),
    {
        let _ = self.observe_entry(event);
    }

    /// Observes an event and returns the affected retained entry for a denial.
    ///
    /// Non-denial events and [`Event::Unknown`] return `None`. The returned
    /// entry already contains the current observation.
    pub fn observe_entry(&mut self, event: &Event) -> (entry: Option<&AggregatedDenial>)
        ensures
            final(self)@ == old(self)@.observed(event@),
            entry is Some <==> denial_facts_of(event@) is Some,
            entry matches Some(e) ==> e@ == final(self)@.entries.last(),
            old(self)@.well_formed(),
            final(self)@.well_formed(),
    {
        proof {
            use_type_invariant(&*self);
            laws::lemma_observe_keeps_well_formed(self@, event@);
        }
        let (key, same_exec, logged) = match denial_facts(event) {
            Some(facts) => facts,
            None => return None,
        };
        let sequence = self.next_ingestion_sequence();
        proof {
            use_type_invariant(&*self);
        }
        let capacity = self.capacity;
        let mut entries: Vec<AggregatedDenial> = Vec::new();
        std::mem::swap(&mut entries, &mut self.entries);
        let ghost old_entries = entries@;
        let ghost old_views = entry_views(entries@);
        match position_of_key(&entries, &key) {
            Some(index) => {
                proof {
                    lemma_position_found(old_views, key@, index as int);
                }
                let mut entry = entries.remove(index);
                entry.occurrence_count = entry.occurrence_count.saturating_add(1);
                entry.latest_timestamp = event.timestamp();
                entry.same_exec = same_exec;
                entry.logged = logged;
                entry.latest_event = event.clone();
                entry.last_observed_sequence = sequence;
                entries.push(entry);
                proof {
                    let new_views = entry_views(entries@);
                    assert(new_views =~= old_views.remove(index as int).push(
                        old_views[index as int].observed_again(same_exec, logged, event@),
                    ));
                    let last = new_views.len() - 1;
                    assert forall|i: int, j: int|
                        0 <= i < new_views.len() && 0 <= j < new_views.len() && i != j
                        implies #[trigger] new_views[i].key != #[trigger] new_views[j].key by {
                        let oi = if i < index { i } else { i + 1 };
                        let oj = if j < index { j } else { j + 1 };
                        if i == last {
                            assert(old_views[oj].key != old_views[index as int].key);
                        } else if j == last {
                            assert(old_views[oi].key != old_views[index as int].key);
                        } else {
                            assert(old_views[oi].key != old_views[oj].key);
                        }
                    }
                    assert forall|i: int| 0 <= i < new_views.len() implies (#[trigger] new_views[i]).consistent() by {
                        if i < index {
                            assert(old_views[i].consistent());
                        } else if i < last {
                            assert(old_views[i + 1].consistent());
                        } else {
                            assert(old_views[index as int].consistent());
                        }
                    }
                    assert forall|i: int, j: int| 0 <= i < j < entries@.len()
                        implies #[trigger] entries@[i].last_observed_sequence
                            < #[trigger] entries@[j].last_observed_sequence by {
                        let oi = if i < index { i } else { i + 1 };
                        if j < last {
                            let oj = if j < index { j } else { j + 1 };
                            assert(old_entries[oi].last_observed_sequence < old_entries[oj].last_observed_sequence);
                        } else {
                            assert(old_entries[oi].last_observed_sequence < sequence);
                        }
                    }
                    assert forall|i: int| 0 <= i < entries@.len()
                        implies 1 <= #[trigger] entries@[i].last_observed_sequence <= sequence by {
                        if i < last {
                            let oi = if i < index { i } else { i + 1 };
                            assert(old_entries[oi].last_observed_sequence < sequence);
                            assert(1 <= old_entries[oi].last_observed_sequence);
                        }
                    }
                }
            },
            None => {
                proof {
                    assert forall|i: int| 0 <= i < old_views.len() implies #[trigger] old_views[i].key != key@ by {
                        assert(old_views[i] == old_entries[i]@);
                    }
                }
                if entries.len() == capacity {
                    let least = least_recent_position(&entries);
                    proof {
                        if least > 0 {
                            assert(old_entries[0].last_observed_sequence
                                < old_entries[least as int].last_observed_sequence);
                        }
                    }
                    entries.remove(least);
                    proof {
                        assert(entry_views(entries@) =~= old_views.drop_first());
                    }
                }
                let ghost kept = entry_views(entries@);
                let timestamp = event.timestamp();
                entries.push(
                    AggregatedDenial {
                        key,
                        occurrence_count: 1,
                        first_timestamp: timestamp,
                        latest_timestamp: timestamp,
                        same_exec,
                        logged,
                        latest_event: event.clone(),
                        last_observed_sequence: sequence,
                    },
                );
                proof {
                    let new_views = entry_views(entries@);
                    assert(new_views =~= kept.push(
                        AggregatedDenialView::first_observation(key@, same_exec, logged, event@),
                    ));
                    let last = new_views.len() - 1;
                    let shift: int = if old_entries.len() == capacity { 1 } else { 0 };
                    assert(forall|i: int| 0 <= i < last ==> kept[i] == old_views[i + shift]);
                    assert forall|i: int, j: int|
                        0 <= i < new_views.len() && 0 <= j < new_views.len() && i != j
                        implies #[trigger] new_views[i].key != #[trigger] new_views[j].key by {
                        if i == last {
                            assert(old_views[j + shift].key != key@);
                        } else if j == last {
                            assert(old_views[i + shift].key != key@);
                        } else {
                            assert(old_views[i + shift].key != old_views[j + shift].key);
                        }
                    }
                    assert forall|i: int| 0 <= i < new_views.len() implies (#[trigger] new_views[i]).consistent() by {
                        if i < last {
                            assert(old_views[i + shift].consistent());
                        }
                    }
                    assert forall|i: int| 0 <= i < last implies #[trigger] entries@[i].last_observed_sequence
                        == old_entries[i + shift].last_observed_sequence by {
                        assert(entries@[i]@ == kept[i]);
                    }
                    assert forall|i: int, j: int| 0 <= i < j < entries@.len()
                        implies #[trigger] entries@[i].last_observed_sequence
                            < #[trigger] entries@[j].last_observed_sequence by {
                        if j < last {
                            assert(old_entries[i + shift].last_observed_sequence < old_entries[j + shift].last_observed_sequence);
                        } else {
                            assert(old_entries[i + shift].last_observed_sequence < sequence);
                        }
                    }
                    assert forall|i: int| 0 <= i < entries@.len()
                        implies 1 <= #[trigger] entries@[i].last_observed_sequence <= sequence by {
                        if i < last {
                            assert(old_entries[i + shift].last_observed_sequence < sequence);
                            assert(1 <= old_entries[i + shift].last_observed_sequence);
                        }
                    }
                }
            },
        }
        self.entries = entries;
        let last = self.entries.len() - 1;
        Some(&self.entries[last])
    }

    /// Returns the retained entries, least recently observed first.
    pub fn entries(&self) -> (entries: &[AggregatedDenial])
        ensures
            entry_views(entries@) == self@.entries,
            self@.well_formed(),
    {
        proof {
            use_type_invariant(self);
        }
        self.entries.as_slice()
    }

    /// Returns the retained entry for `key`, if present.
    pub fn get(&self, key: &DenialKey) -> (entry: Option<&AggregatedDenial>)
        ensures
            match self@.entry(key@) {
                Some(view) => entry matches Some(e) && e@ == view,
                None => entry is None,
            },
            self@.well_formed(),
    {
        proof {
            use_type_invariant(self);
        }
        match position_of_key(&self.entries, key) {
            Some(index) => {
                proof {
                    lemma_position_found(self@.entries, key@, index as int);
                }
                Some(&self.entries[index])
            },
            None => {
                proof {
                    assert forall|i: int| 0 <= i < self@.entries.len() implies #[trigger] self@.entries[i].key != key@ by {
                        assert(self@.entries[i] == self.entries@[i]@);
                    }
                }
                None
            },
        }
    }

    /// Overrides the occurrence count of the entry for `key`, so that callers
    /// can exercise the saturation of the count at its numeric limit.
    ///
    /// Returns `false`, changing nothing, when no entry for `key` is retained
    /// or `count` is zero.
    pub fn set_occurrence_count(&mut self, key: &DenialKey, count: u64) -> (updated: bool)
        ensures
            updated <==> (count >= 1 && old(self)@.entry(key@) is Some),
            final(self)@ == (if updated {
                old(self)@.with_occurrence_count(key@, count)
            } else {
                old(self)@
            }),
    {
        proof {
            use_type_invariant(&*self);
        }
        if count == 0 {
            return false;
        }
        let capacity = self.capacity;
        let ingestion_sequence = self.ingestion_sequence;
        let mut entries: Vec<AggregatedDenial> = Vec::new();
        std::mem::swap(&mut entries, &mut self.entries);
        let ghost old_entries = entries@;
        let ghost old_views = entry_views(entries@);
        match position_of_key(&entries, key) {
            Some(index) => {
                proof {
                    lemma_position_found(old_views, key@, index as int);
                }
                entries[index].occurrence_count = count;
                proof {
                    let new_views = entry_views(entries@);
                    assert(new_views =~= old_views.update(
                        index as int,
                        AggregatedDenialView { occurrence_count: count, ..old_views[index as int] },
                    ));
                    assert forall|i: int, j: int|
                        0 <= i < new_views.len() && 0 <= j < new_views.len() && i != j
                        implies #[trigger] new_views[i].key != #[trigger] new_views[j].key by {
                        assert(old_views[i].key != old_views[j].key);
                    }
                    assert forall|i: int| 0 <= i < new_views.len() implies (#[trigger] new_views[i]).consistent() by {
                        assert(old_views[i].consistent());
                    }
                    assert forall|i: int| 0 <= i < entries@.len()
                        implies #[trigger] entries@[i].last_observed_sequence
                            == old_entries[i].last_observed_sequence by {}
                }
                *self = DenialAggregator { capacity, entries, ingestion_sequence };
                true
            },
            None => {
                proof {
                    assert forall|i: int| 0 <= i < old_views.len() implies #[trigger] old_views[i].key != key@ by {
                        assert(old_views[i] == old_entries[i]@);
                    }
                }
                *self = DenialAggregator { capacity, entries, ingestion_sequence };
                false
            },
        }
    }

    /// The counter from which sequence numbers of new observations are drawn:
    /// the next observation draws the number after it, or renumbers the
    /// entries when it is exhausted.
    pub closed spec fn sequence_counter(self) -> u128 {
        self.ingestion_sequence
    }

    /// The sequence number of the most recently observed entry, zero when no
    /// entry is retained.
    pub closed spec fn latest_entry_sequence(self) -> u128 {
        if self.entries@.len() == 0 {
            0
        } else {
            self.entries@.last().last_observed_sequence
        }
    }

    /// Sets the counter from which sequence numbers of new observations are
    /// drawn, so that callers can exercise its exhaustion.
    ///
    /// The retained entries and their recency order are unchanged. A value
    /// below the sequence number of the most recent entry is ignored.
    pub fn set_ingestion_sequence(&mut self, sequence: u128)
        ensures
            final(self)@ == old(self)@,
            final(self).sequence_counter() == (if old(self).latest_entry_sequence() <= sequence {
                sequence
            } else {
                old(self).sequence_counter()
            }),
    {
        proof {
            use_type_invariant(&*self);
        }
        let len = self.entries.len();
        if len == 0 || self.entries[len - 1].last_observed_sequence <= sequence {
            let capacity = self.capacity;
            let mut entries: Vec<AggregatedDenial> = Vec::new();
            std::mem::swap(&mut entries, &mut self.entries);
            proof {
                assert forall|i: int| 0 <= i < entries@.len()
                    implies #[trigger] entries@[i].last_observed_sequence <= sequence by {
                    if i < len - 1 {
                        assert(entries@[i].last_observed_sequence
                            < entries@[len - 1].last_observed_sequence);
                    }
                }
            }
            *self = DenialAggregator { capacity, entries, ingestion_sequence: sequence };
        }
    }

    /// Returns the number of retained unique denial keys.
    pub fn len(&self) -> (len: usize)
        ensures
            len == self@.entries.len(),
            self@.well_formed(),
    {
        proof {
            use_type_invariant(self);
        }
        self.entries.len()
    }

    /// Returns whether no denial keys are retained.
    pub fn is_empty(&self) -> (empty: bool)
        ensures
            empty == (self@.entries.len() == 0),
    {
        self.entries.len() == 0
    }

    /// Returns the exact maximum number of retained denial keys.
    pub fn capacity(&self) -> (capacity: usize)
        ensures
            capacity == self@.capacity,
            self@.well_formed(),
    {
        proof {
            use_type_invariant(self);
        }
        self.capacity
    }
}

impl Default for DenialAggregator {
    fn default() -> (aggregator: Self)
        ensures
            aggregator@ == AggregatorView::empty(DEFAULT_CAPACITY as nat),
    {
        DenialAggregator::new()
    }
}

} // verus!
