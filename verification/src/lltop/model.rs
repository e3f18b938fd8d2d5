//! What the interactive view observes: reconstructed state, aggregated
//! denials, denial counters and the latest timestamp seen.
use vstd::prelude::*;

use super::batch::{allocated_domain_count, allocated_ids};
use super::records::{saturated_increment, DenialKind};
use super::tree::{domain_tree_entries, domain_tree_of, entry_ids, trails_nonempty, tree_entries};
use crate::aggregate::{
    lemma_observe_keeps_well_formed, AggregatedDenial, AggregatorView, DenialAggregator, DenialKey,
};
use crate::event::{DomainId, Event, EventView, KernelTimestamp, RulesetId};
use crate::state::{
    keyed_by_id, lemma_apply_keeps_keys, lists_values, DomainState, DomainView, LifecycleState,
    RulesetState, RulesetView, State, StateView,
};

verus! {

/// Denial counters of the interactive view: the total and one per kind.
pub struct Stats {
    pub total: u64,
    pub by_kind: [u64; 5],
}

impl Default for Stats {
    fn default() -> (stats: Self)
        ensures
            stats.total == 0,
            stats.by_kind@ == seq![0u64, 0u64, 0u64, 0u64, 0u64],
    {
        Stats { total: 0, by_kind: [0, 0, 0, 0, 0] }
    }
}

/// What the interactive view knows.
pub struct ModelView {
    pub state: StateView,
    pub denials: AggregatorView,
    pub total: u64,
    pub by_kind: Seq<u64>,
    pub latest_seen: u64,
}

impl ModelView {
    /// The view before any observation.
    pub open spec fn initial() -> ModelView {
        ModelView {
            state: StateView::empty(),
            denials: AggregatorView::empty(1000),
            total: 0,
            by_kind: seq![0u64, 0u64, 0u64, 0u64, 0u64],
            latest_seen: 0,
        }
    }

    /// The view after `event`: the latest timestamp seen advances, a denial
    /// is counted, the state applies the event and the aggregator observes it.
    pub open spec fn observed(self, event: EventView) -> ModelView {
        let latest_seen = if event.timestamp()@ > self.latest_seen {
            event.timestamp()@
        } else {
            self.latest_seen
        };
        let (total, by_kind) = match DenialKind::of_event(event) {
            Some(kind) => (
                saturated_increment(self.total),
                self.by_kind.update(
                    kind.position() as int,
                    saturated_increment(self.by_kind[kind.position() as int]),
                ),
            ),
            None => (self.total, self.by_kind),
        };
        ModelView {
            state: self.state.apply(event),
            denials: self.denials.observed(event),
            total,
            by_kind,
            latest_seen,
        }
    }
}

/// The IDs of the allocated rulesets among `rulesets`.
pub open spec fn allocated_ruleset_ids(rulesets: Map<u64, RulesetView>) -> Set<u64> {
    rulesets.dom().filter(|id: u64| rulesets[id].lifecycle == LifecycleState::Allocated)
}

/// A sequence without duplicates keeps none after filtering.
proof fn lemma_filter_no_duplicates<V>(items: Seq<V>, keep: spec_fn(V) -> bool)
    requires
        items.no_duplicates(),
    ensures
        items.filter(keep).no_duplicates(),
    decreases items.len(),
{
    reveal(Seq::filter);
    if items.len() > 0 {
        let rest = items.drop_last();
        assert(rest.no_duplicates());
        lemma_filter_no_duplicates(rest, keep);
        if keep(items.last()) {
            if rest.filter(keep).contains(items.last()) {
                rest.lemma_filter_contains_rev(keep, items.last());
                let i = choose|i: int| 0 <= i < rest.len() && rest[i] == items.last();
                assert(items[i] == items[items.len() - 1]);
            }
        }
    }
}

/// Counting the listed values of a map that satisfy `keep` counts the keys
/// whose value satisfies it, when every value names its own key.
proof fn lemma_listed_count<V>(
    items: Seq<V>,
    map: Map<u64, V>,
    key: spec_fn(V) -> u64,
    keep: spec_fn(V) -> bool,
)
    requires
        lists_values(items, map),
        map.dom().finite(),
        forall|k: u64| #[trigger] map.contains_key(k) ==> key(map[k]) == k,
    ensures
        items.filter(keep).len() == map.dom().filter(|k: u64| keep(map[k])).len(),
{
    broadcast use vstd::seq_lib::group_filter_ensures;
    let domain = map.dom();
    let values = map.values();
    let value_of = |k: u64| map[k];
    assert(vstd::relations::injective_on(value_of, domain)) by {
        assert forall|a: u64, b: u64|
            domain.contains(a) && domain.contains(b) && #[trigger] value_of(a) == #[trigger] value_of(b)
            implies a == b by {
            assert(key(map[a]) == a && key(map[b]) == b);
        }
    }
    assert(domain.map(value_of) =~= values) by {
        assert forall|v: V| values.contains(v) implies domain.map(value_of).contains(v) by {
            let k = choose|k: u64| map.contains_key(k) && map[k] == v;
            assert(value_of(k) == v);
        }
    }
    vstd::set_lib::lemma_map_size(domain, values, value_of);
    assert(items.to_set() =~= values) by {
        assert forall|v: V| items.to_set().contains(v) implies values.contains(v) by {
            let i = choose|i: int| 0 <= i < items.len() && items[i] == v;
        }
        assert forall|v: V| values.contains(v) implies items.to_set().contains(v) by {
            assert(items.contains(v));
        }
    }
    items.lemma_no_dup_set_cardinality();
    let kept = items.filter(keep);
    lemma_filter_no_duplicates(items, keep);
    kept.unique_seq_to_set();
    let kept_keys = domain.filter(|k: u64| keep(map[k]));
    assert(kept.to_set() =~= values.filter(keep)) by {
        assert forall|v: V| kept.to_set().contains(v) implies values.filter(keep).contains(v) by {
            let i = choose|i: int| 0 <= i < kept.len() && kept[i] == v;
            assert(keep(kept[i]));
            items.lemma_filter_contains_rev(keep, v);
        }
        assert forall|v: V| values.filter(keep).contains(v) implies kept.to_set().contains(v) by {
            assert(items.contains(v));
            let i = choose|i: int| 0 <= i < items.len() && items[i] == v;
            items.lemma_filter_contains(keep, i);
        }
    }
    assert(vstd::relations::injective_on(value_of, kept_keys));
    assert(kept_keys.map(value_of) =~= values.filter(keep)) by {
        assert forall|v: V| values.filter(keep).contains(v) implies kept_keys.map(value_of).contains(v) by {
            let k = choose|k: u64| map.contains_key(k) && map[k] == v;
            assert(kept_keys.contains(k));
            assert(value_of(k) == v);
        }
    }
    vstd::set_lib::lemma_set_subset_finite(domain, kept_keys);
    vstd::set_lib::lemma_map_size(kept_keys, values.filter(keep), value_of);
}

/// The number of rulesets known to be allocated and not deallocated.
pub open spec fn allocated_ruleset_count(state: StateView) -> nat {
    allocated_ruleset_ids(state.rulesets).len()
}

/// The reconstructed state, aggregated denials, denial counters and the
/// latest timestamp seen by the interactive view.
pub struct ObservationModel {
    state: State,
    denials: DenialAggregator,
    stats: Stats,
    latest_seen: KernelTimestamp,
}

impl View for ObservationModel {
    type V = ModelView;

    closed spec fn view(&self) -> ModelView {
        ModelView {
            state: self.state@,
            denials: self.denials@,
            total: self.stats.total,
            by_kind: self.stats.by_kind@,
            latest_seen: self.latest_seen@,
        }
    }
}

impl ObservationModel {
    #[verifier::type_invariant]
    spec fn keeps_state_keyed(self) -> bool {
        &&& keyed_by_id(self.state@)
        &&& self.state@.rulesets.dom().finite()
        &&& self.state@.domains.dom().finite()
        &&& self.denials@.well_formed()
    }

    /// Creates a view that has observed nothing.
    pub fn new() -> (model: Self)
        ensures
            model@ == ModelView::initial(),
    {
        let state = State::new();
        let denials = DenialAggregator::new();
        proof {
            assert(denials@.entries =~= Seq::empty());
        }
        ObservationModel {
            state,
            denials,
            stats: Stats::default(),
            latest_seen: KernelTimestamp::from_nanoseconds(0),
        }
    }

    /// Returns the reconstructed state.
    pub fn state(&self) -> (state: &State)
        ensures
            state@ == self@.state,
            keyed_by_id(state@),
            state@.rulesets.dom().finite(),
            state@.domains.dom().finite(),
    {
        proof {
            use_type_invariant(self);
        }
        &self.state
    }

    /// Returns the aggregated denials.
    pub fn denials(&self) -> (denials: &DenialAggregator)
        ensures
            denials@ == self@.denials,
            denials@.well_formed(),
    {
        proof {
            use_type_invariant(self);
        }
        &self.denials
    }

    /// Returns the denial counters.
    pub fn stats(&self) -> (stats: &Stats)
        ensures
            stats.total == self@.total,
            stats.by_kind@ == self@.by_kind,
    {
        &self.stats
    }

    /// Returns the latest event timestamp seen.
    pub fn latest_seen(&self) -> (latest: KernelTimestamp)
        ensures
            latest@ == self@.latest_seen,
    {
        self.latest_seen
    }

    /// Observes one event.
    pub fn observe(&mut self, event: &Event)
        ensures
            final(self)@ == old(self)@.observed(event@),
    {
        let mut current = ObservationModel::new();
        std::mem::swap(self, &mut current);
        proof {
            use_type_invariant(&current);
        }
        let ObservationModel { mut state, mut denials, mut stats, latest_seen } = current;
        let seen = latest_seen.as_nanoseconds();
        let timestamp = event.timestamp().as_nanoseconds();
        let latest_seen = KernelTimestamp::from_nanoseconds(
            if timestamp > seen {
                timestamp
            } else {
                seen
            },
        );
        if let Some(kind) = DenialKind::from_event(event) {
            stats.total = stats.total.saturating_add(1);
            let index = kind.index();
            let counter = stats.by_kind[index];
            stats.by_kind[index] = counter.saturating_add(1);
        }
        proof {
            lemma_apply_keeps_keys(state@, event@);
            lemma_observe_keeps_well_formed(denials@, event@);
        }
        state.apply(event);
        denials.observe(event);
        *self = ObservationModel { state, denials, stats, latest_seen };
    }

    /// Returns the number of domains known to be allocated and not
    /// deallocated.
    pub fn allocated_domains(&self) -> (count: usize)
        ensures
            count == allocated_domain_count(self@.state),
    {
        proof {
            use_type_invariant(self);
        }
        let domains = self.state.domains();
        let ghost items = domains@.map_values(|domain: &DomainState| domain@);
        let ghost keep = |domain: DomainView| domain.lifecycle == LifecycleState::Allocated;
        let mut count: usize = 0;
        let mut index: usize = 0;
        while index < domains.len()
            invariant
                index <= domains@.len(),
                items == domains@.map_values(|domain: &DomainState| domain@),
                keep == (|domain: DomainView| domain.lifecycle == LifecycleState::Allocated),
                count == items.take(index as int).filter(keep).len(),
                count <= index,
            decreases domains@.len() - index,
        {
            proof {
                let next = items.take(index + 1);
                assert(next.drop_last() =~= items.take(index as int));
                reveal(Seq::filter);
            }
            if domains[index].lifecycle() == LifecycleState::Allocated {
                count = count + 1;
            }
            index = index + 1;
        }
        proof {
            assert(items.take(items.len() as int) =~= items);
            let map = self@.state.domains;
            lemma_listed_count(items, map, |domain: DomainView| domain.id@, keep);
            assert(map.dom().filter(|k: u64| keep(map[k])) =~= allocated_ids(map));
        }
        count
    }

    /// Returns the number of rulesets known to be allocated and not
    /// deallocated.
    pub fn allocated_rulesets(&self) -> (count: usize)
        ensures
            count == allocated_ruleset_count(self@.state),
    {
        proof {
            use_type_invariant(self);
        }
        let rulesets = self.state.rulesets();
        let ghost items = rulesets@.map_values(|ruleset: &RulesetState| ruleset@);
        let ghost keep = |ruleset: RulesetView| ruleset.lifecycle == LifecycleState::Allocated;
        let mut count: usize = 0;
        let mut index: usize = 0;
        while index < rulesets.len()
            invariant
                index <= rulesets@.len(),
                items == rulesets@.map_values(|ruleset: &RulesetState| ruleset@),
                keep == (|ruleset: RulesetView| ruleset.lifecycle == LifecycleState::Allocated),
                count == items.take(index as int).filter(keep).len(),
                count <= index,
            decreases rulesets@.len() - index,
        {
            proof {
                let next = items.take(index + 1);
                assert(next.drop_last() =~= items.take(index as int));
                reveal(Seq::filter);
            }
            if rulesets[index].lifecycle() == LifecycleState::Allocated {
                count = count + 1;
            }
            index = index + 1;
        }
        proof {
            assert(items.take(items.len() as int) =~= items);
            let map = self@.state.rulesets;
            lemma_listed_count(items, map, |ruleset: RulesetView| ruleset.id@, keep);
            assert(map.dom().filter(|k: u64| keep(map[k])) =~= allocated_ruleset_ids(map));
        }
        count
    }

    /// Returns how long before the latest timestamp seen a denial was last
    /// observed, zero when it is not earlier.
    pub fn denial_age_ns(&self, denial: &AggregatedDenial) -> (age: u64)
        ensures
            age == (if self@.latest_seen >= denial@.latest_timestamp@ {
                (self@.latest_seen - denial@.latest_timestamp@) as u64
            } else {
                0
            }),
    {
        self.latest_seen.as_nanoseconds().saturating_sub(denial.latest_timestamp().as_nanoseconds())
    }

    /// Returns the aggregated denial for `key`, if retained.
    pub fn denial(&self, key: &DenialKey) -> (denial: Option<&AggregatedDenial>)
        ensures
            match self@.denials.entry(key@) {
                Some(view) => denial matches Some(d) && d@ == view,
                None => denial is None,
            },
    {
        self.denials.get(key)
    }
}

impl ObservationModel {
    /// Returns every domain in tree order with its ancestors' and own
    /// last-child flags.
    ///
    /// Roots are domains whose parent is unknown, null or not reconstructed;
    /// children follow their parent depth first; siblings and roots come in
    /// increasing ID order; domains left over by parent cycles follow in
    /// increasing ID order, each as a root.
    pub fn domain_tree(&self) -> (tree: Vec<(DomainId, Vec<bool>)>)
        ensures
            tree_entries(tree@) == domain_tree_of(self@.state),
            entry_ids(tree@).no_duplicates(),
            entry_ids(tree@).to_set() == self@.state.domains.dom(),
            trails_nonempty(tree@),
    {
        proof {
            use_type_invariant(self);
        }
        domain_tree_entries(&self.state)
    }
}

/// Returns the ruleset frozen into a domain, if known.
pub fn domain_ruleset(domain: &DomainState) -> (id: Option<RulesetId>)
    ensures
        id == match domain@.ruleset {
            Some((id, _)) => Some(id),
            None => None,
        },
{
    match domain.ruleset() {
        Some(ruleset) => Some(ruleset.ruleset_id()),
        None => None,
    }
}

} // verus!
