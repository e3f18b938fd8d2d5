//! Batch mode: each observation yields the records of what it changed.
use vstd::prelude::*;

use super::records::{
    denial_record, domain_record, format_denial, format_domain, format_stats, ruleset,
    ruleset_text, saturated_increment, stats_record, DenialKind, Stats,
};
use crate::aggregate::{lemma_observe_keeps_well_formed, AggregatorView, DenialAggregator};
use crate::event::{DenialContext, DomainId, DomainMembership, Event, EventView, RulesetId};
use crate::state::{
    denial_domains, lemma_apply_changes_only_mentioned_domains, lemma_apply_retains_facts, mentioned_domains,
    DomainView, LifecycleState, State, StateView,
};

verus! {

broadcast use vstd::std_specs::hash::group_hash_axioms;

/// Whether `ids` strictly increase.
pub open spec fn strictly_increasing(ids: Seq<u64>) -> bool {
    forall|i: int, j: int| 0 <= i < j < ids.len() ==> ids[i] < ids[j]
}

/// The domains an event mentions, in increasing ID order.
pub open spec fn affected_domains(event: EventView) -> Seq<u64> {
    choose|ids: Seq<u64>| strictly_increasing(ids) && ids.to_set() == mentioned_domains(event)
}

/// The kernel values of `ids`, in order.
pub open spec fn id_values(ids: Seq<DomainId>) -> Seq<u64> {
    ids.map_values(|id: DomainId| id@)
}

/// Two strictly increasing sequences with the same elements are equal.
pub(crate) proof fn lemma_sorted_unique(a: Seq<u64>, b: Seq<u64>)
    requires
        strictly_increasing(a),
        strictly_increasing(b),
        a.to_set() == b.to_set(),
    ensures
        a == b,
    decreases a.len(),
{
    if a.len() == 0 {
        if b.len() > 0 {
            assert(b.to_set().contains(b[0]));
        }
    } else {
        assert(a.to_set().contains(a[0]));
        assert(b.len() > 0);
        assert(b.to_set().contains(b[0]));
        let ia = choose|i: int| 0 <= i < a.len() && a[i] == b[0];
        let ib = choose|i: int| 0 <= i < b.len() && b[i] == a[0];
        assert(a[0] == b[0]) by {
            if a[0] < b[0] {
                assert(b[ib] == a[0]);
                if ib > 0 {
                    assert(b[0] < b[ib]);
                }
            } else if b[0] < a[0] {
                assert(a[ia] == b[0]);
                if ia > 0 {
                    assert(a[0] < a[ia]);
                }
            }
        }
        let ra = a.drop_first();
        let rb = b.drop_first();
        assert forall|x: u64| ra.to_set().contains(x) implies rb.to_set().contains(x) by {
            let i = choose|i: int| 0 <= i < ra.len() && ra[i] == x;
            assert(a[i + 1] == x);
            assert(a.to_set().contains(x));
            let j = choose|j: int| 0 <= j < b.len() && b[j] == x;
            assert(a[0] < a[i + 1]);
            if j == 0 {
                assert(false);
            }
            assert(rb[j - 1] == x);
        }
        assert forall|x: u64| rb.to_set().contains(x) implies ra.to_set().contains(x) by {
            let j = choose|j: int| 0 <= j < rb.len() && rb[j] == x;
            assert(b[j + 1] == x);
            assert(b.to_set().contains(x));
            let i = choose|i: int| 0 <= i < a.len() && a[i] == x;
            assert(b[0] < b[j + 1]);
            if i == 0 {
                assert(false);
            }
            assert(ra[i - 1] == x);
        }
        assert(ra.to_set() =~= rb.to_set());
        lemma_sorted_unique(ra, rb);
        assert(a =~= b) by {
            assert forall|i: int| 0 <= i < a.len() implies a[i] == b[i] by {
                if i > 0 {
                    assert(ra[i - 1] == rb[i - 1]);
                }
            }
        }
    }
}

/// Inserts `id` into `ids`, which strictly increase, unless it is present.
pub(crate) fn insert_sorted(ids: &mut Vec<DomainId>, id: DomainId)
    requires
        strictly_increasing(id_values(old(ids)@)),
    ensures
        strictly_increasing(id_values(final(ids)@)),
        id_values(final(ids)@).to_set() == id_values(old(ids)@).to_set().insert(id@),
{
    let ghost before = id_values(ids@);
    let mut index: usize = 0;
    while index < ids.len() && ids[index].get() < id.get()
        invariant
            index <= ids@.len(),
            before == id_values(ids@),
            strictly_increasing(before),
            forall|i: int| 0 <= i < index ==> before[i] < id@,
        decreases ids@.len() - index,
    {
        index = index + 1;
    }
    if index < ids.len() && ids[index].get() == id.get() {
        assert(before.to_set().insert(id@) =~= before.to_set()) by {
            assert(before[index as int] == id@);
        }
        return;
    }
    ids.insert(index, id);
    let ghost after = id_values(ids@);
    assert(after =~= before.insert(index as int, id@));
    assert(strictly_increasing(after)) by {
        assert forall|i: int, j: int| 0 <= i < j < after.len() implies after[i] < after[j] by {
            if j < index {
            } else if j == index {
                assert(before[i] < id@);
            } else if i < index {
                assert(before[i] < id@);
                assert(before[index as int] >= id@);
                if j - 1 > index {
                    assert(before[index as int] < before[j - 1]);
                }
            } else if i == index {
                assert(before[index as int] >= id@);
                assert(before[index as int] != id@);
                if j - 1 > index {
                    assert(before[index as int] < before[j - 1]);
                }
            } else {
                assert(before[i - 1] < before[j - 1]);
            }
        }
    }
    assert(after.to_set() =~= before.to_set().insert(id@)) by {
        assert forall|x: u64| after.to_set().contains(x) implies before.to_set().insert(id@).contains(x) by {
            let k = choose|k: int| 0 <= k < after.len() && after[k] == x;
            if k < index {
                assert(before[k] == x);
            } else if k > index {
                assert(before[k - 1] == x);
            }
        }
        assert forall|x: u64| before.to_set().insert(id@).contains(x) implies after.to_set().contains(x) by {
            if x == id@ {
                assert(after[index as int] == x);
            } else {
                let k = choose|k: int| 0 <= k < before.len() && before[k] == x;
                if k < index {
                    assert(after[k] == x);
                } else {
                    assert(after[k + 1] == x);
                }
            }
        }
    }
}

/// Appends `id` to `ids`.
fn push_id(ids: &mut Vec<DomainId>, id: DomainId)
    ensures
        id_values(final(ids)@).to_set() == id_values(old(ids)@).to_set().insert(id@),
{
    let ghost before = id_values(ids@);
    ids.push(id);
    proof {
        assert(id_values(ids@) =~= before.push(id@));
        before.lemma_push_to_set_commute(id@);
    }
}

/// Appends the denying domain, its captured parent and a sandboxed other
/// party to `ids`.
fn push_denial_ids(ids: &mut Vec<DomainId>, context: &DenialContext, other: Option<DomainMembership>)
    requires
        id_values(old(ids)@).len() == 0,
    ensures
        id_values(final(ids)@).to_set() == denial_domains(context@, other),
{
    let hierarchy = context.hierarchy();
    push_id(ids, hierarchy.domain_id());
    if let Some(parent) = hierarchy.parent_id() {
        push_id(ids, parent);
    }
    if let Some(DomainMembership::Sandboxed(id)) = other {
        push_id(ids, id);
    }
    assert(id_values(final(ids)@).to_set() =~= denial_domains(context@, other));
}

/// Returns the domains an event mentions, in increasing ID order and each once.
pub fn affected_domain_ids(event: &Event) -> (ids: Vec<DomainId>)
    ensures
        id_values(ids@) == affected_domains(event@),
        strictly_increasing(id_values(ids@)),
        id_values(ids@).to_set() == mentioned_domains(event@),
{
    let mut ids: Vec<DomainId> = Vec::new();
    let mut candidates: Vec<DomainId> = Vec::new();
    match event {
        Event::CreateDomain(event) => {
            push_id(&mut candidates, event.domain_id());
            if let Some(parent) = event.parent_id() {
                push_id(&mut candidates, parent);
            }
        },
        Event::FreeDomain(event) => push_id(&mut candidates, event.domain_id()),
        Event::EnforceDomain(event) => push_id(&mut candidates, event.domain_id()),
        Event::DenyAccessFs(event) => push_denial_ids(&mut candidates, event.context(), None),
        Event::DenyAccessNet(event) => push_denial_ids(&mut candidates, event.context(), None),
        Event::DenyPtrace(event) => push_denial_ids(
            &mut candidates,
            event.context(),
            Some(event.tracee_domain()),
        ),
        Event::DenyScopeSignal(event) => push_denial_ids(
            &mut candidates,
            event.context(),
            Some(event.target_domain()),
        ),
        Event::DenyScopeAbstractUnixSocket(event) => push_denial_ids(
            &mut candidates,
            event.context(),
            Some(event.peer_domain()),
        ),
        _ => {},
    }
    assert(id_values(candidates@).to_set() =~= mentioned_domains(event@));
    let mut index: usize = 0;
    while index < candidates.len()
        invariant
            index <= candidates@.len(),
            strictly_increasing(id_values(ids@)),
            id_values(ids@).to_set() == id_values(candidates@.take(index as int)).to_set(),
        decreases candidates@.len() - index,
    {
        insert_sorted(&mut ids, candidates[index]);
        proof {
            let done = id_values(candidates@.take(index as int));
            let next = id_values(candidates@.take(index + 1));
            assert(next =~= done.push(candidates@[index as int]@));
            done.lemma_push_to_set_commute(candidates@[index as int]@);
        }
        index = index + 1;
    }
    assert(candidates@.take(candidates@.len() as int) =~= candidates@);
    proof {
        let found = id_values(ids@);
        assert(strictly_increasing(found) && found.to_set() == mentioned_domains(event@));
        let chosen = affected_domains(event@);
        assert(strictly_increasing(chosen) && chosen.to_set() == mentioned_domains(event@));
        lemma_sorted_unique(found, chosen);
    }
    ids
}

/// The identity and final version of a ruleset known to be deallocated, if
/// its final version is known.
pub open spec fn deallocated_ruleset(state: StateView, id: RulesetId) -> Option<(RulesetId, u32)> {
    if state.rulesets.contains_key(id@) && state.rulesets[id@].lifecycle
        == LifecycleState::Deallocated {
        match state.rulesets[id@].final_version {
            Some(version) => Some((id, version)),
            None => None,
        }
    } else {
        None
    }
}

/// Returns the identity and final version of a ruleset known to be
/// deallocated, if its final version is known.
pub fn deallocated_ruleset_identity(state: &State, id: RulesetId) -> (identity: Option<(RulesetId, u32)>)
    ensures
        identity == deallocated_ruleset(state@, id),
{
    match state.ruleset(id) {
        None => None,
        Some(ruleset) => {
            if ruleset.lifecycle() != LifecycleState::Deallocated {
                return None;
            }
            match ruleset.final_version() {
                Some(version) => Some((id, version)),
                None => None,
            }
        },
    }
}

/// The IDs of the allocated domains among `domains`.
pub open spec fn allocated_ids(domains: Map<u64, DomainView>) -> Set<u64> {
    domains.dom().filter(|id: u64| domains[id].lifecycle == LifecycleState::Allocated)
}

/// The number of domains known to be allocated and not deallocated.
pub open spec fn allocated_domain_count(state: StateView) -> nat {
    allocated_ids(state.domains).len()
}

/// The domains of `after` for the IDs in `done`, and of `before` elsewhere.
spec fn mixed_domains(
    before: Map<u64, DomainView>,
    after: Map<u64, DomainView>,
    done: Set<u64>,
) -> Map<u64, DomainView> {
    Map::new(
        |id: u64|
            if done.contains(id) {
                after.contains_key(id)
            } else {
                before.contains_key(id)
            },
        |id: u64|
            if done.contains(id) {
                after[id]
            } else {
                before[id]
            },
    )
}

/// Taking one more ID from `after` adds it to, or removes it from, the
/// allocated IDs, according to its lifecycle in `after`.
proof fn lemma_mixed_step(
    before: Map<u64, DomainView>,
    after: Map<u64, DomainView>,
    done: Set<u64>,
    id: u64,
)
    requires
        before.dom().finite(),
        after.dom().finite(),
        before.dom().subset_of(after.dom()),
        !done.contains(id),
    ensures
        allocated_ids(mixed_domains(before, after, done)).finite(),
        allocated_ids(mixed_domains(before, after, done)).contains(id) == (before.contains_key(id)
            && before[id].lifecycle == LifecycleState::Allocated),
        allocated_ids(mixed_domains(before, after, done.insert(id))) == if after.contains_key(id)
            && after[id].lifecycle == LifecycleState::Allocated {
            allocated_ids(mixed_domains(before, after, done)).insert(id)
        } else {
            allocated_ids(mixed_domains(before, after, done)).remove(id)
        },
        allocated_ids(mixed_domains(before, after, done.insert(id))).len() <= after.dom().len(),
{
    let first = mixed_domains(before, after, done);
    let second = mixed_domains(before, after, done.insert(id));
    assert(first.dom().subset_of(after.dom()));
    assert(second.dom().subset_of(after.dom()));
    vstd::set_lib::lemma_len_subset(allocated_ids(first), after.dom());
    vstd::set_lib::lemma_len_subset(allocated_ids(second), after.dom());
    if after.contains_key(id) && after[id].lifecycle == LifecycleState::Allocated {
        assert(allocated_ids(second) =~= allocated_ids(first).insert(id));
    } else {
        assert(allocated_ids(second) =~= allocated_ids(first).remove(id));
    }
}

/// Returns the record of a ruleset that became known as deallocated, given
/// its identity before and after an observation.
fn dropped_ruleset_line(
    previous: Option<(RulesetId, u32)>,
    current: Option<(RulesetId, u32)>,
) -> (line: Option<String>)
    ensures
        match current {
            Some((id, version)) => if current != previous {
                line matches Some(text) && text@ == "DROP_RULESET ruleset="@ + ruleset_text(id, version)
            } else {
                line is None
            },
            None => line is None,
        },
{
    match current {
        None => None,
        Some((id, version)) => {
            let same = match previous {
                Some((previous_id, previous_version)) => previous_id == id && previous_version == version,
                None => false,
            };
            if same {
                return None;
            }
            let mut line: Vec<char> = Vec::new();
            super::text::push_str(&mut line, "DROP_RULESET ruleset=");
            let text = ruleset(id, version);
            super::text::push_str(&mut line, text.as_str());
            assert(line@ =~= "DROP_RULESET ruleset="@ + ruleset_text(id, version));
            Some(super::text::string_from_chars(line))
        },
    }
}

/// An observation keeps every known domain, adds only mentioned ones, and
/// changes only mentioned ones.
proof fn lemma_apply_domains(before: StateView, event: EventView)
    requires
        before.domains.dom().finite(),
    ensures
        before.domains.dom().subset_of(before.apply(event).domains.dom()),
        before.apply(event).domains.dom().finite(),
        mixed_domains(before.domains, before.apply(event).domains, mentioned_domains(event))
            == before.apply(event).domains,
{
    let after = before.apply(event);
    lemma_apply_retains_facts(before, event);
    assert(after.domains.dom().subset_of(before.domains.dom() + mentioned_domains(event))) by {
        assert forall|id: u64| after.domains.dom().contains(id) implies (before.domains.dom()
            + mentioned_domains(event)).contains(id) by {
            if !mentioned_domains(event).contains(id) {
                lemma_apply_changes_only_mentioned_domains(before, event, id);
            }
        }
    }
    assert(mentioned_domains(event).finite());
    vstd::set_lib::lemma_set_subset_finite(
        before.domains.dom() + mentioned_domains(event),
        after.domains.dom(),
    );
    assert(mixed_domains(before.domains, after.domains, mentioned_domains(event)) =~= after.domains) by {
        assert forall|id: u64| !mentioned_domains(event).contains(id) implies (
        after.domains.contains_key(id) == before.domains.contains_key(id) && (
        before.domains.contains_key(id) ==> after.domains[id] == before.domains[id])) by {
            lemma_apply_changes_only_mentioned_domains(before, event, id);
        }
    }
}

/// What is known of a domain: its record and whether it is allocated.
pub open spec fn domain_entry_of(state: StateView, id: u64) -> Option<(Seq<char>, bool)> {
    if state.domains.contains_key(id) {
        Some(
            (
                domain_record(state.domains[id]),
                state.domains[id].lifecycle == LifecycleState::Allocated,
            ),
        )
    } else {
        None
    }
}

/// The view of a record and an allocation flag.
pub open spec fn entry_view(entry: Option<(String, bool)>) -> Option<(Seq<char>, bool)> {
    match entry {
        Some((record, allocated)) => Some((record@, allocated)),
        None => None,
    }
}

/// Returns the record of domain `id` and whether it is allocated, if known.
fn domain_entry(state: &State, id: DomainId) -> (entry: Option<(String, bool)>)
    ensures
        entry_view(entry) == domain_entry_of(state@, id@),
{
    match state.domain(id) {
        Some(domain) => Some((format_domain(domain), domain.lifecycle() == LifecycleState::Allocated)),
        None => None,
    }
}

/// The records of the domains among `ids` whose record changed from
/// `before` to `after`, in the order of `ids`.
pub open spec fn changed_domain_records(before: StateView, after: StateView, ids: Seq<u64>) -> Seq<
    Seq<char>,
>
    decreases ids.len(),
{
    if ids.len() == 0 {
        Seq::empty()
    } else {
        let id = ids.last();
        let rest = changed_domain_records(before, after, ids.drop_last());
        if after.domains.contains_key(id) && (!before.domains.contains_key(id) || domain_record(
            before.domains[id],
        ) != domain_record(after.domains[id])) {
            rest.push(domain_record(after.domains[id]))
        } else {
            rest
        }
    }
}

/// The record of a ruleset that became known as deallocated, with its final
/// version, between `before` and `after`.
pub open spec fn dropped_ruleset_records(before: StateView, after: StateView, id: RulesetId) -> Seq<
    Seq<char>,
> {
    let previous = deallocated_ruleset(before, id);
    let current = deallocated_ruleset(after, id);
    match current {
        Some((id, version)) => if current != previous {
            seq!["DROP_RULESET ruleset="@ + ruleset_text(id, version)]
        } else {
            Seq::empty()
        },
        None => Seq::empty(),
    }
}

/// The texts of `strings`, in order.
pub open spec fn string_texts(strings: Seq<String>) -> Seq<Seq<char>> {
    strings.map_values(|text: String| text@)
}

/// What batch mode knows: the reconstructed state, the aggregated denials
/// and the denial counters.
pub struct BatchView {
    pub state: StateView,
    pub denials: AggregatorView,
    pub total_denials: u64,
    pub denial_counts: Seq<u64>,
}

impl BatchView {
    /// Batch mode before any observation.
    pub open spec fn initial() -> BatchView {
        BatchView {
            state: StateView::empty(),
            denials: AggregatorView::empty(1000),
            total_denials: 0,
            denial_counts: seq![0u64, 0u64, 0u64, 0u64, 0u64],
        }
    }

    /// Batch mode after `event`: the state applies it, and a denial is
    /// aggregated and counted.
    pub open spec fn observed(self, event: EventView) -> BatchView {
        match DenialKind::of_event(event) {
            Some(kind) => BatchView {
                state: self.state.apply(event),
                denials: self.denials.observed(event),
                total_denials: saturated_increment(self.total_denials),
                denial_counts: self.denial_counts.update(
                    kind.position() as int,
                    saturated_increment(self.denial_counts[kind.position() as int]),
                ),
            },
            None => BatchView { state: self.state.apply(event), ..self },
        }
    }

    /// The records that `event` yields: the changed records of the domains
    /// it mentions in increasing ID order, a ruleset newly known as
    /// deallocated, the aggregated denial, and the statistics whenever
    /// anything was recorded or the domain counts changed.
    pub open spec fn records(self, event: EventView) -> Seq<Seq<char>> {
        let next = self.observed(event);
        let domains = changed_domain_records(self.state, next.state, affected_domains(event));
        let dropped = match event {
            EventView::FreeRuleset(e) => dropped_ruleset_records(self.state, next.state, e.ruleset_id),
            _ => Seq::empty(),
        };
        let denial = match DenialKind::of_event(event) {
            Some(kind) => seq![denial_record(kind, next.denials.entries.last())],
            None => Seq::empty(),
        };
        let lines = domains + dropped + denial;
        let counts_changed = allocated_domain_count(self.state) != allocated_domain_count(next.state)
            || self.state.domains.dom().len() != next.state.domains.dom().len();
        if lines.len() > 0 || counts_changed {
            lines.push(
                stats_record(
                    allocated_domain_count(next.state),
                    next.state.domains.dom().len(),
                    next.total_denials,
                    next.denial_counts,
                ),
            )
        } else {
            lines
        }
    }
}

/// Batch mode: reconstructed state, aggregated denials, denial counters and
/// the number of allocated domains.
pub struct Batch {
    state: State,
    denials: DenialAggregator,
    stats: Stats,
    allocated_domains: usize,
}

impl View for Batch {
    type V = BatchView;

    closed spec fn view(&self) -> BatchView {
        BatchView {
            state: self.state@,
            denials: self.denials@,
            total_denials: self.stats.total_denials,
            denial_counts: self.stats.denials@,
        }
    }
}

/// Returns the record and allocation flag of each domain of `affected`.
fn previous_entries(state: &State, affected: &Vec<DomainId>) -> (entries: Vec<Option<(String, bool)>>)
    ensures
        entries@.len() == affected@.len(),
        forall|i: int|
            0 <= i < affected@.len() ==> entry_view(#[trigger] entries@[i]) == domain_entry_of(
                state@,
                affected@[i]@,
            ),
{
    let mut entries: Vec<Option<(String, bool)>> = Vec::new();
    let mut index: usize = 0;
    while index < affected.len()
        invariant
            index <= affected@.len(),
            entries@.len() == index,
            forall|i: int|
                0 <= i < index ==> entry_view(#[trigger] entries@[i]) == domain_entry_of(
                    state@,
                    affected@[i]@,
                ),
        decreases affected@.len() - index,
    {
        entries.push(domain_entry(state, affected[index]));
        index = index + 1;
    }
    entries
}

/// Returns the records of the domains of `affected` that changed from
/// `before` to the current state, and the allocated count updated with their
/// allocation changes.
fn changed_domains(
    Ghost(before): Ghost<StateView>,
    state: &State,
    affected: &Vec<DomainId>,
    previous: &Vec<Option<(String, bool)>>,
    allocated: usize,
) -> (result: (Vec<String>, usize))
    requires
        strictly_increasing(id_values(affected@)),
        previous@.len() == affected@.len(),
        forall|i: int|
            0 <= i < affected@.len() ==> entry_view(#[trigger] previous@[i]) == domain_entry_of(
                before,
                affected@[i]@,
            ),
        before.domains.dom().finite(),
        state@.domains.dom().finite(),
        before.domains.dom().subset_of(state@.domains.dom()),
        allocated == allocated_domain_count(before),
    ensures
        string_texts(result.0@) == changed_domain_records(before, state@, id_values(affected@)),
        result.1 == allocated_ids(
            mixed_domains(before.domains, state@.domains, id_values(affected@).to_set()),
        ).len(),
{
    let ghost after = state@;
    let ghost ids = id_values(affected@);
    let total = state.domain_count();
    let mut allocated_domains = allocated;
    let mut records: Vec<String> = Vec::new();
    let mut index: usize = 0;
    proof {
        assert(ids.take(0).to_set() =~= Set::empty());
        assert(mixed_domains(before.domains, after.domains, Set::empty()) =~= before.domains);
    }
    while index < affected.len()
        invariant
            index <= affected@.len(),
            ids == id_values(affected@),
            strictly_increasing(ids),
            previous@.len() == ids.len(),
            forall|i: int|
                0 <= i < ids.len() ==> entry_view(#[trigger] previous@[i]) == domain_entry_of(
                    before,
                    ids[i],
                ),
            state@ == after,
            total == after.domains.dom().len(),
            before.domains.dom().finite(),
            after.domains.dom().finite(),
            before.domains.dom().subset_of(after.domains.dom()),
            allocated_domains == allocated_ids(
                mixed_domains(before.domains, after.domains, ids.take(index as int).to_set()),
            ).len(),
            string_texts(records@) == changed_domain_records(before, after, ids.take(index as int)),
        decreases affected@.len() - index,
    {
        let id = affected[index];
        let entry = domain_entry(state, id);
        proof {
            let done = ids.take(index as int).to_set();
            assert(ids[index as int] == id@);
            assert(!done.contains(id@)) by {
                if done.contains(id@) {
                    let k = choose|k: int| 0 <= k < index && ids.take(index as int)[k] == id@;
                    assert(ids[k] < ids[index as int]);
                }
            }
            lemma_mixed_step(before.domains, after.domains, done, id@);
            assert(ids.take(index + 1) =~= ids.take(index as int).push(id@));
            ids.take(index as int).lemma_push_to_set_commute(id@);
        }
        let was_allocated = match &previous[index] {
            Some((_, allocated)) => *allocated,
            None => false,
        };
        let is_allocated = match &entry {
            Some((_, allocated)) => *allocated,
            None => false,
        };
        if was_allocated && !is_allocated && entry.is_some() {
            allocated_domains = allocated_domains - 1;
        } else if !was_allocated && is_allocated {
            allocated_domains = allocated_domains + 1;
        }
        let changed = match (&previous[index], &entry) {
            (Some((before_record, _)), Some((after_record, _))) => *before_record != *after_record,
            (None, Some(_)) => true,
            _ => false,
        };
        proof {
            let next = ids.take(index + 1);
            assert(next.drop_last() =~= ids.take(index as int));
            assert(next.last() == id@);
        }
        if changed {
            match entry {
                Some((record, _)) => records.push(record),
                None => {},
            }
        }
        proof {
            assert(string_texts(records@) =~= changed_domain_records(before, after, ids.take(index + 1)));
        }
        index = index + 1;
    }
    assert(ids.take(ids.len() as int) =~= ids);
    (records, allocated_domains)
}

impl Batch {
    #[verifier::type_invariant]
    spec fn counts_allocated_domains(self) -> bool {
        &&& self.state@.domains.dom().finite()
        &&& self.allocated_domains == allocated_domain_count(self.state@)
        &&& self.denials@.well_formed()
    }

    /// Creates batch mode with empty state, the default denial aggregator and
    /// zero counters.
    pub fn new() -> (batch: Self)
        ensures
            batch@ == BatchView::initial(),
    {
        let state = State::new();
        let denials = DenialAggregator::new();
        proof {
            assert(allocated_ids(state@.domains) =~= Set::empty());
            assert(state@.domains.dom() =~= Set::empty());
            assert(denials@.entries =~= Seq::empty());
        }
        Batch { state, denials, stats: Stats::default(), allocated_domains: 0 }
    }

    /// Processes one observation and returns the records it yields, in order.
    #[verifier::spinoff_prover]
    #[verifier::rlimit(60)]
    pub fn process(&mut self, event: &Event) -> (records: Vec<String>)
        ensures
            final(self)@ == old(self)@.observed(event@),
            string_texts(records@) == old(self)@.records(event@),
    {
        let mut current = Batch::new();
        std::mem::swap(self, &mut current);
        proof {
            use_type_invariant(&current);
        }
        let Batch { mut state, mut denials, mut stats, mut allocated_domains } = current;
        let ghost before = state@;
        let ghost old_denials = denials@;

        let affected = affected_domain_ids(event);
        let ghost ids = id_values(affected@);
        let previous = previous_entries(&state, &affected);
        let deallocated = match event {
            Event::FreeRuleset(event) => Some(
                (event.ruleset_id(), deallocated_ruleset_identity(&state, event.ruleset_id())),
            ),
            _ => None,
        };
        let previous_allocated = allocated_domains;
        let previous_total = state.domain_count();

        state.apply(event);
        let ghost after = state@;
        let total = state.domain_count();
        proof {
            lemma_apply_domains(before, event@);
            lemma_observe_keeps_well_formed(old_denials, event@);
        }
        let kind = DenialKind::from_event(event);
        let denial = match kind {
            Some(kind) => match denials.observe_entry(event) {
                Some(entry) => Some(format_denial(kind, entry)),
                None => None,
            },
            None => None,
        };
        if let Some(kind) = kind {
            stats.observe(kind);
        }

        let (mut records, counted) = changed_domains(Ghost(before), &state, &affected, &previous, allocated_domains);
        allocated_domains = counted;

        let ghost domain_lines = string_texts(records@);
        assert(domain_lines == changed_domain_records(before, after, affected_domains(event@)));
        let ghost next_view = old(self)@.observed(event@);
        if let Some((id, previous_identity)) = deallocated {
            let current_identity = deallocated_ruleset_identity(&state, id);
            if let Some(line) = dropped_ruleset_line(previous_identity, current_identity) {
                records.push(line);
            }
        }
        let ghost dropped = match event@ {
            EventView::FreeRuleset(e) => dropped_ruleset_records(before, after, e.ruleset_id),
            _ => Seq::empty(),
        };
        assert(string_texts(records@) =~= domain_lines + dropped);
        let ghost denial_lines = match DenialKind::of_event(event@) {
            Some(kind) => seq![denial_record(kind, next_view.denials.entries.last())],
            None => Seq::empty(),
        };
        if let Some(record) = denial {
            records.push(record);
        }
        assert(string_texts(records@) =~= domain_lines + dropped + denial_lines);
        if records.len() > 0 || previous_allocated != allocated_domains || previous_total != total {
            records.push(format_stats(allocated_domains, total, &stats));
        }
        *self = Batch { state, denials, stats, allocated_domains };
        records
    }
}


} // verus!
