//! Laws of state reconstruction: what every observation keeps.
use vstd::prelude::*;

use super::model::{
    mentioned_domains, lifecycle_rank, DomainView, FilesystemRuleView, NetworkRuleView, RulesetView, StateView,
};
use super::LifecycleState;
use crate::event::{EventView, UnknownEventView};

verus! {

/// Uniting an access mask with the same bits twice adds nothing.
proof fn lemma_or_idempotent(a: u32, b: u32)
    ensures
        (a | b) | b == a | b,
{
    assert((a | b) | b == a | b) by (bit_vector);
}

/// A united access mask keeps every bit of the original.
proof fn lemma_or_keeps_bits(a: u32, b: u32)
    ensures
        a & (a | b) == a,
{
    assert(a & (a | b) == a) by (bit_vector);
}

/// Whether an optional value is known in `later` whenever it is known in
/// `earlier`, and then at least as great.
pub open spec fn kept_u64(earlier: Option<u64>, later: Option<u64>) -> bool {
    earlier matches Some(e) ==> (later matches Some(l) && e <= l)
}

/// Whether an optional version is known in `later` whenever it is known in
/// `earlier`, and then at least as great.
pub open spec fn kept_u32(earlier: Option<u32>, later: Option<u32>) -> bool {
    earlier matches Some(e) ==> (later matches Some(l) && e <= l)
}

/// Whether an optional timestamp is known in `later` whenever it is known in
/// `earlier`, and then at least as late.
pub open spec fn kept_timestamp(
    earlier: Option<crate::event::KernelTimestamp>,
    later: Option<crate::event::KernelTimestamp>,
) -> bool {
    earlier matches Some(e) ==> (later matches Some(l) && e@ <= l@)
}

impl FilesystemRuleView {
    /// Whether this rule keeps every allowed access of `earlier`.
    pub open spec fn retains(self, earlier: FilesystemRuleView) -> bool {
        earlier.access_rights & self.access_rights == earlier.access_rights
    }
}

impl NetworkRuleView {
    /// Whether this rule keeps every allowed access of `earlier`.
    pub open spec fn retains(self, earlier: NetworkRuleView) -> bool {
        earlier.access_rights & self.access_rights == earlier.access_rights
    }
}

impl RulesetView {
    /// Whether this ruleset keeps every fact known in `earlier`: its lifecycle
    /// rank, its versions and timestamps, and every rule with its accesses.
    pub open spec fn retains(self, earlier: RulesetView) -> bool {
        &&& self.id == earlier.id
        &&& lifecycle_rank(earlier.lifecycle) <= lifecycle_rank(self.lifecycle)
        &&& kept_timestamp(earlier.creation_timestamp, self.creation_timestamp)
        &&& kept_u32(earlier.max_observed_version, self.max_observed_version)
        &&& kept_u32(earlier.final_version, self.final_version)
        &&& kept_timestamp(earlier.free_timestamp, self.free_timestamp)
        &&& earlier.handled_fs is Some ==> self.handled_fs is Some
        &&& forall|key: u128| #[trigger]
            earlier.filesystem_rules.contains_key(key) ==> self.filesystem_rules.contains_key(key)
                && self.filesystem_rules[key].retains(earlier.filesystem_rules[key])
        &&& forall|port: u64| #[trigger]
            earlier.network_rules.contains_key(port) ==> self.network_rules.contains_key(port)
                && self.network_rules[port].retains(earlier.network_rules[port])
    }
}

impl DomainView {
    /// Whether this domain keeps every fact known in `earlier`: its lifecycle
    /// rank, its counts and timestamps, known parentage, creator and ruleset,
    /// and an enforcement event for every observed thread.
    pub open spec fn retains(self, earlier: DomainView) -> bool {
        &&& self.id == earlier.id
        &&& lifecycle_rank(earlier.lifecycle) <= lifecycle_rank(self.lifecycle)
        &&& kept_timestamp(earlier.creation_timestamp, self.creation_timestamp)
        &&& kept_u64(earlier.cumulative_denial_count, self.cumulative_denial_count)
        &&& kept_u64(earlier.final_denial_count, self.final_denial_count)
        &&& kept_timestamp(earlier.free_timestamp, self.free_timestamp)
        &&& earlier.parent is Some ==> self.parent is Some
        &&& earlier.creator_tgid is Some ==> self.creator_tgid is Some
        &&& earlier.ruleset is Some ==> self.ruleset is Some
        &&& earlier.any_process_wide_enforcement ==> self.any_process_wide_enforcement
        &&& forall|tid: u32| #[trigger]
            earlier.enforcement_events.contains_key(tid) ==> self.enforcement_events.contains_key(tid)
                && earlier.enforcement_events[tid].timestamp@ <= self.enforcement_events[tid].timestamp@
    }
}

impl StateView {
    /// Whether this state keeps every ruleset and domain of `earlier`, each
    /// with every fact known in `earlier`.
    pub open spec fn retains(self, earlier: StateView) -> bool {
        &&& forall|id: u64| #[trigger]
            earlier.rulesets.contains_key(id) ==> self.rulesets.contains_key(id)
                && self.rulesets[id].retains(earlier.rulesets[id])
        &&& forall|id: u64| #[trigger]
            earlier.domains.contains_key(id) ==> self.domains.contains_key(id)
                && self.domains[id].retains(earlier.domains[id])
    }
}

proof fn lemma_ruleset_retains_self(r: RulesetView)
    ensures
        r.retains(r),
{
    assert forall|key: u128| #[trigger] r.filesystem_rules.contains_key(key) implies r.filesystem_rules[key].retains(r.filesystem_rules[key]) by {
        let a = r.filesystem_rules[key].access_rights;
        assert(a & a == a) by (bit_vector);
    }
    assert forall|port: u64| #[trigger] r.network_rules.contains_key(port) implies r.network_rules[port].retains(r.network_rules[port]) by {
        let a = r.network_rules[port].access_rights;
        assert(a & a == a) by (bit_vector);
    }
}

proof fn lemma_state_retains_self(s: StateView)
    ensures
        s.retains(s),
{
    assert forall|id: u64| #[trigger] s.rulesets.contains_key(id) implies s.rulesets.contains_key(id) && s.rulesets[id].retains(s.rulesets[id]) by {
        lemma_ruleset_retains_self(s.rulesets[id]);
    }
}

proof fn lemma_touched_retains(r: RulesetView, version: u32)
    ensures
        r.touched(version).retains(r),
{
    lemma_ruleset_retains_self(r);
}

proof fn lemma_ruleset_step_retains(s: StateView, event: EventView)
    requires
        event is CreateRuleset || event is AddRuleFs || event is AddRuleNet || event is FreeRuleset,
    ensures
        s.apply(event).retains(s),
{
    lemma_state_retains_self(s);
    let id = match event {
        EventView::CreateRuleset(e) => e.ruleset_id,
        EventView::AddRuleFs(e) => e.ruleset_id,
        EventView::AddRuleNet(e) => e.ruleset_id,
        EventView::FreeRuleset(e) => e.ruleset_id,
        _ => arbitrary(),
    };
    let r = s.ruleset_or_unknown(id);
    lemma_ruleset_retains_self(r);
    let after = s.apply(event);
    assert(after.rulesets.contains_key(id@));
    if s.rulesets.contains_key(id@) {
        let next = after.rulesets[id@];
        match event {
            EventView::AddRuleFs(e) => {
                let t = r.touched(e.ruleset_version);
                lemma_touched_retains(r, e.ruleset_version);
                assert forall|key: u128| #[trigger] r.filesystem_rules.contains_key(key) implies next.filesystem_rules.contains_key(key)
                    && next.filesystem_rules[key].retains(r.filesystem_rules[key]) by {
                    let old_bits = r.filesystem_rules[key].access_rights;
                    lemma_or_keeps_bits(old_bits, e.access_rights@);
                    let a = old_bits;
                    assert(a & a == a) by (bit_vector);
                }
            },
            EventView::AddRuleNet(e) => {
                lemma_touched_retains(r, e.ruleset_version);
                assert forall|port: u64| #[trigger] r.network_rules.contains_key(port) implies next.network_rules.contains_key(port)
                    && next.network_rules[port].retains(r.network_rules[port]) by {
                    let old_bits = r.network_rules[port].access_rights;
                    lemma_or_keeps_bits(old_bits, e.access_rights@);
                    let a = old_bits;
                    assert(a & a == a) by (bit_vector);
                }
            },
            _ => {},
        }
        assert(next.retains(s.rulesets[id@]));
    }
}

proof fn lemma_domain_step_retains(s: StateView, event: EventView)
    requires
        event is CreateDomain || event is FreeDomain || event is EnforceDomain || event.is_denial(),
    ensures
        s.apply(event).retains(s),
{
    lemma_state_retains_self(s);
    match event {
        EventView::CreateDomain(e) => {
            let with_ruleset = s.with_ruleset(
                e.ruleset_id,
                s.ruleset_or_unknown(e.ruleset_id).touched(e.ruleset_version),
            );
            lemma_touched_retains(s.ruleset_or_unknown(e.ruleset_id), e.ruleset_version);
            lemma_state_retains_self(with_ruleset);
            assert(with_ruleset.retains(s));
            let with_parent = match e.parent_id {
                Some(parent) => with_ruleset.with_placeholder(parent),
                None => with_ruleset,
            };
            assert(with_parent.retains(s));
        },
        _ => {},
    }
}

/// Every observation keeps every known ruleset and domain and every fact
/// already learned about them: lifecycle facts only move from unknown to
/// allocated to deallocated, counts, versions and timestamps never decrease,
/// known parentage, creators and rules are never forgotten, and rule
/// accesses only grow.
pub proof fn lemma_apply_retains_facts(state: StateView, event: EventView)
    ensures
        state.apply(event).retains(state),
{
    match event {
        EventView::CreateRuleset(_) | EventView::AddRuleFs(_) | EventView::AddRuleNet(_)
        | EventView::FreeRuleset(_) => lemma_ruleset_step_retains(state, event),
        EventView::Unknown(_) => lemma_state_retains_self(state),
        _ => lemma_domain_step_retains(state, event),
    }
}

/// Once a ruleset or domain is known to have been deallocated, no later
/// observation reallocates it or forgets it.
pub proof fn lemma_deallocation_is_permanent(state: StateView, event: EventView, id: u64)
    ensures
        state.rulesets.contains_key(id) && state.rulesets[id].lifecycle == LifecycleState::Deallocated
            ==> state.apply(event).rulesets[id].lifecycle == LifecycleState::Deallocated,
        state.domains.contains_key(id) && state.domains[id].lifecycle == LifecycleState::Deallocated
            ==> state.apply(event).domains[id].lifecycle == LifecycleState::Deallocated,
{
    lemma_apply_retains_facts(state, event);
}

/// An event kind unknown to this library changes nothing.
pub proof fn lemma_unknown_event_is_noop(state: StateView, event: UnknownEventView)
    ensures
        state.apply(EventView::Unknown(event)) == state,
{
}

proof fn lemma_ruleset_step_idempotent(s: StateView, event: EventView)
    requires
        event is CreateRuleset || event is AddRuleFs || event is AddRuleNet || event is FreeRuleset,
    ensures
        s.apply(event).apply(event) == s.apply(event),
{
    let once = s.apply(event);
    let twice = once.apply(event);
    match event {
        EventView::CreateRuleset(e) => {
            let r1 = once.rulesets[e.ruleset_id@];
            assert(r1.created(e) =~= r1);
        },
        EventView::AddRuleFs(e) => {
            let key = super::model::filesystem_rule_key(e.device, e.inode);
            let r1 = once.rulesets[e.ruleset_id@];
            let rule = r1.filesystem_rules[key];
            lemma_or_idempotent(s.ruleset_or_unknown(e.ruleset_id).filesystem_rules[key].access_rights, e.access_rights@);
            let b = e.access_rights@;
            assert(b | b == b) by (bit_vector);
            assert(rule.merged(e) =~= rule);
            assert(r1.filesystem_rules.insert(key, rule) =~= r1.filesystem_rules);
            assert(r1.with_filesystem_rule(e) =~= r1);
        },
        EventView::AddRuleNet(e) => {
            let r1 = once.rulesets[e.ruleset_id@];
            let rule = r1.network_rules[e.port];
            lemma_or_idempotent(s.ruleset_or_unknown(e.ruleset_id).network_rules[e.port].access_rights, e.access_rights@);
            let b = e.access_rights@;
            assert(b | b == b) by (bit_vector);
            assert(rule.merged(e) =~= rule);
            assert(r1.network_rules.insert(e.port, rule) =~= r1.network_rules);
            assert(r1.with_network_rule(e) =~= r1);
        },
        EventView::FreeRuleset(e) => {
            let r1 = once.rulesets[e.ruleset_id@];
            assert(r1.freed(e) =~= r1);
        },
        _ => {},
    }
    assert(twice.rulesets =~= once.rulesets);
    assert(twice =~= once);
}

proof fn lemma_domain_step_idempotent(s: StateView, event: EventView)
    requires
        event is CreateDomain || event is FreeDomain || event is EnforceDomain,
    ensures
        s.apply(event).apply(event) == s.apply(event),
{
    let once = s.apply(event);
    let twice = once.apply(event);
    match event {
        EventView::CreateDomain(e) => {
            let r1 = once.rulesets[e.ruleset_id@];
            assert(r1.touched(e.ruleset_version) =~= r1);
            let d1 = once.domains[e.domain_id@];
            assert(d1.created(e) =~= d1);
            assert(twice.rulesets =~= once.rulesets);
            assert(twice.domains =~= once.domains);
        },
        EventView::FreeDomain(e) => {
            let d1 = once.domains[e.domain_id@];
            assert(d1.freed(e) =~= d1);
            assert(twice.domains =~= once.domains);
        },
        EventView::EnforceDomain(e) => {
            let d1 = once.domains[e.domain_id@];
            let tid = e.enforcing_tid;
            if !(d1.enforcement_events.contains_key(tid)
                && e.timestamp@ < d1.enforcement_events[tid].timestamp@) {
                assert(d1.enforcement_events[tid] == e);
                assert(d1.enforcement_events.insert(tid, e) =~= d1.enforcement_events);
            }
            assert(d1.enforced(e) =~= d1);
            assert(twice.domains =~= once.domains);
        },
        _ => {},
    }
    assert(twice =~= once);
}

proof fn lemma_denial_step_idempotent(s: StateView, event: EventView)
    requires
        event.is_denial(),
    ensures
        s.apply(event).apply(event) == s.apply(event),
{
    let once = s.apply(event);
    let twice = once.apply(event);
    let context = event.denial_context().unwrap();
    let hierarchy = context.hierarchy;
    let id = hierarchy.domain_id;
    let d1 = once.domains[id@];
    assert(d1.denied(hierarchy, context.cumulative_denial_count) =~= d1);
    assert(twice.domains =~= once.domains);
    assert(twice =~= once);
}

/// Applying the same observation twice has the effect of applying it once:
/// duplicate lifecycle, rule, denial and enforcement events are idempotent.
pub proof fn lemma_apply_idempotent(state: StateView, event: EventView)
    ensures
        state.apply(event).apply(event) == state.apply(event),
{
    match event {
        EventView::CreateRuleset(_) | EventView::AddRuleFs(_) | EventView::AddRuleNet(_)
        | EventView::FreeRuleset(_) => lemma_ruleset_step_idempotent(state, event),
        EventView::CreateDomain(_) | EventView::FreeDomain(_) | EventView::EnforceDomain(_) =>
            lemma_domain_step_idempotent(state, event),
        EventView::Unknown(_) => {},
        _ => lemma_denial_step_idempotent(state, event),
    }
}

/// An observation changes only the domains it mentions: every other domain
/// stays exactly as it was, and no domain appears unless mentioned.
pub proof fn lemma_apply_changes_only_mentioned_domains(state: StateView, event: EventView, id: u64)
    requires
        !mentioned_domains(event).contains(id),
    ensures
        state.apply(event).domains.contains_key(id) == state.domains.contains_key(id),
        state.domains.contains_key(id) ==> state.apply(event).domains[id] == state.domains[id],
{
}

/// Every ruleset and domain is recorded under its own kernel ID.
pub open spec fn keyed_by_id(state: StateView) -> bool {
    &&& forall|id: u64| #[trigger] state.rulesets.contains_key(id) ==> state.rulesets[id].id@ == id
    &&& forall|id: u64| #[trigger] state.domains.contains_key(id) ==> state.domains[id].id@ == id
}

/// Observations keep every ruleset and domain under its own kernel ID.
pub proof fn lemma_apply_keeps_keys(state: StateView, event: EventView)
    requires
        keyed_by_id(state),
    ensures
        keyed_by_id(state.apply(event)),
{
}

} // verus!
