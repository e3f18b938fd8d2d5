//! Partial state reconstructed from semantic observations.
//!
//! # Memory use
//!
//! [`State`] currently has no capacity or eviction policy. It retains
//! reconstructed rulesets, domains, and rules, plus one enforcement event per
//! observed TID in each domain, until it is dropped. Memory can therefore grow
//! without a configured bound in a long-running process. The bounded
//! [`crate::aggregate::DenialAggregator`] does not bound `State`.
use std::collections::HashMap;
use vstd::prelude::*;
use vstd::std_specs::iter::IteratorSpec;

pub mod history;
mod laws;
mod model;

pub use laws::{
    kept_timestamp, kept_u32, kept_u64, lemma_apply_idempotent, lemma_apply_retains_facts, lemma_deallocation_is_permanent,
    keyed_by_id, lemma_apply_changes_only_mentioned_domains, lemma_apply_keeps_keys,
    lemma_unknown_event_is_noop,
};

pub use model::{
    allocated, denial_domains, filesystem_rule_key, mentioned_domains, with_optional, later_or_equal, latest_timestamp, lifecycle_rank, max_u32,
    max_u64, parent_of, DomainView, FilesystemRuleView, NetworkRuleView, RulesetView, StateView,
};

use crate::event::{
    AddRuleFsEvent, AddRuleNetEvent, CapturedString, CreateDomainEvent, CreateRulesetEvent,
    DenialContext, DomainId, DomainMembership, EnforceDomainEvent, EnforceDomainEventView, Event,
    FilesystemAccess, FreeDomainEvent, FreeRulesetEvent, HierarchySnapshot, KernelTimestamp,
    NetworkAccess, RulesetId, ScopeAccess, CapturedStringView, EventView,
};

verus! {

broadcast use vstd::std_specs::hash::group_hash_axioms;

/// The observed lifecycle of an object.
///
/// Unknown, allocated, and deallocated exhaust the possible reconstructed
/// allocation statuses. Population and enforcement are separate facts.
/// Lifecycle facts are monotonic: once an object is known to have been
/// deallocated, later observations can add facts but cannot change that fact.
#[derive(Clone, Copy, Debug, PartialEq, Eq, Structural)]
pub enum LifecycleState {
    /// No allocation, use, or deallocation event has established a lifecycle.
    Unknown,
    /// The object is known to have been allocated historically.
    ///
    /// This fact may be inferred from an observed use; it is not proof that the
    /// object is currently live.
    Allocated,
    /// Deallocation of the object has been observed.
    Deallocated,
}

/// The known parent of a reconstructed domain.
///
/// Known parentage is either a null parent or one domain ID. Unknown parentage
/// is represented by `None` from [`DomainState::parent()`], not by a variant.
#[derive(Clone, Copy, Debug, PartialEq, Eq, Structural)]
pub enum DomainParent {
    /// The domain is known to have no parent.
    Root,
    /// The domain has the contained parent identity.
    Domain(DomainId),
}

/// A ruleset identity paired with a particular version.
#[derive(Clone, Copy, Debug, PartialEq, Eq, Structural)]
#[non_exhaustive]
pub struct RulesetVersion {
    ruleset_id: RulesetId,
    ruleset_version: u32,
}

impl View for RulesetVersion {
    type V = (RulesetId, u32);

    closed spec fn view(&self) -> (RulesetId, u32) {
        (self.ruleset_id, self.ruleset_version)
    }
}

impl RulesetVersion {
    /// Creates a versioned ruleset reference.
    pub fn new(ruleset_id: RulesetId, ruleset_version: u32) -> (value: Self)
        ensures
            value@ == (ruleset_id, ruleset_version),
    {
        RulesetVersion { ruleset_id, ruleset_version }
    }

    /// Returns the ruleset identity.
    pub fn ruleset_id(self) -> (id: RulesetId)
        ensures
            id == self@.0,
    {
        self.ruleset_id
    }

    /// Returns the ruleset version.
    pub fn ruleset_version(self) -> (version: u32)
        ensures
            version == self@.1,
    {
        self.ruleset_version
    }
}

/// Reconstructed state for one filesystem rule target.
#[derive(Debug)]
#[non_exhaustive]
pub struct FilesystemRuleState {
    device: u32,
    inode: u64,
    access_rights: FilesystemAccess,
    pathname: CapturedString,
    pathname_timestamp: KernelTimestamp,
}

impl View for FilesystemRuleState {
    type V = FilesystemRuleView;

    closed spec fn view(&self) -> FilesystemRuleView {
        FilesystemRuleView {
            device: self.device,
            inode: self.inode,
            access_rights: self.access_rights@,
            pathname: self.pathname@,
            pathname_timestamp: self.pathname_timestamp,
        }
    }
}

impl FilesystemRuleState {
    /// Returns the captured filesystem device number identifying the target.
    pub fn device(&self) -> (device: u32)
        ensures
            device == self@.device,
    {
        self.device
    }

    /// Returns the captured filesystem inode number identifying the target.
    pub fn inode(&self) -> (inode: u64)
        ensures
            inode == self@.inode,
    {
        self.inode
    }

    /// Returns the union of all observed allowed-access masks for this target.
    pub fn access_rights(&self) -> (rights: FilesystemAccess)
        ensures
            rights@ == self@.access_rights,
    {
        self.access_rights
    }

    /// Returns the path from the latest timestamped observation of this target.
    ///
    /// The path is descriptive and is not part of the rule identity.
    pub fn pathname(&self) -> (pathname: &CapturedString)
        ensures
            pathname@ == self@.pathname,
    {
        &self.pathname
    }
}

/// Reconstructed state for one network rule target.
#[derive(Debug)]
#[non_exhaustive]
pub struct NetworkRuleState {
    port: u64,
    access_rights: NetworkAccess,
}

impl View for NetworkRuleState {
    type V = NetworkRuleView;

    closed spec fn view(&self) -> NetworkRuleView {
        NetworkRuleView { port: self.port, access_rights: self.access_rights@ }
    }
}

impl NetworkRuleState {
    /// Returns the port identifying this rule target.
    pub fn port(&self) -> (port: u64)
        ensures
            port == self@.port,
    {
        self.port
    }

    /// Returns the union of all observed allowed-access masks for this target.
    pub fn access_rights(&self) -> (rights: NetworkAccess)
        ensures
            rights@ == self@.access_rights,
    {
        self.access_rights
    }
}

/// The views of the filesystem rules held by a map.
pub open spec fn filesystem_rule_views(rules: Map<u128, FilesystemRuleState>) -> Map<u128, FilesystemRuleView> {
    Map::new(|key: u128| rules.contains_key(key), |key: u128| rules[key]@)
}

/// The views of the network rules held by a map.
pub open spec fn network_rule_views(rules: Map<u64, NetworkRuleState>) -> Map<u64, NetworkRuleView> {
    Map::new(|key: u64| rules.contains_key(key), |key: u64| rules[key]@)
}

/// The views of the enforcement events held by a map.
pub open spec fn enforcement_views(events: Map<u32, EnforceDomainEvent>) -> Map<u32, EnforceDomainEventView> {
    Map::new(|key: u32| events.contains_key(key), |key: u32| events[key]@)
}

/// The views of the rulesets held by a map.
pub open spec fn ruleset_views(rulesets: Map<u64, RulesetState>) -> Map<u64, RulesetView> {
    Map::new(|key: u64| rulesets.contains_key(key), |key: u64| rulesets[key]@)
}

/// The views of the domains held by a map.
pub open spec fn domain_views(domains: Map<u64, DomainState>) -> Map<u64, DomainView> {
    Map::new(|key: u64| domains.contains_key(key), |key: u64| domains[key]@)
}

/// Whether `items` lists each value of `map` exactly as often as it has keys:
/// as many items as keys, every item a value of the map and every value an item.
pub open spec fn lists_values<K, V>(items: Seq<V>, map: Map<K, V>) -> bool {
    &&& items.len() == map.dom().len()
    &&& forall|i: int| 0 <= i < items.len() ==> #[trigger] map.values().contains(items[i])
    &&& forall|v: V| #[trigger] map.values().contains(v) ==> items.contains(v)
}

/// Collects references to every value of a map, in the map's iteration order.
fn values_of<K, V>(map: &HashMap<K, V>) -> (values: Vec<&V>)
    requires
        vstd::std_specs::hash::obeys_key_model::<K>(),
    ensures
        lists_values(values@.map_values(|v: &V| *v), map@),
{
    let mut out: Vec<&V> = Vec::new();
    let ghost all = vstd::std_specs::hash::spec_values_iter(map).remaining();
    for value in iter: map.values()
        invariant
            out@ == iter.seq().take(iter.index() as int),
            iter.seq() == all,
    {
        out.push(value);
    }
    proof {
        let items = out@.map_values(|v: &V| *v);
        assert(out@ =~= all);
        assert(all.unref().to_set() == map@.values());
        assert(items =~= all.unref());
        assert forall|i: int| 0 <= i < items.len() implies #[trigger] map@.values().contains(items[i]) by {
            assert(all.unref().contains(items[i]));
        }
        assert forall|v: V| #[trigger] map@.values().contains(v) implies items.contains(v) by {
            assert(all.unref().to_set().contains(v));
        }
    }
    out
}

/// Reconstructed facts about a ruleset.
#[derive(Debug)]
#[non_exhaustive]
pub struct RulesetState {
    id: RulesetId,
    lifecycle: LifecycleState,
    creation_timestamp: Option<KernelTimestamp>,
    handled_fs: Option<FilesystemAccess>,
    handled_net: Option<NetworkAccess>,
    scoped: Option<ScopeAccess>,
    max_observed_version: Option<u32>,
    final_version: Option<u32>,
    free_timestamp: Option<KernelTimestamp>,
    filesystem_rules: HashMap<u128, FilesystemRuleState>,
    network_rules: HashMap<u64, NetworkRuleState>,
}

impl View for RulesetState {
    type V = RulesetView;

    closed spec fn view(&self) -> RulesetView {
        RulesetView {
            id: self.id,
            lifecycle: self.lifecycle,
            creation_timestamp: self.creation_timestamp,
            handled_fs: self.handled_fs,
            handled_net: self.handled_net,
            scoped: self.scoped,
            max_observed_version: self.max_observed_version,
            final_version: self.final_version,
            free_timestamp: self.free_timestamp,
            filesystem_rules: filesystem_rule_views(self.filesystem_rules@),
            network_rules: network_rule_views(self.network_rules@),
        }
    }
}

impl RulesetState {
    fn unknown(id: RulesetId) -> (state: Self)
        ensures
            state@ == RulesetView::unknown(id),
    {
        let state = RulesetState {
            id,
            lifecycle: LifecycleState::Unknown,
            creation_timestamp: None,
            handled_fs: None,
            handled_net: None,
            scoped: None,
            max_observed_version: None,
            final_version: None,
            free_timestamp: None,
            filesystem_rules: HashMap::new(),
            network_rules: HashMap::new(),
        };
        assert(state@.filesystem_rules =~= Map::empty());
        assert(state@.network_rules =~= Map::empty());
        state
    }

    fn mark_allocated(&mut self)
        ensures
            final(self)@ == (RulesetView { lifecycle: allocated(old(self)@.lifecycle), ..old(self)@ }),
    {
        if self.lifecycle == LifecycleState::Unknown {
            self.lifecycle = LifecycleState::Allocated;
        }
    }

    fn update_version(&mut self, version: u32)
        ensures
            final(self)@ == (RulesetView {
                max_observed_version: max_u32(old(self)@.max_observed_version, version),
                ..old(self)@
            }),
    {
        update_max_u32(&mut self.max_observed_version, version);
    }

    fn touch(&mut self, version: u32)
        ensures
            final(self)@ == old(self)@.touched(version),
    {
        self.mark_allocated();
        self.update_version(version);
    }

    fn apply_create(&mut self, event: &CreateRulesetEvent)
        ensures
            final(self)@ == old(self)@.created(event@),
    {
        self.touch(event.ruleset_version());
        let replace = match self.creation_timestamp {
            None => true,
            Some(timestamp) => timestamp_value(event.timestamp()) >= timestamp_value(timestamp),
        };
        if replace {
            self.creation_timestamp = Some(event.timestamp());
            self.handled_fs = Some(event.handled_fs());
            self.handled_net = Some(event.handled_net());
            self.scoped = Some(event.scoped());
        }
    }

    fn add_filesystem_rule(&mut self, event: &AddRuleFsEvent)
        ensures
            final(self)@ == old(self)@.with_filesystem_rule(event@),
    {
        self.touch(event.ruleset_version());
        let ghost touched = self@;
        let key = filesystem_rule_key_of(event.device(), event.inode());
        let rule = match self.filesystem_rules.remove(&key) {
            Some(rule) => {
                let access_rights = FilesystemAccess::from_bits(
                    rule.access_rights.bits() | event.access_rights().bits(),
                );
                if timestamp_value(event.timestamp()) >= timestamp_value(rule.pathname_timestamp) {
                    FilesystemRuleState {
                        access_rights,
                        pathname: event.pathname().clone(),
                        pathname_timestamp: event.timestamp(),
                        ..rule
                    }
                } else {
                    FilesystemRuleState { access_rights, ..rule }
                }
            },
            None => FilesystemRuleState {
                device: event.device(),
                inode: event.inode(),
                access_rights: event.access_rights(),
                pathname: event.pathname().clone(),
                pathname_timestamp: event.timestamp(),
            },
        };
        self.filesystem_rules.insert(key, rule);
        assert(self@.filesystem_rules =~= touched.with_filesystem_rule(event@).filesystem_rules);
    }

    fn add_network_rule(&mut self, event: &AddRuleNetEvent)
        ensures
            final(self)@ == old(self)@.with_network_rule(event@),
    {
        self.touch(event.ruleset_version());
        let ghost touched = self@;
        let port = event.port();
        let rule = match self.network_rules.remove(&port) {
            Some(rule) => NetworkRuleState {
                access_rights: NetworkAccess::from_bits(
                    rule.access_rights.bits() | event.access_rights().bits(),
                ),
                ..rule
            },
            None => NetworkRuleState { port, access_rights: event.access_rights() },
        };
        self.network_rules.insert(port, rule);
        assert(self@.network_rules =~= touched.with_network_rule(event@).network_rules);
    }

    fn apply_free(&mut self, event: &FreeRulesetEvent)
        ensures
            final(self)@ == old(self)@.freed(event@),
    {
        self.lifecycle = LifecycleState::Deallocated;
        update_latest_timestamp(&mut self.free_timestamp, event.timestamp());
        update_max_u32(&mut self.final_version, event.ruleset_version());
        self.update_version(event.ruleset_version());
    }

    /// Returns the ruleset identity.
    pub fn ruleset_id(&self) -> (id: RulesetId)
        ensures
            id == self@.id,
    {
        self.id
    }

    /// Returns the strongest observed lifecycle fact.
    pub fn lifecycle(&self) -> (lifecycle: LifecycleState)
        ensures
            lifecycle == self@.lifecycle,
    {
        self.lifecycle
    }

    /// Returns the latest observed creation-event timestamp, if one was seen.
    pub fn creation_timestamp(&self) -> (timestamp: Option<KernelTimestamp>)
        ensures
            timestamp == self@.creation_timestamp,
    {
        self.creation_timestamp
    }

    /// Returns the handled filesystem mask, if creation was observed.
    pub fn handled_fs(&self) -> (handled: Option<FilesystemAccess>)
        ensures
            handled == self@.handled_fs,
    {
        self.handled_fs
    }

    /// Returns the handled network mask, if creation was observed.
    pub fn handled_net(&self) -> (handled: Option<NetworkAccess>)
        ensures
            handled == self@.handled_net,
    {
        self.handled_net
    }

    /// Returns the scoped-access mask, if creation was observed.
    pub fn scoped(&self) -> (scoped: Option<ScopeAccess>)
        ensures
            scoped == self@.scoped,
    {
        self.scoped
    }

    /// Returns the greatest observed version, or `None` when no version is known.
    ///
    /// Final versions reported by free events participate in this maximum.
    pub fn max_observed_version(&self) -> (version: Option<u32>)
        ensures
            version == self@.max_observed_version,
    {
        self.max_observed_version
    }

    /// Returns the greatest final version reported by a free event, if any.
    pub fn final_version(&self) -> (version: Option<u32>)
        ensures
            version == self@.final_version,
    {
        self.final_version
    }

    /// Returns the latest observed free-event timestamp, if one was seen.
    pub fn free_timestamp(&self) -> (timestamp: Option<KernelTimestamp>)
        ensures
            timestamp == self@.free_timestamp,
    {
        self.free_timestamp
    }

    /// Looks up a filesystem rule by its natural `(device, inode)` identity.
    pub fn filesystem_rule(&self, device: u32, inode: u64) -> (rule: Option<&FilesystemRuleState>)
        ensures
            match rule {
                Some(rule) => self@.filesystem_rules.contains_key(filesystem_rule_key(device, inode))
                    && rule@ == self@.filesystem_rules[filesystem_rule_key(device, inode)],
                None => !self@.filesystem_rules.contains_key(filesystem_rule_key(device, inode)),
            },
    {
        let key = filesystem_rule_key_of(device, inode);
        self.filesystem_rules.get(&key)
    }

    /// Returns the observed filesystem rules in unspecified order.
    pub fn filesystem_rules(&self) -> (rules: Vec<&FilesystemRuleState>)
        ensures
            lists_values(rules@.map_values(|rule: &FilesystemRuleState| rule@), self@.filesystem_rules),
    {
        let rules = values_of(&self.filesystem_rules);
        proof {
            let items = rules@.map_values(|rule: &FilesystemRuleState| *rule);
            let views = rules@.map_values(|rule: &FilesystemRuleState| rule@);
            let map = self.filesystem_rules@;
            assert forall|i: int| 0 <= i < views.len() implies #[trigger] self@.filesystem_rules.values().contains(views[i]) by {
                assert(map.values().contains(items[i]));
                let key = choose|key: u128| map.contains_key(key) && map[key] == items[i];
                assert(self@.filesystem_rules.contains_key(key));
                assert(self@.filesystem_rules[key] == views[i]);
            }
            assert forall|v: FilesystemRuleView| #[trigger] self@.filesystem_rules.values().contains(v) implies views.contains(v) by {
                let key = choose|key: u128| self@.filesystem_rules.contains_key(key) && self@.filesystem_rules[key] == v;
                assert(map.values().contains(map[key]));
                let i = choose|i: int| 0 <= i < items.len() && items[i] == map[key];
                assert(views[i] == v);
            }
            assert(self@.filesystem_rules.dom() =~= map.dom());
        }
        rules
    }

    /// Returns the number of distinct observed filesystem targets.
    pub fn filesystem_rule_count(&self) -> (count: usize)
        ensures
            count == self@.filesystem_rules.dom().len(),
    {
        assert(self@.filesystem_rules.dom() =~= self.filesystem_rules@.dom());
        self.filesystem_rules.len()
    }

    /// Looks up a network rule by its natural port identity.
    pub fn network_rule(&self, port: u64) -> (rule: Option<&NetworkRuleState>)
        ensures
            match rule {
                Some(rule) => self@.network_rules.contains_key(port) && rule@ == self@.network_rules[port],
                None => !self@.network_rules.contains_key(port),
            },
    {
        self.network_rules.get(&port)
    }

    /// Returns the observed network rules in unspecified order.
    pub fn network_rules(&self) -> (rules: Vec<&NetworkRuleState>)
        ensures
            lists_values(rules@.map_values(|rule: &NetworkRuleState| rule@), self@.network_rules),
    {
        let rules = values_of(&self.network_rules);
        proof {
            let items = rules@.map_values(|rule: &NetworkRuleState| *rule);
            let views = rules@.map_values(|rule: &NetworkRuleState| rule@);
            let map = self.network_rules@;
            assert forall|i: int| 0 <= i < views.len() implies #[trigger] self@.network_rules.values().contains(views[i]) by {
                assert(map.values().contains(items[i]));
                let key = choose|key: u64| map.contains_key(key) && map[key] == items[i];
                assert(self@.network_rules.contains_key(key));
                assert(self@.network_rules[key] == views[i]);
            }
            assert forall|v: NetworkRuleView| #[trigger] self@.network_rules.values().contains(v) implies views.contains(v) by {
                let key = choose|key: u64| self@.network_rules.contains_key(key) && self@.network_rules[key] == v;
                assert(map.values().contains(map[key]));
                let i = choose|i: int| 0 <= i < items.len() && items[i] == map[key];
                assert(views[i] == v);
            }
            assert(self@.network_rules.dom() =~= map.dom());
        }
        rules
    }

    /// Returns the number of distinct observed network targets.
    pub fn network_rule_count(&self) -> (count: usize)
        ensures
            count == self@.network_rules.dom().len(),
    {
        assert(self@.network_rules.dom() =~= self.network_rules@.dom());
        self.network_rules.len()
    }
}


/// Reconstructed facts about a Landlock domain.
#[derive(Debug)]
#[non_exhaustive]
pub struct DomainState {
    id: DomainId,
    lifecycle: LifecycleState,
    creation_timestamp: Option<KernelTimestamp>,
    parent: Option<DomainParent>,
    creator_tgid: Option<u32>,
    creator_comm: Option<CapturedString>,
    ruleset: Option<RulesetVersion>,
    cumulative_denial_count: Option<u64>,
    final_denial_count: Option<u64>,
    free_timestamp: Option<KernelTimestamp>,
    enforcement_events: HashMap<u32, EnforceDomainEvent>,
    any_process_wide_enforcement: bool,
}

/// The view of an optional captured string.
pub open spec fn optional_string_view(value: Option<CapturedString>) -> Option<CapturedStringView> {
    match value {
        Some(s) => Some(s@),
        None => None,
    }
}

/// The view of an optional versioned ruleset reference.
pub open spec fn optional_ruleset_view(value: Option<RulesetVersion>) -> Option<(RulesetId, u32)> {
    match value {
        Some(r) => Some(r@),
        None => None,
    }
}

impl View for DomainState {
    type V = DomainView;

    closed spec fn view(&self) -> DomainView {
        DomainView {
            id: self.id,
            lifecycle: self.lifecycle,
            creation_timestamp: self.creation_timestamp,
            parent: self.parent,
            creator_tgid: self.creator_tgid,
            creator_comm: optional_string_view(self.creator_comm),
            ruleset: optional_ruleset_view(self.ruleset),
            cumulative_denial_count: self.cumulative_denial_count,
            final_denial_count: self.final_denial_count,
            free_timestamp: self.free_timestamp,
            enforcement_events: enforcement_views(self.enforcement_events@),
            any_process_wide_enforcement: self.any_process_wide_enforcement,
        }
    }
}

impl DomainState {
    fn unknown(id: DomainId) -> (state: Self)
        ensures
            state@ == DomainView::unknown(id),
    {
        let state = DomainState {
            id,
            lifecycle: LifecycleState::Unknown,
            creation_timestamp: None,
            parent: None,
            creator_tgid: None,
            creator_comm: None,
            ruleset: None,
            cumulative_denial_count: None,
            final_denial_count: None,
            free_timestamp: None,
            enforcement_events: HashMap::new(),
            any_process_wide_enforcement: false,
        };
        assert(state@.enforcement_events =~= Map::empty());
        state
    }

    fn mark_allocated(&mut self)
        ensures
            final(self)@ == old(self)@.marked_allocated(),
    {
        if self.lifecycle == LifecycleState::Unknown {
            self.lifecycle = LifecycleState::Allocated;
        }
    }

    fn apply_create(&mut self, event: &CreateDomainEvent)
        ensures
            final(self)@ == old(self)@.created(event@),
    {
        self.mark_allocated();
        update_max_u64(&mut self.cumulative_denial_count, 0);
        let replace = match self.creation_timestamp {
            None => true,
            Some(timestamp) => timestamp_value(event.timestamp()) >= timestamp_value(timestamp),
        };
        if replace {
            self.creation_timestamp = Some(event.timestamp());
            self.parent = Some(
                match event.parent_id() {
                    Some(id) => DomainParent::Domain(id),
                    None => DomainParent::Root,
                },
            );
            self.creator_tgid = Some(event.creator_tgid());
            self.creator_comm = Some(event.creator_comm().clone());
            self.ruleset = Some(RulesetVersion::new(event.ruleset_id(), event.ruleset_version()));
        }
    }

    fn apply_denial_facts(&mut self, hierarchy: &HierarchySnapshot, count: u64)
        ensures
            final(self)@ == old(self)@.denied(hierarchy@, count),
    {
        self.mark_allocated();
        if self.parent.is_none() {
            self.parent = Some(
                match hierarchy.parent_id() {
                    Some(id) => DomainParent::Domain(id),
                    None => DomainParent::Root,
                },
            );
        }
        if self.creator_tgid.is_none() && self.creator_comm.is_none()
            && hierarchy.creator_tgid() != 0 && hierarchy.creator_comm().as_bytes().len() != 0 {
            self.creator_tgid = Some(hierarchy.creator_tgid());
            self.creator_comm = Some(hierarchy.creator_comm().clone());
        }
        update_max_u64(&mut self.cumulative_denial_count, count);
    }

    fn apply_free(&mut self, event: &FreeDomainEvent)
        ensures
            final(self)@ == old(self)@.freed(event@),
    {
        self.lifecycle = LifecycleState::Deallocated;
        update_latest_timestamp(&mut self.free_timestamp, event.timestamp());
        update_max_u64(&mut self.final_denial_count, event.denial_count());
        update_max_u64(&mut self.cumulative_denial_count, event.denial_count());
    }

    fn apply_enforcement(&mut self, event: &EnforceDomainEvent)
        ensures
            final(self)@ == old(self)@.enforced(event@),
    {
        self.mark_allocated();
        let ghost marked = self@;
        self.any_process_wide_enforcement = self.any_process_wide_enforcement || event.process_wide();
        let tid = event.enforcing_tid();
        let selected = match self.enforcement_events.remove(&tid) {
            Some(current) => {
                if timestamp_value(event.timestamp()) >= timestamp_value(current.timestamp()) {
                    event.clone()
                } else {
                    current
                }
            },
            None => event.clone(),
        };
        self.enforcement_events.insert(tid, selected);
        assert(self@.enforcement_events =~= marked.enforced(event@).enforcement_events);
    }

    /// Returns the domain identity.
    pub fn domain_id(&self) -> (id: DomainId)
        ensures
            id == self@.id,
    {
        self.id
    }

    /// Returns the strongest observed lifecycle fact.
    pub fn lifecycle(&self) -> (lifecycle: LifecycleState)
        ensures
            lifecycle == self@.lifecycle,
    {
        self.lifecycle
    }

    /// Returns the latest observed creation-event timestamp, if one was seen.
    pub fn creation_timestamp(&self) -> (timestamp: Option<KernelTimestamp>)
        ensures
            timestamp == self@.creation_timestamp,
    {
        self.creation_timestamp
    }

    /// Returns explicit parent knowledge.
    ///
    /// `None` means parentage is unknown, [`DomainParent::Root`] is a known
    /// null parent, and [`DomainParent::Domain`] identifies a known parent.
    pub fn parent(&self) -> (parent: Option<DomainParent>)
        ensures
            parent == self@.parent,
    {
        self.parent
    }

    /// Returns the creator thread-group ID when known.
    pub fn creator_tgid(&self) -> (tgid: Option<u32>)
        ensures
            tgid == self@.creator_tgid,
    {
        self.creator_tgid
    }

    /// Returns the captured creator command when known.
    pub fn creator_comm(&self) -> (comm: Option<&CapturedString>)
        ensures
            match comm {
                Some(comm) => self@.creator_comm == Some(comm@),
                None => self@.creator_comm is None,
            },
    {
        self.creator_comm.as_ref()
    }

    /// Returns the ruleset identity and version frozen into this domain, if known.
    pub fn ruleset(&self) -> (ruleset: Option<RulesetVersion>)
        ensures
            optional_ruleset_view(ruleset) == self@.ruleset,
    {
        self.ruleset
    }

    /// Returns the greatest observed kernel cumulative denial count, if known.
    pub fn cumulative_denial_count(&self) -> (count: Option<u64>)
        ensures
            count == self@.cumulative_denial_count,
    {
        self.cumulative_denial_count
    }

    /// Returns the greatest final denial count reported by a free event, if any.
    pub fn final_denial_count(&self) -> (count: Option<u64>)
        ensures
            count == self@.final_denial_count,
    {
        self.final_denial_count
    }

    /// Returns the latest observed free-event timestamp, if one was seen.
    pub fn free_timestamp(&self) -> (timestamp: Option<KernelTimestamp>)
        ensures
            timestamp == self@.free_timestamp,
    {
        self.free_timestamp
    }

    /// Looks up the selected enforcement event for a thread.
    ///
    /// The greatest timestamp wins for each numeric TID; equal timestamps use
    /// the event applied last. This is not a live-thread census.
    pub fn enforcement_event(&self, enforcing_tid: u32) -> (event: Option<&EnforceDomainEvent>)
        ensures
            match event {
                Some(event) => self@.enforcement_events.contains_key(enforcing_tid)
                    && event@ == self@.enforcement_events[enforcing_tid],
                None => !self@.enforcement_events.contains_key(enforcing_tid),
            },
    {
        self.enforcement_events.get(&enforcing_tid)
    }

    /// Returns the selected per-thread enforcement events in unspecified order.
    ///
    /// Per-TID selection follows [`Self::enforcement_event()`].
    pub fn enforcement_events(&self) -> (events: Vec<&EnforceDomainEvent>)
        ensures
            lists_values(events@.map_values(|event: &EnforceDomainEvent| event@), self@.enforcement_events),
    {
        let events = values_of(&self.enforcement_events);
        proof {
            let items = events@.map_values(|event: &EnforceDomainEvent| *event);
            let views = events@.map_values(|event: &EnforceDomainEvent| event@);
            let map = self.enforcement_events@;
            assert forall|i: int| 0 <= i < views.len() implies #[trigger] self@.enforcement_events.values().contains(views[i]) by {
                assert(map.values().contains(items[i]));
                let key = choose|key: u32| map.contains_key(key) && map[key] == items[i];
                assert(self@.enforcement_events.contains_key(key));
                assert(self@.enforcement_events[key] == views[i]);
            }
            assert forall|v: EnforceDomainEventView| #[trigger] self@.enforcement_events.values().contains(v) implies views.contains(v) by {
                let key = choose|key: u32| self@.enforcement_events.contains_key(key) && self@.enforcement_events[key] == v;
                assert(map.values().contains(map[key]));
                let i = choose|i: int| 0 <= i < items.len() && items[i] == map[key];
                assert(views[i] == v);
            }
            assert(self@.enforcement_events.dom() =~= map.dom());
        }
        events
    }

    /// Returns the number of thread IDs with a selected enforcement event.
    ///
    /// This is an observed-key count, not a domain thread count.
    pub fn enforcement_event_count(&self) -> (count: usize)
        ensures
            count == self@.enforcement_events.dom().len(),
            self@.enforcement_events.dom().finite(),
    {
        broadcast use vstd::std_specs::hash::axiom_hashmap_view_finite_dom;
        assert(self@.enforcement_events.dom() =~= self.enforcement_events@.dom());
        self.enforcement_events.len()
    }

    /// Returns the weakest observed latest-per-thread `no_new_privs` fact.
    ///
    /// `None` means no enforcement was observed. Once observations exist,
    /// `Some(true)` means every latest per-TID observation had `no_new_privs`
    /// set, while one latest observation without it yields `Some(false)`.
    /// Observed TIDs are not a live-thread census.
    pub fn no_new_privs(&self) -> (no_new_privs: Option<bool>)
        ensures
            no_new_privs == self@.no_new_privs(),
            no_new_privs is None <==> self@.enforcement_events.dom().len() == 0,
    {
        broadcast use vstd::std_specs::hash::axiom_hashmap_view_finite_dom;
        let ghost map = self@.enforcement_events;
        assert(map.dom() =~= self.enforcement_events@.dom());
        if self.enforcement_events.is_empty() {
            assert(map.dom().is_empty());
            return None;
        }
        let events = values_of(&self.enforcement_events);
        let mut all = true;
        let mut index: usize = 0;
        while index < events.len()
            invariant
                index <= events@.len(),
                lists_values(events@.map_values(|event: &EnforceDomainEvent| *event), self.enforcement_events@),
                all == (forall|i: int| 0 <= i < index ==> (#[trigger] events@[i])@.no_new_privs),
            decreases events@.len() - index,
        {
            all = all && events[index].no_new_privs();
            index = index + 1;
        }
        proof {
            let items = events@.map_values(|event: &EnforceDomainEvent| *event);
            let stored = self.enforcement_events@;
            if all {
                assert forall|tid: u32| #[trigger] map.contains_key(tid) implies map[tid].no_new_privs by {
                    assert(stored.values().contains(stored[tid]));
                    let i = choose|i: int| 0 <= i < items.len() && items[i] == stored[tid];
                    assert(events@[i]@.no_new_privs);
                }
            } else {
                let i = choose|i: int| 0 <= i < index && !(#[trigger] events@[i])@.no_new_privs;
                assert(stored.values().contains(items[i]));
                let tid = choose|tid: u32| stored.contains_key(tid) && stored[tid] == items[i];
                assert(map.contains_key(tid) && !map[tid].no_new_privs);
            }
            assert(!map.dom().is_empty()) by {
                assert(!self.enforcement_events@.is_empty());
            }
        }
        Some(all)
    }

    /// Returns whether any observed enforcement event was process-wide.
    pub fn any_process_wide_enforcement(&self) -> (any: bool)
        ensures
            any == self@.any_process_wide_enforcement,
    {
        self.any_process_wide_enforcement
    }
}

/// Partial ruleset and domain state reconstructed from an event stream.
///
/// State preserves incomplete knowledge and monotonic facts. It does not retain
/// or aggregate individual denial entries; consumers that need chronology must
/// keep the original [`Event`] values.
///
/// # Memory use
///
/// `State` currently has no capacity or eviction policy. It retains
/// reconstructed rulesets, domains, and rules, plus one enforcement event per
/// observed TID in each domain, until it is dropped.
#[derive(Debug)]
#[non_exhaustive]
pub struct State {
    rulesets: HashMap<u64, RulesetState>,
    domains: HashMap<u64, DomainState>,
}

impl View for State {
    type V = StateView;

    closed spec fn view(&self) -> StateView {
        StateView { rulesets: ruleset_views(self.rulesets@), domains: domain_views(self.domains@) }
    }
}

impl State {
    /// Creates empty reconstructed state.
    pub fn new() -> (state: Self)
        ensures
            state@ == StateView::empty(),
            state@.rulesets.dom().finite(),
            state@.domains.dom().finite(),
    {
        let state = State { rulesets: HashMap::new(), domains: HashMap::new() };
        assert(state@.rulesets =~= Map::empty());
        assert(state@.domains =~= Map::empty());
        assert(state@.rulesets.dom() =~= Set::empty());
        assert(state@.domains.dom() =~= Set::empty());
        state
    }

    /// Removes and returns the ruleset `id`, or an unknown one when absent.
    fn take_ruleset(&mut self, id: RulesetId) -> (ruleset: RulesetState)
        ensures
            ruleset@ == old(self)@.ruleset_or_unknown(id),
            final(self)@ == (StateView { rulesets: old(self)@.rulesets.remove(id@), ..old(self)@ }),
    {
        let ghost before = self@;
        let ruleset = match self.rulesets.remove(&id.get()) {
            Some(ruleset) => ruleset,
            None => RulesetState::unknown(id),
        };
        assert(self@.rulesets =~= before.rulesets.remove(id@));
        ruleset
    }

    /// Records `ruleset` under `id`.
    fn put_ruleset(&mut self, id: RulesetId, ruleset: RulesetState)
        ensures
            final(self)@ == old(self)@.with_ruleset(id, ruleset@),
    {
        let ghost before = self@;
        self.rulesets.insert(id.get(), ruleset);
        assert(self@.rulesets =~= before.with_ruleset(id, ruleset@).rulesets);
    }

    /// Removes and returns the domain `id`, or an unknown one when absent.
    fn take_domain(&mut self, id: DomainId) -> (domain: DomainState)
        ensures
            domain@ == old(self)@.domain_or_unknown(id),
            final(self)@ == (StateView { domains: old(self)@.domains.remove(id@), ..old(self)@ }),
    {
        let ghost before = self@;
        let domain = match self.domains.remove(&id.get()) {
            Some(domain) => domain,
            None => DomainState::unknown(id),
        };
        assert(self@.domains =~= before.domains.remove(id@));
        domain
    }

    /// Records `domain` under `id`.
    fn put_domain(&mut self, id: DomainId, domain: DomainState)
        ensures
            final(self)@ == old(self)@.with_domain(id, domain@),
    {
        let ghost before = self@;
        self.domains.insert(id.get(), domain);
        assert(self@.domains =~= before.with_domain(id, domain@).domains);
    }

    /// Makes `id` at least an unknown placeholder domain.
    fn ensure_domain(&mut self, id: DomainId)
        ensures
            final(self)@ == old(self)@.with_placeholder(id),
    {
        let ghost before = self@;
        if !self.domains.contains_key(&id.get()) {
            self.domains.insert(id.get(), DomainState::unknown(id));
            assert(self@.domains =~= before.with_placeholder(id).domains);
        } else {
            assert(before.domains.contains_key(id@));
        }
    }

    /// Applies one semantic observation.
    ///
    /// Applying an unknown event has no effect. Updates are infallible and
    /// retain stronger facts already learned from other event orderings.
    pub fn apply(&mut self, event: &Event)
        ensures
            final(self)@ == old(self)@.apply(event@),
            final(self)@.rulesets.dom().finite(),
            final(self)@.domains.dom().finite(),
    {
        match event {
            Event::CreateRuleset(event) => self.apply_ruleset_creation(event),
            Event::AddRuleFs(event) => self.apply_filesystem_rule(event),
            Event::AddRuleNet(event) => self.apply_network_rule(event),
            Event::CreateDomain(event) => self.apply_domain_creation(event),
            Event::DenyAccessFs(event) => {
                self.apply_denial(event.context(), None);
            },
            Event::DenyAccessNet(event) => {
                self.apply_denial(event.context(), None);
            },
            Event::DenyPtrace(event) => {
                self.apply_denial(event.context(), Some(event.tracee_domain()));
            },
            Event::DenyScopeSignal(event) => {
                self.apply_denial(event.context(), Some(event.target_domain()));
            },
            Event::DenyScopeAbstractUnixSocket(event) => {
                self.apply_denial(event.context(), Some(event.peer_domain()));
            },
            Event::FreeDomain(event) => self.apply_domain_free(event),
            Event::FreeRuleset(event) => self.apply_ruleset_free(event),
            Event::EnforceDomain(event) => self.apply_enforcement(event),
            Event::Unknown(_) => {},
        }
        proof {
            assert(self@.rulesets.dom() =~= self.rulesets@.dom());
            assert(self@.domains.dom() =~= self.domains@.dom());
        }
    }

    fn apply_ruleset_creation(&mut self, event: &CreateRulesetEvent)
        ensures
            final(self)@ == old(self)@.apply(EventView::CreateRuleset(event@)),
    {
        let ghost before = self@;
        let mut state = self.take_ruleset(event.ruleset_id());
        state.apply_create(event);
        self.put_ruleset(event.ruleset_id(), state);
        assert(self@ =~= before.apply(EventView::CreateRuleset(event@)));
    }

    fn apply_filesystem_rule(&mut self, event: &AddRuleFsEvent)
        ensures
            final(self)@ == old(self)@.apply(EventView::AddRuleFs(event@)),
    {
        let ghost before = self@;
        let mut state = self.take_ruleset(event.ruleset_id());
        state.add_filesystem_rule(event);
        self.put_ruleset(event.ruleset_id(), state);
        assert(self@ =~= before.apply(EventView::AddRuleFs(event@)));
    }

    fn apply_network_rule(&mut self, event: &AddRuleNetEvent)
        ensures
            final(self)@ == old(self)@.apply(EventView::AddRuleNet(event@)),
    {
        let ghost before = self@;
        let mut state = self.take_ruleset(event.ruleset_id());
        state.add_network_rule(event);
        self.put_ruleset(event.ruleset_id(), state);
        assert(self@ =~= before.apply(EventView::AddRuleNet(event@)));
    }

    fn apply_domain_creation(&mut self, event: &CreateDomainEvent)
        ensures
            final(self)@ == old(self)@.apply(EventView::CreateDomain(event@)),
    {
        let ghost before = self@;
        let mut ruleset = self.take_ruleset(event.ruleset_id());
        ruleset.touch(event.ruleset_version());
        self.put_ruleset(event.ruleset_id(), ruleset);
        assert(self@ =~= before.with_ruleset(
            event@.ruleset_id,
            before.ruleset_or_unknown(event@.ruleset_id).touched(event@.ruleset_version),
        ));
        if let Some(parent_id) = event.parent_id() {
            self.ensure_domain(parent_id);
        }
        let ghost with_parent = self@;
        let mut state = self.take_domain(event.domain_id());
        state.apply_create(event);
        self.put_domain(event.domain_id(), state);
        assert(self@ =~= with_parent.with_domain(
            event@.domain_id,
            with_parent.domain_or_unknown(event@.domain_id).created(event@),
        ));
    }

    fn apply_domain_free(&mut self, event: &FreeDomainEvent)
        ensures
            final(self)@ == old(self)@.apply(EventView::FreeDomain(event@)),
    {
        let ghost before = self@;
        let mut state = self.take_domain(event.domain_id());
        state.apply_free(event);
        self.put_domain(event.domain_id(), state);
        assert(self@ =~= before.apply(EventView::FreeDomain(event@)));
    }

    fn apply_ruleset_free(&mut self, event: &FreeRulesetEvent)
        ensures
            final(self)@ == old(self)@.apply(EventView::FreeRuleset(event@)),
    {
        let ghost before = self@;
        let mut state = self.take_ruleset(event.ruleset_id());
        state.apply_free(event);
        self.put_ruleset(event.ruleset_id(), state);
        assert(self@ =~= before.apply(EventView::FreeRuleset(event@)));
    }

    fn apply_enforcement(&mut self, event: &EnforceDomainEvent)
        ensures
            final(self)@ == old(self)@.apply(EventView::EnforceDomain(event@)),
    {
        let ghost before = self@;
        let mut state = self.take_domain(event.domain_id());
        state.apply_enforcement(event);
        self.put_domain(event.domain_id(), state);
        assert(self@ =~= before.apply(EventView::EnforceDomain(event@)));
    }

    fn apply_denial(&mut self, context: &DenialContext, domain_membership: Option<DomainMembership>)
        ensures
            final(self)@ == old(self)@.after_denial(context@, domain_membership),
    {
        let ghost before = self@;
        let hierarchy = context.hierarchy();
        let domain_id = hierarchy.domain_id();
        let mut state = self.take_domain(domain_id);
        state.apply_denial_facts(hierarchy, context.cumulative_denial_count());
        self.put_domain(domain_id, state);
        assert(self@ =~= before.with_domain(
            domain_id,
            before.domain_or_unknown(domain_id).denied(hierarchy@, context@.cumulative_denial_count),
        ));
        if let Some(parent_id) = hierarchy.parent_id() {
            self.ensure_domain(parent_id);
        }
        if let Some(DomainMembership::Sandboxed(other_id)) = domain_membership {
            self.ensure_domain(other_id);
        }
    }

    /// Looks up reconstructed ruleset state by typed identity.
    pub fn ruleset(&self, id: RulesetId) -> (ruleset: Option<&RulesetState>)
        ensures
            match ruleset {
                Some(ruleset) => self@.rulesets.contains_key(id@) && ruleset@ == self@.rulesets[id@],
                None => !self@.rulesets.contains_key(id@),
            },
    {
        self.rulesets.get(&id.get())
    }

    /// Returns the reconstructed rulesets in unspecified order.
    pub fn rulesets(&self) -> (rulesets: Vec<&RulesetState>)
        ensures
            lists_values(rulesets@.map_values(|ruleset: &RulesetState| ruleset@), self@.rulesets),
    {
        let rulesets = values_of(&self.rulesets);
        proof {
            let items = rulesets@.map_values(|ruleset: &RulesetState| *ruleset);
            let views = rulesets@.map_values(|ruleset: &RulesetState| ruleset@);
            let map = self.rulesets@;
            assert forall|i: int| 0 <= i < views.len() implies #[trigger] self@.rulesets.values().contains(views[i]) by {
                assert(map.values().contains(items[i]));
                let key = choose|key: u64| map.contains_key(key) && map[key] == items[i];
                assert(self@.rulesets.contains_key(key));
                assert(self@.rulesets[key] == views[i]);
            }
            assert forall|v: RulesetView| #[trigger] self@.rulesets.values().contains(v) implies views.contains(v) by {
                let key = choose|key: u64| self@.rulesets.contains_key(key) && self@.rulesets[key] == v;
                assert(map.values().contains(map[key]));
                let i = choose|i: int| 0 <= i < items.len() && items[i] == map[key];
                assert(views[i] == v);
            }
            assert(self@.rulesets.dom() =~= map.dom());
        }
        rulesets
    }

    /// Returns the number of reconstructed rulesets, including tombstones.
    pub fn ruleset_count(&self) -> (count: usize)
        ensures
            count == self@.rulesets.dom().len(),
    {
        assert(self@.rulesets.dom() =~= self.rulesets@.dom());
        self.rulesets.len()
    }

    /// Looks up reconstructed domain state by typed identity.
    pub fn domain(&self, id: DomainId) -> (domain: Option<&DomainState>)
        ensures
            match domain {
                Some(domain) => self@.domains.contains_key(id@) && domain@ == self@.domains[id@],
                None => !self@.domains.contains_key(id@),
            },
    {
        self.domains.get(&id.get())
    }

    /// Returns the reconstructed domains in unspecified order.
    pub fn domains(&self) -> (domains: Vec<&DomainState>)
        ensures
            lists_values(domains@.map_values(|domain: &DomainState| domain@), self@.domains),
    {
        let domains = values_of(&self.domains);
        proof {
            let items = domains@.map_values(|domain: &DomainState| *domain);
            let views = domains@.map_values(|domain: &DomainState| domain@);
            let map = self.domains@;
            assert forall|i: int| 0 <= i < views.len() implies #[trigger] self@.domains.values().contains(views[i]) by {
                assert(map.values().contains(items[i]));
                let key = choose|key: u64| map.contains_key(key) && map[key] == items[i];
                assert(self@.domains.contains_key(key));
                assert(self@.domains[key] == views[i]);
            }
            assert forall|v: DomainView| #[trigger] self@.domains.values().contains(v) implies views.contains(v) by {
                let key = choose|key: u64| self@.domains.contains_key(key) && self@.domains[key] == v;
                assert(map.values().contains(map[key]));
                let i = choose|i: int| 0 <= i < items.len() && items[i] == map[key];
                assert(views[i] == v);
            }
            assert(self@.domains.dom() =~= map.dom());
        }
        domains
    }

    /// Returns the number of reconstructed domains, including placeholders.
    pub fn domain_count(&self) -> (count: usize)
        ensures
            count == self@.domains.dom().len(),
    {
        assert(self@.domains.dom() =~= self.domains@.dom());
        self.domains.len()
    }
}

impl Default for State {
    fn default() -> (state: Self)
        ensures
            state@ == StateView::empty(),
    {
        State::new()
    }
}

/// Returns the key of a filesystem rule target.
fn filesystem_rule_key_of(device: u32, inode: u64) -> (key: u128)
    ensures
        key == filesystem_rule_key(device, inode),
{
    (device as u128) * 0x1_0000_0000_0000_0000u128 + (inode as u128)
}

fn timestamp_value(timestamp: KernelTimestamp) -> (value: u64)
    ensures
        value == timestamp@,
{
    timestamp.as_nanoseconds()
}

fn update_latest_timestamp(current: &mut Option<KernelTimestamp>, candidate: KernelTimestamp)
    ensures
        *final(current) == latest_timestamp(*old(current), candidate),
{
    let replace = match *current {
        None => true,
        Some(value) => timestamp_value(candidate) >= timestamp_value(value),
    };
    if replace {
        *current = Some(candidate);
    }
}

fn update_max_u32(current: &mut Option<u32>, candidate: u32)
    ensures
        *final(current) == max_u32(*old(current), candidate),
{
    let replace = match *current {
        None => true,
        Some(value) => candidate >= value,
    };
    if replace {
        *current = Some(candidate);
    }
}

fn update_max_u64(current: &mut Option<u64>, candidate: u64)
    ensures
        *final(current) == max_u64(*old(current), candidate),
{
    let replace = match *current {
        None => true,
        Some(value) => candidate >= value,
    };
    if replace {
        *current = Some(candidate);
    }
}

} // verus!
