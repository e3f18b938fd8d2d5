//! The abstract model of reconstructed state and of how one observation
//! changes it.
use vstd::prelude::*;

use super::{DomainParent, LifecycleState};
use crate::event::{
    AddRuleFsEventView, AddRuleNetEventView, CapturedStringView, CreateDomainEventView,
    CreateRulesetEventView, DenialContextView, DomainId, DomainMembership, EnforceDomainEventView,
    EventView, FilesystemAccess, FreeDomainEventView, FreeRulesetEventView, HierarchySnapshotView,
    KernelTimestamp, NetworkAccess, RulesetId, ScopeAccess,
};

verus! {

/// What is known of one filesystem rule target.
#[verifier::ext_equal]
pub struct FilesystemRuleView {
    pub device: u32,
    pub inode: u64,
    /// The union of every observed allowed-access mask.
    pub access_rights: u32,
    /// The path of the latest timestamped observation.
    pub pathname: CapturedStringView,
    pub pathname_timestamp: KernelTimestamp,
}

/// What is known of one network rule target.
#[verifier::ext_equal]
pub struct NetworkRuleView {
    pub port: u64,
    /// The union of every observed allowed-access mask.
    pub access_rights: u32,
}

/// What is known of one ruleset.
#[verifier::ext_equal]
pub struct RulesetView {
    pub id: RulesetId,
    pub lifecycle: LifecycleState,
    pub creation_timestamp: Option<KernelTimestamp>,
    pub handled_fs: Option<FilesystemAccess>,
    pub handled_net: Option<NetworkAccess>,
    pub scoped: Option<ScopeAccess>,
    pub max_observed_version: Option<u32>,
    pub final_version: Option<u32>,
    pub free_timestamp: Option<KernelTimestamp>,
    /// Filesystem rules keyed by [`filesystem_rule_key`] of their target.
    pub filesystem_rules: Map<u128, FilesystemRuleView>,
    /// Network rules keyed by port.
    pub network_rules: Map<u64, NetworkRuleView>,
}

/// What is known of one domain.
#[verifier::ext_equal]
pub struct DomainView {
    pub id: DomainId,
    pub lifecycle: LifecycleState,
    pub creation_timestamp: Option<KernelTimestamp>,
    pub parent: Option<DomainParent>,
    pub creator_tgid: Option<u32>,
    pub creator_comm: Option<CapturedStringView>,
    /// The ruleset identity and version frozen into the domain.
    pub ruleset: Option<(RulesetId, u32)>,
    pub cumulative_denial_count: Option<u64>,
    pub final_denial_count: Option<u64>,
    pub free_timestamp: Option<KernelTimestamp>,
    /// The selected enforcement event of each enforcing thread ID.
    pub enforcement_events: Map<u32, EnforceDomainEventView>,
    pub any_process_wide_enforcement: bool,
}

/// What is known of every observed ruleset and domain, keyed by kernel ID.
#[verifier::ext_equal]
pub struct StateView {
    pub rulesets: Map<u64, RulesetView>,
    pub domains: Map<u64, DomainView>,
}

/// Whether `candidate` is at least as late as the current timestamp, if any.
pub open spec fn later_or_equal(candidate: KernelTimestamp, current: Option<KernelTimestamp>) -> bool {
    match current {
        None => true,
        Some(timestamp) => candidate@ >= timestamp@,
    }
}

/// The later of a known timestamp and a candidate; the candidate wins ties.
pub open spec fn latest_timestamp(
    current: Option<KernelTimestamp>,
    candidate: KernelTimestamp,
) -> Option<KernelTimestamp> {
    if later_or_equal(candidate, current) {
        Some(candidate)
    } else {
        current
    }
}

/// The greater of a known value and a candidate.
pub open spec fn max_u32(current: Option<u32>, candidate: u32) -> Option<u32> {
    match current {
        Some(value) if candidate < value => Some(value),
        _ => Some(candidate),
    }
}

/// The greater of a known value and a candidate.
pub open spec fn max_u64(current: Option<u64>, candidate: u64) -> Option<u64> {
    match current {
        Some(value) if candidate < value => Some(value),
        _ => Some(candidate),
    }
}

/// The lifecycle after an observation that proves allocation.
pub open spec fn allocated(lifecycle: LifecycleState) -> LifecycleState {
    if lifecycle == LifecycleState::Unknown {
        LifecycleState::Allocated
    } else {
        lifecycle
    }
}

/// The rank of a lifecycle fact; facts only ever move to a higher rank.
pub open spec fn lifecycle_rank(lifecycle: LifecycleState) -> nat {
    match lifecycle {
        LifecycleState::Unknown => 0,
        LifecycleState::Allocated => 1,
        LifecycleState::Deallocated => 2,
    }
}

/// The known parent described by a captured parent ID.
pub open spec fn parent_of(parent_id: Option<DomainId>) -> DomainParent {
    match parent_id {
        Some(id) => DomainParent::Domain(id),
        None => DomainParent::Root,
    }
}

/// The key of a filesystem rule target: the device in the high and the inode
/// in the low 64 bits.
pub open spec fn filesystem_rule_key(device: u32, inode: u64) -> u128 {
    (device * 0x1_0000_0000_0000_0000 + inode) as u128
}

/// The kernel IDs of the domains an event mentions: the domain it concerns,
/// its parent when one is captured, and for a task denial the other party's
/// domain when that party is sandboxed.
pub open spec fn mentioned_domains(event: EventView) -> Set<u64> {
    match event {
        EventView::CreateDomain(e) => with_optional(set![e.domain_id@], e.parent_id),
        EventView::FreeDomain(e) => set![e.domain_id@],
        EventView::EnforceDomain(e) => set![e.domain_id@],
        EventView::DenyAccessFs(e) => denial_domains(e.context, None),
        EventView::DenyAccessNet(e) => denial_domains(e.context, None),
        EventView::DenyPtrace(e) => denial_domains(e.context, Some(e.tracee_domain)),
        EventView::DenyScopeSignal(e) => denial_domains(e.context, Some(e.target_domain)),
        EventView::DenyScopeAbstractUnixSocket(e) => denial_domains(e.context, Some(e.peer_domain)),
        _ => Set::empty(),
    }
}

/// `ids` with the ID of `id`, when there is one.
pub open spec fn with_optional(ids: Set<u64>, id: Option<DomainId>) -> Set<u64> {
    match id {
        Some(id) => ids.insert(id@),
        None => ids,
    }
}

/// The denying domain, its captured parent and a sandboxed other party.
pub open spec fn denial_domains(context: DenialContextView, membership: Option<DomainMembership>) -> Set<u64> {
    let with_parent = with_optional(set![context.hierarchy.domain_id@], context.hierarchy.parent_id);
    match membership {
        Some(DomainMembership::Sandboxed(other)) => with_parent.insert(other@),
        _ => with_parent,
    }
}

impl FilesystemRuleView {
    /// The rule known from a single observation.
    pub open spec fn observed(event: AddRuleFsEventView) -> Self {
        FilesystemRuleView {
            device: event.device,
            inode: event.inode,
            access_rights: event.access_rights@,
            pathname: event.pathname,
            pathname_timestamp: event.timestamp,
        }
    }

    /// The rule after one more observation of its target: the allowed
    /// accesses are united and the path follows the latest timestamp.
    pub open spec fn merged(self, event: AddRuleFsEventView) -> Self {
        let access_rights = self.access_rights | event.access_rights@;
        if event.timestamp@ >= self.pathname_timestamp@ {
            FilesystemRuleView {
                access_rights,
                pathname: event.pathname,
                pathname_timestamp: event.timestamp,
                ..self
            }
        } else {
            FilesystemRuleView { access_rights, ..self }
        }
    }
}

impl NetworkRuleView {
    /// The rule known from a single observation.
    pub open spec fn observed(event: AddRuleNetEventView) -> Self {
        NetworkRuleView { port: event.port, access_rights: event.access_rights@ }
    }

    /// The rule after one more observation of its port.
    pub open spec fn merged(self, event: AddRuleNetEventView) -> Self {
        NetworkRuleView { access_rights: self.access_rights | event.access_rights@, ..self }
    }
}

impl RulesetView {
    /// A ruleset of which nothing but its identity is known.
    pub open spec fn unknown(id: RulesetId) -> Self {
        RulesetView {
            id,
            lifecycle: LifecycleState::Unknown,
            creation_timestamp: None,
            handled_fs: None,
            handled_net: None,
            scoped: None,
            max_observed_version: None,
            final_version: None,
            free_timestamp: None,
            filesystem_rules: Map::empty(),
            network_rules: Map::empty(),
        }
    }

    /// The ruleset after an observation of its use at `version`.
    pub open spec fn touched(self, version: u32) -> Self {
        RulesetView {
            lifecycle: allocated(self.lifecycle),
            max_observed_version: max_u32(self.max_observed_version, version),
            ..self
        }
    }

    /// The ruleset after its creation event; creation facts follow the
    /// latest creation timestamp.
    pub open spec fn created(self, event: CreateRulesetEventView) -> Self {
        let touched = self.touched(event.ruleset_version);
        if later_or_equal(event.timestamp, touched.creation_timestamp) {
            RulesetView {
                creation_timestamp: Some(event.timestamp),
                handled_fs: Some(event.handled_fs),
                handled_net: Some(event.handled_net),
                scoped: Some(event.scoped),
                ..touched
            }
        } else {
            touched
        }
    }

    /// The ruleset after a filesystem rule addition.
    pub open spec fn with_filesystem_rule(self, event: AddRuleFsEventView) -> Self {
        let touched = self.touched(event.ruleset_version);
        let key = filesystem_rule_key(event.device, event.inode);
        let rule = if touched.filesystem_rules.contains_key(key) {
            touched.filesystem_rules[key].merged(event)
        } else {
            FilesystemRuleView::observed(event)
        };
        RulesetView { filesystem_rules: touched.filesystem_rules.insert(key, rule), ..touched }
    }

    /// The ruleset after a network rule addition.
    pub open spec fn with_network_rule(self, event: AddRuleNetEventView) -> Self {
        let touched = self.touched(event.ruleset_version);
        let rule = if touched.network_rules.contains_key(event.port) {
            touched.network_rules[event.port].merged(event)
        } else {
            NetworkRuleView::observed(event)
        };
        RulesetView { network_rules: touched.network_rules.insert(event.port, rule), ..touched }
    }

    /// The ruleset after its deallocation event.
    pub open spec fn freed(self, event: FreeRulesetEventView) -> Self {
        RulesetView {
            lifecycle: LifecycleState::Deallocated,
            free_timestamp: latest_timestamp(self.free_timestamp, event.timestamp),
            final_version: max_u32(self.final_version, event.ruleset_version),
            max_observed_version: max_u32(self.max_observed_version, event.ruleset_version),
            ..self
        }
    }
}

impl DomainView {
    /// A domain of which nothing but its identity is known.
    pub open spec fn unknown(id: DomainId) -> Self {
        DomainView {
            id,
            lifecycle: LifecycleState::Unknown,
            creation_timestamp: None,
            parent: None,
            creator_tgid: None,
            creator_comm: None,
            ruleset: None,
            cumulative_denial_count: None,
            final_denial_count: None,
            free_timestamp: None,
            enforcement_events: Map::empty(),
            any_process_wide_enforcement: false,
        }
    }

    /// The domain after an observation that proves its allocation.
    pub open spec fn marked_allocated(self) -> Self {
        DomainView { lifecycle: allocated(self.lifecycle), ..self }
    }

    /// The domain after its creation event; creation facts follow the latest
    /// creation timestamp, and a created domain has at least zero denials.
    pub open spec fn created(self, event: CreateDomainEventView) -> Self {
        let base = DomainView {
            cumulative_denial_count: max_u64(self.cumulative_denial_count, 0),
            ..self.marked_allocated()
        };
        if later_or_equal(event.timestamp, base.creation_timestamp) {
            DomainView {
                creation_timestamp: Some(event.timestamp),
                parent: Some(parent_of(event.parent_id)),
                creator_tgid: Some(event.creator_tgid),
                creator_comm: Some(event.creator_comm),
                ruleset: Some((event.ruleset_id, event.ruleset_version)),
                ..base
            }
        } else {
            base
        }
    }

    /// Whether a denial's hierarchy snapshot names its creator: a nonzero
    /// thread-group ID together with a nonempty command.
    pub open spec fn names_creator(hierarchy: HierarchySnapshotView) -> bool {
        hierarchy.creator_tgid != 0 && hierarchy.creator_comm.bytes.len() > 0
    }

    /// The denying domain after a denial: allocation, parentage and the
    /// creator are inferred when still unknown, and the cumulative count
    /// keeps its maximum.
    pub open spec fn denied(self, hierarchy: HierarchySnapshotView, count: u64) -> Self {
        let parent = if self.parent is None {
            Some(parent_of(hierarchy.parent_id))
        } else {
            self.parent
        };
        let infer_creator = self.creator_tgid is None && self.creator_comm is None
            && Self::names_creator(hierarchy);
        DomainView {
            lifecycle: allocated(self.lifecycle),
            parent,
            creator_tgid: if infer_creator { Some(hierarchy.creator_tgid) } else { self.creator_tgid },
            creator_comm: if infer_creator { Some(hierarchy.creator_comm) } else { self.creator_comm },
            cumulative_denial_count: max_u64(self.cumulative_denial_count, count),
            ..self
        }
    }

    /// The domain after its deallocation event.
    pub open spec fn freed(self, event: FreeDomainEventView) -> Self {
        DomainView {
            lifecycle: LifecycleState::Deallocated,
            free_timestamp: latest_timestamp(self.free_timestamp, event.timestamp),
            final_denial_count: max_u64(self.final_denial_count, event.denial_count),
            cumulative_denial_count: max_u64(self.cumulative_denial_count, event.denial_count),
            ..self
        }
    }

    /// The domain after an enforcement event: each thread keeps the event with
    /// the greatest timestamp, the latest applied winning ties.
    pub open spec fn enforced(self, event: EnforceDomainEventView) -> Self {
        let tid = event.enforcing_tid;
        let events = if self.enforcement_events.contains_key(tid)
            && event.timestamp@ < self.enforcement_events[tid].timestamp@ {
            self.enforcement_events
        } else {
            self.enforcement_events.insert(tid, event)
        };
        DomainView {
            lifecycle: allocated(self.lifecycle),
            any_process_wide_enforcement: self.any_process_wide_enforcement || event.process_wide,
            enforcement_events: events,
            ..self
        }
    }

    /// The weakest selected per-thread `no_new_privs` fact, or `None` when no
    /// enforcement was observed.
    pub open spec fn no_new_privs(self) -> Option<bool> {
        if self.enforcement_events.dom().is_empty() {
            None
        } else {
            Some(
                forall|tid: u32| #[trigger]
                    self.enforcement_events.contains_key(tid)
                        ==> self.enforcement_events[tid].no_new_privs,
            )
        }
    }
}

impl StateView {
    /// The state before any observation.
    pub open spec fn empty() -> Self {
        StateView { rulesets: Map::empty(), domains: Map::empty() }
    }

    /// The known ruleset with identity `id`, or an unknown one.
    pub open spec fn ruleset_or_unknown(self, id: RulesetId) -> RulesetView {
        if self.rulesets.contains_key(id@) {
            self.rulesets[id@]
        } else {
            RulesetView::unknown(id)
        }
    }

    /// The known domain with identity `id`, or an unknown one.
    pub open spec fn domain_or_unknown(self, id: DomainId) -> DomainView {
        if self.domains.contains_key(id@) {
            self.domains[id@]
        } else {
            DomainView::unknown(id)
        }
    }

    /// The state with `ruleset` recorded under `id`.
    pub open spec fn with_ruleset(self, id: RulesetId, ruleset: RulesetView) -> Self {
        StateView { rulesets: self.rulesets.insert(id@, ruleset), ..self }
    }

    /// The state with `domain` recorded under `id`.
    pub open spec fn with_domain(self, id: DomainId, domain: DomainView) -> Self {
        StateView { domains: self.domains.insert(id@, domain), ..self }
    }

    /// The state where `id` is at least an unknown placeholder domain.
    pub open spec fn with_placeholder(self, id: DomainId) -> Self {
        if self.domains.contains_key(id@) {
            self
        } else {
            self.with_domain(id, DomainView::unknown(id))
        }
    }

    /// The state after a denial's shared facts: the denying domain learns
    /// from the snapshot, and its parent and a sandboxed other party become
    /// at least placeholders.
    pub open spec fn after_denial(
        self,
        context: DenialContextView,
        membership: Option<DomainMembership>,
    ) -> Self {
        let hierarchy = context.hierarchy;
        let id = hierarchy.domain_id;
        let denied = self.with_domain(
            id,
            self.domain_or_unknown(id).denied(hierarchy, context.cumulative_denial_count),
        );
        let with_parent = match hierarchy.parent_id {
            Some(parent) => denied.with_placeholder(parent),
            None => denied,
        };
        match membership {
            Some(DomainMembership::Sandboxed(other)) => with_parent.with_placeholder(other),
            _ => with_parent,
        }
    }

    /// The state after applying one observation.
    pub open spec fn apply(self, event: EventView) -> Self {
        match event {
            EventView::CreateRuleset(e) => self.with_ruleset(
                e.ruleset_id,
                self.ruleset_or_unknown(e.ruleset_id).created(e),
            ),
            EventView::AddRuleFs(e) => self.with_ruleset(
                e.ruleset_id,
                self.ruleset_or_unknown(e.ruleset_id).with_filesystem_rule(e),
            ),
            EventView::AddRuleNet(e) => self.with_ruleset(
                e.ruleset_id,
                self.ruleset_or_unknown(e.ruleset_id).with_network_rule(e),
            ),
            EventView::CreateDomain(e) => {
                let with_ruleset = self.with_ruleset(
                    e.ruleset_id,
                    self.ruleset_or_unknown(e.ruleset_id).touched(e.ruleset_version),
                );
                let with_parent = match e.parent_id {
                    Some(parent) => with_ruleset.with_placeholder(parent),
                    None => with_ruleset,
                };
                with_parent.with_domain(
                    e.domain_id,
                    with_parent.domain_or_unknown(e.domain_id).created(e),
                )
            },
            EventView::DenyAccessFs(e) => self.after_denial(e.context, None),
            EventView::DenyAccessNet(e) => self.after_denial(e.context, None),
            EventView::DenyPtrace(e) => self.after_denial(e.context, Some(e.tracee_domain)),
            EventView::DenyScopeSignal(e) => self.after_denial(e.context, Some(e.target_domain)),
            EventView::DenyScopeAbstractUnixSocket(e) => self.after_denial(
                e.context,
                Some(e.peer_domain),
            ),
            EventView::FreeDomain(e) => self.with_domain(
                e.domain_id,
                self.domain_or_unknown(e.domain_id).freed(e),
            ),
            EventView::FreeRuleset(e) => self.with_ruleset(
                e.ruleset_id,
                self.ruleset_or_unknown(e.ruleset_id).freed(e),
            ),
            EventView::EnforceDomain(e) => self.with_domain(
                e.domain_id,
                self.domain_or_unknown(e.domain_id).enforced(e),
            ),
            EventView::Unknown(_) => self,
        }
    }
}

} // verus!
